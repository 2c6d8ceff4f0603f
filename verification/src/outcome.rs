//! The outcome evaluator's mathematical model: the candidate winning lines
//! of a square board, the winner of a line, the first winning line in the
//! fixed evaluation order (rows ascending, columns ascending, main
//! diagonal, anti-diagonal), and the outcome derived from board contents.

use vstd::prelude::*;

use crate::board::Tile;
use crate::board::TileOccupationState;
use crate::board::Player;
use crate::board::all_occupied;
use crate::board::flat_index;
use crate::coords::Indices;
use crate::coords::MAX_DIMENSION;

verus! {

/// The game's current phase. Terminal once `Draw` or `Victory`: no further
/// moves are accepted.
#[derive(Clone, Copy, Debug, PartialEq, Eq, Structural)]
pub enum GameOutcome {
    InProgress,
    Draw,
    Victory(Player),
}

/// How many candidate lines a board of the given dimension has: one per
/// row, one per column, and the two full-length diagonals.
pub open spec fn line_count(dim: int) -> int {
    2 * dim + 2
}

/// The `j`-th cell of candidate line `li`, in the fixed evaluation order:
/// lines below `dim` are rows, lines below `2 * dim` are columns, then the
/// main diagonal and the anti-diagonal.
pub open spec fn line_cell(dim: int, li: int, j: int) -> Indices {
    if li < dim {
        Indices { row: li as usize, column: j as usize }
    } else if li < 2 * dim {
        Indices { row: j as usize, column: (li - dim) as usize }
    } else if li == 2 * dim {
        Indices { row: j as usize, column: j as usize }
    } else {
        Indices { row: (dim - 1 - j) as usize, column: j as usize }
    }
}

/// The cells of candidate line `li`.
pub open spec fn line_cells(dim: int, li: int) -> Seq<Indices> {
    Seq::new(dim as nat, |j: int| line_cell(dim, li, j))
}

/// Whether a grid position lies on candidate line `li`.
pub open spec fn on_line(dim: int, li: int, ix: Indices) -> bool {
    exists|j: int| 0 <= j < dim && line_cell(dim, li, j) == ix
}

/// Whether the tile at a grid position is claimed by the given player.
pub open spec fn cell_occupied_by(tiles: Seq<Tile>, dim: int, ix: Indices, p: Player) -> bool {
    tiles[flat_index(dim, ix.row as int, ix.column as int)].occupation_state
        == TileOccupationState::Occupied(p)
}

/// Whether one player claims every listed cell.
pub open spec fn cells_owner(tiles: Seq<Tile>, dim: int, cells: Seq<Indices>, p: Player) -> bool {
    forall|j: int| 0 <= j < cells.len() ==> cell_occupied_by(tiles, dim, #[trigger] cells[j], p)
}

/// The player claiming every listed cell, or `None` where some cell is
/// empty or two cells are claimed by different players.
pub open spec fn cells_winner(tiles: Seq<Tile>, dim: int, cells: Seq<Indices>) -> Option<Player> {
    if cells.len() == 0 {
        None
    } else {
        match tiles[flat_index(dim, cells[0].row as int, cells[0].column as int)].occupation_state {
            TileOccupationState::Occupied(p) => if cells_owner(tiles, dim, cells, p) {
                Some(p)
            } else {
                None
            },
            TileOccupationState::Empty => None,
        }
    }
}

/// The winner of candidate line `li`, if any.
pub open spec fn line_winner(tiles: Seq<Tile>, dim: int, li: int) -> Option<Player> {
    cells_winner(tiles, dim, line_cells(dim, li))
}

/// The first candidate line at or after `li` that has a winner.
pub open spec fn first_winning_line_from(tiles: Seq<Tile>, dim: int, li: int) -> Option<int>
    decreases line_count(dim) - li,
{
    if li >= line_count(dim) {
        None
    } else if line_winner(tiles, dim, li) is Some {
        Some(li)
    } else {
        first_winning_line_from(tiles, dim, li + 1)
    }
}

/// The first candidate line, in evaluation order, that has a winner.
pub open spec fn first_winning_line(tiles: Seq<Tile>, dim: int) -> Option<int> {
    first_winning_line_from(tiles, dim, 0)
}

/// The outcome derived from board contents: a victory for the winner of
/// the first winning line; otherwise a draw on a full board; otherwise the
/// current outcome, unchanged.
pub open spec fn evaluate_outcome(
    tiles: Seq<Tile>,
    dim: int,
    current: GameOutcome,
) -> GameOutcome {
    match first_winning_line(tiles, dim) {
        Some(li) => GameOutcome::Victory(line_winner(tiles, dim, li)->Some_0),
        None => if all_occupied(tiles) {
            GameOutcome::Draw
        } else {
            current
        },
    }
}

/// Every cell of a candidate line lies on the board.
pub proof fn lemma_line_cell_in_bounds(dim: int, li: int, j: int)
    requires
        1 <= dim <= MAX_DIMENSION,
        0 <= li < line_count(dim),
        0 <= j < dim,
    ensures
        line_cell(dim, li, j).row < dim,
        line_cell(dim, li, j).column < dim,
{
}

/// A line scan that found a winner at `li`, having found none earlier,
/// found the first winning line.
pub proof fn lemma_first_winning_line_found(tiles: Seq<Tile>, dim: int, a: int, li: int)
    requires
        0 <= a <= li < line_count(dim),
        forall|lj: int| a <= lj < li ==> line_winner(tiles, dim, lj) is None,
        line_winner(tiles, dim, li) is Some,
    ensures
        first_winning_line_from(tiles, dim, a) == Some(li),
    decreases li - a,
{
    if a < li {
        lemma_first_winning_line_found(tiles, dim, a + 1, li);
    }
}

/// A line scan that found no winner anywhere finds no first winning line.
pub proof fn lemma_first_winning_line_none(tiles: Seq<Tile>, dim: int, a: int)
    requires
        forall|lj: int| a <= lj < line_count(dim) ==> line_winner(tiles, dim, lj) is None,
    ensures
        first_winning_line_from(tiles, dim, a) is None,
    decreases line_count(dim) - a,
{
    if a < line_count(dim) {
        lemma_first_winning_line_none(tiles, dim, a + 1);
    }
}

/// Some candidate line has a winner, so a first winning line exists, no
/// later than that line.
pub proof fn lemma_first_winning_line_exists(tiles: Seq<Tile>, dim: int, a: int, li: int)
    requires
        0 <= a <= li < line_count(dim),
        line_winner(tiles, dim, li) is Some,
    ensures
        first_winning_line_from(tiles, dim, a) matches Some(w) && a <= w <= li && line_winner(
            tiles,
            dim,
            w,
        ) is Some,
    decreases li - a,
{
    if line_winner(tiles, dim, a) is None && a < li {
        lemma_first_winning_line_exists(tiles, dim, a + 1, li);
    }
}

/// Law: a board whose tiles are all claimed, with no winning line, always
/// evaluates to a draw, whatever the outcome was before.
pub proof fn lemma_full_board_without_winner_is_draw(
    tiles: Seq<Tile>,
    dim: int,
    current: GameOutcome,
)
    requires
        all_occupied(tiles),
        first_winning_line(tiles, dim) is None,
    ensures
        evaluate_outcome(tiles, dim, current) == GameOutcome::Draw,
{
}

/// Law: a candidate line every cell of which one player claims — no empty
/// cell, no opposing mark — yields a victory for that player, provided no
/// line is claimed end to end by the opponent; the first winning line then
/// also belongs to that player.
pub proof fn lemma_full_line_yields_victory(
    tiles: Seq<Tile>,
    dim: int,
    li: int,
    p: Player,
    current: GameOutcome,
)
    requires
        1 <= dim <= MAX_DIMENSION,
        0 <= li < line_count(dim),
        cells_owner(tiles, dim, line_cells(dim, li), p),
        forall|lj: int, q: Player|
            0 <= lj < line_count(dim) && line_winner(tiles, dim, lj) == Some(q) ==> q == p,
    ensures
        evaluate_outcome(tiles, dim, current) == GameOutcome::Victory(p),
        first_winning_line(tiles, dim) matches Some(w) && line_winner(tiles, dim, w) == Some(p),
{
    let cells = line_cells(dim, li);
    assert(cells[0] == line_cell(dim, li, 0));
    assert(cell_occupied_by(tiles, dim, cells[0], p));
    assert(line_winner(tiles, dim, li) == Some(p));
    lemma_first_winning_line_exists(tiles, dim, 0, li);
    let w = first_winning_line(tiles, dim)->Some_0;
    let q = line_winner(tiles, dim, w)->Some_0;
    assert(line_winner(tiles, dim, w) == Some(q));
}

} // verus!
