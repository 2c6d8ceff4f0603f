//! The game: players, board, turn counter, and outcome. It orchestrates
//! move application and turn advancement, exposing the turn-by-turn state
//! machine that an external input loop drives.

use vstd::prelude::*;

use crate::board::Board;
use crate::board::PlaceError;
use crate::board::Player;
use crate::board::Tile;
use crate::board::TileDisplayState;
use crate::board::TileOccupationState;
use crate::board::all_occupied;
use crate::board::flat_index;
use crate::board::lemma_grid_size_bounds;
use crate::board::lemma_occupied_count_bounds;
use crate::board::lemma_occupied_count_same_occupation;
use crate::board::lemma_occupied_count_update;
use crate::board::occupied_count;
use crate::board::tile_occupied;
use crate::coords::Coordinates;
use crate::coords::Indices;
use crate::coords::MAX_DIMENSION;
use crate::coords::MIN_DIMENSION;
use crate::coords::indices_of_coordinates;
use crate::outcome::GameOutcome;
use crate::parse::ParseError;
use crate::outcome::cell_occupied_by;
use crate::outcome::cells_owner;
use crate::outcome::cells_winner;
use crate::outcome::evaluate_outcome;
use crate::outcome::first_winning_line;
use crate::outcome::lemma_first_winning_line_found;
use crate::outcome::lemma_first_winning_line_none;
use crate::outcome::lemma_line_cell_in_bounds;
use crate::outcome::line_cell;
use crate::outcome::line_cells;
use crate::outcome::line_count;
use crate::outcome::line_winner;
use crate::outcome::on_line;

verus! {

/// Kind of a pending user-facing notification.
#[derive(Clone, Copy, Debug, PartialEq, Eq, Structural)]
pub enum NotificationType {
    Success,
    Info,
    Error,
}

/// What a pending notification reports. The host turns this into display
/// text; the engine records only the facts.
#[derive(Debug, PartialEq, Eq)]
pub enum NotificationMessage {
    /// The named player has won the game.
    PlayerWins(Player),
    /// The game has ended with every tile claimed and no winner.
    GameDrawn,
    /// Free text could not be parsed as coordinates; carries the trimmed
    /// original input.
    CouldNotParse(String),
    /// Coordinates that do not exist on the game board.
    CoordinatesNotFound(Coordinates),
    /// The named tile is already claimed by the named player.
    TileAlreadyOccupied(Coordinates, Player),
}

/// A pending user-facing notification, surfaced once by the host and then
/// cleared.
#[derive(Debug, PartialEq, Eq)]
pub struct Notification {
    pub message: NotificationMessage,
    pub notification_type: NotificationType,
}

/// Failure to apply a move; recoverable, the board, turn, and outcome are
/// left untouched.
#[derive(Clone, Copy, Debug, PartialEq, Eq, Structural)]
pub enum MoveError {
    /// The coordinates do not exist on the game board.
    OutOfBounds,
    /// The target tile is already claimed, by the reported player.
    TileTaken(Player),
}

/// Invalid grid dimension at construction; fatal, no game is built.
#[derive(Clone, Copy, Debug, PartialEq, Eq, Structural)]
pub struct ConfigError {
    pub dimension: usize,
}

/// The first player, who moves on every odd turn.
pub open spec fn player_one() -> Player {
    Player { number: 1u8, mark: 'X' }
}

/// The second player, who moves on every even turn.
pub open spec fn player_two() -> Player {
    Player { number: 2u8, mark: 'O' }
}

/// The board after a successful move at row-major position `ti`: that tile
/// becomes claimed and newly-created, every other tile keeps its
/// occupation with its display annotation reset to normal.
pub open spec fn board_after_move(tiles: Seq<Tile>, ti: int, p: Player) -> Seq<Tile> {
    Seq::new(
        tiles.len(),
        |i: int|
            if i == ti {
                Tile {
                    occupation_state: TileOccupationState::Occupied(p),
                    display_state: TileDisplayState::NewlyCreated,
                }
            } else {
                Tile {
                    occupation_state: tiles[i].occupation_state,
                    display_state: TileDisplayState::Normal,
                }
            },
    )
}

/// What one evaluator run does, stated over the board it reads (`tiles`)
/// and the state it leaves behind. A winning line freezes the turn, sets a
/// success notification, and annotates exactly that line's tiles; a full
/// board without a winner is a draw with an informational notification; an
/// unfinished board leaves everything untouched but the advanced turn.
/// Occupation is never changed by evaluation.
pub open spec fn evaluation_effect(
    tiles: Seq<Tile>,
    dim: int,
    pre_outcome: GameOutcome,
    pre_turn: int,
    pre_notification: Option<Notification>,
    post_tiles: Seq<Tile>,
    post_outcome: GameOutcome,
    post_turn: int,
    post_notification: Option<Notification>,
) -> bool {
    &&& post_tiles.len() == tiles.len()
    &&& forall|i: int|
        0 <= i < tiles.len() ==> #[trigger] post_tiles[i].occupation_state
            == tiles[i].occupation_state
    &&& post_outcome == evaluate_outcome(tiles, dim, pre_outcome)
    &&& match first_winning_line(tiles, dim) {
        Some(w) => {
            &&& post_turn == pre_turn
            &&& line_winner(tiles, dim, w) matches Some(p) && post_notification == Some(
                Notification {
                    message: NotificationMessage::PlayerWins(p),
                    notification_type: NotificationType::Success,
                },
            )
            &&& forall|r2: int, c2: int|
                0 <= r2 < dim && 0 <= c2 < dim ==> (#[trigger] post_tiles[flat_index(
                    dim,
                    r2,
                    c2,
                )]).display_state == if on_line(
                    dim,
                    w,
                    Indices { row: r2 as usize, column: c2 as usize },
                ) {
                    TileDisplayState::Victory
                } else {
                    tiles[flat_index(dim, r2, c2)].display_state
                }
        },
        None => {
            &&& post_tiles == tiles
            &&& if all_occupied(tiles) {
                &&& post_turn == pre_turn
                &&& post_notification == Some(
                    Notification {
                        message: NotificationMessage::GameDrawn,
                        notification_type: NotificationType::Info,
                    },
                )
            } else {
                &&& post_turn == pre_turn + 1
                &&& post_notification == pre_notification
            }
        },
    }
}

/// A two-player game on a square board.
#[derive(Debug)]
pub struct Game {
    pub players: Vec<Player>,
    pub board: Board,
    pub notification: Option<Notification>,
    pub grid_dimensions: usize,
    pub turn_number: usize,
    pub outcome: GameOutcome,
    pub winning_lines: Vec<Vec<Indices>>,
}

impl Game {
    /// The candidate winning lines are exactly those of the board's
    /// dimension, precomputed once at construction.
    pub open spec fn lines_wf(self) -> bool {
        &&& self.winning_lines@.len() == line_count(self.board.dimension as int)
        &&& forall|li: int|
            0 <= li < self.winning_lines@.len() ==> (#[trigger] self.winning_lines@[li])@
                == line_cells(self.board.dimension as int, li)
    }

    /// Well-formedness: the board is well formed, the recorded dimension
    /// matches it, exactly the two fixed players exist, the turn counter
    /// starts at one and can only have advanced once per claimed tile, and
    /// the precomputed lines match the dimension.
    pub open spec fn wf(self) -> bool {
        &&& self.board.wf()
        &&& self.grid_dimensions == self.board.dimension
        &&& self.players@.len() == 2
        &&& self.players@[0] == player_one()
        &&& self.players@[1] == player_two()
        &&& 1 <= self.turn_number
        &&& self.turn_number <= occupied_count(self.board.tiles@) + 1
        &&& self.lines_wf()
    }

    /// The player whose turn it is: the first player on odd turns, the
    /// second on even turns.
    pub open spec fn spec_current_player(self) -> Player {
        self.players@[((self.turn_number - 1) as int) % 2]
    }

    /// A fresh game: a fully empty board of the validated dimension, the
    /// two fixed players, turn one, outcome in progress, no pending
    /// notification. Fails exactly on a dimension outside the supported
    /// range.
    pub fn new(num_rows_or_columns: usize) -> (r: Result<Game, ConfigError>)
        ensures
            r is Ok <==> MIN_DIMENSION <= num_rows_or_columns <= MAX_DIMENSION,
            r matches Ok(g) ==> {
                &&& g.wf()
                &&& g.grid_dimensions == num_rows_or_columns
                &&& g.board.dimension == num_rows_or_columns
                &&& g.board.tiles@.len() == num_rows_or_columns * num_rows_or_columns
                &&& forall|i: int|
                    0 <= i < g.board.tiles@.len() ==> #[trigger] g.board.tiles@[i] == (Tile {
                        occupation_state: TileOccupationState::Empty,
                        display_state: TileDisplayState::Normal,
                    })
                &&& g.turn_number == 1
                &&& g.outcome is InProgress
                &&& g.notification is None
            },
            r matches Err(e) ==> e == (ConfigError { dimension: num_rows_or_columns }),
    {
        if num_rows_or_columns < MIN_DIMENSION || num_rows_or_columns > MAX_DIMENSION {
            return Err(ConfigError { dimension: num_rows_or_columns });
        }
        let players = vec![
            Player { number: 1, mark: 'X' },
            Player { number: 2, mark: 'O' },
        ];
        let board = Board::empty(num_rows_or_columns);
        let line_total = 2 * num_rows_or_columns + 2;
        let mut winning_lines: Vec<Vec<Indices>> = Vec::new();
        let mut li: usize = 0;
        while li < line_total
            invariant
                MIN_DIMENSION <= num_rows_or_columns <= MAX_DIMENSION,
                line_total == line_count(num_rows_or_columns as int),
                li <= line_total,
                winning_lines@.len() == li,
                forall|k: int|
                    0 <= k < li as int ==> (#[trigger] winning_lines@[k])@ == line_cells(
                        num_rows_or_columns as int,
                        k,
                    ),
            decreases line_total - li,
        {
            winning_lines.push(build_line_indices(num_rows_or_columns, li));
            li = li + 1;
        }
        let game = Game {
            players,
            board,
            notification: None,
            grid_dimensions: num_rows_or_columns,
            turn_number: 1,
            outcome: GameOutcome::InProgress,
            winning_lines,
        };
        proof {
            lemma_occupied_count_of_empty(game.board.tiles@);
        }
        Ok(game)
    }

    /// The player whose turn it is, derived from the turn counter alone.
    pub fn get_current_turn_player(&self) -> (r: Player)
        requires
            self.wf(),
        ensures
            r == self.spec_current_player(),
    {
        let turn_index = (self.turn_number - 1) % 2;
        self.players[turn_index]
    }

    /// Advances the turn counter after a successful move that left the
    /// game in progress. Such a move has just claimed a tile, so the turn
    /// number cannot exceed the claimed-tile count.
    fn advance_turn(&mut self)
        requires
            old(self).wf(),
            old(self).turn_number <= occupied_count(old(self).board.tiles@),
        ensures
            final(self).wf(),
            final(self).turn_number == old(self).turn_number + 1,
            *final(self) == (Game { turn_number: final(self).turn_number, ..*old(self) }),
    {
        proof {
            lemma_occupied_count_bounds(self.board.tiles@);
            lemma_grid_size_bounds(self.board.dimension as int);
        }
        self.turn_number = self.turn_number + 1;
    }

    /// Claims the named tile for the moving player. Validates both edge
    /// cases — coordinates that do not exist on the board, and a tile
    /// already claimed — and fails without mutating anything; on success
    /// exactly that tile's occupation changes, its annotation becomes
    /// newly-created, and every other annotation is reset.
    pub fn update_board(&mut self, coords_for_move: Coordinates, player_for_move: Player) -> (r:
        Result<(), MoveError>)
        requires
            old(self).wf(),
        ensures
            final(self).wf(),
            final(self).players == old(self).players,
            final(self).notification == old(self).notification,
            final(self).grid_dimensions == old(self).grid_dimensions,
            final(self).turn_number == old(self).turn_number,
            final(self).outcome == old(self).outcome,
            final(self).winning_lines == old(self).winning_lines,
            final(self).board.dimension == old(self).board.dimension,
            match r {
                Ok(()) => {
                    &&& old(self).board.contains_coordinates(coords_for_move)
                    &&& indices_of_coordinates(coords_for_move) matches Some(ix) && {
                        let ti = flat_index(
                            old(self).board.dimension as int,
                            ix.row as int,
                            ix.column as int,
                        );
                        &&& old(self).board.tiles@[ti].occupation_state is Empty
                        &&& final(self).board.tiles@ == board_after_move(
                            old(self).board.tiles@,
                            ti,
                            player_for_move,
                        )
                    }
                    &&& occupied_count(final(self).board.tiles@) == occupied_count(
                        old(self).board.tiles@,
                    ) + 1
                },
                Err(MoveError::OutOfBounds) => {
                    &&& !old(self).board.contains_coordinates(coords_for_move)
                    &&& *final(self) == *old(self)
                },
                Err(MoveError::TileTaken(q)) => {
                    &&& old(self).board.contains_coordinates(coords_for_move)
                    &&& indices_of_coordinates(coords_for_move) matches Some(ix) && old(
                        self,
                    ).board.tiles@[flat_index(
                        old(self).board.dimension as int,
                        ix.row as int,
                        ix.column as int,
                    )].occupation_state == TileOccupationState::Occupied(q)
                    &&& *final(self) == *old(self)
                },
            },
    {
        match self.board.place(&coords_for_move, player_for_move) {
            Ok(()) => {
                proof {
                    let pre = old(self).board.tiles@;
                    let post = self.board.tiles@;
                    let ix = indices_of_coordinates(coords_for_move)->Some_0;
                    let ti = flat_index(
                        old(self).board.dimension as int,
                        ix.row as int,
                        ix.column as int,
                    );
                    assert(old(self).board.indices_in_bounds(ix));
                    crate::board::lemma_flat_index_in_range(
                        old(self).board.dimension as int,
                        ix.row as int,
                        ix.column as int,
                    );
                    assert(post =~= board_after_move(pre, ti, player_for_move));
                    let claimed = Tile {
                        occupation_state: TileOccupationState::Occupied(player_for_move),
                        display_state: TileDisplayState::NewlyCreated,
                    };
                    lemma_occupied_count_update(pre, ti, claimed);
                    lemma_occupied_count_same_occupation(post, pre.update(ti, claimed));
                }
                Ok(())
            },
            Err(PlaceError::NotFound) => Err(MoveError::OutOfBounds),
            Err(PlaceError::AlreadyOccupied(q)) => Err(MoveError::TileTaken(q)),
        }
    }

    /// If every tile at the given grid positions is claimed, and claimed
    /// by one and the same player, that player; otherwise nothing.
    pub fn single_player_occupying_indices(&self, indices: &Vec<Indices>) -> (r: Option<Player>)
        requires
            self.board.wf(),
            forall|j: int|
                0 <= j < indices@.len() ==> self.board.indices_in_bounds(#[trigger] indices@[j]),
        ensures
            r == cells_winner(self.board.tiles@, self.board.dimension as int, indices@),
    {
        let ghost tiles = self.board.tiles@;
        let ghost dim = self.board.dimension as int;
        let ghost cells = indices@;
        let mut maybe_running_occupier: Option<Player> = None;
        let mut j: usize = 0;
        while j < indices.len()
            invariant
                self.board.wf(),
                tiles == self.board.tiles@,
                dim == self.board.dimension as int,
                cells == indices@,
                forall|k: int|
                    0 <= k < cells.len() ==> self.board.indices_in_bounds(#[trigger] cells[k]),
                j <= cells.len(),
                j == 0 ==> maybe_running_occupier is None,
                j > 0 ==> (maybe_running_occupier matches Some(p0) && cells.len() > 0
                    && cell_occupied_by(tiles, dim, cells[0], p0) && (forall|k: int|
                    0 <= k < j as int ==> cell_occupied_by(tiles, dim, #[trigger] cells[k], p0))),
            decreases cells.len() - j,
        {
            let ix = indices[j];
            let ti = self.board.tile_index(ix);
            let tile_occupation = self.board.tiles[ti].occupation_state;
            match (maybe_running_occupier, tile_occupation) {
                (_, TileOccupationState::Empty) => {
                    proof {
                        if cells_winner(tiles, dim, cells) is Some {
                            let p = cells_winner(tiles, dim, cells)->Some_0;
                            assert(cells_owner(tiles, dim, cells, p));
                            assert(cell_occupied_by(tiles, dim, cells[j as int], p));
                            assert(false);
                        }
                    }
                    return None;
                },
                (None, TileOccupationState::Occupied(tile_occupier)) => {
                    maybe_running_occupier = Some(tile_occupier);
                },
                (Some(running_occupier), TileOccupationState::Occupied(tile_occupier)) => {
                    if running_occupier != tile_occupier {
                        proof {
                            if cells_winner(tiles, dim, cells) is Some {
                                let p = cells_winner(tiles, dim, cells)->Some_0;
                                assert(cells_owner(tiles, dim, cells, p));
                                assert(cell_occupied_by(tiles, dim, cells[0], p));
                                assert(cell_occupied_by(tiles, dim, cells[j as int], p));
                                assert(false);
                            }
                        }
                        return None;
                    }
                },
            }
            j = j + 1;
        }
        proof {
            if cells.len() > 0 {
                let p0 = maybe_running_occupier->Some_0;
                assert(cells_owner(tiles, dim, cells, p0));
            }
        }
        maybe_running_occupier
    }

    /// Recomputes the outcome from the board after a successful move: the
    /// first candidate line fully claimed by one player — checking every
    /// row, every column, and both full-length diagonals in fixed order —
    /// wins, and that line's tiles are annotated for display; otherwise a
    /// fully claimed board is a draw; otherwise the game stays in progress
    /// and the turn counter advances. The preceding move claimed a tile,
    /// so the turn number cannot exceed the claimed-tile count.
    pub fn update_outcome(&mut self)
        requires
            old(self).wf(),
            old(self).turn_number <= occupied_count(old(self).board.tiles@),
        ensures
            final(self).wf(),
            final(self).players == old(self).players,
            final(self).grid_dimensions == old(self).grid_dimensions,
            final(self).winning_lines == old(self).winning_lines,
            final(self).board.dimension == old(self).board.dimension,
            evaluation_effect(
                old(self).board.tiles@,
                old(self).board.dimension as int,
                old(self).outcome,
                old(self).turn_number as int,
                old(self).notification,
                final(self).board.tiles@,
                final(self).outcome,
                final(self).turn_number as int,
                final(self).notification,
            ),
    {
        let ghost pre_tiles = self.board.tiles@;
        let ghost dim = self.board.dimension as int;
        let line_total = self.winning_lines.len();
        let mut li: usize = 0;
        while li < line_total
            invariant
                old(self).wf(),
                old(self).turn_number <= occupied_count(old(self).board.tiles@),
                *self == *old(self),
                pre_tiles == old(self).board.tiles@,
                dim == old(self).board.dimension as int,
                line_total == line_count(dim),
                li <= line_total,
                forall|lj: int| 0 <= lj < li as int ==> line_winner(pre_tiles, dim, lj) is None,
            decreases line_total - li,
        {
            proof {
                assert forall|k: int|
                    0 <= k < (#[trigger] self.winning_lines@[li as int])@.len() implies
                        self.board.indices_in_bounds(self.winning_lines@[li as int]@[k]) by {
                    lemma_line_cell_in_bounds(dim, li as int, k);
                }
            }
            let maybe_winner = self.single_player_occupying_indices(&self.winning_lines[li]);
            if let Some(player) = maybe_winner {
                proof {
                    lemma_first_winning_line_found(pre_tiles, dim, 0, li as int);
                }
                self.outcome = GameOutcome::Victory(player);
                self.notification = Some(
                    Notification {
                        message: NotificationMessage::PlayerWins(player),
                        notification_type: NotificationType::Success,
                    },
                );
                // Annotate the winning line's tiles for display.
                let dimension = self.board.dimension;
                let mut j: usize = 0;
                while j < dimension
                    invariant
                        old(self).wf(),
                        pre_tiles == old(self).board.tiles@,
                        dim == old(self).board.dimension as int,
                        dimension == old(self).board.dimension,
                        self.players == old(self).players,
                        self.grid_dimensions == old(self).grid_dimensions,
                        self.winning_lines == old(self).winning_lines,
                        self.turn_number == old(self).turn_number,
                        self.board.dimension == old(self).board.dimension,
                        self.board.tiles@.len() == pre_tiles.len(),
                        self.outcome == GameOutcome::Victory(player),
                        self.notification == Some(
                            Notification {
                                message: NotificationMessage::PlayerWins(player),
                                notification_type: NotificationType::Success,
                            },
                        ),
                        (li as int) < line_count(dim),
                        line_winner(pre_tiles, dim, li as int) == Some(player),
                        first_winning_line(pre_tiles, dim) == Some(li as int),
                        j <= dimension,
                        forall|i: int|
                            0 <= i < pre_tiles.len()
                                ==> #[trigger] self.board.tiles@[i].occupation_state
                                == pre_tiles[i].occupation_state,
                        forall|j2: int|
                            0 <= j2 < j as int ==> (#[trigger] self.board.tiles@[flat_index(
                                dim,
                                line_cell(dim, li as int, j2).row as int,
                                line_cell(dim, li as int, j2).column as int,
                            )]).display_state == TileDisplayState::Victory,
                        forall|r2: int, c2: int|
                            0 <= r2 < dim && 0 <= c2 < dim && !(exists|j2: int|
                                0 <= j2 < j as int && line_cell(dim, li as int, j2) == (Indices {
                                    row: r2 as usize,
                                    column: c2 as usize,
                                })) ==> (#[trigger] self.board.tiles@[flat_index(
                                dim,
                                r2,
                                c2,
                            )]).display_state == pre_tiles[flat_index(dim, r2, c2)].display_state,
                    decreases dimension - j,
                {
                    proof {
                        lemma_line_cell_in_bounds(dim, li as int, j as int);
                        assert forall|r2: int, c2: int|
                            #![trigger flat_index(dim, r2, c2)]
                            0 <= r2 < dim && 0 <= c2 < dim && flat_index(dim, r2, c2)
                                == flat_index(
                                dim,
                                line_cell(dim, li as int, j as int).row as int,
                                line_cell(dim, li as int, j as int).column as int,
                            ) implies (Indices { row: r2 as usize, column: c2 as usize })
                            == line_cell(dim, li as int, j as int) by {
                            crate::board::lemma_flat_index_injective(
                                dim,
                                r2,
                                c2,
                                line_cell(dim, li as int, j as int).row as int,
                                line_cell(dim, li as int, j as int).column as int,
                            );
                        }
                    }
                    let ix = self.winning_lines[li][j];
                    let ti = self.board.tile_index(ix);
                    let ghost before = self.board.tiles@;
                    let tile_occupation = self.board.tiles[ti].occupation_state;
                    self.board.tiles.set(
                        ti,
                        Tile {
                            occupation_state: tile_occupation,
                            display_state: TileDisplayState::Victory,
                        },
                    );
                    proof {
                        let lint = li as int;
                        let jint = j as int;
                        assert(ix == line_cell(dim, lint, jint));
                        assert forall|j2: int| 0 <= j2 < jint + 1 implies (
                        #[trigger] self.board.tiles@[flat_index(
                            dim,
                            line_cell(dim, lint, j2).row as int,
                            line_cell(dim, lint, j2).column as int,
                        )]).display_state == TileDisplayState::Victory by {
                            lemma_line_cell_in_bounds(dim, lint, j2);
                            crate::board::lemma_flat_index_in_range(
                                dim,
                                line_cell(dim, lint, j2).row as int,
                                line_cell(dim, lint, j2).column as int,
                            );
                            let p2 = flat_index(
                                dim,
                                line_cell(dim, lint, j2).row as int,
                                line_cell(dim, lint, j2).column as int,
                            );
                            if p2 != ti as int {
                                assert(self.board.tiles@[p2] == before[p2]);
                            }
                        }
                        assert forall|r2: int, c2: int|
                            0 <= r2 < dim && 0 <= c2 < dim && !(exists|j2: int|
                                0 <= j2 < jint + 1 && line_cell(dim, lint, j2) == (Indices {
                                    row: r2 as usize,
                                    column: c2 as usize,
                                })) implies (#[trigger] self.board.tiles@[flat_index(
                            dim,
                            r2,
                            c2,
                        )]).display_state == pre_tiles[flat_index(dim, r2, c2)].display_state by {
                            let p = flat_index(dim, r2, c2);
                            crate::board::lemma_flat_index_in_range(dim, r2, c2);
                            if p == ti as int {
                                assert((Indices { row: r2 as usize, column: c2 as usize })
                                    == line_cell(dim, lint, jint));
                                assert(false);
                            } else {
                                assert(self.board.tiles@[p] == before[p]);
                                assert(!(exists|j2: int|
                                    0 <= j2 < jint && line_cell(dim, lint, j2) == (Indices {
                                        row: r2 as usize,
                                        column: c2 as usize,
                                    })));
                            }
                        }
                    }
                    j = j + 1;
                }
                proof {
                    lemma_occupied_count_same_occupation(self.board.tiles@, pre_tiles);
                    let lint = li as int;
                    assert forall|r2: int, c2: int|
                        0 <= r2 < dim && 0 <= c2 < dim implies (
                    #[trigger] self.board.tiles@[flat_index(dim, r2, c2)]).display_state == (if
                        on_line(dim, lint, Indices { row: r2 as usize, column: c2 as usize }) {
                        TileDisplayState::Victory
                    } else {
                        pre_tiles[flat_index(dim, r2, c2)].display_state
                    }) by {
                        let ix2 = Indices { row: r2 as usize, column: c2 as usize };
                        if on_line(dim, lint, ix2) {
                            let j2 = choose|j2: int|
                                0 <= j2 < dim && line_cell(dim, lint, j2) == ix2;
                            lemma_line_cell_in_bounds(dim, lint, j2);
                            assert((line_cell(dim, lint, j2).row as int) == r2);
                            assert((line_cell(dim, lint, j2).column as int) == c2);
                            assert(self.board.tiles@[flat_index(
                                dim,
                                line_cell(dim, lint, j2).row as int,
                                line_cell(dim, lint, j2).column as int,
                            )].display_state == TileDisplayState::Victory);
                        }
                    }
                }
                return;
            }
            li = li + 1;
        }
        proof {
            lemma_first_winning_line_none(pre_tiles, dim, 0);
        }
        if self.board.all_tiles_occupied() {
            self.outcome = GameOutcome::Draw;
            self.notification = Some(
                Notification {
                    message: NotificationMessage::GameDrawn,
                    notification_type: NotificationType::Info,
                },
            );
            return;
        }
        self.advance_turn();
    }

    /// Applies one move for the given player: validates the coordinates
    /// against the board, claims the tile, and recomputes the outcome,
    /// advancing the turn when the game goes on. Only valid while the game
    /// is in progress; that the supplied player is the current player is
    /// the caller's responsibility. A failed move leaves the whole game —
    /// board, outcome, turn, notification — exactly as it was.
    pub fn apply_move(&mut self, coords_for_move: Coordinates, player_for_move: Player) -> (r:
        Result<(), MoveError>)
        requires
            old(self).wf(),
            old(self).outcome is InProgress,
        ensures
            final(self).wf(),
            final(self).players == old(self).players,
            final(self).grid_dimensions == old(self).grid_dimensions,
            final(self).winning_lines == old(self).winning_lines,
            final(self).board.dimension == old(self).board.dimension,
            match r {
                Ok(()) => {
                    &&& old(self).board.contains_coordinates(coords_for_move)
                    &&& indices_of_coordinates(coords_for_move) matches Some(ix) && {
                        let dim = old(self).board.dimension as int;
                        let ti = flat_index(dim, ix.row as int, ix.column as int);
                        &&& old(self).board.tiles@[ti].occupation_state is Empty
                        &&& evaluation_effect(
                            board_after_move(old(self).board.tiles@, ti, player_for_move),
                            dim,
                            old(self).outcome,
                            old(self).turn_number as int,
                            old(self).notification,
                            final(self).board.tiles@,
                            final(self).outcome,
                            final(self).turn_number as int,
                            final(self).notification,
                        )
                    }
                },
                Err(MoveError::OutOfBounds) => {
                    &&& !old(self).board.contains_coordinates(coords_for_move)
                    &&& *final(self) == *old(self)
                },
                Err(MoveError::TileTaken(q)) => {
                    &&& old(self).board.contains_coordinates(coords_for_move)
                    &&& indices_of_coordinates(coords_for_move) matches Some(ix) && old(
                        self,
                    ).board.tiles@[flat_index(
                        old(self).board.dimension as int,
                        ix.row as int,
                        ix.column as int,
                    )].occupation_state == TileOccupationState::Occupied(q)
                    &&& *final(self) == *old(self)
                },
            },
    {
        if let Err(error) = self.update_board(coords_for_move, player_for_move) {
            return Err(error);
        }
        self.update_outcome();
        Ok(())
    }

    /// Records the user-facing notification for a failed move and, where
    /// the coordinates name a tile of the board, marks that tile for
    /// transient error highlighting — display only, to be cleared by the
    /// driving loop. Board occupation, outcome, and turn are untouched.
    pub fn note_move_error(&mut self, error: MoveError, coords: Coordinates)
        requires
            old(self).wf(),
        ensures
            final(self).wf(),
            final(self).players == old(self).players,
            final(self).grid_dimensions == old(self).grid_dimensions,
            final(self).winning_lines == old(self).winning_lines,
            final(self).turn_number == old(self).turn_number,
            final(self).outcome == old(self).outcome,
            final(self).board.dimension == old(self).board.dimension,
            final(self).board.tiles@.len() == old(self).board.tiles@.len(),
            forall|i: int|
                0 <= i < old(self).board.tiles@.len()
                    ==> #[trigger] final(self).board.tiles@[i].occupation_state == old(
                    self,
                ).board.tiles@[i].occupation_state,
            final(self).notification == Some(
                Notification {
                    message: match error {
                        MoveError::OutOfBounds => NotificationMessage::CoordinatesNotFound(coords),
                        MoveError::TileTaken(q) => NotificationMessage::TileAlreadyOccupied(
                            coords,
                            q,
                        ),
                    },
                    notification_type: NotificationType::Error,
                },
            ),
            if old(self).board.contains_coordinates(coords) {
                indices_of_coordinates(coords) matches Some(ix) && {
                    let ti = flat_index(
                        old(self).board.dimension as int,
                        ix.row as int,
                        ix.column as int,
                    );
                    &&& final(self).board.tiles@[ti] == (Tile {
                        occupation_state: old(self).board.tiles@[ti].occupation_state,
                        display_state: TileDisplayState::Error,
                    })
                    &&& forall|i: int|
                        0 <= i < old(self).board.tiles@.len() && i != ti
                            ==> #[trigger] final(self).board.tiles@[i] == old(self).board.tiles@[i]
                }
            } else {
                final(self).board.tiles@ == old(self).board.tiles@
            },
    {
        self.notification = Some(
            Notification {
                message: match error {
                    MoveError::OutOfBounds => NotificationMessage::CoordinatesNotFound(coords),
                    MoveError::TileTaken(q) => NotificationMessage::TileAlreadyOccupied(coords, q),
                },
                notification_type: NotificationType::Error,
            },
        );
        if let Some(ix) = coords.to_indices() {
            if ix.row < self.board.dimension && ix.column < self.board.dimension {
                let ti = self.board.tile_index(ix);
                let tile_occupation = self.board.tiles[ti].occupation_state;
                self.board.tiles.set(
                    ti,
                    Tile {
                        occupation_state: tile_occupation,
                        display_state: TileDisplayState::Error,
                    },
                );
                proof {
                    lemma_occupied_count_same_occupation(
                        self.board.tiles@,
                        old(self).board.tiles@,
                    );
                }
            }
        }
    }

    /// Records the user-facing notification for coordinate text that
    /// could not be parsed. No tile is known to mark; everything else is
    /// untouched.
    pub fn note_parse_error(&mut self, error: ParseError)
        requires
            old(self).wf(),
        ensures
            final(self).wf(),
            final(self).notification == Some(
                Notification {
                    message: NotificationMessage::CouldNotParse(error.input),
                    notification_type: NotificationType::Error,
                },
            ),
            *final(self) == (Game { notification: final(self).notification, ..*old(self) }),
    {
        self.notification = Some(
            Notification {
                message: NotificationMessage::CouldNotParse(error.input),
                notification_type: NotificationType::Error,
            },
        );
    }

    /// Drops the pending notification once the host has surfaced it.
    pub fn clear_notification(&mut self)
        requires
            old(self).wf(),
        ensures
            final(self).wf(),
            *final(self) == (Game { notification: None, ..*old(self) }),
    {
        self.notification = None;
    }
}

/// The cells of one candidate line, as addressable grid positions.
fn build_line_indices(dimension: usize, li: usize) -> (v: Vec<Indices>)
    requires
        MIN_DIMENSION <= dimension <= MAX_DIMENSION,
        li < line_count(dimension as int),
    ensures
        v@ == line_cells(dimension as int, li as int),
{
    let mut v: Vec<Indices> = Vec::new();
    let mut j: usize = 0;
    while j < dimension
        invariant
            MIN_DIMENSION <= dimension <= MAX_DIMENSION,
            li < line_count(dimension as int),
            j <= dimension,
            v@.len() == j,
            forall|k: int| 0 <= k < j as int ==> v@[k] == line_cell(dimension as int, li as int, k),
        decreases dimension - j,
    {
        let ix = if li < dimension {
            Indices { row: li, column: j }
        } else if li < 2 * dimension {
            Indices { row: j, column: li - dimension }
        } else if li == 2 * dimension {
            Indices { row: j, column: j }
        } else {
            Indices { row: dimension - 1 - j, column: j }
        };
        v.push(ix);
        j = j + 1;
    }
    proof {
        assert(v@ =~= line_cells(dimension as int, li as int));
    }
    v
}

/// A board with no claimed tile has a claimed-tile count of zero.
proof fn lemma_occupied_count_of_empty(tiles: Seq<Tile>)
    requires
        forall|i: int| 0 <= i < tiles.len() ==> !tile_occupied(#[trigger] tiles[i]),
    ensures
        occupied_count(tiles) == 0,
    decreases tiles.len(),
{
    if tiles.len() > 0 {
        lemma_occupied_count_of_empty(tiles.drop_last());
    }
}

} // verus!
