//! The board: a square grid of tiles, each holding an occupation state and
//! a presentation-only display annotation. The grid is stored row-major as
//! a vector of exactly `dimension * dimension` tiles, so every in-bounds
//! coordinate maps to exactly one tile and no others exist.

use vstd::prelude::*;

use crate::coords::Coordinates;
use crate::coords::Indices;
use crate::coords::MAX_DIMENSION;
use crate::coords::MIN_DIMENSION;
use crate::coords::indices_of_coordinates;

verus! {

/// One of the two players, identified by a small positive number and a
/// single display mark. Immutable once the game starts.
#[derive(Clone, Copy, Debug, PartialEq, Eq, Structural)]
pub struct Player {
    pub number: u8,
    pub mark: char,
}

/// Whether a tile is empty or claimed by exactly one player.
#[derive(Clone, Copy, Debug, PartialEq, Eq, Structural)]
pub enum TileOccupationState {
    Empty,
    Occupied(Player),
}

/// Presentation-only tile state. It carries no game-semantic weight: the
/// evaluator and move validation never read it, and resetting it never
/// affects occupation.
#[derive(Clone, Copy, Debug, PartialEq, Eq, Structural)]
pub enum TileDisplayState {
    Error,
    NewlyCreated,
    Normal,
    Victory,
}

/// One addressable cell of the board.
#[derive(Clone, Copy, Debug, PartialEq, Eq, Structural)]
pub struct Tile {
    pub occupation_state: TileOccupationState,
    pub display_state: TileDisplayState,
}

/// Failure to place a mark on the board.
#[derive(Clone, Copy, Debug, PartialEq, Eq, Structural)]
pub enum PlaceError {
    /// The coordinates do not exist on this board: a recoverable,
    /// user-facing condition, not a program fault.
    NotFound,
    /// The target tile is already claimed, by the reported player.
    AlreadyOccupied(Player),
}

/// Row-major position of a cell inside the tile vector.
pub open spec fn flat_index(dim: int, row: int, column: int) -> int {
    row * dim + column
}

/// Whether a tile is claimed by some player.
pub open spec fn tile_occupied(t: Tile) -> bool {
    t.occupation_state is Occupied
}

/// How many tiles of the sequence are claimed.
pub open spec fn occupied_count(tiles: Seq<Tile>) -> int
    decreases tiles.len(),
{
    if tiles.len() == 0 {
        0
    } else {
        occupied_count(tiles.drop_last()) + if tile_occupied(tiles.last()) {
            1int
        } else {
            0int
        }
    }
}

/// Whether every tile of the sequence is claimed.
pub open spec fn all_occupied(tiles: Seq<Tile>) -> bool {
    forall|i: int| 0 <= i < tiles.len() ==> tile_occupied(#[trigger] tiles[i])
}

/// The claimed-tile count never exceeds the tile count.
pub proof fn lemma_occupied_count_bounds(tiles: Seq<Tile>)
    ensures
        0 <= occupied_count(tiles) <= tiles.len(),
    decreases tiles.len(),
{
    if tiles.len() > 0 {
        lemma_occupied_count_bounds(tiles.drop_last());
    }
}

/// Tile sequences that agree on occupation everywhere have the same
/// claimed-tile count, whatever their display annotations.
pub proof fn lemma_occupied_count_same_occupation(a: Seq<Tile>, b: Seq<Tile>)
    requires
        a.len() == b.len(),
        forall|i: int| 0 <= i < a.len() ==> a[i].occupation_state == b[i].occupation_state,
    ensures
        occupied_count(a) == occupied_count(b),
    decreases a.len(),
{
    if a.len() > 0 {
        assert(a.last().occupation_state == b.last().occupation_state);
        lemma_occupied_count_same_occupation(a.drop_last(), b.drop_last());
    }
}

/// Replacing one tile changes the claimed-tile count exactly by the
/// difference the replacement makes at that position.
pub proof fn lemma_occupied_count_update(tiles: Seq<Tile>, i: int, t: Tile)
    requires
        0 <= i < tiles.len(),
    ensures
        occupied_count(tiles.update(i, t)) == occupied_count(tiles) + (if tile_occupied(t) {
            1int
        } else {
            0int
        }) - (if tile_occupied(tiles[i]) {
            1int
        } else {
            0int
        }),
    decreases tiles.len(),
{
    let updated = tiles.update(i, t);
    if i == tiles.len() - 1 {
        assert(updated.drop_last() =~= tiles.drop_last());
    } else {
        assert(updated.drop_last() =~= tiles.drop_last().update(i, t));
        lemma_occupied_count_update(tiles.drop_last(), i, t);
    }
}

/// A fixed-size collection of tiles keyed by coordinate.
#[derive(Debug)]
pub struct Board {
    pub dimension: usize,
    pub tiles: Vec<Tile>,
}

impl Board {
    /// Well-formedness: the dimension lies in the supported range and the
    /// tile vector covers the full coordinate space, row-major.
    pub open spec fn wf(self) -> bool {
        &&& MIN_DIMENSION <= self.dimension <= MAX_DIMENSION
        &&& self.tiles@.len() == self.dimension * self.dimension
    }

    /// Whether a zero-indexed grid position lies on this board.
    pub open spec fn indices_in_bounds(self, ix: Indices) -> bool {
        ix.row < self.dimension && ix.column < self.dimension
    }

    /// Whether coordinates name a tile of this board.
    pub open spec fn contains_coordinates(self, c: Coordinates) -> bool {
        indices_of_coordinates(c) matches Some(ix) && self.indices_in_bounds(ix)
    }

    /// The tile at a zero-indexed grid position.
    pub open spec fn spec_tile(self, row: int, column: int) -> Tile {
        self.tiles@[flat_index(self.dimension as int, row, column)]
    }

    /// A fully empty board of the given dimension, every display
    /// annotation normal.
    pub fn empty(dimension: usize) -> (r: Board)
        requires
            MIN_DIMENSION <= dimension <= MAX_DIMENSION,
        ensures
            r.wf(),
            r.dimension == dimension,
            forall|i: int|
                0 <= i < r.tiles@.len() ==> r.tiles@[i] == (Tile {
                    occupation_state: TileOccupationState::Empty,
                    display_state: TileDisplayState::Normal,
                }),
    {
        proof {
            lemma_grid_size_bounds(dimension as int);
        }
        let count = dimension * dimension;
        let mut tiles: Vec<Tile> = Vec::new();
        let mut i: usize = 0;
        while i < count
            invariant
                i <= count,
                count == dimension * dimension,
                tiles@.len() == i,
                forall|k: int|
                    0 <= k < i as int ==> tiles@[k] == (Tile {
                        occupation_state: TileOccupationState::Empty,
                        display_state: TileDisplayState::Normal,
                    }),
            decreases count - i,
        {
            tiles.push(
                Tile {
                    occupation_state: TileOccupationState::Empty,
                    display_state: TileDisplayState::Normal,
                },
            );
            i = i + 1;
        }
        Board { dimension, tiles }
    }

    /// Row-major position of an in-bounds grid position.
    pub fn tile_index(&self, ix: Indices) -> (r: usize)
        requires
            self.wf(),
            self.indices_in_bounds(ix),
        ensures
            r == flat_index(self.dimension as int, ix.row as int, ix.column as int),
            r < self.tiles@.len(),
    {
        proof {
            lemma_flat_index_in_range(self.dimension as int, ix.row as int, ix.column as int);
            lemma_grid_size_bounds(self.dimension as int);
        }
        ix.row * self.dimension + ix.column
    }

    /// The tile named by coordinates, or `None` where the coordinates do
    /// not exist on this board.
    pub fn get(&self, coordinates: &Coordinates) -> (r: Option<Tile>)
        requires
            self.wf(),
        ensures
            r is Some <==> self.contains_coordinates(*coordinates),
            match indices_of_coordinates(*coordinates) {
                Some(ix) => self.indices_in_bounds(ix) ==> r == Some(
                    self.spec_tile(ix.row as int, ix.column as int),
                ),
                None => r is None,
            },
    {
        let ix = match coordinates.to_indices() {
            Some(ix) => ix,
            None => {
                return None;
            },
        };
        if ix.row < self.dimension && ix.column < self.dimension {
            let ti = self.tile_index(ix);
            Some(self.tiles[ti])
        } else {
            None
        }
    }

    /// Claims the named tile for a player. Fails without mutating when the
    /// coordinates are off the board or the tile is already claimed; on
    /// success the target tile becomes occupied and newly-created while
    /// every other tile keeps its occupation and has its display
    /// annotation reset to normal.
    pub fn place(&mut self, coordinates: &Coordinates, player: Player) -> (r: Result<
        (),
        PlaceError,
    >)
        requires
            old(self).wf(),
        ensures
            final(self).wf(),
            final(self).dimension == old(self).dimension,
            final(self).tiles@.len() == old(self).tiles@.len(),
            match r {
                Ok(()) => {
                    &&& old(self).contains_coordinates(*coordinates)
                    &&& indices_of_coordinates(*coordinates) matches Some(ix) && {
                        let ti = flat_index(
                            old(self).dimension as int,
                            ix.row as int,
                            ix.column as int,
                        );
                        &&& old(self).tiles@[ti].occupation_state is Empty
                        &&& final(self).tiles@[ti] == (Tile {
                            occupation_state: TileOccupationState::Occupied(player),
                            display_state: TileDisplayState::NewlyCreated,
                        })
                        &&& forall|i: int|
                            0 <= i < old(self).tiles@.len() && i != ti
                                ==> #[trigger] final(self).tiles@[i] == (Tile {
                                occupation_state: old(self).tiles@[i].occupation_state,
                                display_state: TileDisplayState::Normal,
                            })
                    }
                },
                Err(PlaceError::NotFound) => {
                    &&& !old(self).contains_coordinates(*coordinates)
                    &&& *final(self) == *old(self)
                },
                Err(PlaceError::AlreadyOccupied(q)) => {
                    &&& old(self).contains_coordinates(*coordinates)
                    &&& indices_of_coordinates(*coordinates) matches Some(ix) && old(
                        self,
                    ).tiles@[flat_index(old(self).dimension as int, ix.row as int, ix.column as int)].occupation_state
                        == TileOccupationState::Occupied(q)
                    &&& *final(self) == *old(self)
                },
            },
    {
        let ix = match coordinates.to_indices() {
            Some(ix) => ix,
            None => {
                return Err(PlaceError::NotFound);
            },
        };
        if !(ix.row < self.dimension && ix.column < self.dimension) {
            return Err(PlaceError::NotFound);
        }
        let ti = self.tile_index(ix);
        if let TileOccupationState::Occupied(q) = self.tiles[ti].occupation_state {
            return Err(PlaceError::AlreadyOccupied(q));
        }
        // Reset every display annotation, leaving occupation untouched.
        let mut i: usize = 0;
        while i < self.tiles.len()
            invariant
                old(self).wf(),
                self.dimension == old(self).dimension,
                self.tiles@.len() == old(self).tiles@.len(),
                i <= self.tiles@.len(),
                forall|k: int|
                    0 <= k < i as int ==> #[trigger] self.tiles@[k] == (Tile {
                        occupation_state: old(self).tiles@[k].occupation_state,
                        display_state: TileDisplayState::Normal,
                    }),
                forall|k: int|
                    i as int <= k < self.tiles@.len() ==> #[trigger] self.tiles@[k] == old(
                        self,
                    ).tiles@[k],
            decreases self.tiles@.len() - i,
        {
            let occupation = self.tiles[i].occupation_state;
            self.tiles.set(
                i,
                Tile { occupation_state: occupation, display_state: TileDisplayState::Normal },
            );
            i = i + 1;
        }
        self.tiles.set(
            ti,
            Tile {
                occupation_state: TileOccupationState::Occupied(player),
                display_state: TileDisplayState::NewlyCreated,
            },
        );
        Ok(())
    }

    /// Whether every coordinate of the full grid maps to a claimed tile;
    /// used for draw detection.
    pub fn all_tiles_occupied(&self) -> (r: bool)
        requires
            self.wf(),
        ensures
            r == all_occupied(self.tiles@),
    {
        let mut i: usize = 0;
        while i < self.tiles.len()
            invariant
                i <= self.tiles@.len(),
                forall|k: int| 0 <= k < i as int ==> tile_occupied(#[trigger] self.tiles@[k]),
            decreases self.tiles@.len() - i,
        {
            if let TileOccupationState::Empty = self.tiles[i].occupation_state {
                return false;
            }
            i = i + 1;
        }
        true
    }
}

/// A grid of the supported dimensions holds at most 64 tiles.
pub proof fn lemma_grid_size_bounds(dim: int)
    requires
        0 <= dim <= MAX_DIMENSION,
    ensures
        dim * dim <= MAX_DIMENSION * MAX_DIMENSION,
{
    assert(dim * dim <= MAX_DIMENSION * MAX_DIMENSION) by (nonlinear_arith)
        requires
            0 <= dim <= MAX_DIMENSION,
            MAX_DIMENSION == 8,
    ;
}

/// Distinct in-bounds grid positions have distinct row-major positions.
pub proof fn lemma_flat_index_injective(dim: int, r1: int, c1: int, r2: int, c2: int)
    requires
        0 <= r1 < dim,
        0 <= c1 < dim,
        0 <= r2 < dim,
        0 <= c2 < dim,
        flat_index(dim, r1, c1) == flat_index(dim, r2, c2),
    ensures
        r1 == r2,
        c1 == c2,
{
    assert(r1 == r2 && c1 == c2) by (nonlinear_arith)
        requires
            0 <= r1 < dim,
            0 <= c1 < dim,
            0 <= r2 < dim,
            0 <= c2 < dim,
            r1 * dim + c1 == r2 * dim + c2,
    ;
}

/// A row-major position computed from an in-bounds grid position lies
/// inside the tile vector.
pub proof fn lemma_flat_index_in_range(dim: int, row: int, column: int)
    requires
        0 <= row < dim,
        0 <= column < dim,
    ensures
        0 <= flat_index(dim, row, column) < dim * dim,
{
    assert(0 <= row * dim + column < dim * dim) by (nonlinear_arith)
        requires
            0 <= row < dim,
            0 <= column < dim,
    ;
}

} // verus!
