//! Coordinate addressing: the bidirectional mapping between zero-indexed
//! `(row, column)` grid positions and user-facing addresses made of a column
//! letter and a one-indexed row number (for example `A1`).

use vstd::prelude::*;

verus! {

/// Smallest grid dimension that makes a meaningful game.
pub const MIN_DIMENSION: usize = 3;

/// Largest grid dimension; bounded by the supported column-letter set.
pub const MAX_DIMENSION: usize = 8;

/// A zero-indexed grid position.
#[derive(Clone, Copy, Debug, PartialEq, Eq, Structural)]
pub struct Indices {
    pub row: usize,
    pub column: usize,
}

/// A user-facing board address: a column letter and a one-indexed row
/// number. Values parsed from free text are not inherently in bounds and
/// must be validated against the board before use.
#[derive(Clone, Copy, Debug, PartialEq, Eq, Structural, Hash)]
pub struct Coordinates {
    pub column: char,
    pub row: usize,
}

/// Column letter for a zero-indexed column number below `MAX_DIMENSION`.
pub open spec fn letter_of_index(i: int) -> char {
    if i == 0 {
        'A'
    } else if i == 1 {
        'B'
    } else if i == 2 {
        'C'
    } else if i == 3 {
        'D'
    } else if i == 4 {
        'E'
    } else if i == 5 {
        'F'
    } else if i == 6 {
        'G'
    } else {
        'H'
    }
}

/// Zero-indexed column number for a column letter, or `None` for a letter
/// outside the supported set. Letters are the canonical upper-case ones:
/// case normalization happens during parsing, not here.
pub open spec fn index_of_letter(c: char) -> Option<int> {
    if c == 'A' {
        Some(0int)
    } else if c == 'B' {
        Some(1int)
    } else if c == 'C' {
        Some(2int)
    } else if c == 'D' {
        Some(3int)
    } else if c == 'E' {
        Some(4int)
    } else if c == 'F' {
        Some(5int)
    } else if c == 'G' {
        Some(6int)
    } else if c == 'H' {
        Some(7int)
    } else {
        None
    }
}

/// The coordinates that name a zero-indexed grid position.
pub open spec fn coordinates_of_indices(ix: Indices) -> Coordinates {
    Coordinates { column: letter_of_index(ix.column as int), row: (ix.row + 1) as usize }
}

/// The zero-indexed grid position named by coordinates, or `None` where the
/// letter is outside the supported set or the row number is zero.
pub open spec fn indices_of_coordinates(c: Coordinates) -> Option<Indices> {
    match index_of_letter(c.column) {
        Some(ci) => if c.row >= 1 {
            Some(Indices { row: (c.row - 1) as usize, column: ci as usize })
        } else {
            None
        },
        None => None,
    }
}

/// Failure to address a grid position: the zero-indexed column number has no
/// letter in the supported set.
#[derive(Clone, Copy, Debug, PartialEq, Eq, Structural)]
pub struct AddressingError {
    pub column: usize,
}

impl Coordinates {
    /// Coordinates for a zero-indexed grid position. Fails when the column
    /// number exceeds the supported letter set; the row is bounded only by
    /// the machine word.
    pub fn from_indices(indices: &Indices) -> (r: Result<Coordinates, AddressingError>)
        requires
            indices.row < usize::MAX,
        ensures
            indices.column < MAX_DIMENSION ==> r == Ok::<Coordinates, AddressingError>(
                coordinates_of_indices(*indices),
            ),
            indices.column >= MAX_DIMENSION ==> r == Err::<Coordinates, AddressingError>(
                AddressingError { column: indices.column },
            ),
    {
        let column = if indices.column == 0 {
            'A'
        } else if indices.column == 1 {
            'B'
        } else if indices.column == 2 {
            'C'
        } else if indices.column == 3 {
            'D'
        } else if indices.column == 4 {
            'E'
        } else if indices.column == 5 {
            'F'
        } else if indices.column == 6 {
            'G'
        } else if indices.column == 7 {
            'H'
        } else {
            return Err(AddressingError { column: indices.column });
        };
        Ok(Coordinates { column, row: indices.row + 1 })
    }

    /// The zero-indexed grid position these coordinates name: the pure
    /// inverse of `from_indices`.
    pub fn to_indices(&self) -> (r: Option<Indices>)
        ensures
            r == indices_of_coordinates(*self),
    {
        let ci: usize = if self.column == 'A' {
            0
        } else if self.column == 'B' {
            1
        } else if self.column == 'C' {
            2
        } else if self.column == 'D' {
            3
        } else if self.column == 'E' {
            4
        } else if self.column == 'F' {
            5
        } else if self.column == 'G' {
            6
        } else if self.column == 'H' {
            7
        } else {
            return None;
        };
        if self.row >= 1 {
            Some(Indices { row: self.row - 1, column: ci })
        } else {
            None
        }
    }
}

/// Addressing and indexing are mutual inverses, one direction: a grid
/// position whose column has a letter maps to coordinates that map back to
/// the same position.
pub proof fn lemma_indices_round_trip(ix: Indices)
    requires
        ix.column < MAX_DIMENSION,
        ix.row < usize::MAX,
    ensures
        indices_of_coordinates(coordinates_of_indices(ix)) == Some(ix),
{
}

/// Addressing and indexing are mutual inverses, the other direction:
/// coordinates that name a grid position are exactly the coordinates of
/// that position.
pub proof fn lemma_coordinates_round_trip(c: Coordinates)
    requires
        indices_of_coordinates(c) is Some,
    ensures
        coordinates_of_indices(indices_of_coordinates(c)->Some_0) == c,
{
}

} // verus!
