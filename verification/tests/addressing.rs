use tictactoe::Coordinates;
use tictactoe::Indices;
use tictactoe::MAX_DIMENSION;

#[test]
fn from_indices_produces_letter_and_one_indexed_row() {
    let c = Coordinates::from_indices(&Indices { row: 0, column: 0 }).unwrap();
    assert_eq!(c.column, 'A');
    assert_eq!(c.row, 1);
    let c = Coordinates::from_indices(&Indices { row: 4, column: 7 }).unwrap();
    assert_eq!(c.column, 'H');
    assert_eq!(c.row, 5);
}

#[test]
fn from_indices_rejects_column_outside_letter_set() {
    let e = Coordinates::from_indices(&Indices { row: 0, column: MAX_DIMENSION }).unwrap_err();
    assert_eq!(e.column, MAX_DIMENSION);
    assert!(Coordinates::from_indices(&Indices { row: 3, column: 100 }).is_err());
}

#[test]
fn indices_round_trip_over_every_in_bounds_pair() {
    for row in 0..MAX_DIMENSION {
        for column in 0..MAX_DIMENSION {
            let ix = Indices { row, column };
            let c = Coordinates::from_indices(&ix).unwrap();
            let back = c.to_indices().unwrap();
            assert_eq!(back, ix);
        }
    }
}

#[test]
fn coordinates_round_trip_through_indices() {
    for column in ['A', 'B', 'C', 'D', 'E', 'F', 'G', 'H'] {
        for row in 1..=8usize {
            let c = Coordinates { column, row };
            let ix = c.to_indices().unwrap();
            let back = Coordinates::from_indices(&ix).unwrap();
            assert_eq!(back, c);
        }
    }
}

#[test]
fn to_indices_rejects_row_zero_and_unknown_letter() {
    assert!(Coordinates { column: 'A', row: 0 }.to_indices().is_none());
    assert!(Coordinates { column: 'Z', row: 1 }.to_indices().is_none());
    assert!(Coordinates { column: 'a', row: 1 }.to_indices().is_none());
}
