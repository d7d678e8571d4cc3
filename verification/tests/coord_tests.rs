use checkers::coord::{format_index, parse_index, BoardIndex, CoordError};

#[test]
fn parse_accepts_both_cases_and_whitespace() {
    assert_eq!(parse_index("C2"), Ok(BoardIndex { col: 2, row: 1 }));
    assert_eq!(parse_index("c2"), Ok(BoardIndex { col: 2, row: 1 }));
    assert_eq!(parse_index("  h8 "), Ok(BoardIndex { col: 7, row: 7 }));
    assert_eq!(parse_index("\ta1\n"), Ok(BoardIndex { col: 0, row: 0 }));
}

#[test]
fn parse_rejects_malformed_tokens() {
    assert_eq!(parse_index(""), Err(CoordError::InvalidFormat));
    assert_eq!(parse_index("c"), Err(CoordError::InvalidFormat));
    assert_eq!(parse_index("c22"), Err(CoordError::InvalidFormat));
    assert_eq!(parse_index("z2"), Err(CoordError::InvalidColumn));
    assert_eq!(parse_index("12"), Err(CoordError::InvalidColumn));
    assert_eq!(parse_index("a9"), Err(CoordError::InvalidRow));
    assert_eq!(parse_index("a0"), Err(CoordError::InvalidRow));
}

#[test]
fn format_names_the_corners() {
    assert_eq!(format_index(BoardIndex { col: 0, row: 0 }), "A1");
    assert_eq!(format_index(BoardIndex { col: 7, row: 7 }), "H8");
    assert_eq!(format_index(BoardIndex { col: 3, row: 4 }), "D5");
}

#[test]
fn round_trip_parse_then_format_normalizes() {
    // formatting what a token parses to yields its normalized form
    for (text, normal) in [(" c2", "C2"), ("H8 ", "H8"), ("a1", "A1"), ("  g5  ", "G5")] {
        let i = parse_index(text).unwrap();
        assert_eq!(format_index(i), normal);
    }
}

#[test]
fn round_trip_format_then_parse_is_identity() {
    for col in 0..8u8 {
        for row in 0..8u8 {
            let i = BoardIndex { col, row };
            assert_eq!(parse_index(&format_index(i)), Ok(i));
        }
    }
}
