use dialog_core::tilemap::{parse_map, Tile, MAP};

#[test]
fn level_map_has_eight_rows_of_nine_tiles() {
    let tiles = parse_map(MAP.as_bytes()).unwrap();
    assert_eq!(tiles.len(), 72);
    assert_eq!(tiles[0], Tile { row: 1, col: 0, index: 9 });
    assert_eq!(tiles[71], Tile { row: 8, col: 8, index: 9 });
    assert!(tiles.iter().any(|t| *t == Tile { row: 3, col: 2, index: 2 }));
    assert!(tiles.iter().any(|t| *t == Tile { row: 3, col: 6, index: 0 }));
    assert!(tiles.iter().any(|t| *t == Tile { row: 6, col: 3, index: 10 }));
    assert!(tiles.iter().any(|t| *t == Tile { row: 6, col: 6, index: 7 }));
}

#[test]
fn hex_digits_of_either_case() {
    let tiles = parse_map(b"0aF\n9").unwrap();
    assert_eq!(
        tiles,
        vec![
            Tile { row: 0, col: 0, index: 0 },
            Tile { row: 0, col: 1, index: 10 },
            Tile { row: 0, col: 2, index: 15 },
            Tile { row: 1, col: 0, index: 9 },
        ]
    );
}

#[test]
fn crlf_line_ends_are_accepted() {
    let tiles = parse_map(b"12\r\n3").unwrap();
    assert_eq!(
        tiles,
        vec![Tile { row: 0, col: 0, index: 1 }, Tile { row: 0, col: 1, index: 2 }, Tile { row: 1, col: 0, index: 3 }]
    );
}

#[test]
fn non_hex_byte_is_rejected() {
    assert_eq!(parse_map(b"12\n3g4"), None);
    assert_eq!(parse_map(b"1\r2"), None);
}

#[test]
fn empty_map_has_no_tiles() {
    assert_eq!(parse_map(b""), Some(vec![]));
    assert_eq!(parse_map(b"\n\n"), Some(vec![]));
}
