use hexedit::hex_pattern::{hex_coord, HexAbsoluteDir, HexDir, HexError, HexPattern};

#[test]
fn converting_dirs() {
    for abs_dir in vec![
        HexAbsoluteDir::East,
        HexAbsoluteDir::SouthEast,
        HexAbsoluteDir::SouthWest,
        HexAbsoluteDir::West,
        HexAbsoluteDir::NorthWest,
        HexAbsoluteDir::NorthEast,
    ] {
        for rel_dir in vec![HexDir::A, HexDir::Q, HexDir::W, HexDir::E, HexDir::D] {
            assert_eq!(
                abs_dir
                    .difference(rel_dir.coord_offset(hex_coord(0, 0), abs_dir).1)
                    .unwrap(),
                rel_dir
            )
        }
    }
}

#[test]
fn straight_line_coords() {
    let pattern =
        HexPattern::hex_pattern(HexAbsoluteDir::East, vec![HexDir::W, HexDir::W]).unwrap();
    let coords = pattern.to_coords();
    assert_eq!(coords.len(), 4);
    assert_eq!(coords[0], hex_coord(0, 0));
    assert_eq!(coords[1], hex_coord(1, 0));
    assert_eq!(coords[2], hex_coord(2, 0));
    assert_eq!(coords[3], hex_coord(3, 0));
}

#[test]
fn closed_hexagon_overlaps() {
    let turns = vec![HexDir::E, HexDir::E, HexDir::E, HexDir::E, HexDir::E, HexDir::E];
    assert_eq!(
        HexPattern::hex_pattern(HexAbsoluteDir::East, turns),
        Err(HexError::Overlap)
    );
}

#[test]
fn open_pattern_accepted() {
    let pattern = HexPattern::hex_pattern(
        HexAbsoluteDir::NorthWest,
        vec![HexDir::A, HexDir::Q, HexDir::W, HexDir::E, HexDir::Q, HexDir::A, HexDir::D],
    );
    assert!(pattern.is_ok());
}

#[test]
fn turn_wraps_around() {
    assert_eq!(HexAbsoluteDir::East.turn(6), HexAbsoluteDir::East);
    assert_eq!(HexAbsoluteDir::East.turn(-1), HexAbsoluteDir::NorthEast);
    assert_eq!(HexAbsoluteDir::NorthEast.turn(2), HexAbsoluteDir::SouthEast);
}

#[test]
fn opposite_heading_has_no_turn() {
    assert_eq!(HexAbsoluteDir::East.difference(HexAbsoluteDir::West), None);
}
