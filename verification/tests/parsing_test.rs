use hexedit::hex_pattern::{HexAbsoluteDir, HexDir, HexError, HexPattern};
use hexedit::parsing::{parse_to_hex_pattern, parse_to_list, ParsedEntry};

#[test]
fn test_parse_to_pattern() {
    let text = "HexPattern(aqweqad, NORTH_WEST)";
    let expected = HexPattern::hex_pattern(
        HexAbsoluteDir::NorthWest,
        vec![HexDir::A, HexDir::Q, HexDir::W, HexDir::E, HexDir::Q, HexDir::A, HexDir::D],
    )
    .unwrap();
    let parsed = parse_to_hex_pattern(text);
    assert!(parsed.is_ok());
    assert_eq!(parsed.unwrap(), expected);
}

#[test]
fn test_parse_to_list() {
    let text = "[HexPattern(a, EAST), HexPattern(aa, EAST)]";
    let expected = vec![
        HexPattern::hex_pattern(HexAbsoluteDir::East, vec![HexDir::A]).unwrap(),
        HexPattern::hex_pattern(HexAbsoluteDir::East, vec![HexDir::A, HexDir::A]).unwrap(),
    ];
    let parsed = parse_to_list(text);

    assert!(parsed.is_ok());

    for (i, entry) in parsed.unwrap().iter().enumerate() {
        match entry {
            ParsedEntry::Pattern(p) => assert_eq!(*p, expected[i]),
            ParsedEntry::Text(_) => panic!("Couldn't downcast to HexPattern"),
        }
    }
}

#[test]
fn parse_without_heading_is_rejected() {
    assert_eq!(
        parse_to_hex_pattern("no headings in this text"),
        Err(HexError::InvalidString)
    );
}

#[test]
fn parse_string_matches_free_function() {
    let text = "aqw NORTH_EAST";
    assert_eq!(HexPattern::parse_string(text), parse_to_hex_pattern(text));
    let parsed = HexPattern::parse_string(text).unwrap();
    assert_eq!(parsed.start_dir, HexAbsoluteDir::NorthEast);
    assert_eq!(parsed.pattern_vec, vec![HexDir::A, HexDir::Q, HexDir::W]);
}

#[test]
fn parse_overlapping_pattern_is_rejected() {
    assert_eq!(
        parse_to_hex_pattern("eeeeee EAST"),
        Err(HexError::Overlap)
    );
}

#[test]
fn parse_list_keeps_unreadable_entries() {
    let text = "HEXPATTERN(a, EAST), gibberish";
    let parsed = parse_to_list(text).unwrap();
    assert_eq!(parsed.len(), 2);
    match &parsed[0] {
        ParsedEntry::Pattern(p) => {
            assert_eq!(p.start_dir, HexAbsoluteDir::East);
            assert_eq!(p.pattern_vec, vec![HexDir::A]);
        }
        ParsedEntry::Text(_) => panic!("first entry should parse"),
    }
    match &parsed[1] {
        ParsedEntry::Text(t) => assert_eq!(t.as_str(), "UNKNOWN"),
        ParsedEntry::Pattern(_) => panic!("second entry should not parse"),
    }
}

#[test]
fn parse_list_splits_plain_text_on_lines() {
    let text = "a EAST\naa WEST";
    let parsed = parse_to_list(text).unwrap();
    assert_eq!(parsed.len(), 2);
    match &parsed[0] {
        ParsedEntry::Pattern(p) => assert_eq!(p.start_dir, HexAbsoluteDir::East),
        ParsedEntry::Text(_) => panic!("first line should parse"),
    }
    match &parsed[1] {
        ParsedEntry::Pattern(p) => {
            assert_eq!(p.start_dir, HexAbsoluteDir::West);
            assert_eq!(p.pattern_vec, vec![HexDir::A, HexDir::A]);
        }
        ParsedEntry::Text(_) => panic!("second line should parse"),
    }
}
