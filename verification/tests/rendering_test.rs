use hexedit::hex_pattern::{HexAbsoluteDir, HexDir, HexPattern};
use hexedit::rendering::{hex_absolute_dir_str, hex_dir_char, u64_text};
use hexedit::simulator::{EntityType, Iota, IotaEntity, IotaList, StackState, VectorIota};

#[test]
fn iota_display() {
    let pattern = Iota::Pattern(HexPattern {
        pattern_vec: vec![HexDir::W],
        start_dir: HexAbsoluteDir::East,
    });
    let def_double = Iota::Double(Some(124.1231f64.to_bits()));
    let indef_double = Iota::Double(None);
    let def_vec = Iota::Vector(VectorIota::Known(
        123.0123f64.to_bits(),
        63.0f64.to_bits(),
        (-523.0f64).to_bits(),
    ));
    let indef_vec = Iota::Vector(VectorIota::Unknown(false));
    let widget = Iota::Widget;
    let entity = Iota::Entity(
        IotaEntity::new("Zombie")
            .add_guaranteed(EntityType::Monster)
            .add_guaranteed(EntityType::Living)
            .remove_possible(EntityType::Animal)
            .remove_possible(EntityType::Item)
            .remove_possible(EntityType::Player)
            .build(),
    );
    let indef_list = Iota::List(IotaList::Unknown(Some(4)));
    let indef_list_unknown_length = Iota::List(IotaList::Unknown(None));
    let def_list = Iota::List(IotaList::Known(vec![
        indef_list.duplicate(),
        indef_list_unknown_length.duplicate(),
    ]));

    assert_eq!(&pattern.canonical_text(), "HexPattern(W, East)");
    assert_eq!(&def_double.canonical_text(), "124.1231");
    assert_eq!(&indef_double.canonical_text(), "UNKOWN");
    assert_eq!(&def_vec.canonical_text(), "(123.0123, 63, -523)");
    assert_eq!(
        &indef_vec.canonical_text(),
        "(UNKNOWN, UNKNOWN, UNKNOWN ; guaranteed in range: false)"
    );
    assert_eq!(&widget.canonical_text(), "Null");
    assert_eq!(&entity.canonical_text(), "Zombie");
    assert_eq!(&indef_list.canonical_text(), "[UNKOWN, len=4]");
    assert_eq!(&indef_list_unknown_length.canonical_text(), "[UNKOWN, len=UNKOWN]");
    assert_eq!(
        &def_list.canonical_text(),
        "[[UNKOWN, len=4], [UNKOWN, len=UNKOWN]]"
    );
}

#[test]
fn double_text_round_trips() {
    assert_eq!(&Iota::Double(Some(124.1231f64.to_bits())).canonical_text(), "124.1231");
    assert_eq!(&Iota::Double(Some(0.0f64.to_bits())).canonical_text(), "0");
    assert_eq!(&Iota::Double(Some(21.5f64.to_bits())).canonical_text(), "21.5");
    assert_eq!(&Iota::Double(Some((-523.0f64).to_bits())).canonical_text(), "-523");
    assert_eq!(&Iota::Double(Some(f64::NAN.to_bits())).canonical_text(), "NaN");
    assert_eq!(&Iota::Double(Some(f64::INFINITY.to_bits())).canonical_text(), "inf");
    assert_eq!(&Iota::Double(Some(f64::NEG_INFINITY.to_bits())).canonical_text(), "-inf");
}

#[test]
fn stack_text_joins_with_newlines() {
    let state = StackState::new(
        vec![
            Iota::Double(Some(13.0f64.to_bits())),
            Iota::Widget,
            Iota::Double(None),
        ],
        None,
    );
    assert_eq!(&state.canonical_text(), "13\nNull\nUNKOWN");

    let empty = StackState::new(vec![], None);
    assert_eq!(&empty.canonical_text(), "");
}

#[test]
fn pattern_notation_text() {
    let pattern = HexPattern {
        start_dir: HexAbsoluteDir::NorthWest,
        pattern_vec: vec![HexDir::A, HexDir::Q, HexDir::W],
    };
    assert_eq!(&pattern.canonical_text(), "HexPattern(aqw, NORTH_WEST)");
    assert_eq!(hex_dir_char(&HexDir::D), 'd');
    assert_eq!(hex_absolute_dir_str(HexAbsoluteDir::SouthEast), "SOUTH_EAST");
}

#[test]
fn decimal_text_of_lengths() {
    assert_eq!(&u64_text(0), "0");
    assert_eq!(&u64_text(7), "7");
    assert_eq!(&u64_text(123456), "123456");
    let long_list = Iota::List(IotaList::Unknown(Some(123456)));
    assert_eq!(&long_list.canonical_text(), "[UNKOWN, len=123456]");
}
