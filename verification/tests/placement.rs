use fediplace::activity::{ActivityType, CreateActivity, Object};
use fediplace::number::decimal_text;
use fediplace::placement::{id_to_xy, inbox_reply, xy_to_id};
use fediplace::text::whitespace;
use fediplace::{parse_fucky, Fucky, FuckyParseError, Pixel};

/// The placement reader written with std's `split_whitespace` and `parse`.
fn reference(data: &str) -> Result<(String, u16, u16, u8), FuckyParseError> {
    let vals: Vec<&str> = data.split_whitespace().collect();
    if vals.len() != 4 {
        return Err(FuckyParseError::WrongNumberOfArgs);
    }
    let x: u16 = vals[1].parse().map_err(|_| FuckyParseError::InvalidVal1)?;
    let y: u16 = vals[2].parse().map_err(|_| FuckyParseError::InvalidVal2)?;
    let color: u8 = vals[3].parse().map_err(|_| FuckyParseError::InvalidVal3)?;
    Ok((vals[0].to_string(), x, y, color))
}

fn flat(r: Result<Fucky, FuckyParseError>) -> Result<(String, u16, u16, u8), FuckyParseError> {
    r.map(|f| (f.string, f.x, f.y, f.color))
}

fn note(content: &str) -> CreateActivity {
    CreateActivity {
        id: "https://example.social/activities/1".to_string(),
        actor: "https://example.social/users/ann".to_string(),
        kind: ActivityType::Create,
        object: Object {
            id: "https://example.social/notes/1".to_string(),
            kind: ActivityType::Note,
            content: content.to_string(),
        },
    }
}

#[test]
fn parses_a_placement() {
    let f = parse_fucky("@system 12 34 5").unwrap();
    assert_eq!(f.string, "@system");
    assert_eq!((f.x, f.y, f.color), (12, 34, 5));
}

#[test]
fn placement_allows_any_whitespace_between_words() {
    let f = parse_fucky("\t place\n 1 \u{3000}2\u{2003}3  ").unwrap();
    assert_eq!(f.string, "place");
    assert_eq!((f.x, f.y, f.color), (1, 2, 3));
}

#[test]
fn placement_needs_four_words() {
    assert_eq!(flat(parse_fucky("")), Err(FuckyParseError::WrongNumberOfArgs));
    assert_eq!(flat(parse_fucky("   ")), Err(FuckyParseError::WrongNumberOfArgs));
    assert_eq!(flat(parse_fucky("a 1 2")), Err(FuckyParseError::WrongNumberOfArgs));
    assert_eq!(flat(parse_fucky("a 1 2 3 4")), Err(FuckyParseError::WrongNumberOfArgs));
    assert_eq!(flat(parse_fucky("a 1 2 x y z")), Err(FuckyParseError::WrongNumberOfArgs));
}

#[test]
fn placement_errors_name_the_first_bad_word() {
    assert_eq!(flat(parse_fucky("a x 2 3")), Err(FuckyParseError::InvalidVal1));
    assert_eq!(flat(parse_fucky("a 65536 2 3")), Err(FuckyParseError::InvalidVal1));
    assert_eq!(flat(parse_fucky("a x y z")), Err(FuckyParseError::InvalidVal1));
    assert_eq!(flat(parse_fucky("a 1 y 3")), Err(FuckyParseError::InvalidVal2));
    assert_eq!(flat(parse_fucky("a 1 70000 z")), Err(FuckyParseError::InvalidVal2));
    assert_eq!(flat(parse_fucky("a 1 2 256")), Err(FuckyParseError::InvalidVal3));
    assert_eq!(flat(parse_fucky("a 1 2 -1")), Err(FuckyParseError::InvalidVal3));
}

#[test]
fn placement_number_edges() {
    assert_eq!(flat(parse_fucky("a 65535 65535 255")), Ok(("a".to_string(), 65535, 65535, 255)));
    assert_eq!(flat(parse_fucky("a +7 007 +0")), Ok(("a".to_string(), 7, 7, 0)));
    assert_eq!(flat(parse_fucky("a + 1 2")), Err(FuckyParseError::InvalidVal1));
    assert_eq!(flat(parse_fucky("a ++1 1 2")), Err(FuckyParseError::InvalidVal1));
    assert_eq!(flat(parse_fucky("a -0 1 2")), Err(FuckyParseError::InvalidVal1));
    assert_eq!(flat(parse_fucky("a \u{0663} 1 2")), Err(FuckyParseError::InvalidVal1));
    assert_eq!(flat(parse_fucky("a 1_0 1 2")), Err(FuckyParseError::InvalidVal1));
}

#[test]
fn placement_agrees_with_std() {
    let inputs = [
        "a 1 2 3",
        "héllo 1 2 3",
        "ünïcödé\u{a0}9\u{85}8\u{2028}7",
        "a 1 2 3\u{200b}",
        "a\u{200b} 1 2 3",
        "a 00000000000000000001 2 3",
        "a 99999999999999999999 2 3",
        "a 1 2 +255",
        "a 1 2 0256",
        "a\u{1680}1\u{180e}2 3",
        "a\r1\x0b2\x0c3",
        "a 1 2 3\u{1c}",
        "",
        "\u{2000}\u{200a}",
    ];
    for t in inputs.iter() {
        assert_eq!(flat(parse_fucky(t)), reference(t), "on {:?}", t);
    }
}

#[test]
fn whitespace_agrees_with_std() {
    for n in 0u32..=0x10FFFF {
        if let Some(c) = char::from_u32(n) {
            assert_eq!(whitespace(c), c.is_whitespace(), "on U+{:04X}", n);
        }
    }
}

#[test]
fn refusal_messages() {
    assert_eq!(FuckyParseError::WrongNumberOfArgs.to_string(), "Incorrect Number Of args");
    assert_eq!(
        FuckyParseError::InvalidVal1.to_string(),
        "somehow you managed to break the leading string >~<"
    );
    assert_eq!(FuckyParseError::InvalidVal2.to_string(), "X value is invalid");
    assert_eq!(FuckyParseError::InvalidVal3.to_string(), "Y value is invalid");
    assert_eq!(FuckyParseError::InvalidVal4.to_string(), "Color value is invalid");
}

#[test]
fn position_ids() {
    assert_eq!(xy_to_id(0, 0), 0);
    assert_eq!(xy_to_id(1, 2), 65538);
    assert_eq!(xy_to_id(0, 65535), 65535);
    assert_eq!(xy_to_id(0x7fff, 0xffff), i32::MAX);
}

#[test]
fn id_to_xy_is_a_placeholder() {
    assert_eq!(id_to_xy(0), (1, 2));
    assert_eq!(id_to_xy(65538), (1, 2));
}

#[test]
fn new_place_makes_the_row() {
    let (p, f) = Pixel::new_place(note("@system 3 4 5")).unwrap();
    assert_eq!((p.id, p.x, p.y, p.color, p.user), (0x30004, 3, 4, 5, 1));
    assert_eq!(f.string, "@system");
    assert_eq!((f.x, f.y, f.color), (3, 4, 5));
}

#[test]
fn new_place_wraps_high_ids() {
    let (p, _) = Pixel::new_place(note("a 32768 0 1")).unwrap();
    assert_eq!(p.id, i32::MIN);
    let (p, _) = Pixel::new_place(note("a 65535 65535 1")).unwrap();
    assert_eq!(p.id, -1);
    assert_eq!(p.x, 65535);
}

#[test]
fn new_place_refuses_bad_notes() {
    assert!(matches!(Pixel::new_place(note("hello")), Err(FuckyParseError::WrongNumberOfArgs)));
    assert!(matches!(Pixel::new_place(note("a 1 2 300")), Err(FuckyParseError::InvalidVal3)));
}

#[test]
fn distinct_positions_have_distinct_ids() {
    let a = Pixel::new_place(note("a 1 0 0")).unwrap().0.id;
    let b = Pixel::new_place(note("a 0 65536 0"));
    assert!(b.is_err());
    let c = Pixel::new_place(note("a 0 1 0")).unwrap().0.id;
    assert_ne!(a, c);
    assert_eq!(xy_to_id(1, 0), a);
}

#[test]
fn inbox_replies() {
    let ok = parse_fucky("p 10 200 7");
    assert_eq!(inbox_reply(&ok), "placed with x:10, y:200, color:7");
    let bad = parse_fucky("p 10");
    assert_eq!(inbox_reply(&bad), "unable to parse err: Incorrect Number Of args");
    let bad = parse_fucky("p 1 2 x");
    assert_eq!(inbox_reply(&bad), "unable to parse err: Y value is invalid");
}

#[test]
fn decimal_text_writes_numbers() {
    for n in [0u32, 7, 10, 99, 100, 65535, 1_000_000, u32::MAX] {
        assert_eq!(decimal_text(n), n.to_string());
    }
}

#[test]
fn written_placement_reads_back() {
    for (w, x, y, c) in [("z", 0u16, 0u16, 0u8), ("@system", 65535, 1, 255), ("ñ", 40, 4000, 9)] {
        let text = format!("{} {} {} {}", w, x, y, c);
        assert_eq!(flat(parse_fucky(&text)), Ok((w.to_string(), x, y, c)));
    }
}

#[test]
fn surrounding_whitespace_is_ignored() {
    let t = "w 1 2 3";
    for c in [' ', '\n', '\u{3000}'] {
        let before = format!("{}{}", c, t);
        let after = format!("{}{}", t, c);
        assert_eq!(flat(parse_fucky(&before)), flat(parse_fucky(t)));
        assert_eq!(flat(parse_fucky(&after)), flat(parse_fucky(t)));
    }
}
