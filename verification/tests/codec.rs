use tetra_master::{Arrows, Card, Class, Space, PlacedCard, OwnedCard, TetraMaster};

#[test]
fn parses_the_documented_example() {
    let card = TetraMaster::parse_card("1M23").expect("a card");
    assert_eq!(card.power, 1);
    assert_eq!(card.class, Class::Magical);
    assert_eq!(card.physical_defense, 2);
    assert_eq!(card.magical_defense, 3);
    assert_eq!(card.arrows, Arrows::from_flags(0));
}

#[test]
fn parses_either_case() {
    let lower = TetraMaster::parse_card("fxae").expect("a card");
    let upper = TetraMaster::parse_card("FXAE").expect("a card");
    assert_eq!(lower, upper);
    assert_eq!(lower, Card::new(15, Class::Flexible, 10, 14));
    assert_eq!(TetraMaster::parse_card("0p00").unwrap().class, Class::Physical);
    assert_eq!(TetraMaster::parse_card("0a00").unwrap().class, Class::Assault);
    assert_eq!(TetraMaster::parse_card("0A00").unwrap().class, Class::Assault);
}

#[test]
fn rejects_a_wrong_length() {
    assert!(TetraMaster::parse_card("").is_none());
    assert!(TetraMaster::parse_card("1M2").is_none());
    assert!(TetraMaster::parse_card("1M234").is_none());
    assert!(TetraMaster::parse_card("1M2\u{e9}\u{e9}").is_none());
}

#[test]
fn counts_characters_not_bytes() {
    // four characters, more than four bytes: refused for the digit, not the length
    assert!(TetraMaster::parse_card("1M2\u{e9}").is_none());
    assert!(TetraMaster::parse_card("\u{ff11}M23").is_none());
}

#[test]
fn rejects_a_bad_digit() {
    assert!(TetraMaster::parse_card("GM23").is_none());
    assert!(TetraMaster::parse_card("1Mg3").is_none());
    assert!(TetraMaster::parse_card("1M2 ").is_none());
    assert!(TetraMaster::parse_card("+M23").is_none());
    assert!(TetraMaster::parse_card("1M-3").is_none());
}

#[test]
fn rejects_a_bad_class() {
    assert!(TetraMaster::parse_card("1Q23").is_none());
    assert!(TetraMaster::parse_card("1123").is_none());
    assert!(TetraMaster::parse_card("1\u{212b}23").is_none());
}

#[test]
fn writes_upper_case() {
    assert_eq!(Card::new(1, Class::Magical, 2, 3).to_string(), "1M23");
    assert_eq!(Card::new(15, Class::Physical, 0, 0).to_string(), "FP00");
    assert_eq!(Card::new(10, Class::Flexible, 11, 12).to_string(), "AXBC");
    assert_eq!(Card::new(13, Class::Assault, 14, 9).to_string(), "DAE9");
}

#[test]
fn writes_two_digits_for_a_value_that_is_no_level() {
    assert_eq!(Card::new(255, Class::Physical, 16, 0).to_string(), "FFP100");
}

#[test]
fn round_trip_over_every_encoding() {
    let digits = "0123456789abcdefABCDEF";
    let classes = "pmxaPMXA";
    for p in digits.chars() {
        for c in classes.chars() {
            for d in digits.chars() {
                let text = format!("{}{}{}{}", p, c, d, p);
                let card = TetraMaster::parse_card(&text).expect("a card");
                assert_eq!(card.to_string(), text.to_uppercase());
                assert!(card.power <= 15 && card.physical_defense <= 15);
            }
        }
    }
}

#[test]
fn round_trip_over_every_card() {
    for power in 0..16u8 {
        for phys in 0..16u8 {
            for mag in 0..16u8 {
                let card = Card::new(power, Class::Assault, phys, mag);
                let back = TetraMaster::parse_card(&card.to_string());
                assert_eq!(back, Some(card));
            }
        }
    }
}

#[test]
fn class_letters() {
    assert_eq!(Class::Physical.as_char(), 'P');
    assert_eq!(Class::Magical.as_char(), 'M');
    assert_eq!(Class::Flexible.as_char(), 'X');
    assert_eq!(Class::Assault.as_char(), 'A');
}

#[test]
fn space_text() {
    assert_eq!(Space::Block.to_string(), "XXXX");
    assert_eq!(Space::Empty.to_string(), "    ");
    let card = Card::new(1, Class::Magical, 2, 3);
    let space = Space::Card(PlacedCard::new(OwnedCard::red(card), 1, 1));
    assert_eq!(space.to_string(), "1M23");
}
