//! The text of a card: a hexadecimal digit for the power, a letter for the
//! class, and a hexadecimal digit for each of the two defenses.

use crate::arrows::Arrows;
use crate::card::{Card, Class};
use vstd::prelude::*;
use vstd::string::*;

verus! {

/// The entry points of the rules engine.
pub struct TetraMaster;

/// The value of a hexadecimal digit, in either case.
pub open spec fn spec_hex_value(c: char) -> Option<u8> {
    let n = c as u32;
    if 48 <= n <= 57 {
        Some((n - 48) as u8)
    } else if 65 <= n <= 70 {
        Some((n - 55) as u8)
    } else if 97 <= n <= 102 {
        Some((n - 87) as u8)
    } else {
        None
    }
}

/// The class that a letter names, in either case.
pub open spec fn spec_class_of(c: char) -> Option<Class> {
    if c == 'p' || c == 'P' {
        Some(Class::Physical)
    } else if c == 'm' || c == 'M' {
        Some(Class::Magical)
    } else if c == 'x' || c == 'X' {
        Some(Class::Flexible)
    } else if c == 'a' || c == 'A' {
        Some(Class::Assault)
    } else {
        None
    }
}

/// The upper-case hexadecimal digit of a level.
pub open spec fn spec_hex_digit(v: u8) -> char {
    if v == 0 {
        '0'
    } else if v == 1 {
        '1'
    } else if v == 2 {
        '2'
    } else if v == 3 {
        '3'
    } else if v == 4 {
        '4'
    } else if v == 5 {
        '5'
    } else if v == 6 {
        '6'
    } else if v == 7 {
        '7'
    } else if v == 8 {
        '8'
    } else if v == 9 {
        '9'
    } else if v == 10 {
        'A'
    } else if v == 11 {
        'B'
    } else if v == 12 {
        'C'
    } else if v == 13 {
        'D'
    } else if v == 14 {
        'E'
    } else {
        'F'
    }
}

/// A statistic in upper-case hexadecimal: one digit for a level, two for a
/// larger value.
pub open spec fn spec_hex_text(v: u8) -> Seq<char> {
    if v < 16 {
        seq![spec_hex_digit(v)]
    } else {
        seq![spec_hex_digit(v / 16), spec_hex_digit(v % 16)]
    }
}

/// The card that a text encodes, if it encodes one: exactly four characters,
/// of which the second names the class and the others are hexadecimal digits.
pub open spec fn spec_parse_card(s: Seq<char>) -> Option<Card> {
    if s.len() != 4 {
        None
    } else {
        match (
            spec_hex_value(s[0]),
            spec_class_of(s[1]),
            spec_hex_value(s[2]),
            spec_hex_value(s[3]),
        ) {
            (Some(power), Some(class), Some(phys_def), Some(mag_def)) => Some(
                Card {
                    power,
                    class,
                    physical_defense: phys_def,
                    magical_defense: mag_def,
                    arrows: Arrows { flags: 0 },
                },
            ),
            _ => None,
        }
    }
}

/// The text of a card.
pub open spec fn spec_card_text(card: Card) -> Seq<char> {
    spec_hex_text(card.power) + seq![card.class.letter()] + spec_hex_text(card.physical_defense)
        + spec_hex_text(card.magical_defense)
}

/// A character with a lower-case ASCII letter turned into its upper-case form.
pub open spec fn spec_upper(c: char) -> char {
    let n = c as u32;
    if 97 <= n <= 122 {
        ((n - 32) as u32) as char
    } else {
        c
    }
}

/// Whether a text is a card's encoding.
pub open spec fn is_card_text(s: Seq<char>) -> bool {
    &&& s.len() == 4
    &&& spec_hex_value(s[0]).is_some()
    &&& spec_class_of(s[1]).is_some()
    &&& spec_hex_value(s[2]).is_some()
    &&& spec_hex_value(s[3]).is_some()
}

/// A hexadecimal digit stands for a level, and the digit of that level is the
/// digit in upper case.
pub proof fn lemma_hex_digit_of_value(c: char)
    requires
        spec_hex_value(c).is_some(),
    ensures
        spec_hex_value(c).unwrap() <= 15,
        spec_hex_digit(spec_hex_value(c).unwrap()) == spec_upper(c),
{
    let n = c as u32;
    if 48 <= n <= 57 {
        assert(c == '0' || c == '1' || c == '2' || c == '3' || c == '4' || c == '5' || c == '6'
            || c == '7' || c == '8' || c == '9');
    } else if 65 <= n <= 70 {
        assert(c == 'A' || c == 'B' || c == 'C' || c == 'D' || c == 'E' || c == 'F');
    } else {
        assert(c == 'a' || c == 'b' || c == 'c' || c == 'd' || c == 'e' || c == 'f');
    }
}

/// Reading a text and writing the card again gives the text in upper case;
/// a text that is no encoding gives no card.
pub proof fn lemma_parse_then_write(s: Seq<char>)
    ensures
        is_card_text(s) ==> spec_parse_card(s).is_some() && spec_parse_card(
            s,
        ).unwrap().well_formed() && spec_card_text(spec_parse_card(s).unwrap()) == Seq::new(
            4,
            |i: int| spec_upper(s[i]),
        ),
        !is_card_text(s) ==> spec_parse_card(s).is_none(),
{
    if is_card_text(s) {
        lemma_hex_digit_of_value(s[0]);
        lemma_hex_digit_of_value(s[2]);
        lemma_hex_digit_of_value(s[3]);
        let card = spec_parse_card(s).unwrap();
        assert(card.class.letter() == spec_upper(s[1]));
        assert(spec_card_text(card) =~= Seq::new(4, |i: int| spec_upper(s[i])));
    }
}

/// Writing a well-formed card without arrows and reading the text gives the
/// card back.
pub proof fn lemma_write_then_parse(card: Card)
    requires
        card.well_formed(),
        card.arrows.flags == 0,
    ensures
        is_card_text(spec_card_text(card)),
        spec_parse_card(spec_card_text(card)) == Some(card),
{
    let s = spec_card_text(card);
    assert(s =~= seq![
        spec_hex_digit(card.power),
        card.class.letter(),
        spec_hex_digit(card.physical_defense),
        spec_hex_digit(card.magical_defense),
    ]);
}

/// The value of a hexadecimal digit.
pub fn hex_value(c: char) -> (v: Option<u8>)
    ensures
        v == spec_hex_value(c),
{
    let n: u32 = c as u32;
    if 48 <= n && n <= 57 {
        Some((n - 48) as u8)
    } else if 65 <= n && n <= 70 {
        Some((n - 55) as u8)
    } else if 97 <= n && n <= 102 {
        Some((n - 87) as u8)
    } else {
        None
    }
}

/// The class that a letter names.
pub fn class_of(c: char) -> (class: Option<Class>)
    ensures
        class == spec_class_of(c),
{
    if c == 'p' || c == 'P' {
        Some(Class::Physical)
    } else if c == 'm' || c == 'M' {
        Some(Class::Magical)
    } else if c == 'x' || c == 'X' {
        Some(Class::Flexible)
    } else if c == 'a' || c == 'A' {
        Some(Class::Assault)
    } else {
        None
    }
}

/// The upper-case hexadecimal digit of a level, as a text of one character.
fn hex_digit_text(v: u8) -> (s: &'static str)
    requires
        v < 16,
    ensures
        s@ == seq![spec_hex_digit(v)],
{
    proof {
        reveal_strlit("0");
        reveal_strlit("1");
        reveal_strlit("2");
        reveal_strlit("3");
        reveal_strlit("4");
        reveal_strlit("5");
        reveal_strlit("6");
        reveal_strlit("7");
        reveal_strlit("8");
        reveal_strlit("9");
        reveal_strlit("A");
        reveal_strlit("B");
        reveal_strlit("C");
        reveal_strlit("D");
        reveal_strlit("E");
        reveal_strlit("F");
    }
    let s: &'static str = if v == 0 {
        "0"
    } else if v == 1 {
        "1"
    } else if v == 2 {
        "2"
    } else if v == 3 {
        "3"
    } else if v == 4 {
        "4"
    } else if v == 5 {
        "5"
    } else if v == 6 {
        "6"
    } else if v == 7 {
        "7"
    } else if v == 8 {
        "8"
    } else if v == 9 {
        "9"
    } else if v == 10 {
        "A"
    } else if v == 11 {
        "B"
    } else if v == 12 {
        "C"
    } else if v == 13 {
        "D"
    } else if v == 14 {
        "E"
    } else {
        "F"
    };
    assert(s@ =~= seq![spec_hex_digit(v)]);
    s
}

/// Appends a statistic in upper-case hexadecimal.
fn append_hex(text: &mut String, v: u8)
    ensures
        final(text)@ == old(text)@ + spec_hex_text(v),
{
    if v < 16 {
        text.append(hex_digit_text(v));
    } else {
        text.append(hex_digit_text(v / 16));
        text.append(hex_digit_text(v % 16));
        assert(text@ =~= old(text)@ + spec_hex_text(v));
    }
}

impl Class {
    /// The class letter as a text of one character.
    fn letter_text(&self) -> (s: &'static str)
        ensures
            s@ == seq![self.letter()],
    {
        proof {
            reveal_strlit("P");
            reveal_strlit("M");
            reveal_strlit("X");
            reveal_strlit("A");
        }
        let s: &'static str = match *self {
            Class::Physical => "P",
            Class::Magical => "M",
            Class::Flexible => "X",
            Class::Assault => "A",
        };
        assert(s@ =~= seq![self.letter()]);
        s
    }
}

impl Card {
    /// The text of this card: power, class letter, physical defense, magical
    /// defense.
    pub fn to_string(&self) -> (text: String)
        ensures
            text@ == spec_card_text(*self),
    {
        let mut text = String::new();
        append_hex(&mut text, self.power);
        text.append(self.class.letter_text());
        append_hex(&mut text, self.physical_defense);
        append_hex(&mut text, self.magical_defense);
        assert(text@ =~= spec_card_text(*self));
        text
    }
}

impl TetraMaster {
    /// Reads a card from its text. The card has no arrows.
    pub fn parse_card(values: &str) -> (card: Option<Card>)
        ensures
            card == spec_parse_card(values@),
            card.is_some() <==> is_card_text(values@),
            card.is_some() ==> card.unwrap().well_formed(),
    {
        proof {
            lemma_parse_then_write(values@);
        }
        if values.unicode_len() != 4 {
            return None;
        }
        let power = match hex_value(values.get_char(0)) {
            Some(x) => x,
            None => return None,
        };
        let class = match class_of(values.get_char(1)) {
            Some(x) => x,
            None => return None,
        };
        let phys_def = match hex_value(values.get_char(2)) {
            Some(x) => x,
            None => return None,
        };
        let mag_def = match hex_value(values.get_char(3)) {
            Some(x) => x,
            None => return None,
        };
        Some(Card::new(power, class, phys_def, mag_def))
    }
}

} // verus!
