//! Text: comparison, blankness, joining and decimal numbers.
use vstd::prelude::*;
use vstd::string::*;

verus! {

/// The characters of each text of a list.
pub open spec fn texts(strings: Seq<String>) -> Seq<Seq<char>> {
    Seq::new(strings.len(), |i: int| strings[i]@)
}

/// The characters of an optional text.
pub open spec fn optional_text(value: Option<&str>) -> Option<Seq<char>> {
    match value {
        Some(value) => Some(value@),
        None => None,
    }
}

/// The characters of each text of a list.
pub open spec fn slices(list: Seq<&str>) -> Seq<Seq<char>> {
    Seq::new(list.len(), |i: int| list[i]@)
}

/// What an optional text is.
pub open spec fn optional_string(value: Option<String>) -> Option<Seq<char>> {
    match value {
        Some(value) => Some(value@),
        None => None,
    }
}

/// Whether two texts are the same.
pub fn same(left: &str, right: &str) -> (equal: bool)
    ensures
        equal == (left@ == right@),
{
    let a = left.as_bytes();
    let b = right.as_bytes();
    proof {
        vstd::utf8::encode_utf8_decode_utf8(left@);
        vstd::utf8::encode_utf8_decode_utf8(right@);
    }
    if a.len() != b.len() {
        return false;
    }
    for index in 0..a.len()
        invariant
            a@ == vstd::utf8::encode_utf8(left@),
            b@ == vstd::utf8::encode_utf8(right@),
            a@.len() == b@.len(),
            forall|i: int| 0 <= i < index ==> a@[i] == b@[i],
    {
        if a[index] != b[index] {
            return false;
        }
    }
    assert(a@ =~= b@);
    true
}

/// The characters with the Unicode property `White_Space`.
pub open spec fn white_space(c: char) -> bool {
    ||| '\u{9}' <= c <= '\u{d}'
    ||| c == ' '
    ||| c == '\u{85}'
    ||| c == '\u{a0}'
    ||| c == '\u{1680}'
    ||| '\u{2000}' <= c <= '\u{200a}'
    ||| c == '\u{2028}'
    ||| c == '\u{2029}'
    ||| c == '\u{202f}'
    ||| c == '\u{205f}'
    ||| c == '\u{3000}'
}

/// `char::is_whitespace` holds of exactly the characters with the Unicode property `White_Space`.
pub assume_specification[ char::is_whitespace ](c: char) -> (white: bool)
    ensures
        white == white_space(c),
;

/// Whether a text holds nothing but white space.
pub open spec fn blank(text: Seq<char>) -> bool {
    forall|i: int| 0 <= i < text.len() ==> white_space(#[trigger] text[i])
}

/// Whether a text holds nothing but white space.
pub fn is_blank(text: &str) -> (result: bool)
    ensures
        result == blank(text@),
{
    let mut result: bool = true;
    for c in it: text.chars()
        invariant
            it.seq() == text@,
            result == (forall|i: int| 0 <= i < it.index() ==> white_space(#[trigger] text@[i])),
    {
        if !c.is_whitespace() {
            result = false;
        }
    }
    result
}

/// A text without the slashes at its end.
pub open spec fn without_trailing_slashes(text: Seq<char>) -> Seq<char>
    decreases text.len(),
{
    if text.len() > 0 && text.last() == '/' {
        without_trailing_slashes(text.drop_last())
    } else {
        text
    }
}

/// Drops the slashes at the end of a text.
pub fn trim_trailing_slashes(text: &str) -> (trimmed: &str)
    ensures
        trimmed@ == without_trailing_slashes(text@),
{
    let mut length: usize = text.unicode_len();
    assert(text@.take(length as int) =~= text@);
    while length > 0 && text.get_char(length - 1) == '/'
        invariant
            length <= text@.len(),
            without_trailing_slashes(text@) == without_trailing_slashes(text@.take(length as int)),
        decreases length,
    {
        proof {
            assert(text@.take(length as int).drop_last() =~= text@.take(length - 1));
        }
        length = length - 1;
    }
    text.substring_char(0, length)
}

/// Texts in a row, with a separator between any two neighbours.
pub open spec fn joined(parts: Seq<Seq<char>>, separator: Seq<char>) -> Seq<char>
    decreases parts.len(),
{
    if parts.len() == 0 {
        Seq::empty()
    } else if parts.len() == 1 {
        parts[0]
    } else {
        joined(parts.drop_last(), separator) + separator + parts.last()
    }
}

/// Puts texts in a row, with a separator between any two neighbours.
pub fn join(parts: &Vec<String>, separator: &str) -> (row: String)
    ensures
        row@ == joined(texts(parts@), separator@),
{
    let mut row = String::new();
    let ghost all = texts(parts@);
    for index in 0..parts.len()
        invariant
            all == texts(parts@),
            row@ == joined(all.take(index as int), separator@),
    {
        proof {
            let taken = all.take(index + 1);
            assert(taken.drop_last() =~= all.take(index as int));
            assert(taken.last() == parts@[index as int]@);
        }
        if index > 0 {
            row.append(separator);
        }
        row.append(parts[index].as_str());
        proof {
            if index == 0 {
                assert(row@ =~= parts@[0]@);
            }
        }
    }
    assert(all.take(parts@.len() as int) =~= all);
    row
}

/// One text followed by another.
pub fn together(first: &str, second: &str) -> (row: String)
    ensures
        row@ == first@ + second@,
{
    let mut row = first.to_owned();
    row.append(second);
    row
}

/// The decimal digits of a number, without leading zeros.
pub open spec fn decimal_digits(number: nat) -> Seq<char>
    decreases number,
{
    if number < 10 {
        seq![digit(number)]
    } else {
        decimal_digits(number / 10).push(digit(number % 10))
    }
}

/// The character of a decimal digit.
pub open spec fn digit(value: nat) -> char
    recommends
        value < 10,
{
    ('0' as nat + value) as char
}

/// A number in decimal digits, without leading zeros.
pub fn decimal(number: u128) -> (row: String)
    ensures
        row@ == decimal_digits(number as nat),
    decreases number,
{
    let low = digit_text((number % 10) as u8);
    if number < 10 {
        assert(low@ =~= decimal_digits(number as nat));
        low
    } else {
        let mut row = decimal(number / 10);
        row.append(low.as_str());
        assert(row@ =~= decimal_digits(number as nat));
        row
    }
}

fn digit_text(value: u8) -> (row: String)
    requires
        value < 10,
    ensures
        row@ == seq![digit(value as nat)],
{
    proof {
        reveal_strlit("0");
        reveal_strlit("1");
        reveal_strlit("2");
        reveal_strlit("3");
        reveal_strlit("4");
        reveal_strlit("5");
        reveal_strlit("6");
        reveal_strlit("7");
        reveal_strlit("8");
        reveal_strlit("9");
    }
    let row = match value {
        0 => "0",
        1 => "1",
        2 => "2",
        3 => "3",
        4 => "4",
        5 => "5",
        6 => "6",
        7 => "7",
        8 => "8",
        _ => "9",
    };
    assert(row@ =~= seq![digit(value as nat)]);
    row.to_owned()
}

} // verus!
