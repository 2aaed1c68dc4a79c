//! What holds of every text, joined, trimmed, written or ordered.
use crate::sorting;
use crate::text;
use vstd::prelude::*;

verus! {

/// A list of texts is taken as it stands: none is left out, and each keeps its place.
pub proof fn texts_keep_their_places(strings: Seq<String>, slices: Seq<&str>)
    ensures
        text::texts(strings).len() == strings.len(),
        forall|i: int| 0 <= i < strings.len() ==> #[trigger] text::texts(strings)[i] == strings[i]@,
        text::slices(slices).len() == slices.len(),
        forall|i: int| 0 <= i < slices.len() ==> #[trigger] text::slices(slices)[i] == slices[i]@,
{
}

/// An optional text is there exactly where it was given, and is the one that was given.
pub proof fn optional_texts_are_kept(slice: Option<&str>, string: Option<String>)
    ensures
        text::optional_text(slice) is Some <==> slice is Some,
        slice is Some ==> text::optional_text(slice)->0 == slice->0@,
        text::optional_string(string) is Some <==> string is Some,
        string is Some ==> text::optional_string(string)->0 == string->0@,
{
}

/// A text is blank exactly where each of its characters has one of the 25 code points of white
/// space.
pub proof fn blank_texts_hold_white_space_alone(row: Seq<char>)
    ensures
        text::blank(row) <==> forall|i: int|
            #![trigger row[i]]
            0 <= i < row.len() ==> {
                let code = row[i] as int;
                ||| 0x9 <= code <= 0xd
                ||| code == 0x20
                ||| code == 0x85
                ||| code == 0xa0
                ||| code == 0x1680
                ||| 0x2000 <= code <= 0x200a
                ||| code == 0x2028
                ||| code == 0x2029
                ||| code == 0x202f
                ||| code == 0x205f
                ||| code == 0x3000
            },
{
}

/// Two texts in a row are blank exactly where both are.
pub proof fn blankness_of_a_row(first: Seq<char>, second: Seq<char>)
    ensures
        text::blank(first + second) <==> text::blank(first) && text::blank(second),
{
    let row = first + second;
    if text::blank(row) {
        assert forall|i: int| 0 <= i < first.len() implies text::white_space(
            #[trigger] first[i],
        ) by {
            assert(row[i] == first[i]);
        }
        assert forall|i: int| 0 <= i < second.len() implies text::white_space(
            #[trigger] second[i],
        ) by {
            assert(row[first.len() + i] == second[i]);
        }
    }
}

/// Trimming takes away slashes at the end, all of them, and nothing else.
pub proof fn trimming_takes_trailing_slashes_alone(row: Seq<char>)
    ensures
        text::without_trailing_slashes(row).len() <= row.len(),
        text::without_trailing_slashes(row) == row.take(
            text::without_trailing_slashes(row).len() as int,
        ),
        forall|i: int|
            text::without_trailing_slashes(row).len() <= i < row.len() ==> #[trigger] row[i] == '/',
        text::without_trailing_slashes(row).len() > 0 ==> text::without_trailing_slashes(row).last()
            != '/',
    decreases row.len(),
{
    let kept = text::without_trailing_slashes(row);
    if row.len() > 0 && row.last() == '/' {
        let rest = row.drop_last();
        trimming_takes_trailing_slashes_alone(rest);
        assert(kept =~= row.take(kept.len() as int));
        assert forall|i: int| kept.len() <= i < row.len() implies #[trigger] row[i] == '/' by {
            if i < rest.len() {
                assert(rest[i] == row[i]);
            }
        }
    } else {
        assert(kept =~= row.take(kept.len() as int));
    }
}

/// No text gives none, one text gives itself, and a row may be put together from two shorter
/// rows with the separator between them.
pub proof fn rows_are_put_together(parts: Seq<Seq<char>>, separator: Seq<char>, cut: int)
    ensures
        parts.len() == 0 ==> text::joined(parts, separator).len() == 0,
        parts.len() == 1 ==> text::joined(parts, separator) == parts[0],
        0 < cut < parts.len() ==> text::joined(parts, separator) == text::joined(
            parts.take(cut),
            separator,
        ) + separator + text::joined(parts.skip(cut), separator),
    decreases parts.len(),
{
    if 0 < cut < parts.len() {
        let front = parts.take(cut);
        let back = parts.skip(cut);
        if cut == parts.len() - 1 {
            assert(front =~= parts.drop_last());
            assert(back =~= seq![parts.last()]);
        } else {
            let rest = parts.drop_last();
            rows_are_put_together(rest, separator, cut);
            assert(rest.take(cut) =~= front);
            assert(rest.skip(cut) =~= back.drop_last());
            assert(back.last() == parts.last());
            assert(text::joined(parts, separator) =~= text::joined(front, separator) + separator
                + text::joined(back, separator));
        }
    }
}

/// A number is written in decimal digits: its last digit is what remains of a division by ten, the
/// digits before it are those of the quotient, and a number below ten has one digit.
pub proof fn digits_are_decimal(number: nat)
    ensures
        text::decimal_digits(number).len() > 0,
        text::decimal_digits(number).last() as int == '0' as int + number % 10,
        number < 10 ==> text::decimal_digits(number).len() == 1,
        number >= 10 ==> text::decimal_digits(number).drop_last() == text::decimal_digits(
            number / 10,
        ),
{
    if number >= 10 {
        assert(text::decimal_digits(number).drop_last() =~= text::decimal_digits(number / 10));
    }
}

/// Different numbers have different digits.
pub proof fn different_numbers_have_different_digits(left: nat, right: nat)
    requires
        text::decimal_digits(left) == text::decimal_digits(right),
    ensures
        left == right,
    decreases left,
{
    digits_are_decimal(left);
    digits_are_decimal(right);
    if left >= 10 {
        if right >= 10 {
            different_numbers_have_different_digits(left / 10, right / 10);
        } else {
            digits_are_decimal(left / 10);
        }
    } else if right >= 10 {
        digits_are_decimal(right / 10);
    }
}

/// At the first byte in which two byte strings differ, the smaller byte comes first; where they
/// differ in none, the shorter string does.
pub proof fn first_difference_decides(left: Seq<u8>, right: Seq<u8>, place: int)
    requires
        0 <= place <= left.len(),
        place <= right.len(),
        forall|i: int| 0 <= i < place ==> left[i] == right[i],
        place < left.len() && place < right.len() ==> left[place] != right[place],
    ensures
        place < left.len() && place < right.len() ==> (sorting::bytes_le(left, right) <==> left[place]
            < right[place]),
        place == left.len() ==> sorting::bytes_le(left, right),
        place == right.len() && place < left.len() ==> !sorting::bytes_le(left, right),
    decreases place,
{
    if place > 0 {
        assert(left[0] == right[0]);
        first_difference_decides(left.drop_first(), right.drop_first(), place - 1);
    }
}

/// Texts are ordered by their UTF-8 bytes.
pub proof fn texts_are_ordered_by_bytes(left: Seq<char>, right: Seq<char>)
    ensures
        sorting::text_le(left, right) <==> sorting::bytes_le(
            vstd::utf8::encode_utf8(left),
            vstd::utf8::encode_utf8(right),
        ),
        sorting::text_order()(left, right) <==> sorting::bytes_le(
            vstd::utf8::encode_utf8(left),
            vstd::utf8::encode_utf8(right),
        ),
{
}

/// Sorting leaves out no text, adds none, and puts each before those that follow it in the order.
pub proof fn sorting_keeps_every_text(list: Seq<Seq<char>>)
    ensures
        list.sort_by(sorting::text_order()).to_multiset() == list.to_multiset(),
        list.sort_by(sorting::text_order()).len() == list.len(),
        forall|i: int, j: int|
            0 <= i < j < list.len() ==> sorting::bytes_le(
                #[trigger] vstd::utf8::encode_utf8(list.sort_by(sorting::text_order())[i]),
                #[trigger] vstd::utf8::encode_utf8(list.sort_by(sorting::text_order())[j]),
            ),
{
    let order = sorting::text_order();
    let sorted = list.sort_by(order);
    sorting::text_order_is_total();
    list.lemma_sort_by_ensures(order);
    list.to_multiset_ensures();
    sorted.to_multiset_ensures();
    assert forall|i: int, j: int| 0 <= i < j < list.len() implies sorting::bytes_le(
        #[trigger] vstd::utf8::encode_utf8(sorted[i]),
        #[trigger] vstd::utf8::encode_utf8(sorted[j]),
    ) by {
        assert(order(sorted[i], sorted[j]));
    }
}

} // verus!
