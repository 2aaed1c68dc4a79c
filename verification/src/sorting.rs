//! The order of texts, by the values of their UTF-8 bytes, and sorting by it.
use crate::text;
use vstd::prelude::*;
use vstd::relations::*;

verus! {

/// The lexicographic order of byte strings.
pub open spec fn bytes_le(left: Seq<u8>, right: Seq<u8>) -> bool
    decreases left.len(),
{
    left.len() == 0 || (right.len() > 0 && (left[0] < right[0] || (left[0] == right[0] && bytes_le(
        left.drop_first(),
        right.drop_first(),
    ))))
}

/// The order of texts: that of their UTF-8 bytes.
pub open spec fn text_le(left: Seq<char>, right: Seq<char>) -> bool {
    bytes_le(vstd::utf8::encode_utf8(left), vstd::utf8::encode_utf8(right))
}

/// The order of texts as a relation.
pub open spec fn text_order() -> spec_fn(Seq<char>, Seq<char>) -> bool {
    |left: Seq<char>, right: Seq<char>| text_le(left, right)
}

proof fn lemma_bytes_antisymmetric(left: Seq<u8>, right: Seq<u8>)
    requires
        bytes_le(left, right),
        bytes_le(right, left),
    ensures
        left == right,
    decreases left.len(),
{
    if left.len() > 0 && right.len() > 0 {
        lemma_bytes_antisymmetric(left.drop_first(), right.drop_first());
        assert(left =~= seq![left[0]] + left.drop_first());
        assert(right =~= seq![right[0]] + right.drop_first());
    } else {
        assert(left =~= right);
    }
}

proof fn lemma_bytes_transitive(left: Seq<u8>, middle: Seq<u8>, right: Seq<u8>)
    requires
        bytes_le(left, middle),
        bytes_le(middle, right),
    ensures
        bytes_le(left, right),
    decreases left.len(),
{
    if left.len() > 0 && left[0] == middle[0] && middle[0] == right[0] {
        lemma_bytes_transitive(left.drop_first(), middle.drop_first(), right.drop_first());
    }
}

proof fn lemma_bytes_total(left: Seq<u8>, right: Seq<u8>)
    ensures
        bytes_le(left, right) || bytes_le(right, left),
    decreases left.len(),
{
    if left.len() > 0 && right.len() > 0 && left[0] == right[0] {
        lemma_bytes_total(left.drop_first(), right.drop_first());
    }
}

proof fn lemma_bytes_reflexive(bytes: Seq<u8>)
    ensures
        bytes_le(bytes, bytes),
    decreases bytes.len(),
{
    if bytes.len() > 0 {
        lemma_bytes_reflexive(bytes.drop_first());
    }
}

/// The order of texts is total: of any two texts one precedes the other, and two that precede
/// each other are the same.
pub proof fn text_order_is_total()
    ensures
        total_ordering(text_order()),
{
    let order = text_order();
    assert forall|a: Seq<char>| #[trigger] order(a, a) by {
        lemma_bytes_reflexive(vstd::utf8::encode_utf8(a));
    }
    assert forall|a: Seq<char>, b: Seq<char>| #[trigger] order(a, b) && #[trigger] order(b, a) implies a
        == b by {
        lemma_bytes_antisymmetric(vstd::utf8::encode_utf8(a), vstd::utf8::encode_utf8(b));
        vstd::utf8::encode_utf8_decode_utf8(a);
        vstd::utf8::encode_utf8_decode_utf8(b);
    }
    assert forall|a: Seq<char>, b: Seq<char>, c: Seq<char>| #[trigger]
        order(a, b) && #[trigger] order(b, c) implies order(a, c) by {
        lemma_bytes_transitive(
            vstd::utf8::encode_utf8(a),
            vstd::utf8::encode_utf8(b),
            vstd::utf8::encode_utf8(c),
        );
    }
    assert forall|a: Seq<char>, b: Seq<char>| #[trigger] order(a, b) || #[trigger] order(b, a) by {
        lemma_bytes_total(vstd::utf8::encode_utf8(a), vstd::utf8::encode_utf8(b));
    }
}

/// Whether one text precedes another or is the same.
pub fn precedes(left: &str, right: &str) -> (result: bool)
    ensures
        result == text_le(left@, right@),
{
    let a = left.as_bytes();
    let b = right.as_bytes();
    let mut index: usize = 0;
    assert(a@.skip(0) =~= a@);
    assert(b@.skip(0) =~= b@);
    while index < a.len() && index < b.len() && a[index] == b[index]
        invariant
            index <= a@.len(),
            index <= b@.len(),
            bytes_le(a@, b@) == bytes_le(a@.skip(index as int), b@.skip(index as int)),
        decreases a@.len() - index,
    {
        proof {
            assert(a@.skip(index as int).drop_first() =~= a@.skip(index + 1));
            assert(b@.skip(index as int).drop_first() =~= b@.skip(index + 1));
        }
        index = index + 1;
    }
    index == a.len() || (index < b.len() && a[index] < b[index])
}

proof fn lemma_insert_keeps_sorted(before: Seq<Seq<char>>, place: int, entry: Seq<char>)
    requires
        sorted_by(before, text_order()),
        0 <= place <= before.len(),
        place > 0 ==> text_order()(before[place - 1], entry),
        forall|i: int| place <= i < before.len() ==> text_order()(entry, #[trigger] before[i]),
    ensures
        sorted_by(before.insert(place, entry), text_order()),
{
    text_order_is_total();
    let order = text_order();
    let after = before.insert(place, entry);
    before.insert_ensures(place, entry);
    assert forall|i: int| 0 <= i < place implies order(#[trigger] before[i], entry) by {
        if i < place - 1 {
            assert(order(before[i], before[place - 1]));
        }
    }
    assert forall|i: int, j: int| 0 <= i < j < after.len() implies #[trigger] order(
        after[i],
        after[j],
    ) by {
        let a = if i < place {
            i
        } else {
            i - 1
        };
        let b = if j < place {
            j
        } else {
            j - 1
        };
        if i != place && j != place {
            assert(order(before[a], before[b]));
        } else if i == place {
            assert(after[j] == before[b]);
        } else {
            assert(after[i] == before[a]);
        }
    }
}

/// Sorts texts in ascending order.
pub fn sort(entries: Vec<String>) -> (sorted: Vec<String>)
    ensures
        text::texts(sorted@) == text::texts(entries@).sort_by(text_order()),
{
    proof {
        text_order_is_total();
    }
    let ghost order = text_order();
    let ghost all = text::texts(entries@);
    let ghost source = entries@;
    let mut sorted: Vec<String> = Vec::new();
    assert(text::texts(sorted@) =~= all.take(0));
    for entry in it: entries
        invariant
            total_ordering(order),
            order == text_order(),
            it.seq() == source,
            all == text::texts(source),
            sorted_by(text::texts(sorted@), order),
            text::texts(sorted@).to_multiset() == all.take(it.index()).to_multiset(),
    {
        let mut place: usize = sorted.len();
        while place > 0 && !precedes(sorted[place - 1].as_str(), entry.as_str())
            invariant
                place <= sorted@.len(),
                total_ordering(order),
                order == text_order(),
                sorted_by(text::texts(sorted@), order),
                forall|i: int|
                    place <= i < sorted@.len() ==> order(entry@, #[trigger] text::texts(sorted@)[i]),
            decreases place,
        {
            assert(!order(text::texts(sorted@)[place - 1], entry@));
            place = place - 1;
        }
        let ghost before = text::texts(sorted@);
        proof {
            if place > 0 {
                assert(order(before[place - 1], entry@));
            }
            lemma_insert_keeps_sorted(before, place as int, entry@);
            vstd::seq_lib::to_multiset_insert(before, place as int, entry@);
            let index = it.index();
            assert(all.take(index + 1) =~= all.take(index).push(entry@));
            all.take(index).to_multiset_ensures();
        }
        sorted.insert(place, entry);
        assert(text::texts(sorted@) =~= before.insert(place as int, entry@));
    }
    proof {
        assert(all.take(all.len() as int) =~= all);
        all.lemma_sort_by_ensures(order);
        vstd::seq_lib::lemma_sorted_unique(text::texts(sorted@), all.sort_by(order), order);
    }
    sorted
}

} // verus!
