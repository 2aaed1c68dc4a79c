//! File paths as byte strings whose parts are separated by slashes.
use vstd::prelude::*;
use vstd::string::*;

verus! {

/// The byte that separates the parts of a path.
pub const SEPARATOR: u8 = 47;

/// The byte of a full stop.
pub const FULL_STOP: u8 = 46;

/// A file path.
#[derive(Debug, PartialEq, Eq)]
pub struct FilePath {
    pub bytes: Vec<u8>,
}

impl View for FilePath {
    type V = Seq<u8>;

    open spec fn view(&self) -> Seq<u8> {
        self.bytes@
    }
}

impl Clone for FilePath {
    fn clone(&self) -> (copy: Self)
        ensures
            copy@ == self@,
    {
        let mut bytes: Vec<u8> = Vec::new();
        bytes.extend_from_slice(self.bytes.as_slice());
        assert(bytes@ =~= self@);
        FilePath { bytes }
    }
}

/// Whether a path starts at the root of the file system.
pub open spec fn absolute(path: Seq<u8>) -> bool {
    path.len() > 0 && path[0] == SEPARATOR
}

/// A path as seen from another one: an absolute path stands for itself, another one is appended.
pub open spec fn joined(base: Seq<u8>, child: Seq<u8>) -> Seq<u8> {
    if absolute(child) {
        child
    } else if base.len() > 0 && base.last() != SEPARATOR {
        base.push(SEPARATOR) + child
    } else {
        base + child
    }
}

/// The byte strings between the separators of a path.
pub open spec fn pieces(path: Seq<u8>) -> Seq<Seq<u8>>
    decreases path.len(),
{
    if path.len() == 0 {
        seq![Seq::empty()]
    } else if path.last() == SEPARATOR {
        pieces(path.drop_last()).push(Seq::empty())
    } else {
        let before = pieces(path.drop_last());
        before.drop_last().push(before.last().push(path.last()))
    }
}

/// Whether a piece names something: it is not empty, and `.` counts only at the start of a
/// relative path.
pub open spec fn names(piece: Seq<u8>, index: int, relative: bool) -> bool {
    piece.len() > 0 && (piece != seq![FULL_STOP] || (index == 0 && relative))
}

/// The pieces that name something.
pub open spec fn named_pieces(all: Seq<Seq<u8>>, relative: bool) -> Seq<Seq<u8>>
    decreases all.len(),
{
    if all.len() == 0 {
        Seq::empty()
    } else if names(all.last(), all.len() - 1, relative) {
        named_pieces(all.drop_last(), relative).push(all.last())
    } else {
        named_pieces(all.drop_last(), relative)
    }
}

/// The components of a path: the root, where the path starts there, and the names that follow.
pub open spec fn components(path: Seq<u8>) -> Seq<Seq<u8>> {
    if absolute(path) {
        seq![seq![SEPARATOR]] + named_pieces(pieces(path), false)
    } else {
        named_pieces(pieces(path), true)
    }
}

/// Whether a path lies within a directory or is that directory: the directory's components come
/// first in the path.
pub open spec fn within(path: Seq<u8>, directory: Seq<u8>) -> bool {
    components(directory).is_prefix_of(components(path))
}

/// The byte strings of a list.
pub open spec fn byte_strings(list: Seq<Vec<u8>>) -> Seq<Seq<u8>> {
    Seq::new(list.len(), |i: int| list[i]@)
}

fn same_bytes(left: &Vec<u8>, right: &Vec<u8>) -> (equal: bool)
    ensures
        equal == (left@ == right@),
{
    if left.len() != right.len() {
        return false;
    }
    for index in 0..left.len()
        invariant
            left@.len() == right@.len(),
            forall|i: int| 0 <= i < index ==> left@[i] == right@[i],
    {
        if left[index] != right[index] {
            return false;
        }
    }
    assert(left@ =~= right@);
    true
}

fn split_pieces(path: &Vec<u8>) -> (list: Vec<Vec<u8>>)
    ensures
        byte_strings(list@) == pieces(path@),
{
    let mut list: Vec<Vec<u8>> = Vec::new();
    let mut current: Vec<u8> = Vec::new();
    assert(byte_strings(list@).push(current@) =~= pieces(path@.take(0)));
    for index in 0..path.len()
        invariant
            byte_strings(list@).push(current@) == pieces(path@.take(index as int)),
    {
        let ghost before = pieces(path@.take(index as int));
        let ghost listed = byte_strings(list@);
        assert(path@.take(index + 1).drop_last() =~= path@.take(index as int));
        assert(before.drop_last() =~= listed);
        if path[index] == SEPARATOR {
            list.push(current);
            current = Vec::new();
            assert(byte_strings(list@) =~= before);
            assert(current@ =~= Seq::empty());
        } else {
            current.push(path[index]);
            assert(current@ =~= before.last().push(path@[index as int]));
        }
    }
    assert(path@.take(path@.len() as int) =~= path@);
    let ghost listed = byte_strings(list@);
    let ghost last = current@;
    list.push(current);
    assert(byte_strings(list@) =~= listed.push(last));
    list
}

impl FilePath {
    /// The path that a text spells.
    pub fn from_text(text: &str) -> (path: Self)
        ensures
            path@ == vstd::utf8::encode_utf8(text@),
    {
        FilePath { bytes: text.as_bytes_vec() }
    }

    /// Another path, as seen from this one.
    pub fn join(&self, child: &FilePath) -> (path: Self)
        ensures
            path@ == joined(self@, child@),
    {
        if child.bytes.len() > 0 && child.bytes[0] == SEPARATOR {
            return child.clone();
        }
        let mut path = self.clone();
        if self.bytes.len() > 0 && self.bytes[self.bytes.len() - 1] != SEPARATOR {
            path.bytes.push(SEPARATOR);
        }
        let ghost base = path@;
        for index in 0..child.bytes.len()
            invariant
                path@ == base + child@.take(index as int),
        {
            path.bytes.push(child.bytes[index]);
            assert(path@ =~= base + child@.take(index + 1));
        }
        assert(child@.take(child@.len() as int) =~= child@);
        path
    }

    /// The components of this path.
    pub fn components(&self) -> (list: Vec<Vec<u8>>)
        ensures
            byte_strings(list@) == components(self@),
    {
        let all = split_pieces(&self.bytes);
        let rooted = self.bytes.len() > 0 && self.bytes[0] == SEPARATOR;
        let mut list: Vec<Vec<u8>> = Vec::new();
        if rooted {
            let mut root: Vec<u8> = Vec::new();
            root.push(SEPARATOR);
            assert(root@ =~= seq![SEPARATOR]);
            list.push(root);
        }
        let ghost start = byte_strings(list@);
        let ghost found = byte_strings(all@);
        assert(start =~= if rooted { seq![seq![SEPARATOR]] } else { Seq::empty() });
        assert(named_pieces(found.take(0), !rooted) =~= Seq::empty());
        for index in 0..all.len()
            invariant
                found == byte_strings(all@),
                byte_strings(list@) == start + named_pieces(found.take(index as int), !rooted),
        {
            let piece = &all[index];
            assert(found.take(index + 1).drop_last() =~= found.take(index as int));
            assert(found.take(index + 1).last() == piece@);
            assert(piece@ == seq![FULL_STOP] <==> (piece@.len() == 1 && piece@[0] == FULL_STOP)) by {
                if piece@.len() == 1 && piece@[0] == FULL_STOP {
                    assert(piece@ =~= seq![FULL_STOP]);
                }
            }
            let full_stop = piece.len() == 1 && piece[0] == FULL_STOP;
            if piece.len() > 0 && (!full_stop || (index == 0 && !rooted)) {
                let mut copy: Vec<u8> = Vec::new();
                copy.extend_from_slice(piece.as_slice());
                assert(copy@ =~= piece@);
                let ghost listed = byte_strings(list@);
                list.push(copy);
                assert(byte_strings(list@) =~= listed.push(piece@));
                assert(byte_strings(list@) =~= start + named_pieces(
                    found.take(index + 1),
                    !rooted,
                ));
            }
        }
        assert(found.take(found.len() as int) =~= found);
        assert(byte_strings(list@) =~= components(self@));
        list
    }

    /// Whether this path lies within a directory or is that directory.
    pub fn starts_with(&self, directory: &FilePath) -> (result: bool)
        ensures
            result == within(self@, directory@),
    {
        let path = self.components();
        let base = directory.components();
        let ghost all = components(self@);
        let ghost first = components(directory@);
        if base.len() > path.len() {
            return false;
        }
        for index in 0..base.len()
            invariant
                all == components(self@),
                first == components(directory@),
                byte_strings(path@) == all,
                byte_strings(base@) == first,
                base@.len() <= path@.len(),
                forall|i: int| 0 <= i < index ==> all[i] == first[i],
        {
            if !same_bytes(&path[index], &base[index]) {
                assert(all[index as int] != first[index as int]);
                return false;
            }
            assert(all[index as int] == first[index as int]);
        }
        assert(first =~= all.subrange(0, first.len() as int));
        true
    }
}

/// Whether a byte string is one name: it is not empty, holds no separator, and is not `.`.
pub open spec fn single_name(name: Seq<u8>) -> bool {
    &&& name.len() > 0
    &&& name != seq![FULL_STOP]
    &&& forall|i: int| 0 <= i < name.len() ==> name[i] != SEPARATOR
}

pub(crate) proof fn lemma_pieces_extend(base: Seq<u8>, name: Seq<u8>)
    requires
        forall|i: int| 0 <= i < name.len() ==> name[i] != SEPARATOR,
    ensures
        pieces(base).len() > 0,
        pieces(base + name) == pieces(base).drop_last().push(pieces(base).last() + name),
    decreases name.len(), base.len(),
{
    if name.len() == 0 {
        assert(base + name =~= base);
        if base.len() > 0 {
            lemma_pieces_extend(base.drop_last(), name);
        }
        assert(pieces(base).last() + name =~= pieces(base).last());
        assert(pieces(base) =~= pieces(base).drop_last().push(pieces(base).last()));
    } else {
        lemma_pieces_extend(base, name.drop_last());
        assert((base + name).drop_last() =~= base + name.drop_last());
        let before = pieces(base + name.drop_last());
        assert(before.drop_last() =~= pieces(base).drop_last());
        assert(before.last().push(name.last()) =~= pieces(base).last() + name);
    }
}

/// Joining a single name to a path adds that name to its components and changes no other: the
/// result lies directly within the path.
pub proof fn join_adds_one_component(base: Seq<u8>, name: Seq<u8>)
    requires
        single_name(name),
    ensures
        components(joined(base, name)) == components(base).push(name),
        within(joined(base, name), base),
{
    let relative = !absolute(base);
    let path = joined(base, name);
    if base.len() == 0 {
        lemma_pieces_extend(base, name);
        assert(path =~= name);
        assert(base + name =~= name);
        assert(pieces(base).last() + name =~= name);
        assert(pieces(name) =~= seq![name]);
        assert(seq![name].drop_last() =~= Seq::<Seq<u8>>::empty());
        assert(pieces(base).drop_last() =~= Seq::<Seq<u8>>::empty());
        reveal_with_fuel(named_pieces, 2);
        assert(named_pieces(seq![name], true) =~= seq![name]);
        assert(named_pieces(pieces(base), true) =~= Seq::empty());
        assert(components(path) =~= components(base).push(name));
    } else if base.last() != SEPARATOR {
        lemma_pieces_extend(base.push(SEPARATOR), name);
        assert(base.push(SEPARATOR).drop_last() =~= base);
        assert(pieces(base.push(SEPARATOR)).last() + name =~= name);
        assert(pieces(base.push(SEPARATOR)).drop_last() =~= pieces(base));
        assert(pieces(path).drop_last() =~= pieces(base));
        assert(named_pieces(pieces(path), relative) == named_pieces(pieces(base), relative).push(name));
        assert(components(path) =~= components(base).push(name));
    } else {
        lemma_pieces_extend(base, name);
        assert(pieces(base).last() + name =~= name);
        assert(pieces(path).drop_last() =~= pieces(base).drop_last());
        assert(named_pieces(pieces(path), relative) == named_pieces(
            pieces(base).drop_last(),
            relative,
        ).push(name));
        assert(components(path) =~= components(base).push(name));
    }
    assert(components(base) =~= components(path).subrange(0, components(base).len() as int));
}

} // verus!
