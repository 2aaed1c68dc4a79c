//! What holds of every path, and of where files are stored.
use crate::locations;
use crate::path::{self, FilePath};
use vstd::prelude::*;

verus! {

/// A path is taken byte for byte, and so is each byte string of a list.
pub proof fn paths_are_taken_as_they_stand(path: FilePath, list: Seq<Vec<u8>>)
    ensures
        path@ == path.bytes@,
        path::byte_strings(list).len() == list.len(),
        forall|i: int| 0 <= i < list.len() ==> #[trigger] path::byte_strings(list)[i] == list[i]@,
{
}

/// A path that starts with a slash stands for itself, whatever it is seen from. Another one follows
/// the path that it is seen from, with one slash between them where that path does not end with one.
pub proof fn joining_appends_relative_paths(base: Seq<u8>, child: Seq<u8>)
    ensures
        child.len() > 0 && child[0] == 47 ==> path::joined(base, child) == child,
        child.len() == 0 || child[0] != 47 ==> {
            let whole = path::joined(base, child);
            let gap = whole.len() - base.len() - child.len();
            &&& gap == if base.len() > 0 && base.last() != 47 {
                1int
            } else {
                0
            }
            &&& base == whole.take(base.len() as int)
            &&& child == whole.skip(base.len() + gap)
            &&& gap == 1 ==> whole[base.len() as int] == 47
        },
{
    if child.len() == 0 || child[0] != 47 {
        let whole = path::joined(base, child);
        let gap = whole.len() - base.len() - child.len();
        assert(base =~= whole.take(base.len() as int));
        assert(child =~= whole.skip(base.len() + gap));
    }
}

/// The empty path has no component, and the root has itself alone.
pub proof fn shortest_paths()
    ensures
        path::components(Seq::empty()).len() == 0,
        path::components(seq![47u8]) == seq![seq![47u8]],
{
    let root = seq![47u8];
    assert(root.drop_last() =~= Seq::empty());
    assert(path::pieces(Seq::empty()) =~= seq![Seq::empty()]);
    let all = path::pieces(root);
    assert(all =~= seq![Seq::empty(), Seq::empty()]);
    assert(all.drop_last() =~= seq![Seq::empty()]);
    assert(all.drop_last().drop_last() =~= Seq::empty());
    assert(seq![Seq::<u8>::empty()].drop_last() =~= Seq::empty());
    reveal_with_fuel(path::named_pieces, 3);
    assert(path::named_pieces(all, false) =~= Seq::empty());
    assert(path::components(root) =~= seq![seq![47u8]]);
}

proof fn lemma_pieces_exist(path: Seq<u8>)
    ensures
        path::pieces(path).len() > 0,
{
    path::lemma_pieces_extend(path, Seq::empty());
}

/// A slash at the end of a path adds no component.
pub proof fn trailing_slash_adds_nothing(base: Seq<u8>)
    requires
        base.len() > 0,
    ensures
        path::components(base.push(47)) == path::components(base),
{
    let whole = base.push(47);
    assert(whole.drop_last() =~= base);
    lemma_pieces_exist(base);
    assert(path::pieces(whole).drop_last() =~= path::pieces(base));
}

/// A full stop after a slash adds no component.
pub proof fn full_stop_adds_nothing(base: Seq<u8>)
    requires
        base.len() > 0,
    ensures
        path::components(base.push(47).push(46)) == path::components(base),
{
    let whole = base.push(47).push(46);
    assert(whole.drop_last() =~= base.push(47));
    assert(base.push(47).drop_last() =~= base);
    lemma_pieces_exist(base);
    let before = path::pieces(base.push(47));
    assert(before.drop_last() =~= path::pieces(base));
    let last = before.last().push(46);
    assert(last =~= seq![46u8]);
    assert(path::pieces(whole) =~= path::pieces(base).push(last));
    assert(path::pieces(whole).drop_last() =~= path::pieces(base));
}

/// Whether a path is written the shortest way: it starts with a slash, does not end with one unless
/// it is the root, and holds neither two slashes in a row nor a part that is a full stop alone.
pub open spec fn plain(path: Seq<u8>) -> bool {
    &&& path.len() > 0
    &&& path[0] == 47
    &&& path.len() > 1 ==> path.last() != 47
    &&& forall|i: int|
        #![trigger path[i]]
        0 <= i && i + 1 < path.len() && path[i] == 47 ==> path[i + 1] != 47 && (path[i + 1] == 46
            ==> i + 2 < path.len() && path[i + 2] != 47)
}

proof fn lemma_last_slash(path: Seq<u8>, bound: int) -> (place: int)
    requires
        0 <= bound < path.len(),
        path[0] == 47,
    ensures
        0 <= place <= bound,
        path[place] == 47,
        forall|i: int| place < i <= bound ==> path[i] != 47,
    decreases bound,
{
    if path[bound] == 47 {
        bound
    } else {
        lemma_last_slash(path, bound - 1)
    }
}

/// The directory of a plain path other than the root, and the place of its last slash.
proof fn lemma_parent(path: Seq<u8>) -> (parts: (Seq<u8>, Seq<u8>, int))
    requires
        plain(path),
        path.len() > 1,
    ensures
        ({
            let (parent, name, place) = parts;
            &&& plain(parent)
            &&& parent.len() < path.len()
            &&& parent == path.take(parent.len() as int)
            &&& 0 <= place < path.len()
            &&& path[place] == 47
            &&& forall|i: int| place < i < path.len() ==> path[i] != 47
            &&& if place == 0 {
                parent.len() == 1
            } else {
                parent.len() == place
            }
            &&& name == path.skip(place + 1)
            &&& path == path::joined(parent, name)
            &&& path::components(path) == path::components(parent).push(name)
        }),
{
    let place = lemma_last_slash(path, path.len() - 1);
    let name = path.skip(place + 1);
    assert(path[place + 1] != 47);
    assert(name.len() > 0);
    assert(name[0] == path[place + 1]);
    assert(path::single_name(name)) by {
        if name =~= seq![46u8] {
            assert(path[place + 1] == 46);
        }
        assert forall|i: int| 0 <= i < name.len() implies name[i] != 47 by {
            assert(name[i] == path[place + 1 + i]);
        }
    }
    if place == 0 {
        let parent = path.take(1);
        assert(parent =~= seq![47u8]);
        assert(path =~= path::joined(parent, name));
        path::join_adds_one_component(parent, name);
        (parent, name, place)
    } else {
        let parent = path.take(place);
        assert(path[place - 1] != 47) by {
            if path[place - 1] == 47 {
                assert(path[place - 1 + 1] != 47);
            }
        }
        assert forall|i: int|
            #![trigger parent[i]]
            0 <= i && i + 1 < parent.len() && parent[i] == 47 implies parent[i + 1] != 47 && (
        parent[i + 1] == 46 ==> i + 2 < parent.len() && parent[i + 2] != 47) by {
            assert(path[i] == parent[i]);
            assert(path[i + 1] == parent[i + 1]);
            if path[i + 1] == 46 {
                assert(path[i + 2] != 47);
            }
        }
        assert(path =~= path::joined(parent, name));
        path::join_adds_one_component(parent, name);
        (parent, name, place)
    }
}

proof fn lemma_first_component(path: Seq<u8>)
    requires
        plain(path),
    ensures
        path::components(path).len() > 0,
        path::components(path)[0] == seq![47u8],
        path.len() > 1 ==> path::components(path).len() > 1,
    decreases path.len(),
{
    if path.len() == 1 {
        assert(path =~= seq![47u8]);
        shortest_paths();
    } else {
        let parts = lemma_parent(path);
        lemma_first_component(parts.0);
    }
}

proof fn lemma_same_components(left: Seq<u8>, right: Seq<u8>)
    requires
        plain(left),
        plain(right),
        path::components(left) == path::components(right),
    ensures
        left == right,
    decreases left.len(),
{
    lemma_first_component(left);
    lemma_first_component(right);
    shortest_paths();
    if left.len() == 1 {
        assert(left =~= seq![47u8]);
        assert(right =~= left);
    } else if right.len() == 1 {
        assert(right =~= seq![47u8]);
    } else {
        let (a, m, i) = lemma_parent(left);
        let (b, n, j) = lemma_parent(right);
        assert(path::components(a) =~= path::components(left).drop_last());
        assert(path::components(b) =~= path::components(right).drop_last());
        assert(m == path::components(left).last());
        assert(n == path::components(right).last());
        lemma_same_components(a, b);
    }
}

/// Byte for byte, a path lies within a directory exactly where it is that directory, or starts with
/// it and goes on with a slash; everything lies within the root. So `/workshop` does not lie within
/// `/work`. This is said of paths written the shortest way, as canonical forms are.
pub proof fn within_means_below(path: Seq<u8>, directory: Seq<u8>)
    requires
        plain(path),
        plain(directory),
    ensures
        path::within(path, directory) <==> {
            ||| path == directory
            ||| {
                &&& directory.len() < path.len()
                &&& directory == path.take(directory.len() as int)
                &&& directory.len() == 1 || path[directory.len() as int] == 47
            }
        },
    decreases path.len(),
{
    let all = path::components(path);
    let first = path::components(directory);
    lemma_first_component(path);
    lemma_first_component(directory);
    shortest_paths();
    if path == directory {
        assert(first =~= all.subrange(0, first.len() as int));
    }
    if directory.len() == 1 {
        assert(directory =~= seq![47u8]);
        assert(first =~= all.subrange(0, 1));
        assert(path.len() > 1 ==> directory =~= path.take(1));
        assert(path.len() == 1 ==> path =~= directory);
    } else if path.len() == 1 {
        assert(path =~= seq![47u8]);
        assert(first.len() > all.len());
    } else {
        let (parent, name, place) = lemma_parent(path);
        let before = path::components(parent);
        within_means_below(parent, directory);
        if path::within(path, directory) {
            if first.len() == all.len() {
                assert(first =~= all);
                lemma_same_components(path, directory);
            } else {
                assert(first =~= before.subrange(0, first.len() as int));
                assert(path::within(parent, directory));
                assert(directory =~= path.take(directory.len() as int));
                if parent != directory {
                    assert(path[directory.len() as int] == parent[directory.len() as int]);
                }
            }
        } else {
            assert(!path::within(parent, directory)) by {
                if path::within(parent, directory) {
                    assert(first =~= all.subrange(0, first.len() as int));
                }
            }
            if directory.len() < path.len() && directory == path.take(directory.len() as int)
                && path[directory.len() as int] == 47 {
                let length = directory.len() as int;
                assert(length <= place);
                if length == place {
                    assert(parent =~= directory);
                } else {
                    assert(parent[length] == 47);
                    assert(directory =~= parent.take(length));
                }
                assert(false);
            }
        }
    }
}

/// The configuration lies in `termux-agent-router/config.toml`, below a configuration directory
/// that does not end with a slash.
pub proof fn configuration_file_by_bytes(directory: Seq<u8>)
    requires
        directory.len() > 0,
        directory.last() != 47,
    ensures
        locations::config_file(directory) == directory + seq![47u8] + vstd::utf8::encode_utf8(
            "termux-agent-router"@,
        ) + seq![47u8] + vstd::utf8::encode_utf8("config.toml"@),
{
    lemma_literals();
    assert(locations::config_file(directory) =~= directory + seq![47u8] + vstd::utf8::encode_utf8(
        "termux-agent-router"@,
    ) + seq![47u8] + vstd::utf8::encode_utf8("config.toml"@));
}

/// A session lies in `termux-agent-router/sessions`, below a data directory that does not end with
/// a slash, under its name and `.json`.
pub proof fn session_file_by_bytes(directory: Seq<u8>, id: Seq<char>)
    requires
        directory.len() > 0,
        directory.last() != 47,
        locations::session_name(id),
    ensures
        locations::session_directory(directory) == directory + seq![47u8]
            + vstd::utf8::encode_utf8("termux-agent-router"@) + seq![47u8]
            + vstd::utf8::encode_utf8("sessions"@),
        locations::session_file(directory, id) == locations::session_directory(directory)
            + seq![47u8] + vstd::utf8::encode_utf8(id + ".json"@),
{
    lemma_literals();
    let sessions = locations::session_directory(directory);
    assert(sessions =~= directory + seq![47u8] + vstd::utf8::encode_utf8("termux-agent-router"@)
        + seq![47u8] + vstd::utf8::encode_utf8("sessions"@));
    assert(sessions.last() != 47);
    let name = id + ".json"@;
    reveal_strlit(".json");
    assert(vstd::utf8::is_ascii_chars(name)) by {
        assert forall|i: int| 0 <= i < id.len() implies locations::session_character(id[i]) by {}
    }
    vstd::utf8::is_ascii_chars_encode_utf8(name);
    assert(locations::session_character(id[0]));
    assert(vstd::utf8::encode_utf8(name)[0] == name[0] as u8);
    assert(locations::session_file(directory, id) =~= sessions + seq![47u8]
        + vstd::utf8::encode_utf8(name));
}

proof fn lemma_literals()
    ensures
        ({
            let router = vstd::utf8::encode_utf8("termux-agent-router"@);
            let config = vstd::utf8::encode_utf8("config.toml"@);
            let sessions = vstd::utf8::encode_utf8("sessions"@);
            &&& router.len() > 0 && router[0] != 47 && router.last() != 47
            &&& config.len() > 0 && config[0] != 47
            &&& sessions.len() > 0 && sessions[0] != 47 && sessions.last() != 47
        }),
{
    reveal_strlit("termux-agent-router");
    reveal_strlit("config.toml");
    reveal_strlit("sessions");
    vstd::utf8::is_ascii_chars_encode_utf8("termux-agent-router"@);
    vstd::utf8::is_ascii_chars_encode_utf8("config.toml"@);
    vstd::utf8::is_ascii_chars_encode_utf8("sessions"@);
    assert("termux-agent-router"@[0] == 't');
    assert("termux-agent-router"@.last() == 'r');
    assert("config.toml"@[0] == 'c');
    assert("sessions"@[0] == 's');
    assert("sessions"@.last() == 's');
}

/// A session name is not empty, and each of its characters is an ASCII letter or digit, `-`, `.` or
/// `_`; every such text is one.
pub proof fn session_names_by_code_points(id: Seq<char>)
    ensures
        locations::session_name(id) <==> id.len() > 0 && forall|i: int|
            #![trigger id[i]]
            0 <= i < id.len() ==> {
                let code = id[i] as int;
                ||| 0x30 <= code <= 0x39
                ||| 0x41 <= code <= 0x5a
                ||| 0x61 <= code <= 0x7a
                ||| code == 0x2d
                ||| code == 0x2e
                ||| code == 0x5f
            },
{
}

} // verus!
