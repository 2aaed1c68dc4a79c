//! What each tool does, told by its name, its path and what is found in the workspace.
use crate::path::{self, FilePath};
use crate::path_laws;
use crate::sorting;
use crate::text;
use crate::text_laws;
use crate::tools::{
    self, CommandOutput, CommandView, Listing, Purpose, ToolError, ToolErrorView, ToolStep,
    ToolStepView,
};
use vstd::prelude::*;

verus! {

/// An error of a tool is taken as it stands.
pub proof fn errors_are_taken_as_they_stand(error: ToolError)
    ensures
        error is NotAllowed <==> error@ is NotAllowed,
        error is NotAllowed ==> error@->NotAllowed_0 == error->NotAllowed_0@,
        error is PathRequired <==> error@ is PathRequired,
        error is PathMissing <==> error@ is PathMissing,
        error is PathEscapes <==> error@ is PathEscapes,
        error is GitNotRun <==> error@ is GitNotRun,
        error is GitFailed <==> error@ is GitFailed,
        error is Io ==> error@->Io_0 == error->Io_0@,
{
}

/// What is found is taken as it stands, and so is the cause for which nothing is.
pub proof fn findings_are_taken_as_they_stand(
    result: Result<String, ToolError>,
    found: Result<FilePath, String>,
    content: Result<String, String>,
    output: Result<CommandOutput, String>,
)
    ensures
        tools::result_view(result) is Ok <==> result is Ok,
        result is Ok ==> tools::result_view(result)->Ok_0 == result->Ok_0@,
        result is Err ==> tools::result_view(result)->Err_0 == result->Err_0@,
        tools::path_view(found) is Ok <==> found is Ok,
        found is Ok ==> tools::path_view(found)->Ok_0 == found->Ok_0@,
        found is Err ==> tools::path_view(found)->Err_0 == found->Err_0@,
        tools::text_view(content) is Ok <==> content is Ok,
        content is Ok ==> tools::text_view(content)->Ok_0 == content->Ok_0@,
        content is Err ==> tools::text_view(content)->Err_0 == content->Err_0@,
        tools::command_view(output) is Ran <==> output is Ok,
        output is Ok ==> tools::command_view(output)->success == output->Ok_0.success
            && tools::command_view(output)->stdout == output->Ok_0.stdout@,
{
}

/// A listing is taken as it stands: no entry is left out, and each keeps its place.
pub proof fn listings_are_taken_as_they_stand(listing: Listing)
    ensures
        tools::listing_view(listing) is Ok <==> listing is Ok,
        listing is Err ==> tools::listing_view(listing)->Err_0 == listing->Err_0@,
        listing is Ok ==> tools::listing_view(listing)->Ok_0.len() == listing->Ok_0@.len(),
        listing is Ok ==> forall|i: int|
            #![trigger listing->Ok_0@[i]]
            0 <= i < listing->Ok_0@.len() ==> {
                let entry = listing->Ok_0@[i];
                let taken = tools::listing_view(listing)->Ok_0[i];
                &&& taken is Ok <==> entry is Ok
                &&& entry is Ok ==> taken->Ok_0 == entry->Ok_0@
                &&& entry is Err ==> taken->Err_0 == entry->Err_0@
            },
{
}

/// A step of a tool is taken as it stands.
pub proof fn steps_are_taken_as_they_stand(step: ToolStep)
    ensures
        match step {
            ToolStep::Canonicalize(query) => step@ == (ToolStepView::Canonicalize {
                purpose: query.purpose,
                root: query.root.bytes@,
                path: query.path.bytes@,
            }),
            ToolStep::CanonicalizeRoot(query) => step@ == (ToolStepView::CanonicalizeRoot {
                purpose: query.purpose,
                root: query.root.bytes@,
                canonical: query.canonical.bytes@,
            }),
            ToolStep::ListDirectory(path) => step@ == ToolStepView::ListDirectory(path.bytes@),
            ToolStep::ReadFile(path) => step@ == ToolStepView::ReadFile(path.bytes@),
            ToolStep::RunCommand(command) => {
                &&& step@ is RunCommand
                &&& step@->program == command.program@
                &&& step@->arguments.len() == command.arguments@.len()
                &&& forall|i: int|
                    0 <= i < command.arguments@.len() ==> #[trigger] step@->arguments[i]
                        == command.arguments@[i]@
                &&& step@->directory == command.directory.bytes@
            },
            ToolStep::Finished(result) => step@ == ToolStepView::Finished(
                match result {
                    Ok(output) => Ok(output@),
                    Err(error) => Err(error@),
                },
            ),
        },
{
}

proof fn lemma_names_differ()
    ensures
        "pwd"@ != "list"@,
        "pwd"@ != "read"@,
        "pwd"@ != "git_diff"@,
        "list"@ != "read"@,
        "list"@ != "git_diff"@,
        "read"@ != "git_diff"@,
{
    reveal_strlit("pwd");
    reveal_strlit("list");
    reveal_strlit("read");
    reveal_strlit("git_diff");
    assert("pwd"@[0] == 'p');
    assert("list"@[0] == 'l');
    assert("read"@[0] == 'r');
    assert("git_diff"@[0] == 'g');
}

/// `pwd` ends at once with the workspace root as text, whatever path is given.
pub proof fn pwd_tells_the_root(requested: Option<Seq<char>>, root: Seq<u8>)
    ensures
        tools::first_step("pwd"@, requested, Ok(root)) == ToolStepView::Finished(
            Ok(tools::lossy_text(root)),
        ),
{
}

/// `list` and `read` ask first for the canonical form of the path as seen from the root: the bytes
/// of the path itself where it starts with a slash, otherwise the root, a slash unless it ends with
/// one, and the bytes of the path.
pub proof fn paths_are_seen_from_the_root(purpose: Purpose, requested: Seq<char>, root: Seq<u8>)
    requires
        root.len() > 0,
    ensures
        ({
            let name = match purpose {
                Purpose::List => "list"@,
                Purpose::Read => "read"@,
            };
            let bytes = vstd::utf8::encode_utf8(requested);
            let path = if bytes.len() > 0 && bytes[0] == 47 {
                bytes
            } else if root.last() == 47 {
                root + bytes
            } else {
                root + seq![47u8] + bytes
            };
            tools::first_step(name, Some(requested), Ok(root)) == (ToolStepView::Canonicalize {
                purpose,
                root,
                path,
            })
        }),
{
    lemma_names_differ();
    let bytes = vstd::utf8::encode_utf8(requested);
    assert(root.push(47) + bytes =~= root + seq![47u8] + bytes);
}

/// Without a path, `list` takes the root itself, and `read` is refused.
pub proof fn tools_without_a_path(root: Seq<u8>)
    ensures
        tools::first_step("list"@, None, Ok(root)) == tools::first_step(
            "list"@,
            Some("."@),
            Ok(root),
        ),
        tools::first_step("read"@, None, Ok(root)) == ToolStepView::Finished(
            Err(ToolErrorView::PathRequired),
        ),
{
    lemma_names_differ();
}

/// `git_diff` runs `git diff --no-ext-diff --` in the root, whatever path is given.
pub proof fn git_diff_runs_in_the_root(requested: Option<Seq<char>>, root: Seq<u8>)
    ensures
        ({
            let step = tools::first_step("git_diff"@, requested, Ok(root));
            &&& step is RunCommand
            &&& step->program == "git"@
            &&& step->arguments == seq!["diff"@, "--no-ext-diff"@, "--"@]
            &&& step->directory == root
        }),
{
    lemma_names_differ();
}

/// Any other name is refused, and that name is told; nothing is done without a workspace root.
pub proof fn anything_else_is_refused(
    name: Seq<char>,
    requested: Option<Seq<char>>,
    root: Seq<u8>,
    cause: Seq<char>,
)
    ensures
        name != "pwd"@ && name != "list"@ && name != "read"@ && name != "git_diff"@
            ==> tools::first_step(name, requested, Ok(root)) == ToolStepView::Finished(
            Err(ToolErrorView::NotAllowed(name)),
        ),
        tools::first_step(name, requested, Err(cause)) == ToolStepView::Finished(
            Err(ToolErrorView::Io(cause)),
        ),
{
}

/// After the search for a path's canonical form, the root's is asked for; a path without one is
/// refused.
pub proof fn canonical_path_is_held_against_the_root(
    purpose: Purpose,
    root: Seq<u8>,
    canonical: Seq<u8>,
    cause: Seq<char>,
)
    ensures
        tools::path_step(purpose, root, Ok(canonical)) == (ToolStepView::CanonicalizeRoot {
            purpose,
            root,
            canonical,
        }),
        tools::path_step(purpose, root, Err(cause)) == ToolStepView::Finished(
            Err(ToolErrorView::PathMissing),
        ),
{
}

/// Byte for byte: the canonical path is listed or read exactly where it is the canonical root, or
/// starts with it and goes on with a slash; any other path is refused as leading out of the
/// workspace.
pub proof fn only_paths_below_the_root_are_used(
    purpose: Purpose,
    canonical: Seq<u8>,
    root: Seq<u8>,
)
    requires
        path_laws::plain(canonical),
        path_laws::plain(root),
    ensures
        ({
            let step = tools::root_step(purpose, canonical, Ok(root));
            if canonical == root || (root.len() < canonical.len() && root == canonical.take(
                root.len() as int,
            ) && (root.len() == 1 || canonical[root.len() as int] == 47)) {
                match purpose {
                    Purpose::List => step == ToolStepView::ListDirectory(canonical),
                    Purpose::Read => step == ToolStepView::ReadFile(canonical),
                }
            } else {
                step == ToolStepView::Finished(Err(ToolErrorView::PathEscapes))
            }
        }),
{
    path_laws::within_means_below(canonical, root);
}

/// A root without a canonical form ends the tool with its cause. What may be used is told in the
/// same way by the path alone.
pub proof fn causes_are_told(
    purpose: Purpose,
    canonical: Seq<u8>,
    found: Result<Seq<u8>, Seq<char>>,
    cause: Seq<char>,
)
    ensures
        tools::root_step(purpose, canonical, Err(cause)) == ToolStepView::Finished(
            Err(ToolErrorView::Io(cause)),
        ),
        tools::safe(Err(cause), found) == Err::<Seq<u8>, ToolErrorView>(ToolErrorView::PathMissing),
        tools::safe(Ok(canonical), Err(cause)) == Err::<Seq<u8>, ToolErrorView>(
            ToolErrorView::Io(cause),
        ),
        found is Ok ==> tools::safe(Ok(canonical), found) == if path::components(
            found->Ok_0,
        ).is_prefix_of(path::components(canonical)) {
            Ok::<Seq<u8>, ToolErrorView>(canonical)
        } else {
            Err::<Seq<u8>, ToolErrorView>(ToolErrorView::PathEscapes)
        },
{
}

proof fn lemma_all_names(
    entries: Seq<Result<Seq<u8>, Seq<char>>>,
    names: Seq<Seq<char>>,
)
    requires
        names.len() == entries.len(),
        forall|i: int|
            0 <= i < entries.len() ==> (#[trigger] entries[i]) is Ok && names[i]
                == tools::lossy_text(entries[i]->Ok_0),
    ensures
        tools::entry_names(entries) == Ok::<Seq<Seq<char>>, Seq<char>>(names),
    decreases entries.len(),
{
    if entries.len() == 0 {
        assert(names =~= Seq::empty());
    } else {
        assert(entries[entries.len() - 1] is Ok);
        assert forall|i: int| 0 <= i < entries.drop_last().len() implies (
        #[trigger] entries.drop_last()[i]) is Ok && names.drop_last()[i] == tools::lossy_text(
            entries.drop_last()[i]->Ok_0,
        ) by {
            assert(entries[i] is Ok);
        }
        lemma_all_names(entries.drop_last(), names.drop_last());
        assert(names =~= names.drop_last().push(names.last()));
    }
}

/// A listing whose entries are all known gives the names of all of them, one to a line: the lines
/// hold every entry's name as often as it occurs and nothing else, in the order of their bytes.
pub proof fn listings_hold_every_entry(
    entries: Seq<Result<Seq<u8>, Seq<char>>>,
    names: Seq<Seq<char>>,
) -> (lines: Seq<Seq<char>>)
    requires
        names.len() == entries.len(),
        forall|i: int|
            0 <= i < entries.len() ==> (#[trigger] entries[i]) is Ok && names[i]
                == tools::lossy_text(entries[i]->Ok_0),
    ensures
        tools::list_result(Ok(entries)) == Ok::<Seq<char>, ToolErrorView>(
            text::joined(lines, "\n"@),
        ),
        lines.to_multiset() == names.to_multiset(),
        lines.len() == entries.len(),
        forall|i: int, j: int|
            0 <= i < j < lines.len() ==> sorting::bytes_le(
                #[trigger] vstd::utf8::encode_utf8(lines[i]),
                #[trigger] vstd::utf8::encode_utf8(lines[j]),
            ),
{
    lemma_all_names(entries, names);
    text_laws::sorting_keeps_every_text(names);
    names.sort_by(sorting::text_order())
}

/// Each line of a listing stands in the result, between the lines before it and those after it.
pub proof fn lines_are_told_in_turn(lines: Seq<Seq<char>>, cut: int)
    requires
        0 < cut < lines.len(),
    ensures
        text::joined(lines, "\n"@) == text::joined(lines.take(cut), "\n"@) + "\n"@ + text::joined(
            lines.skip(cut),
            "\n"@,
        ),
{
    text_laws::rows_are_put_together(lines, "\n"@, cut);
}

/// The first entry that is not known ends the listing with its cause, and so does a directory that
/// cannot be listed at all.
pub proof fn first_unknown_entry_is_told(
    entries: Seq<Result<Seq<u8>, Seq<char>>>,
    index: int,
    cause: Seq<char>,
)
    requires
        0 <= index < entries.len(),
        forall|i: int| 0 <= i < index ==> (#[trigger] entries[i]) is Ok,
        entries[index] is Err,
    ensures
        tools::list_result(Ok(entries)) == Err::<Seq<char>, ToolErrorView>(
            ToolErrorView::Io(entries[index]->Err_0),
        ),
        tools::list_result(Err(cause)) == Err::<Seq<char>, ToolErrorView>(ToolErrorView::Io(cause)),
{
    let known = entries.take(index);
    let names = Seq::new(known.len(), |i: int| tools::lossy_text(known[i]->Ok_0));
    assert forall|i: int| 0 <= i < known.len() implies (#[trigger] known[i]) is Ok && names[i]
        == tools::lossy_text(known[i]->Ok_0) by {
        assert(entries[i] is Ok);
    }
    lemma_all_names(known, names);
    assert(entries.take(index + 1).drop_last() =~= known);
    tools::lemma_first_cause_stays(entries, index + 1);
}

/// A file that is read is told whole; a failure is told with its cause.
pub proof fn files_are_told_whole(content: Seq<char>, cause: Seq<char>)
    ensures
        tools::read_result(Ok(content)) == Ok::<Seq<char>, ToolErrorView>(content),
        tools::read_result(Err(cause)) == Err::<Seq<char>, ToolErrorView>(ToolErrorView::Io(cause)),
{
}

/// What `git diff` printed is told whole where it succeeded, and not at all where it failed.
pub proof fn diffs_are_told_whole(stdout: Seq<u8>)
    ensures
        tools::git_result(CommandView::Ran { success: true, stdout }) == Ok::<
            Seq<char>,
            ToolErrorView,
        >(tools::lossy_text(stdout)),
        tools::git_result(CommandView::Ran { success: false, stdout }) == Err::<
            Seq<char>,
            ToolErrorView,
        >(ToolErrorView::GitFailed),
        tools::git_result(CommandView::NotRun) == Err::<Seq<char>, ToolErrorView>(
            ToolErrorView::GitNotRun,
        ),
{
}

/// What an error tells of its cause.
pub proof fn errors_name_their_cause(name: Seq<char>, cause: Seq<char>)
    ensures
        tools::message_of(ToolErrorView::NotAllowed(name)) == "tool not allowed: "@ + name,
        tools::message_of(ToolErrorView::Io(cause)) == cause,
        tools::message_of(ToolErrorView::PathRequired) == "read requires path"@,
        tools::message_of(ToolErrorView::PathMissing) == "path does not exist"@,
        tools::message_of(ToolErrorView::PathEscapes) == "path escapes router workspace"@,
        tools::message_of(ToolErrorView::GitNotRun) == "run git diff"@,
        tools::message_of(ToolErrorView::GitFailed) == "git diff failed"@,
{
}

} // verus!
