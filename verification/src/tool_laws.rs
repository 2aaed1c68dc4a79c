//! What holds of every run of a tool.
use crate::path;
use crate::tools::{self, CommandView, ToolErrorView, ToolStepView};
use vstd::prelude::*;

verus! {

/// What the surroundings answer to the steps of a tool.
pub struct Surroundings {
    pub canonical: spec_fn(Seq<u8>) -> Result<Seq<u8>, Seq<char>>,
    pub listing: spec_fn(Seq<u8>) -> Result<Seq<Result<Seq<u8>, Seq<char>>>, Seq<char>>,
    pub text: spec_fn(Seq<u8>) -> Result<Seq<char>, Seq<char>>,
    pub command: spec_fn(Seq<char>, Seq<Seq<char>>, Seq<u8>) -> CommandView,
}

/// How many answers a step is at most away from the end.
pub open spec fn distance(step: ToolStepView) -> nat {
    match step {
        ToolStepView::Canonicalize { purpose, root, path } => 3,
        ToolStepView::CanonicalizeRoot { purpose, root, canonical } => 2,
        ToolStepView::ListDirectory(path) => 1,
        ToolStepView::ReadFile(path) => 1,
        ToolStepView::RunCommand { program, arguments, directory } => 1,
        ToolStepView::Finished(result) => 0,
    }
}

/// The step after the surroundings have answered.
pub open spec fn answered(step: ToolStepView, around: Surroundings) -> ToolStepView {
    match step {
        ToolStepView::Canonicalize { purpose, root, path } => tools::path_step(
            purpose,
            root,
            (around.canonical)(path),
        ),
        ToolStepView::CanonicalizeRoot { purpose, root, canonical } => tools::root_step(
            purpose,
            canonical,
            (around.canonical)(root),
        ),
        ToolStepView::ListDirectory(path) => ToolStepView::Finished(
            tools::list_result((around.listing)(path)),
        ),
        ToolStepView::ReadFile(path) => ToolStepView::Finished(
            tools::read_result((around.text)(path)),
        ),
        ToolStepView::RunCommand { program, arguments, directory } => ToolStepView::Finished(
            tools::git_result((around.command)(program, arguments, directory)),
        ),
        ToolStepView::Finished(result) => step,
    }
}

/// Every answer brings a tool closer to its end.
pub proof fn tool_ends(step: ToolStepView, around: Surroundings)
    requires
        !(step is Finished),
    ensures
        distance(answered(step, around)) < distance(step),
{
}

/// The result of a tool that is at a step.
pub open spec fn outcome(step: ToolStepView, around: Surroundings) -> Result<
    Seq<char>,
    ToolErrorView,
>
    decreases distance(step),
{
    match step {
        ToolStepView::Finished(result) => result,
        _ => outcome(answered(step, around), around),
    }
}

/// The result of a tool.
pub open spec fn tool_outcome(
    name: Seq<char>,
    requested: Option<Seq<char>>,
    root: Result<Seq<u8>, Seq<char>>,
    around: Surroundings,
) -> Result<Seq<char>, ToolErrorView> {
    outcome(tools::first_step(name, requested, root), around)
}

/// The step of a tool after a number of answers.
pub open spec fn stage(first: ToolStepView, around: Surroundings, answers: nat) -> ToolStepView
    decreases answers,
{
    if answers == 0 {
        first
    } else {
        answered(stage(first, around, (answers - 1) as nat), around)
    }
}

/// Whether a step keeps to a workspace: it asks about that root, and lists or reads only what lies
/// within the root's canonical form.
pub open spec fn keeps_to(step: ToolStepView, around: Surroundings, workspace: Seq<u8>) -> bool {
    match step {
        ToolStepView::Canonicalize { purpose, root, path } => root == workspace,
        ToolStepView::CanonicalizeRoot { purpose, root, canonical } => root == workspace,
        ToolStepView::ListDirectory(path) => (around.canonical)(workspace) is Ok && path::within(
            path,
            (around.canonical)(workspace)->Ok_0,
        ),
        ToolStepView::ReadFile(path) => (around.canonical)(workspace) is Ok && path::within(
            path,
            (around.canonical)(workspace)->Ok_0,
        ),
        _ => true,
    }
}

/// A tool keeps to the workspace at every step: it lists or reads only what lies within the
/// canonical form of the workspace root, whatever the client asks for.
pub proof fn files_stay_in_workspace(
    name: Seq<char>,
    requested: Option<Seq<char>>,
    root: Seq<u8>,
    around: Surroundings,
    answers: nat,
)
    ensures
        keeps_to(stage(tools::first_step(name, requested, Ok(root)), around, answers), around, root),
    decreases answers,
{
    if answers > 0 {
        files_stay_in_workspace(name, requested, root, around, (answers - 1) as nat);
    }
}

/// The path that a tool is asked for, as seen from the root.
pub open spec fn wanted(root: Seq<u8>, requested: Seq<char>) -> Seq<u8> {
    path::joined(root, vstd::utf8::encode_utf8(requested))
}

proof fn lemma_file_tools_have_own_names()
    ensures
        "list"@ != "pwd"@,
        "read"@ != "pwd"@,
        "read"@ != "list"@,
{
    reveal_strlit("list");
    reveal_strlit("read");
    reveal_strlit("pwd");
    assert("list"@[0] == 'l');
    assert("read"@[0] == 'r');
    assert("pwd"@[0] == 'p');
}

/// A path whose canonical form lies outside of the workspace is refused, both for listing and for
/// reading.
pub proof fn escaping_paths_are_refused(
    name: Seq<char>,
    requested: Seq<char>,
    root: Seq<u8>,
    canonical: Seq<u8>,
    canonical_root: Seq<u8>,
    around: Surroundings,
)
    requires
        name == "list"@ || name == "read"@,
        (around.canonical)(wanted(root, requested)) == Ok::<Seq<u8>, Seq<char>>(canonical),
        (around.canonical)(root) == Ok::<Seq<u8>, Seq<char>>(canonical_root),
        !path::within(canonical, canonical_root),
    ensures
        tool_outcome(name, Some(requested), Ok(root), around) == Err::<Seq<char>, ToolErrorView>(
            ToolErrorView::PathEscapes,
        ),
{
    lemma_file_tools_have_own_names();
    reveal_with_fuel(outcome, 4);
}

/// A file of the workspace is read: the result is its text.
pub proof fn files_of_the_workspace_are_read(
    requested: Seq<char>,
    root: Seq<u8>,
    canonical: Seq<u8>,
    canonical_root: Seq<u8>,
    content: Seq<char>,
    around: Surroundings,
)
    requires
        (around.canonical)(wanted(root, requested)) == Ok::<Seq<u8>, Seq<char>>(canonical),
        (around.canonical)(root) == Ok::<Seq<u8>, Seq<char>>(canonical_root),
        path::within(canonical, canonical_root),
        (around.text)(canonical) == Ok::<Seq<char>, Seq<char>>(content),
    ensures
        tool_outcome("read"@, Some(requested), Ok(root), around) == Ok::<Seq<char>, ToolErrorView>(
            content,
        ),
{
    lemma_file_tools_have_own_names();
    reveal_with_fuel(outcome, 5);
}

/// A directory of the workspace is listed: the result is its entries' names in ascending order,
/// one to a line. Without a path, the workspace root is listed.
pub proof fn directories_of_the_workspace_are_listed(
    requested: Option<Seq<char>>,
    root: Seq<u8>,
    canonical: Seq<u8>,
    canonical_root: Seq<u8>,
    entries: Seq<Result<Seq<u8>, Seq<char>>>,
    names: Seq<Seq<char>>,
    around: Surroundings,
)
    requires
        (around.canonical)(
            wanted(
                root,
                match requested {
                    Some(requested) => requested,
                    None => "."@,
                },
            ),
        ) == Ok::<Seq<u8>, Seq<char>>(canonical),
        (around.canonical)(root) == Ok::<Seq<u8>, Seq<char>>(canonical_root),
        path::within(canonical, canonical_root),
        (around.listing)(canonical) == Ok::<Seq<Result<Seq<u8>, Seq<char>>>, Seq<char>>(entries),
        tools::entry_names(entries) == Ok::<Seq<Seq<char>>, Seq<char>>(names),
    ensures
        tool_outcome("list"@, requested, Ok(root), around) == Ok::<Seq<char>, ToolErrorView>(
            tools::listed(names),
        ),
{
    lemma_file_tools_have_own_names();
    reveal_with_fuel(outcome, 5);
}

/// A path that was accepted is accepted again, as it stands, where it is its own canonical form.
pub proof fn accepted_path_is_accepted(
    canonical: Result<Seq<u8>, Seq<char>>,
    canonical_root: Result<Seq<u8>, Seq<char>>,
    path: Seq<u8>,
)
    requires
        tools::safe(canonical, canonical_root) == Ok::<Seq<u8>, ToolErrorView>(path),
    ensures
        canonical == Ok::<Seq<u8>, Seq<char>>(path),
        tools::safe(Ok(path), canonical_root) == Ok::<Seq<u8>, ToolErrorView>(path),
{
}

/// Whether canonical forms are such: absolute paths that are their own canonical form.
pub open spec fn canonicalizes(around: Surroundings) -> bool {
    forall|path: Seq<u8>|
        (#[trigger] (around.canonical)(path)) is Ok ==> path::absolute(
            (around.canonical)(path)->Ok_0,
        ) && (around.canonical)((around.canonical)(path)->Ok_0) == (around.canonical)(path)
}

/// A path that was accepted and is asked for again, by its canonical form, is accepted again and
/// stays the same; listing it or reading it gives the same result as before.
pub proof fn accepted_path_is_accepted_again(
    name: Seq<char>,
    requested: Seq<char>,
    root: Seq<u8>,
    path: Seq<u8>,
    around: Surroundings,
)
    requires
        canonicalizes(around),
        tools::safe(
            (around.canonical)(wanted(root, requested)),
            (around.canonical)(root),
        ) == Ok::<Seq<u8>, ToolErrorView>(path),
        vstd::utf8::valid_utf8(path),
    ensures
        tools::safe(
            (around.canonical)(wanted(root, vstd::utf8::decode_utf8(path))),
            (around.canonical)(root),
        ) == Ok::<Seq<u8>, ToolErrorView>(path),
        name == "list"@ || name == "read"@ ==> tool_outcome(
            name,
            Some(vstd::utf8::decode_utf8(path)),
            Ok(root),
            around,
        ) == tool_outcome(name, Some(requested), Ok(root), around),
{
    lemma_file_tools_have_own_names();
    vstd::utf8::decode_utf8_encode_utf8(path);
    assert((around.canonical)(wanted(root, requested)) == Ok::<Seq<u8>, Seq<char>>(path));
    assert(wanted(root, vstd::utf8::decode_utf8(path)) == path);
    reveal_with_fuel(outcome, 5);
}

/// Whatever is not on the list of tools is refused, and nothing is done for it.
pub proof fn other_tools_are_refused(
    name: Seq<char>,
    requested: Option<Seq<char>>,
    root: Seq<u8>,
)
    requires
        !tools::allowed(name),
    ensures
        tools::first_step(name, requested, Ok(root)) == ToolStepView::Finished(
            Err(ToolErrorView::NotAllowed(name)),
        ),
{
}

/// The one command that a tool ever runs is `git diff`, with fixed arguments and in the workspace
/// root; no part of it comes from the client.
pub proof fn only_git_diff_is_run(
    name: Seq<char>,
    requested: Option<Seq<char>>,
    root: Seq<u8>,
    around: Surroundings,
    answers: nat,
)
    ensures
        ({
            let step = stage(tools::first_step(name, requested, Ok(root)), around, answers);
            step is RunCommand ==> name == "git_diff"@ && step == (ToolStepView::RunCommand {
                program: "git"@,
                arguments: seq!["diff"@, "--no-ext-diff"@, "--"@],
                directory: root,
            })
        }),
    decreases answers,
{
    if answers > 0 {
        only_git_diff_is_run(name, requested, root, around, (answers - 1) as nat);
    }
}

} // verus!
