//! The tools that a client may run: a fixed list of harmless ones, held to the workspace.
use crate::codec;
use crate::json::JsonView;
use crate::path::{self, FilePath};
use crate::reply::{self, error_response, labelled_reply, Reply};
use crate::sorting;
use crate::text;
use vstd::prelude::*;
use vstd::string::*;

verus! {

/// Why a tool gives no result.
#[derive(Debug, PartialEq)]
pub enum ToolError {
    /// There is no such tool.
    NotAllowed(String),
    /// The tool needs a path, and none is given.
    PathRequired,
    /// The path leads nowhere.
    PathMissing,
    /// The path leads out of the workspace.
    PathEscapes,
    /// `git` could not be run.
    GitNotRun,
    /// `git` told a failure.
    GitFailed,
    /// A file operation failed, for the cause given.
    Io(String),
}

/// What a tool's error is.
pub enum ToolErrorView {
    NotAllowed(Seq<char>),
    PathRequired,
    PathMissing,
    PathEscapes,
    GitNotRun,
    GitFailed,
    Io(Seq<char>),
}

impl View for ToolError {
    type V = ToolErrorView;

    open spec fn view(&self) -> ToolErrorView {
        match self {
            ToolError::NotAllowed(name) => ToolErrorView::NotAllowed(name@),
            ToolError::PathRequired => ToolErrorView::PathRequired,
            ToolError::PathMissing => ToolErrorView::PathMissing,
            ToolError::PathEscapes => ToolErrorView::PathEscapes,
            ToolError::GitNotRun => ToolErrorView::GitNotRun,
            ToolError::GitFailed => ToolErrorView::GitFailed,
            ToolError::Io(cause) => ToolErrorView::Io(cause@),
        }
    }
}

/// The sentence that tells why a tool gives no result.
pub open spec fn message_of(error: ToolErrorView) -> Seq<char> {
    match error {
        ToolErrorView::NotAllowed(name) => "tool not allowed: "@ + name,
        ToolErrorView::PathRequired => "read requires path"@,
        ToolErrorView::PathMissing => "path does not exist"@,
        ToolErrorView::PathEscapes => "path escapes router workspace"@,
        ToolErrorView::GitNotRun => "run git diff"@,
        ToolErrorView::GitFailed => "git diff failed"@,
        ToolErrorView::Io(cause) => cause,
    }
}

impl ToolError {
    /// The sentence that tells why the tool gives no result.
    pub fn message(&self) -> (message: String)
        ensures
            message@ == message_of(self@),
    {
        match self {
            ToolError::NotAllowed(name) => text::together("tool not allowed: ", name.as_str()),
            ToolError::PathRequired => "read requires path".to_owned(),
            ToolError::PathMissing => "path does not exist".to_owned(),
            ToolError::PathEscapes => "path escapes router workspace".to_owned(),
            ToolError::GitNotRun => "run git diff".to_owned(),
            ToolError::GitFailed => "git diff failed".to_owned(),
            ToolError::Io(cause) => cause.clone(),
        }
    }
}

/// What a tool's result is.
pub open spec fn result_view(result: Result<String, ToolError>) -> Result<
    Seq<char>,
    ToolErrorView,
> {
    match result {
        Ok(output) => Ok(output@),
        Err(error) => Err(error@),
    }
}

/// What a path, or the cause for which there is none, is.
pub open spec fn path_view(found: Result<FilePath, String>) -> Result<Seq<u8>, Seq<char>> {
    match found {
        Ok(path) => Ok(path@),
        Err(cause) => Err(cause@),
    }
}

/// What a text, or the cause for which there is none, is.
pub open spec fn text_view(found: Result<String, String>) -> Result<Seq<char>, Seq<char>> {
    match found {
        Ok(text) => Ok(text@),
        Err(cause) => Err(cause@),
    }
}

/// The text that `String::from_utf8_lossy` makes of bytes.
pub uninterp spec fn lossy_text(bytes: Seq<u8>) -> Seq<char>;

/// Calls `String::from_utf8_lossy`. Bytes that are valid UTF-8 give the text that they encode;
/// how others are replaced depends on the bytes alone and is not stated.
#[verifier::external_body]
fn lossy(bytes: &Vec<u8>) -> (text: String)
    ensures
        text@ == lossy_text(bytes@),
        vstd::utf8::valid_utf8(bytes@) ==> text@ == vstd::utf8::decode_utf8(bytes@),
{
    String::from_utf8_lossy(bytes).into_owned()
}

/// What a tool does with a file path.
#[derive(Clone, Copy, Debug, PartialEq, Eq)]
pub enum Purpose {
    /// List the entries of a directory.
    List,
    /// Read a file.
    Read,
}

/// A path whose canonical form is wanted.
#[derive(Debug, PartialEq, Eq)]
pub struct PathQuery {
    pub purpose: Purpose,
    pub root: FilePath,
    pub path: FilePath,
}

/// A workspace root whose canonical form is wanted, and the canonical path to hold against it.
#[derive(Debug, PartialEq, Eq)]
pub struct RootQuery {
    pub purpose: Purpose,
    pub root: FilePath,
    pub canonical: FilePath,
}

/// A command to run in a directory, without a shell.
#[derive(Debug, PartialEq)]
pub struct CommandLine {
    pub program: String,
    pub arguments: Vec<String>,
    pub directory: FilePath,
}

/// What a command that ran left behind.
#[derive(Debug, PartialEq)]
pub struct CommandOutput {
    pub success: bool,
    pub stdout: Vec<u8>,
}

/// What a tool wants done next.
#[derive(Debug, PartialEq)]
pub enum ToolStep {
    /// Find the canonical form of a path.
    Canonicalize(PathQuery),
    /// Find the canonical form of the workspace root.
    CanonicalizeRoot(RootQuery),
    /// List the entries of a directory.
    ListDirectory(FilePath),
    /// Read a file.
    ReadFile(FilePath),
    /// Run a command.
    RunCommand(CommandLine),
    /// Nothing: the tool has ended.
    Finished(Result<String, ToolError>),
}

/// What a tool's next step is.
pub enum ToolStepView {
    Canonicalize { purpose: Purpose, root: Seq<u8>, path: Seq<u8> },
    CanonicalizeRoot { purpose: Purpose, root: Seq<u8>, canonical: Seq<u8> },
    ListDirectory(Seq<u8>),
    ReadFile(Seq<u8>),
    RunCommand { program: Seq<char>, arguments: Seq<Seq<char>>, directory: Seq<u8> },
    Finished(Result<Seq<char>, ToolErrorView>),
}

impl View for ToolStep {
    type V = ToolStepView;

    open spec fn view(&self) -> ToolStepView {
        match self {
            ToolStep::Canonicalize(query) => ToolStepView::Canonicalize {
                purpose: query.purpose,
                root: query.root@,
                path: query.path@,
            },
            ToolStep::CanonicalizeRoot(query) => ToolStepView::CanonicalizeRoot {
                purpose: query.purpose,
                root: query.root@,
                canonical: query.canonical@,
            },
            ToolStep::ListDirectory(path) => ToolStepView::ListDirectory(path@),
            ToolStep::ReadFile(path) => ToolStepView::ReadFile(path@),
            ToolStep::RunCommand(command) => ToolStepView::RunCommand {
                program: command.program@,
                arguments: text::texts(command.arguments@),
                directory: command.directory@,
            },
            ToolStep::Finished(result) => ToolStepView::Finished(result_view(*result)),
        }
    }
}

/// The names of the tools.
pub open spec fn tool_names() -> Seq<Seq<char>> {
    seq!["pwd"@, "list"@, "read"@, "git_diff"@]
}

/// Whether a name is that of a tool.
pub open spec fn allowed(name: Seq<char>) -> bool {
    name == "pwd"@ || name == "list"@ || name == "read"@ || name == "git_diff"@
}

/// A path of the workspace, whose canonical form is wanted first.
pub open spec fn path_wanted(purpose: Purpose, root: Seq<u8>, requested: Seq<char>) -> ToolStepView {
    ToolStepView::Canonicalize {
        purpose,
        root,
        path: path::joined(root, vstd::utf8::encode_utf8(requested)),
    }
}

/// The first step of a tool, given the workspace root.
pub open spec fn first_step(
    name: Seq<char>,
    requested: Option<Seq<char>>,
    root: Result<Seq<u8>, Seq<char>>,
) -> ToolStepView {
    match root {
        Err(cause) => ToolStepView::Finished(Err(ToolErrorView::Io(cause))),
        Ok(root) => if name == "pwd"@ {
            ToolStepView::Finished(Ok(lossy_text(root)))
        } else if name == "list"@ {
            path_wanted(
                Purpose::List,
                root,
                match requested {
                    Some(requested) => requested,
                    None => "."@,
                },
            )
        } else if name == "read"@ {
            match requested {
                Some(requested) => path_wanted(Purpose::Read, root, requested),
                None => ToolStepView::Finished(Err(ToolErrorView::PathRequired)),
            }
        } else if name == "git_diff"@ {
            ToolStepView::RunCommand {
                program: "git"@,
                arguments: seq!["diff"@, "--no-ext-diff"@, "--"@],
                directory: root,
            }
        } else {
            ToolStepView::Finished(Err(ToolErrorView::NotAllowed(name)))
        },
    }
}

/// The step after the search for a path's canonical form.
pub open spec fn path_step(
    purpose: Purpose,
    root: Seq<u8>,
    canonical: Result<Seq<u8>, Seq<char>>,
) -> ToolStepView {
    match canonical {
        Ok(canonical) => ToolStepView::CanonicalizeRoot { purpose, root, canonical },
        Err(cause) => ToolStepView::Finished(Err(ToolErrorView::PathMissing)),
    }
}

/// The path that may be used: one that has a canonical form, and within the canonical root.
pub open spec fn safe(
    canonical: Result<Seq<u8>, Seq<char>>,
    canonical_root: Result<Seq<u8>, Seq<char>>,
) -> Result<Seq<u8>, ToolErrorView> {
    match (canonical, canonical_root) {
        (Err(cause), _) => Err(ToolErrorView::PathMissing),
        (Ok(path), Err(cause)) => Err(ToolErrorView::Io(cause)),
        (Ok(path), Ok(root)) => if path::within(path, root) {
            Ok(path)
        } else {
            Err(ToolErrorView::PathEscapes)
        },
    }
}

/// The step after the search for the root's canonical form.
pub open spec fn root_step(
    purpose: Purpose,
    canonical: Seq<u8>,
    canonical_root: Result<Seq<u8>, Seq<char>>,
) -> ToolStepView {
    match safe(Ok(canonical), canonical_root) {
        Ok(path) => match purpose {
            Purpose::List => ToolStepView::ListDirectory(path),
            Purpose::Read => ToolStepView::ReadFile(path),
        },
        Err(error) => ToolStepView::Finished(Err(error)),
    }
}

/// The entries of a directory, or the cause for which they are not known; the same of each entry.
pub type Listing = Result<Vec<Result<Vec<u8>, String>>, String>;

/// What the entries of a directory are.
pub open spec fn entry_views(entries: Seq<Result<Vec<u8>, String>>) -> Seq<
    Result<Seq<u8>, Seq<char>>,
> {
    Seq::new(
        entries.len(),
        |i: int|
            match entries[i] {
                Ok(name) => Ok(name@),
                Err(cause) => Err(cause@),
            },
    )
}

/// What a listing is.
pub open spec fn listing_view(listing: Listing) -> Result<
    Seq<Result<Seq<u8>, Seq<char>>>,
    Seq<char>,
> {
    match listing {
        Ok(entries) => Ok(entry_views(entries@)),
        Err(cause) => Err(cause@),
    }
}

/// The names of entries as texts, or the first cause for which one is not known.
pub open spec fn entry_names(entries: Seq<Result<Seq<u8>, Seq<char>>>) -> Result<
    Seq<Seq<char>>,
    Seq<char>,
>
    decreases entries.len(),
{
    if entries.len() == 0 {
        Ok(Seq::empty())
    } else {
        match (entry_names(entries.drop_last()), entries.last()) {
            (Err(cause), _) => Err(cause),
            (Ok(names), Err(cause)) => Err(cause),
            (Ok(names), Ok(name)) => Ok(names.push(lossy_text(name))),
        }
    }
}

/// The result of listing a directory: the names in ascending order, one to a line.
pub open spec fn list_result(listing: Result<Seq<Result<Seq<u8>, Seq<char>>>, Seq<char>>) -> Result<
    Seq<char>,
    ToolErrorView,
> {
    match listing {
        Err(cause) => Err(ToolErrorView::Io(cause)),
        Ok(entries) => match entry_names(entries) {
            Err(cause) => Err(ToolErrorView::Io(cause)),
            Ok(names) => Ok(listed(names)),
        },
    }
}

/// Names in ascending order, one to a line.
pub open spec fn listed(names: Seq<Seq<char>>) -> Seq<char> {
    text::joined(names.sort_by(sorting::text_order()), "\n"@)
}

/// Whether all entries are known, under names that are UTF-8.
pub open spec fn readable(entries: Seq<Result<Seq<u8>, Seq<char>>>) -> bool {
    forall|i: int|
        0 <= i < entries.len() ==> (#[trigger] entries[i]) is Ok && vstd::utf8::valid_utf8(
            entries[i]->Ok_0,
        )
}

/// The texts that the names of entries encode.
pub open spec fn readable_names(entries: Seq<Result<Seq<u8>, Seq<char>>>) -> Seq<Seq<char>> {
    Seq::new(entries.len(), |i: int| vstd::utf8::decode_utf8(entries[i]->Ok_0))
}

/// The result of reading a file: its text.
pub open spec fn read_result(found: Result<Seq<char>, Seq<char>>) -> Result<
    Seq<char>,
    ToolErrorView,
> {
    match found {
        Ok(text) => Ok(text),
        Err(cause) => Err(ToolErrorView::Io(cause)),
    }
}

/// What a command left behind, or the cause for which it could not be run.
pub enum CommandView {
    NotRun,
    Ran { success: bool, stdout: Seq<u8> },
}

/// What the end of a command is.
pub open spec fn command_view(output: Result<CommandOutput, String>) -> CommandView {
    match output {
        Ok(output) => CommandView::Ran { success: output.success, stdout: output.stdout@ },
        Err(cause) => CommandView::NotRun,
    }
}

/// The result of `git diff`: what it printed, where it succeeded.
pub open spec fn git_result(output: CommandView) -> Result<Seq<char>, ToolErrorView> {
    match output {
        CommandView::NotRun => Err(ToolErrorView::GitNotRun),
        CommandView::Ran { success, stdout } => if success {
            Ok(lossy_text(stdout))
        } else {
            Err(ToolErrorView::GitFailed)
        },
    }
}

fn want_path(purpose: Purpose, root: FilePath, requested: &str) -> (step: ToolStep)
    ensures
        step@ == path_wanted(purpose, root@, requested@),
{
    let path = root.join(&FilePath::from_text(requested));
    ToolStep::Canonicalize(PathQuery { purpose, root, path })
}

/// Starts a tool, given the workspace root, the current directory, or the cause for which it is
/// not known.
pub fn run_allowlisted_tool(
    name: &str,
    requested_path: Option<&str>,
    root: Result<FilePath, String>,
) -> (step: ToolStep)
    ensures
        step@ == first_step(
            name@,
            text::optional_text(requested_path),
            path_view(root),
        ),
        name@ == "pwd"@ && root is Ok && vstd::utf8::valid_utf8(root->Ok_0@) ==> step@
            == ToolStepView::Finished(Ok(vstd::utf8::decode_utf8(root->Ok_0@))),
{
    let root = match root {
        Ok(root) => root,
        Err(cause) => {
            return ToolStep::Finished(Err(ToolError::Io(cause)));
        },
    };
    if text::same(name, "pwd") {
        ToolStep::Finished(Ok(lossy(&root.bytes)))
    } else if text::same(name, "list") {
        match requested_path {
            Some(requested) => want_path(Purpose::List, root, requested),
            None => want_path(Purpose::List, root, "."),
        }
    } else if text::same(name, "read") {
        match requested_path {
            Some(requested) => want_path(Purpose::Read, root, requested),
            None => ToolStep::Finished(Err(ToolError::PathRequired)),
        }
    } else if text::same(name, "git_diff") {
        let arguments: Vec<String> = vec![
            "diff".to_owned(),
            "--no-ext-diff".to_owned(),
            "--".to_owned(),
        ];
        assert(text::texts(arguments@) =~= seq!["diff"@, "--no-ext-diff"@, "--"@]);
        ToolStep::RunCommand(
            CommandLine { program: "git".to_owned(), arguments, directory: root },
        )
    } else {
        ToolStep::Finished(Err(ToolError::NotAllowed(name.to_owned())))
    }
}

/// The path that a tool may use, given the canonical forms of the path and of the workspace root:
/// it must lie within the root.
pub fn safe_path(
    canonical: Result<FilePath, String>,
    canonical_root: Result<FilePath, String>,
) -> (found: Result<FilePath, ToolError>)
    ensures
        match found {
            Ok(found) => safe(path_view(canonical), path_view(canonical_root)) == Ok::<
                Seq<u8>,
                ToolErrorView,
            >(found@),
            Err(error) => safe(path_view(canonical), path_view(canonical_root)) == Err::<
                Seq<u8>,
                ToolErrorView,
            >(error@),
        },
{
    match canonical {
        Err(_) => Err(ToolError::PathMissing),
        Ok(path) => match canonical_root {
            Err(cause) => Err(ToolError::Io(cause)),
            Ok(root) => if path.starts_with(&root) {
                Ok(path)
            } else {
                Err(ToolError::PathEscapes)
            },
        },
    }
}

impl PathQuery {
    /// Goes on with the canonical form of the path, or the cause for which it has none.
    pub fn resolved(self, canonical: Result<FilePath, String>) -> (step: ToolStep)
        ensures
            step@ == path_step(self.purpose, self.root@, path_view(canonical)),
    {
        match canonical {
            Ok(canonical) => ToolStep::CanonicalizeRoot(
                RootQuery { purpose: self.purpose, root: self.root, canonical },
            ),
            Err(_) => ToolStep::Finished(Err(ToolError::PathMissing)),
        }
    }
}

impl RootQuery {
    /// Goes on with the canonical form of the root, or the cause for which it has none.
    pub fn resolved(self, canonical_root: Result<FilePath, String>) -> (step: ToolStep)
        ensures
            step@ == root_step(self.purpose, self.canonical@, path_view(canonical_root)),
    {
        match safe_path(Ok(self.canonical), canonical_root) {
            Ok(path) => match self.purpose {
                Purpose::List => ToolStep::ListDirectory(path),
                Purpose::Read => ToolStep::ReadFile(path),
            },
            Err(error) => ToolStep::Finished(Err(error)),
        }
    }
}

/// The result of listing a directory.
pub fn list_directory(listing: Listing) -> (result: Result<String, ToolError>)
    ensures
        result_view(result) == list_result(listing_view(listing)),
        result is Ok ==> forall|i: int|
            0 <= i < listing->Ok_0@.len() && vstd::utf8::valid_utf8(
                (#[trigger] listing->Ok_0@[i])->Ok_0@,
            ) ==> lossy_text(listing->Ok_0@[i]->Ok_0@) == vstd::utf8::decode_utf8(
                listing->Ok_0@[i]->Ok_0@,
            ),
        listing is Ok && readable(entry_views(listing->Ok_0@)) ==> result_view(result) == Ok::<
            Seq<char>,
            ToolErrorView,
        >(listed(readable_names(entry_views(listing->Ok_0@)))),
{
    let entries = match listing {
        Ok(entries) => entries,
        Err(cause) => {
            return Err(ToolError::Io(cause));
        },
    };
    let ghost all = entry_views(entries@);
    let mut names: Vec<String> = Vec::new();
    assert(text::texts(names@) =~= Seq::empty());
    for index in 0..entries.len()
        invariant
            all == entry_views(entries@),
            listing_view(listing) == Ok::<Seq<Result<Seq<u8>, Seq<char>>>, Seq<char>>(all),
            entry_names(all.take(index as int)) == Ok::<Seq<Seq<char>>, Seq<char>>(
                text::texts(names@),
            ),
            names@.len() == index,
            forall|i: int|
                #![trigger entries@[i]]
                0 <= i < index ==> entries@[i] is Ok && names@[i]@ == lossy_text(
                    entries@[i]->Ok_0@,
                ) && (vstd::utf8::valid_utf8(entries@[i]->Ok_0@) ==> names@[i]@
                    == vstd::utf8::decode_utf8(entries@[i]->Ok_0@)),
    {
        assert(all.take(index + 1).drop_last() =~= all.take(index as int));
        match &entries[index] {
            Ok(name) => {
                let ghost before = text::texts(names@);
                names.push(lossy(name));
                assert(text::texts(names@) =~= before.push(lossy_text(name@)));
            },
            Err(cause) => {
                assert(all[index as int] == Err::<Seq<u8>, Seq<char>>(cause@));
                assert(entry_names(all.take(index + 1)) == Err::<Seq<Seq<char>>, Seq<char>>(cause@));
                proof {
                    lemma_first_cause_stays(all, index + 1);
                }
                return Err(ToolError::Io(cause.clone()));
            },
        }
    }
    assert(all.take(all.len() as int) =~= all);
    proof {
        if readable(all) {
            assert forall|i: int| 0 <= i < all.len() implies text::texts(names@)[i]
                == readable_names(all)[i] by {
                assert(all[i] == Ok::<Seq<u8>, Seq<char>>(entries@[i]->Ok_0@));
            }
            assert(text::texts(names@) =~= readable_names(all));
        }
    }
    let sorted = sorting::sort(names);
    Ok(text::join(&sorted, "\n"))
}

pub(crate) proof fn lemma_first_cause_stays(entries: Seq<Result<Seq<u8>, Seq<char>>>, count: int)
    requires
        0 <= count <= entries.len(),
        entry_names(entries.take(count)) is Err,
    ensures
        entry_names(entries) == entry_names(entries.take(count)),
    decreases entries.len(),
{
    if count == entries.len() {
        assert(entries.take(count) =~= entries);
    } else {
        assert(entries.drop_last().take(count) =~= entries.take(count));
        lemma_first_cause_stays(entries.drop_last(), count);
    }
}

/// The result of reading a file.
pub fn read_file(found: Result<String, String>) -> (result: Result<String, ToolError>)
    ensures
        result_view(result) == read_result(text_view(found)),
{
    match found {
        Ok(text) => Ok(text),
        Err(cause) => Err(ToolError::Io(cause)),
    }
}

/// The result of `git diff`.
pub fn git_diff(output: Result<CommandOutput, String>) -> (result: Result<String, ToolError>)
    ensures
        result_view(result) == git_result(command_view(output)),
        output is Ok && output->Ok_0.success && vstd::utf8::valid_utf8(output->Ok_0.stdout@)
            ==> result_view(result) == Ok::<Seq<char>, ToolErrorView>(
            vstd::utf8::decode_utf8(output->Ok_0.stdout@),
        ),
{
    match output {
        Err(_) => Err(ToolError::GitNotRun),
        Ok(output) => if output.success {
            Ok(lossy(&output.stdout))
        } else {
            Err(ToolError::GitFailed)
        },
    }
}

/// The reply to a client that ran a tool.
pub fn run_tool(result: Result<String, ToolError>) -> (reply: Reply)
    ensures
        match result_view(result) {
            Ok(output) => {
                &&& reply@ == reply::json_reply_view(200, reply::labelled("result"@, output))
                &&& reply::body_json(reply@) == Some(reply::labelled("result"@, output))
            },
            Err(error) => {
                &&& reply@ == reply::error_reply(400, message_of(error))
                &&& reply::body_json(reply@) == Some(
                    reply::labelled("error"@, message_of(error)),
                )
            },
        },
        result is Ok ==> reply.status == 200 && codec::parsed_json(
            vstd::utf8::decode_utf8(reply.body@),
        ) == Some(
            JsonView::Object(Map::empty().insert("result"@, JsonView::Text(result->Ok_0@))),
        ),
        result is Err ==> reply.status == 400 && codec::parsed_json(
            vstd::utf8::decode_utf8(reply.body@),
        ) == Some(
            JsonView::Object(
                Map::empty().insert("error"@, JsonView::Text(message_of(result->Err_0@))),
            ),
        ),
{
    proof {
        reply::lemma_labels_are_not_reserved();
    }
    match result {
        Ok(output) => labelled_reply(200, "result", output.as_str()),
        Err(error) => error_response(400, error.message().as_str()),
    }
}

} // verus!
