//! Where the configuration and the sessions are stored.
use crate::path::{self, FilePath};
use crate::text;
use vstd::prelude::*;
use vstd::string::*;

verus! {

/// Why a location cannot be told.
#[derive(Debug, PartialEq, Eq)]
pub enum LocationError {
    /// The user has no configuration directory.
    NoHomeDirectory,
    /// The user has no data directory.
    NoDataDirectory,
    /// The session name is empty or holds a character that none may hold.
    InvalidSessionName,
}

/// The sentence that tells why a location cannot be told.
pub open spec fn message_of(error: LocationError) -> Seq<char> {
    match error {
        LocationError::NoHomeDirectory => "cannot determine home directory"@,
        LocationError::NoDataDirectory => "cannot determine data directory"@,
        LocationError::InvalidSessionName => "invalid session name"@,
    }
}

impl LocationError {
    /// The sentence that tells why a location cannot be told.
    pub fn message(&self) -> (message: String)
        ensures
            message@ == message_of(*self),
    {
        match self {
            LocationError::NoHomeDirectory => "cannot determine home directory".to_owned(),
            LocationError::NoDataDirectory => "cannot determine data directory".to_owned(),
            LocationError::InvalidSessionName => "invalid session name".to_owned(),
        }
    }
}

/// The bytes of a text.
pub open spec fn bytes(text: Seq<char>) -> Seq<u8> {
    vstd::utf8::encode_utf8(text)
}

/// The configuration file within a configuration directory.
pub open spec fn config_file(directory: Seq<u8>) -> Seq<u8> {
    path::joined(path::joined(directory, bytes("termux-agent-router"@)), bytes("config.toml"@))
}

/// The directory of the sessions within a data directory.
pub open spec fn session_directory(directory: Seq<u8>) -> Seq<u8> {
    path::joined(path::joined(directory, bytes("termux-agent-router"@)), bytes("sessions"@))
}

/// The file of a session within a data directory.
pub open spec fn session_file(directory: Seq<u8>, id: Seq<char>) -> Seq<u8> {
    path::joined(session_directory(directory), bytes(id + ".json"@))
}

/// The configuration file, given the user's configuration directory.
pub fn config_path(directory: Option<FilePath>) -> (file: Result<FilePath, LocationError>)
    ensures
        match (directory, file) {
            (Some(directory), Ok(file)) => file@ == config_file(directory@),
            (None, Err(error)) => error == LocationError::NoHomeDirectory,
            _ => false,
        },
{
    match directory {
        Some(directory) => Ok(
            directory.join(&FilePath::from_text("termux-agent-router")).join(
                &FilePath::from_text("config.toml"),
            ),
        ),
        None => Err(LocationError::NoHomeDirectory),
    }
}

/// The directory of the sessions, given the user's data directory.
pub fn sessions_dir(directory: Option<FilePath>) -> (sessions: Result<FilePath, LocationError>)
    ensures
        match (directory, sessions) {
            (Some(directory), Ok(sessions)) => sessions@ == session_directory(directory@),
            (None, Err(error)) => error == LocationError::NoDataDirectory,
            _ => false,
        },
{
    match directory {
        Some(directory) => Ok(
            directory.join(&FilePath::from_text("termux-agent-router")).join(
                &FilePath::from_text("sessions"),
            ),
        ),
        None => Err(LocationError::NoDataDirectory),
    }
}

/// Whether a session name may hold a character: an ASCII letter or digit, `-`, `_` or `.`.
pub open spec fn session_character(c: char) -> bool {
    ||| 'a' <= c <= 'z'
    ||| 'A' <= c <= 'Z'
    ||| '0' <= c <= '9'
    ||| c == '-'
    ||| c == '_'
    ||| c == '.'
}

/// Whether a text is a session name.
pub open spec fn session_name(id: Seq<char>) -> bool {
    id.len() > 0 && forall|i: int| 0 <= i < id.len() ==> session_character(#[trigger] id[i])
}

/// Whether a text is a session name.
pub fn is_session_name(id: &str) -> (result: bool)
    ensures
        result == session_name(id@),
{
    if id.is_empty() {
        return false;
    }
    let mut result: bool = true;
    for c in it: id.chars()
        invariant
            it.seq() == id@,
            result == (forall|i: int| 0 <= i < it.index() ==> session_character(#[trigger] id@[i])),
    {
        let accepted = ('a' <= c && c <= 'z') || ('A' <= c && c <= 'Z') || ('0' <= c && c <= '9')
            || c == '-' || c == '_' || c == '.';
        if !accepted {
            result = false;
        }
    }
    result
}

/// The file of a session, given the user's data directory.
pub fn session_path(id: &str, directory: Option<FilePath>) -> (file: Result<
    FilePath,
    LocationError,
>)
    ensures
        match file {
            Ok(file) => session_name(id@) && directory is Some && file@ == session_file(
                directory->0@,
                id@,
            ),
            Err(LocationError::InvalidSessionName) => !session_name(id@),
            Err(LocationError::NoDataDirectory) => session_name(id@) && directory is None,
            Err(LocationError::NoHomeDirectory) => false,
        },
{
    if !is_session_name(id) {
        return Err(LocationError::InvalidSessionName);
    }
    match sessions_dir(directory) {
        Ok(sessions) => Ok(sessions.join(&FilePath::from_text(text::together(id, ".json").as_str()))),
        Err(error) => Err(error),
    }
}

/// A text of ASCII characters without a slash, other than `.`, is a single name of a path.
proof fn lemma_plain_text_is_single_name(name: Seq<char>)
    requires
        name.len() > 1,
        vstd::utf8::is_ascii_chars(name),
        forall|i: int| 0 <= i < name.len() ==> #[trigger] name[i] != '/',
    ensures
        path::single_name(bytes(name)),
{
    vstd::utf8::is_ascii_chars_encode_utf8(name);
    assert forall|i: int| 0 <= i < bytes(name).len() implies bytes(name)[i] != path::SEPARATOR by {
        assert(bytes(name)[i] == name[i] as u8);
    }
}

/// The configuration file lies in the directory `termux-agent-router` of the user's configuration
/// directory, under the name `config.toml`.
pub proof fn config_lies_in_directory(directory: Seq<u8>)
    ensures
        path::components(config_file(directory)) == path::components(directory).push(
            bytes("termux-agent-router"@),
        ).push(bytes("config.toml"@)),
{
    reveal_strlit("termux-agent-router");
    reveal_strlit("config.toml");
    lemma_plain_text_is_single_name("termux-agent-router"@);
    lemma_plain_text_is_single_name("config.toml"@);
    path::join_adds_one_component(directory, bytes("termux-agent-router"@));
    path::join_adds_one_component(
        path::joined(directory, bytes("termux-agent-router"@)),
        bytes("config.toml"@),
    );
}

/// The sessions lie in the directory `termux-agent-router/sessions` of the user's data directory.
pub proof fn sessions_lie_in_directory(directory: Seq<u8>)
    ensures
        path::components(session_directory(directory)) == path::components(directory).push(
            bytes("termux-agent-router"@),
        ).push(bytes("sessions"@)),
{
    reveal_strlit("termux-agent-router");
    reveal_strlit("sessions");
    lemma_plain_text_is_single_name("termux-agent-router"@);
    lemma_plain_text_is_single_name("sessions"@);
    path::join_adds_one_component(directory, bytes("termux-agent-router"@));
    path::join_adds_one_component(
        path::joined(directory, bytes("termux-agent-router"@)),
        bytes("sessions"@),
    );
}

/// A session's file lies directly within the directory of the sessions, whatever the session is
/// called: no name leads to another directory.
pub proof fn session_stays_in_directory(directory: Seq<u8>, id: Seq<char>)
    requires
        session_name(id),
    ensures
        path::components(session_file(directory, id)) == path::components(
            session_directory(directory),
        ).push(bytes(id + ".json"@)),
        path::within(session_file(directory, id), session_directory(directory)),
{
    reveal_strlit(".json");
    let name = id + ".json"@;
    assert forall|i: int| 0 <= i < name.len() implies #[trigger] name[i] != '/' by {
        if i < id.len() {
            assert(session_character(id[i]));
        }
    }
    lemma_plain_text_is_single_name(name);
    path::join_adds_one_component(session_directory(directory), bytes(name));
}

/// Sessions of different names have different files.
pub proof fn sessions_have_own_files(directory: Seq<u8>, first: Seq<char>, second: Seq<char>)
    requires
        session_name(first),
        session_name(second),
        session_file(directory, first) == session_file(directory, second),
    ensures
        first == second,
{
    session_stays_in_directory(directory, first);
    session_stays_in_directory(directory, second);
    let sessions = path::components(session_directory(directory));
    let a = first + ".json"@;
    let b = second + ".json"@;
    assert(sessions.push(bytes(a)).last() == sessions.push(bytes(b)).last());
    vstd::utf8::encode_utf8_decode_utf8(a);
    vstd::utf8::encode_utf8_decode_utf8(b);
    assert(a.len() == b.len());
    assert(first =~= a.take(first.len() as int));
    assert(second =~= b.take(second.len() as int));
}

} // verus!
