use std::path::Path;
use termux_agent_router::locations::{
    config_path, is_session_name, session_path, sessions_dir, LocationError,
};
use termux_agent_router::path::FilePath;
use termux_agent_router::session::session_id;

fn path(text: &str) -> FilePath {
    FilePath::from_text(text)
}

fn text(path: &FilePath) -> String {
    String::from_utf8(path.bytes.clone()).unwrap()
}

const PATHS: [&str; 22] = [
    "", "/", "//", ".", "..", "./", "./a", "a/.", "a/./b", "/a", "/a/", "/a//b", "/a/b", "/ab",
    "a", "a/b", "a/b/c", "../a", "/./a", ".a", "/a/..", "a//",
];

#[test]
fn joining_is_that_of_std() {
    assert_eq!(text(&path("/work").join(&path("src"))), "/work/src");
    assert_eq!(text(&path("/work").join(&path("/etc"))), "/etc");
    for base in PATHS {
        for child in PATHS {
            let expected = Path::new(base).join(child);
            let joined = path(base).join(&path(child));
            assert_eq!(text(&joined), expected.to_str().unwrap(), "{:?} {:?}", base, child);
        }
    }
}

#[test]
fn components_are_those_of_std() {
    for each in PATHS {
        let expected: Vec<Vec<u8>> = Path::new(each)
            .components()
            .map(|component| component.as_os_str().to_str().unwrap().as_bytes().to_vec())
            .collect();
        assert_eq!(path(each).components(), expected, "{:?}", each);
    }
}

#[test]
fn prefixes_are_those_of_std() {
    assert!(path("/work/src").starts_with(&path("/work")));
    assert!(!path("/workshop").starts_with(&path("/work")));
    for each in PATHS {
        for base in PATHS {
            assert_eq!(
                path(each).starts_with(&path(base)),
                Path::new(each).starts_with(base),
                "{:?} {:?}",
                each,
                base
            );
        }
    }
}

#[test]
fn a_single_name_adds_one_component() {
    for base in PATHS {
        let joined = path(base).join(&path("name"));
        let mut expected = path(base).components();
        expected.push(b"name".to_vec());
        assert_eq!(joined.components(), expected, "{:?}", base);
        assert!(joined.starts_with(&path(base)));
    }
}

#[test]
fn paths_need_not_be_text() {
    let root = FilePath { bytes: vec![47, 255, 254] };
    let file = root.join(&path("a"));
    assert_eq!(file.bytes, vec![47, 255, 254, 47, 97]);
    assert!(file.starts_with(&root));
}

#[test]
fn the_configuration_lies_below_the_configuration_directory() {
    assert_eq!(
        text(&config_path(Some(path("/home/u/.config"))).unwrap()),
        "/home/u/.config/termux-agent-router/config.toml"
    );
    let error = config_path(None).unwrap_err();
    assert_eq!(error, LocationError::NoHomeDirectory);
    assert_eq!(error.message(), "cannot determine home directory");
}

#[test]
fn the_sessions_lie_below_the_data_directory() {
    assert_eq!(
        text(&sessions_dir(Some(path("/home/u/.local/share"))).unwrap()),
        "/home/u/.local/share/termux-agent-router/sessions"
    );
    let error = sessions_dir(None).unwrap_err();
    assert_eq!(error, LocationError::NoDataDirectory);
    assert_eq!(error.message(), "cannot determine data directory");
}

#[test]
fn a_session_has_a_file_of_its_own() {
    let data = || Some(path("/data"));
    assert_eq!(
        text(&session_path("kerja", data()).unwrap()),
        "/data/termux-agent-router/sessions/kerja.json"
    );
    let directory = sessions_dir(data()).unwrap();
    for id in ["..", ".", "...", "a.b", "-", "_"] {
        let file = session_path(id, data()).unwrap();
        assert!(file.starts_with(&directory));
        assert_eq!(file.components().len(), directory.components().len() + 1);
    }
    assert_ne!(session_path("a", data()), session_path("b", data()));
}

#[test]
fn session_names_hold_letters_digits_and_three_marks() {
    for id in ["", "a/b", "a b", "\u{e9}", "a\\b", "a\0", "~", "a:b"] {
        assert!(!is_session_name(id), "{:?}", id);
        assert_eq!(
            session_path(id, Some(path("/data"))),
            Err(LocationError::InvalidSessionName)
        );
        assert_eq!(session_path(id, None), Err(LocationError::InvalidSessionName));
    }
    for id in ["azAZ09", "-_.", "default", "0"] {
        assert!(is_session_name(id), "{:?}", id);
    }
    assert_eq!(session_path("a", None), Err(LocationError::NoDataDirectory));
    assert_eq!(LocationError::InvalidSessionName.message(), "invalid session name");
}

#[test]
fn new_sessions_are_named_after_the_time() {
    let id = session_id(true, "default", 1_700_000_000_000_000_001);
    assert_eq!(id, "session-1700000000000000001");
    assert!(is_session_name(&id));
    assert!(is_session_name(&session_id(true, "", 0)));
    assert_eq!(session_id(false, "kerja", 5), "kerja");
}
