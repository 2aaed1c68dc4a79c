use termux_agent_router::definitions::safe_tool_definitions;
use termux_agent_router::json::Json;
use termux_agent_router::path::FilePath;
use termux_agent_router::reply::error_response;
use termux_agent_router::tools::{
    git_diff, list_directory, read_file, run_allowlisted_tool, run_tool, safe_path, CommandOutput,
    Purpose, ToolError, ToolStep,
};

fn path(text: &str) -> FilePath {
    FilePath::from_text(text)
}

fn start(name: &str, requested: Option<&str>) -> ToolStep {
    run_allowlisted_tool(name, requested, Ok(path("/work")))
}

fn resolved(name: &str, requested: Option<&str>, canonical: &str) -> ToolStep {
    let ToolStep::Canonicalize(query) = start(name, requested) else {
        panic!("the path is resolved first");
    };
    let ToolStep::CanonicalizeRoot(query) = query.resolved(Ok(path(canonical))) else {
        panic!("the root is resolved next");
    };
    assert_eq!(query.root, path("/work"));
    query.resolved(Ok(path("/data/work")))
}

#[test]
fn pwd_tells_the_workspace() {
    assert_eq!(start("pwd", None), ToolStep::Finished(Ok("/work".into())));
    assert_eq!(start("pwd", Some("x")), ToolStep::Finished(Ok("/work".into())));
    let root = FilePath { bytes: vec![47, 255] };
    assert_eq!(
        run_allowlisted_tool("pwd", None, Ok(root)),
        ToolStep::Finished(Ok("/\u{fffd}".into()))
    );
}

#[test]
fn the_workspace_must_be_known() {
    for name in ["pwd", "list", "read", "git_diff", "rm"] {
        assert_eq!(
            run_allowlisted_tool(name, None, Err("gone".into())),
            ToolStep::Finished(Err(ToolError::Io("gone".into())))
        );
    }
}

#[test]
fn paths_are_seen_from_the_workspace() {
    let ToolStep::Canonicalize(query) = start("list", None) else {
        panic!("the path is resolved first");
    };
    assert_eq!(query.path, path("/work/."));
    assert_eq!(query.purpose, Purpose::List);
    let ToolStep::Canonicalize(query) = start("read", Some("/etc/passwd")) else {
        panic!("the path is resolved first");
    };
    assert_eq!(query.path, path("/etc/passwd"));
    assert_eq!(query.purpose, Purpose::Read);
}

#[test]
fn files_within_the_workspace_are_used() {
    assert_eq!(
        resolved("read", Some("a"), "/data/work/a"),
        ToolStep::ReadFile(path("/data/work/a"))
    );
    assert_eq!(
        resolved("list", None, "/data/work"),
        ToolStep::ListDirectory(path("/data/work"))
    );
}

#[test]
fn files_outside_of_the_workspace_are_refused() {
    for name in ["read", "list"] {
        for canonical in ["/data", "/etc/passwd", "/data/workshop", "/"] {
            assert_eq!(
                resolved(name, Some("x"), canonical),
                ToolStep::Finished(Err(ToolError::PathEscapes))
            );
        }
    }
    assert_eq!(ToolError::PathEscapes.message(), "path escapes router workspace");
}

#[test]
fn paths_must_lead_somewhere() {
    let ToolStep::Canonicalize(query) = start("read", Some("gone")) else {
        panic!("the path is resolved first");
    };
    assert_eq!(
        query.resolved(Err("No such file".into())),
        ToolStep::Finished(Err(ToolError::PathMissing))
    );
    assert_eq!(ToolError::PathMissing.message(), "path does not exist");
}

#[test]
fn safe_paths_lie_within_the_root() {
    assert_eq!(safe_path(Ok(path("/r/a")), Ok(path("/r"))), Ok(path("/r/a")));
    assert_eq!(safe_path(Ok(path("/r")), Ok(path("/r"))), Ok(path("/r")));
    assert_eq!(safe_path(Ok(path("/ra")), Ok(path("/r"))), Err(ToolError::PathEscapes));
    assert_eq!(
        safe_path(Ok(path("/r/a")), Err("io".into())),
        Err(ToolError::Io("io".into()))
    );
    assert_eq!(
        safe_path(Err("a".into()), Err("b".into())),
        Err(ToolError::PathMissing)
    );
}

#[test]
fn an_accepted_path_is_accepted_again() {
    let accepted = safe_path(Ok(path("/data/work/a")), Ok(path("/data/work"))).unwrap();
    let again = String::from_utf8(accepted.bytes.clone()).unwrap();
    let ToolStep::Canonicalize(query) = start("read", Some(&again)) else {
        panic!("the path is resolved first");
    };
    assert_eq!(query.path, accepted);
    assert_eq!(resolved("read", Some(&again), &again), ToolStep::ReadFile(accepted));
}

#[test]
fn reading_needs_a_path() {
    assert_eq!(start("read", None), ToolStep::Finished(Err(ToolError::PathRequired)));
    assert_eq!(ToolError::PathRequired.message(), "read requires path");
}

#[test]
fn other_tools_are_refused() {
    for name in ["", "rm", "PWD", "pwd ", "read\0", "bash"] {
        let error = ToolError::NotAllowed(name.to_string());
        assert_eq!(error.message(), format!("tool not allowed: {}", name));
        assert_eq!(start(name, Some("a")), ToolStep::Finished(Err(error)));
    }
}

#[test]
fn git_diff_runs_without_a_shell() {
    let ToolStep::RunCommand(command) = start("git_diff", Some("; rm -rf /")) else {
        panic!("a command is run");
    };
    assert_eq!(command.program, "git");
    assert_eq!(
        command.arguments,
        vec!["diff".to_string(), "--no-ext-diff".to_string(), "--".to_string()]
    );
    assert_eq!(command.directory, path("/work"));
}

#[test]
fn the_diff_is_told_as_text() {
    let output = |success, stdout: &[u8]| Ok(CommandOutput { success, stdout: stdout.to_vec() });
    assert_eq!(git_diff(output(true, b"+a\n")), Ok("+a\n".into()));
    assert_eq!(git_diff(output(true, b"a\xff\xc3\xa9")), Ok("a\u{fffd}\u{e9}".into()));
    assert_eq!(git_diff(output(false, b"+a\n")), Err(ToolError::GitFailed));
    assert_eq!(git_diff(Err("no git".into())), Err(ToolError::GitNotRun));
    assert_eq!(ToolError::GitFailed.message(), "git diff failed");
    assert_eq!(ToolError::GitNotRun.message(), "run git diff");
}

#[test]
fn directories_are_listed_in_order() {
    let listing = Ok(vec![
        Ok(b"src".to_vec()),
        Ok(b"Cargo.toml".to_vec()),
        Ok(b"app".to_vec()),
        Ok(vec![255]),
    ]);
    assert_eq!(list_directory(listing), Ok("Cargo.toml\napp\nsrc\n\u{fffd}".into()));
    assert_eq!(list_directory(Ok(vec![])), Ok("".into()));
    assert_eq!(list_directory(Err("denied".into())), Err(ToolError::Io("denied".into())));
    assert_eq!(
        list_directory(Ok(vec![Ok(b"a".to_vec()), Err("x".into()), Err("y".into())])),
        Err(ToolError::Io("x".into()))
    );
}

#[test]
fn files_are_read() {
    assert_eq!(read_file(Ok("text".into())), Ok("text".into()));
    let error = read_file(Err("denied".into())).unwrap_err();
    assert_eq!(error, ToolError::Io("denied".into()));
    assert_eq!(error.message(), "denied");
}

#[test]
fn results_are_replied() {
    let reply = run_tool(Ok("a\nb".into()));
    assert_eq!(reply.status, 200);
    assert_eq!(reply.body.as_slice(), br#"{"result":"a\nb"}"#);
    assert_eq!(reply.content_type, Some(b"application/json".to_vec()));
    assert_eq!(
        run_tool(Err(ToolError::PathEscapes)),
        error_response(400, "path escapes router workspace")
    );
}

#[test]
fn definitions_describe_the_tools() {
    let expected = concat_lines(&[
        r#"[{"function":{"description":"Return the current workspace path.","name":"pwd","#,
        r#""parameters":{"additionalProperties":false,"properties":{},"type":"object"}},"#,
        r#""type":"function"},"#,
        r#"{"function":{"description":"List entries in a workspace-relative directory.","#,
        r#""name":"list","parameters":{"additionalProperties":false,"#,
        r#""properties":{"path":{"type":"string"}},"type":"object"}},"type":"function"},"#,
        r#"{"function":{"description":"Read a workspace-relative text file.","name":"read","#,
        r#""parameters":{"additionalProperties":false,"properties":{"path":{"type":"string"}},"#,
        r#""required":["path"],"type":"object"}},"type":"function"},"#,
        r#"{"function":{"description":"Return the current git diff without executing a shell.","#,
        r#""name":"git_diff","parameters":{"additionalProperties":false,"properties":{},"#,
        r#""type":"object"}},"type":"function"}]"#,
    ]);
    assert_eq!(safe_tool_definitions().to_text(), expected);
}

fn concat_lines(lines: &[&str]) -> String {
    lines.iter().map(|line| line.to_string()).collect()
}

#[test]
fn every_described_tool_may_be_run() {
    let Json::Array(items) = safe_tool_definitions() else {
        panic!("the definitions are a list");
    };
    for item in items {
        let name = item.get("function").unwrap().get("name").unwrap().as_str().unwrap();
        let step = start(name, Some("a"));
        assert_ne!(step, ToolStep::Finished(Err(ToolError::NotAllowed(name.to_string()))));
    }
}
