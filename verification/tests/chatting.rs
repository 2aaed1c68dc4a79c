use termux_agent_router::chat::{
    chat_client, path_argument, proxy_chat_url, read_call, tool_text, Chat, ChatError,
    ChatOptions, ChatStep, ToolRound,
};
use termux_agent_router::config::{default_host, default_port, Config};
use termux_agent_router::definitions::safe_tool_definitions;
use termux_agent_router::json::Json;
use termux_agent_router::session::{begins_anew, ChatMessage, Session};
use termux_agent_router::tools::ToolError;

fn config() -> Config {
    Config {
        providers: vec![],
        default_model: "one-model".into(),
        fallback_models: vec![],
        listen_host: default_host(),
        listen_port: default_port(),
    }
}

fn options(prompt: &[&str], max_iterations: usize) -> ChatOptions {
    ChatOptions {
        model: None,
        tools: false,
        max_iterations,
        prompt: prompt.iter().map(|word| word.to_string()).collect(),
    }
}

fn message(role: &str, content: &str) -> ChatMessage {
    ChatMessage {
        role: role.into(),
        content: content.into(),
    }
}

fn json(text: &str) -> Json {
    Json::parse(text).unwrap()
}

fn asked(step: ChatStep) -> Chat {
    match step {
        ChatStep::Ask(chat) => chat,
        other => panic!("{:?}", other),
    }
}

fn running(step: ChatStep) -> ToolRound {
    match step {
        ChatStep::RunTool(round) => round,
        other => panic!("{:?}", other),
    }
}

const ANSWER: &str = r#"{"choices":[{"message":{"role":"assistant","content":"Halo!"}}]}"#;

const CALLS: &str = r#"{"choices":[{"message":{"role":"assistant","content":null,"tool_calls":[
    {"id":"c1","function":{"name":"read","arguments":"{\"path\":\"a.txt\"}"}},
    {"id":"c2","function":{"name":"rm","arguments":"{}"}}]}}]}"#;

#[test]
fn the_proxy_is_asked_at_its_address() {
    assert_eq!(
        proxy_chat_url(&config()),
        "http://127.0.0.1:8787/v1/chat/completions"
    );
}

#[test]
fn blank_prompts_are_refused() {
    for prompt in [&[][..], &["", ""][..], &[" ", "\t"][..]] {
        let step = chat_client(&config(), options(prompt, 8), Session::default());
        assert_eq!(step, ChatStep::Failed(ChatError::EmptyPrompt));
    }
    assert_eq!(ChatError::EmptyPrompt.message(), "prompt must not be empty");
}

#[test]
fn the_first_request_carries_the_session() {
    let history = Session {
        messages: vec![message("user", "Hai"), message("assistant", "Ya?")],
    };
    let chat = asked(chat_client(&config(), options(&["Apa", "kabar"], 8), history));
    assert_eq!(
        chat.request().to_text(),
        r#"{"messages":[{"content":"Hai","role":"user"},{"content":"Ya?","role":"assistant"},{"content":"Apa kabar","role":"user"}],"model":"one-model"}"#
    );
}

#[test]
fn the_model_and_the_tools_can_be_chosen() {
    let mut wished = options(&["x"], 8);
    wished.model = Some("other".into());
    wished.tools = true;
    let request = asked(chat_client(&config(), wished, Session::default())).request();
    assert_eq!(request.get("model").unwrap().as_str(), Some("other"));
    assert_eq!(request.get("tools").unwrap().to_text(), safe_tool_definitions().to_text());
    assert_eq!(request.get("tool_choice").unwrap().as_str(), Some("auto"));
    let plain = asked(chat_client(&config(), options(&["x"], 8), Session::default())).request();
    assert_eq!(plain.get("tools"), None);
    assert_eq!(plain.get("tool_choice"), None);
}

#[test]
fn the_answer_joins_the_session() {
    let history = Session { messages: vec![message("user", "Hai")] };
    let chat = asked(chat_client(&config(), options(&["Apa?"], 8), history));
    assert_eq!(
        chat.responded(json(ANSWER)),
        ChatStep::Answer {
            session: Session {
                messages: vec![
                    message("user", "Hai"),
                    message("user", "Apa?"),
                    message("assistant", "Halo!"),
                ],
            },
            answer: "Halo!".into(),
        }
    );
}

#[test]
fn tools_are_run_in_turn_and_their_results_told() {
    let chat = asked(chat_client(&config(), options(&["x"], 8), Session::default()));
    let round = running(chat.responded(json(CALLS)));
    assert_eq!(round.current.id, "c1");
    assert_eq!(round.current.name, "read");
    assert_eq!(round.current.path, Some("a.txt".into()));
    let round = running(round.finished(Ok("content".into())));
    assert_eq!(round.current.id, "c2");
    assert_eq!(round.current.name, "rm");
    assert_eq!(round.current.path, None);
    let chat = asked(round.finished(Err(ToolError::NotAllowed("rm".into()))));
    let texts: Vec<String> = chat.messages.iter().map(Json::to_text).collect();
    assert_eq!(texts.len(), 4);
    assert_eq!(texts[0], r#"{"content":"x","role":"user"}"#);
    assert_eq!(
        texts[1],
        json(CALLS).get("choices").unwrap().at(0).unwrap().get("message").unwrap().to_text()
    );
    assert_eq!(texts[2], r#"{"content":"content","role":"tool","tool_call_id":"c1"}"#);
    assert_eq!(
        texts[3],
        r#"{"content":"tool error: tool not allowed: rm","role":"tool","tool_call_id":"c2"}"#
    );
    let ChatStep::Answer { session, answer } = chat.responded(json(ANSWER)) else {
        panic!("the answer ends the conversation");
    };
    assert_eq!(answer, "Halo!");
    assert_eq!(session.messages, vec![message("user", "x"), message("assistant", "Halo!")]);
}

fn requests(max_iterations: usize) -> usize {
    let call = r#"{"choices":[{"message":{"tool_calls":[{}]}}]}"#;
    let mut step = chat_client(&config(), options(&["x"], max_iterations), Session::default());
    let mut count = 0;
    loop {
        step = match step {
            ChatStep::Ask(chat) => {
                count += 1;
                chat.responded(json(call))
            }
            ChatStep::RunTool(round) => round.finished(Ok(String::new())),
            ChatStep::Failed(error) => {
                assert_eq!(error, ChatError::NoAnswer);
                return count;
            }
            other => panic!("{:?}", other),
        };
    }
}

#[test]
fn conversations_are_bounded() {
    assert_eq!(requests(0), 1);
    assert_eq!(requests(1), 1);
    assert_eq!(requests(8), 8);
    assert_eq!(requests(32), 32);
    assert_eq!(requests(33), 32);
    assert_eq!(requests(usize::MAX), 32);
    assert_eq!(ChatError::NoAnswer.message(), "agent loop reached max iterations");
}

#[test]
fn errors_of_the_proxy_end_the_conversation() {
    for (response, message) in [
        (r#"{"error":"all providers failed"}"#, "proxy error: \"all providers failed\""),
        (r#"{"error":{"b":1,"a":[]},"choices":[]}"#, "proxy error: {\"a\":[],\"b\":1}"),
        (r#"{"error":null}"#, "proxy error: null"),
    ] {
        let chat = asked(chat_client(&config(), options(&["x"], 8), Session::default()));
        let ChatStep::Failed(error) = chat.responded(json(response)) else {
            panic!("the error ends the conversation");
        };
        assert_eq!(error.message(), message);
    }
}

#[test]
fn responses_without_text_give_no_answer() {
    for response in [
        "null",
        "[]",
        "{}",
        r#"{"choices":{}}"#,
        r#"{"choices":[]}"#,
        r#"{"choices":[{}]}"#,
        r#"{"choices":[{"message":"text"}]}"#,
        r#"{"choices":[{"message":{"content":null}}]}"#,
        r#"{"choices":[{"message":{"content":1,"tool_calls":{}}}]}"#,
        r#"{"choices":[{"message":{"tool_calls":[]}}]}"#,
    ] {
        let chat = asked(chat_client(&config(), options(&["x"], 8), Session::default()));
        assert_eq!(chat.responded(json(response)), ChatStep::Failed(ChatError::NoAnswer));
    }
}

#[test]
fn calls_are_read_with_care() {
    let call = read_call(&json(r#"{}"#));
    assert_eq!(call.id, "tool-call");
    assert_eq!(call.name, "");
    assert_eq!(call.path, None);
    let call = read_call(&json(r#"{"id":1,"function":{"name":"list","arguments":"no json"}}"#));
    assert_eq!(call.id, "tool-call");
    assert_eq!(call.name, "list");
    assert_eq!(call.path, None);
    for (arguments, path) in [
        (r#"{"path":"src"}"#, Some("src")),
        (r#"{"path":1}"#, None),
        (r#"["path"]"#, None),
        (r#"{"path":"a","path":"b"}"#, Some("b")),
    ] {
        assert_eq!(path_argument(&Json::parse(arguments)).as_deref(), path);
    }
    assert_eq!(path_argument(&None), None);
}

#[test]
fn results_are_told_as_text() {
    assert_eq!(tool_text(Ok("out".into())), "out");
    assert_eq!(tool_text(Err(ToolError::PathRequired)), "tool error: read requires path");
}

#[test]
fn a_run_begins_anew_or_goes_on() {
    assert!(begins_anew(true, true));
    assert!(begins_anew(true, false));
    assert!(begins_anew(false, false));
    assert!(!begins_anew(false, true));
    assert_eq!(Session::default(), Session { messages: vec![] });
}
