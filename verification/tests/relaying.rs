use termux_agent_router::config::{default_host, default_port, Config, Provider};
use termux_agent_router::json::Json;
use termux_agent_router::relay::{
    chat_completions, is_relayable, Attempt, Outcome, Relay, RelayStep,
};
use termux_agent_router::reply::{error_response, Reply};

fn provider(id: &str, url: &str, model: &str) -> Provider {
    Provider {
        id: id.into(),
        base_url: url.into(),
        api_key_env: format!("{}_KEY", id),
        model: model.into(),
    }
}

fn config() -> Config {
    Config {
        providers: vec![
            provider("one", "https://one", "one-model"),
            provider("two", "http://two//", "two-model"),
            provider("three", "https://three/api/", "three-model"),
        ],
        default_model: "one-model".into(),
        fallback_models: vec!["two-model".into(), "ghost".into(), "three-model".into()],
        listen_host: default_host(),
        listen_port: default_port(),
    }
}

fn request(text: &str) -> Json {
    Json::parse(text).unwrap()
}

fn answer(status: u16) -> Reply {
    Reply {
        status,
        body: status.to_string().into_bytes(),
        content_type: Some(b"text/plain".to_vec()),
    }
}

fn sent(step: RelayStep) -> (Attempt, Relay) {
    match step {
        RelayStep::Send(attempt, relay) => (attempt, relay),
        RelayStep::Respond(reply) => panic!("replied {:?}", reply),
    }
}

fn relay(outcomes: Vec<Outcome>) -> (Vec<String>, Option<Reply>) {
    let mut urls = Vec::new();
    let mut step = chat_completions(&config(), request("{}"));
    let mut outcomes = outcomes.into_iter();
    loop {
        match step {
            RelayStep::Respond(reply) => return (urls, Some(reply)),
            RelayStep::Send(attempt, relay) => {
                urls.push(attempt.url);
                step = match outcomes.next() {
                    Some(outcome) => relay.after(outcome),
                    None => return (urls, None),
                };
            }
        }
    }
}

#[test]
fn requests_go_to_the_provider_of_the_model() {
    let body = r#"{"messages":[{"content":"Halo","role":"user"}],"model":"two-model","n":1}"#;
    let (attempt, relay) = sent(chat_completions(&config(), request(body)));
    assert_eq!(attempt.provider_id, "two");
    assert_eq!(attempt.url, "http://two/v1/chat/completions");
    assert_eq!(attempt.api_key_env, "two_KEY");
    assert_eq!(attempt.body.to_text(), body);
    let (attempt, relay) = sent(relay.after(Outcome::Failed));
    assert_eq!(attempt.url, "https://three/api/v1/chat/completions");
    assert_eq!(attempt.body.to_text(), body.replace("two-model", "three-model"));
    assert_eq!(
        relay.after(Outcome::Failed),
        RelayStep::Respond(error_response(502, "all providers failed"))
    );
}

#[test]
fn requests_without_model_go_to_the_default() {
    for body in ["{}", r#"{"model":""}"#, r#"{"model":7}"#, "null"] {
        let (attempt, relay) = sent(chat_completions(&config(), request(body)));
        assert_eq!(attempt.provider_id, "one");
        assert_eq!(attempt.body.to_text(), r#"{"model":"one-model"}"#);
        assert_eq!(relay.remaining.len(), 2);
        assert_eq!(relay.last, None);
    }
}

#[test]
fn unserved_models_are_passed_over() {
    let (attempt, relay) = sent(chat_completions(&config(), request(r#"{"model":"ghost"}"#)));
    assert_eq!(attempt.provider_id, "two");
    assert_eq!(relay.remaining.len(), 1);
}

#[test]
fn success_ends_the_relay() {
    for status in [200, 201, 299] {
        let (urls, reply) = relay(vec![Outcome::Answered(answer(status))]);
        assert_eq!(urls.len(), 1);
        assert_eq!(reply, Some(answer(status)));
    }
}

#[test]
fn refusals_end_the_relay() {
    for status in [100, 199, 300, 302, 400, 401, 404, 428, 430, 499, 600, 999] {
        let (urls, reply) = relay(vec![Outcome::Answered(answer(status))]);
        assert_eq!(urls.len(), 1);
        assert_eq!(reply, Some(answer(status)));
    }
}

#[test]
fn fallback_only_after_transport_failure_5xx_or_429() {
    for status in [429, 500, 502, 503, 599] {
        let (urls, reply) = relay(vec![Outcome::Answered(answer(status))]);
        assert_eq!(urls.len(), 2);
        assert_eq!(reply, None);
    }
    let (urls, reply) = relay(vec![Outcome::Failed]);
    assert_eq!(urls.len(), 2);
    assert_eq!(reply, None);
}

#[test]
fn the_last_answer_is_returned_when_all_fail() {
    let (urls, reply) = relay(vec![
        Outcome::Answered(answer(500)),
        Outcome::Answered(answer(429)),
        Outcome::Failed,
    ]);
    assert_eq!(
        urls,
        vec![
            "https://one/v1/chat/completions".to_string(),
            "http://two/v1/chat/completions".to_string(),
            "https://three/api/v1/chat/completions".to_string(),
        ]
    );
    assert_eq!(reply, Some(answer(429)));
    let (_, reply) = relay(vec![Outcome::Failed, Outcome::Failed, Outcome::Failed]);
    assert_eq!(reply, Some(error_response(502, "all providers failed")));
}

#[test]
fn the_first_faultless_answer_decides() {
    let (urls, reply) = relay(vec![
        Outcome::Answered(answer(503)),
        Outcome::Failed,
        Outcome::Answered(answer(404)),
    ]);
    assert_eq!(urls.len(), 3);
    assert_eq!(reply, Some(answer(404)));
}

#[test]
fn without_models_nothing_is_sent() {
    let mut config = config();
    config.default_model.clear();
    config.fallback_models.clear();
    assert_eq!(
        chat_completions(&config, request("{}")),
        RelayStep::Respond(error_response(500, "no models configured"))
    );
    config.default_model = "ghost".into();
    assert_eq!(
        chat_completions(&config, request("{}")),
        RelayStep::Respond(error_response(502, "all providers failed"))
    );
}

#[test]
fn only_objects_can_be_given_a_model() {
    assert!(is_relayable(&config(), &request("{}")));
    assert!(is_relayable(&config(), &request("null")));
    for body in ["[]", "1", "\"a\"", "true"] {
        assert!(!is_relayable(&config(), &request(body)));
        let mut empty = config();
        empty.providers.clear();
        assert!(is_relayable(&empty, &request(body)));
        assert_eq!(
            chat_completions(&empty, request(body)),
            RelayStep::Respond(error_response(502, "all providers failed"))
        );
    }
}

#[test]
fn errors_of_the_proxy_itself_are_read_back() {
    let mut empty = config();
    empty.default_model.clear();
    empty.fallback_models.clear();
    let RelayStep::Respond(none) = chat_completions(&empty, request("{}")) else {
        panic!("nothing is sent");
    };
    let (_, all) = relay(vec![Outcome::Failed, Outcome::Failed, Outcome::Failed]);
    for (reply, message) in [(none, "no models configured"), (all.unwrap(), "all providers failed")] {
        let body = Json::parse(std::str::from_utf8(&reply.body).unwrap()).unwrap();
        assert_eq!(body.get("error").unwrap().as_str(), Some(message));
    }
}
