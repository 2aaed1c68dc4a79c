//! The chat client: asking the proxy, running the tools that the model calls, and ending with the
//! model's answer.
use crate::codec;
use crate::config::{Config, ConfigView};
use crate::definitions::{self, safe_tool_definitions};
use crate::json::{self, Json, JsonView};
use crate::listening;
use crate::session::{self, MessageView, Session};
use crate::text;
use crate::tools::{self, ToolError, ToolErrorView};
use vstd::prelude::*;
use vstd::string::*;

verus! {

/// What a conversation is to be continued with.
#[derive(Debug, PartialEq)]
pub struct ChatOptions {
    pub model: Option<String>,
    pub tools: bool,
    pub max_iterations: usize,
    pub prompt: Vec<String>,
}

/// Why a conversation ends without an answer.
#[derive(Debug, PartialEq)]
pub enum ChatError {
    /// The prompt is blank.
    EmptyPrompt,
    /// The proxy told an error.
    Proxy(Json),
    /// The model gave no answer within the allowed number of requests.
    NoAnswer,
}

/// What such an end is.
pub enum ChatErrorView {
    EmptyPrompt,
    Proxy(JsonView),
    NoAnswer,
}

impl View for ChatError {
    type V = ChatErrorView;

    open spec fn view(&self) -> ChatErrorView {
        match self {
            ChatError::EmptyPrompt => ChatErrorView::EmptyPrompt,
            ChatError::Proxy(error) => ChatErrorView::Proxy(error@),
            ChatError::NoAnswer => ChatErrorView::NoAnswer,
        }
    }
}

/// The sentence that tells why there is no answer.
pub open spec fn message_of(error: ChatErrorView) -> Seq<char> {
    match error {
        ChatErrorView::EmptyPrompt => "prompt must not be empty"@,
        ChatErrorView::Proxy(error) => "proxy error: "@ + codec::compact_json(error),
        ChatErrorView::NoAnswer => "agent loop reached max iterations"@,
    }
}

impl ChatError {
    /// The sentence that tells why there is no answer.
    pub fn message(&self) -> (message: String)
        ensures
            message@ == message_of(self@),
    {
        match self {
            ChatError::EmptyPrompt => "prompt must not be empty".to_owned(),
            ChatError::Proxy(error) => text::together("proxy error: ", error.to_text().as_str()),
            ChatError::NoAnswer => "agent loop reached max iterations".to_owned(),
        }
    }
}

/// A conversation with the model that is under way.
#[derive(Debug, PartialEq)]
pub struct Chat {
    /// The session, with the prompt.
    pub session: Session,
    pub model: String,
    /// Whether the tools are described to the model.
    pub tools: bool,
    /// The messages that the next request carries.
    pub messages: Vec<Json>,
    /// How many requests may follow.
    pub remaining: usize,
}

/// What a conversation is.
pub struct ChatView {
    pub session: Seq<MessageView>,
    pub model: Seq<char>,
    pub tools: bool,
    pub messages: Seq<JsonView>,
    pub remaining: nat,
}

impl View for Chat {
    type V = ChatView;

    open spec fn view(&self) -> ChatView {
        ChatView {
            session: self.session@,
            model: self.model@,
            tools: self.tools,
            messages: json::item_views(self.messages@),
            remaining: self.remaining as nat,
        }
    }
}

/// A tool that the model calls.
#[derive(Debug, PartialEq)]
pub struct ToolCall {
    pub id: String,
    pub name: String,
    pub path: Option<String>,
}

/// What a call is.
pub struct ToolCallView {
    pub id: Seq<char>,
    pub name: Seq<char>,
    pub path: Option<Seq<char>>,
}

impl View for ToolCall {
    type V = ToolCallView;

    open spec fn view(&self) -> ToolCallView {
        ToolCallView {
            id: self.id@,
            name: self.name@,
            path: text::optional_string(self.path),
        }
    }
}

/// What the calls of a list are.
pub open spec fn call_views(calls: Seq<ToolCall>) -> Seq<ToolCallView> {
    Seq::new(calls.len(), |i: int| calls[i]@)
}

/// A conversation in which the model waits for the results of tools: the tool to run now, and
/// those to run later.
#[derive(Debug, PartialEq)]
pub struct ToolRound {
    pub chat: Chat,
    pub current: ToolCall,
    pub later: Vec<ToolCall>,
}

/// What to do next in a conversation.
#[derive(Debug, PartialEq)]
pub enum ChatStep {
    /// Send the conversation's request to the proxy.
    Ask(Chat),
    /// Run a tool.
    RunTool(ToolRound),
    /// Keep the session and show the answer.
    Answer { session: Session, answer: String },
    /// Give up.
    Failed(ChatError),
}

/// What a next step is.
pub enum ChatStepView {
    Ask(ChatView),
    RunTool { chat: ChatView, current: ToolCallView, later: Seq<ToolCallView> },
    Answer { session: Seq<MessageView>, answer: Seq<char> },
    Failed(ChatErrorView),
}

impl View for ChatStep {
    type V = ChatStepView;

    open spec fn view(&self) -> ChatStepView {
        match self {
            ChatStep::Ask(chat) => ChatStepView::Ask(chat@),
            ChatStep::RunTool(round) => ChatStepView::RunTool {
                chat: round.chat@,
                current: round.current@,
                later: call_views(round.later@),
            },
            ChatStep::Answer { session, answer } => ChatStepView::Answer {
                session: session@,
                answer: answer@,
            },
            ChatStep::Failed(error) => ChatStepView::Failed(error@),
        }
    }
}

/// The number of requests that a conversation may take: what is wished for, but at least 1 and
/// at most 32.
pub open spec fn request_limit(wished: usize) -> nat {
    if wished < 1 {
        1
    } else if wished > 32 {
        32
    } else {
        wished as nat
    }
}

/// The next request, where one is left.
pub open spec fn ask(chat: ChatView) -> ChatStepView {
    if chat.remaining == 0 {
        ChatStepView::Failed(ChatErrorView::NoAnswer)
    } else {
        ChatStepView::Ask(ChatView { remaining: (chat.remaining - 1) as nat, ..chat })
    }
}

/// The words of a prompt in a row.
pub open spec fn prompt_text(words: Seq<String>) -> Seq<char> {
    text::joined(text::texts(words), " "@)
}

/// The first step of a conversation: the prompt joins the session, and the whole session is sent.
pub open spec fn first_step(
    config: ConfigView,
    model: Option<Seq<char>>,
    tools: bool,
    max_iterations: usize,
    prompt: Seq<char>,
    session: Seq<MessageView>,
) -> ChatStepView {
    if text::blank(prompt) {
        ChatStepView::Failed(ChatErrorView::EmptyPrompt)
    } else {
        let spoken = session.push(session::user_message(prompt));
        ask(
            ChatView {
                session: spoken,
                model: match model {
                    Some(model) => model,
                    None => config.default_model,
                },
                tools,
                messages: session::conversation_json(spoken),
                remaining: request_limit(max_iterations),
            },
        )
    }
}

/// The request that a conversation sends: the model and the messages, and the tools where they
/// are described to the model.
pub open spec fn request_json(chat: ChatView) -> JsonView {
    let plain = map![
        "model"@ => JsonView::Text(chat.model),
        "messages"@ => JsonView::Array(chat.messages),
    ];
    if chat.tools {
        JsonView::Object(
            plain.insert("tools"@, JsonView::Array(definitions::definitions())).insert(
                "tool_choice"@,
                JsonView::Text("auto"@),
            ),
        )
    } else {
        JsonView::Object(plain)
    }
}

/// A part of a JSON value, or null where it is missing.
pub open spec fn or_null(value: Option<JsonView>) -> JsonView {
    match value {
        Some(value) => value,
        None => JsonView::Null,
    }
}

/// The message that a response holds: that of its first choice, or null.
pub open spec fn response_message(response: JsonView) -> JsonView {
    or_null(
        json::field(
            or_null(json::item(or_null(json::field(response, "choices"@)), 0)),
            "message"@,
        ),
    )
}

/// The calls of tools that a message holds.
pub open spec fn message_calls(message: JsonView) -> Seq<JsonView> {
    match json::field(message, "tool_calls"@) {
        Some(JsonView::Array(calls)) => calls,
        _ => Seq::empty(),
    }
}

/// An optional text, or another one where it is missing.
pub open spec fn text_or(value: Option<Seq<char>>, other: Seq<char>) -> Seq<char> {
    match value {
        Some(value) => value,
        None => other,
    }
}

/// The path among the arguments of a call, which are themselves JSON.
pub open spec fn path_of(arguments: Option<JsonView>) -> Option<Seq<char>> {
    match arguments {
        Some(arguments) => json::text_of(json::field(arguments, "path"@)),
        None => None,
    }
}

/// What a call of a tool asks for. A call without arguments has no path.
pub open spec fn call_of(call: JsonView) -> ToolCallView {
    let function = or_null(json::field(call, "function"@));
    ToolCallView {
        id: text_or(json::text_of(json::field(call, "id"@)), "tool-call"@),
        name: text_or(json::text_of(json::field(function, "name"@)), ""@),
        path: match json::text_of(json::field(function, "arguments"@)) {
            Some(arguments) => path_of(codec::parsed_json(arguments)),
            None => None,
        },
    }
}

/// What the calls of a message ask for.
pub open spec fn calls_of(calls: Seq<JsonView>) -> Seq<ToolCallView> {
    Seq::new(calls.len(), |i: int| call_of(calls[i]))
}

/// The step after a response: an error ends the conversation; calls of tools are run; otherwise
/// the message's text is the answer.
pub open spec fn response_step(chat: ChatView, response: JsonView) -> ChatStepView {
    match json::field(response, "error"@) {
        Some(error) => ChatStepView::Failed(ChatErrorView::Proxy(error)),
        None => {
            let message = response_message(response);
            let calls = calls_of(message_calls(message));
            if calls.len() == 0 {
                match json::text_of(json::field(message, "content"@)) {
                    Some(answer) => ChatStepView::Answer {
                        session: chat.session.push(session::assistant_message(answer)),
                        answer,
                    },
                    None => ChatStepView::Failed(ChatErrorView::NoAnswer),
                }
            } else {
                ChatStepView::RunTool {
                    chat: ChatView { messages: chat.messages.push(message), ..chat },
                    current: calls[0],
                    later: calls.drop_first(),
                }
            }
        },
    }
}

/// What the model is told of the result of a tool.
pub open spec fn tool_content(result: Result<Seq<char>, ToolErrorView>) -> Seq<char> {
    match result {
        Ok(output) => output,
        Err(error) => "tool error: "@ + tools::message_of(error),
    }
}

/// The message with the result of a call.
pub open spec fn tool_message(
    call: ToolCallView,
    result: Result<Seq<char>, ToolErrorView>,
) -> JsonView {
    JsonView::Object(
        map![
            "role"@ => JsonView::Text("tool"@),
            "tool_call_id"@ => JsonView::Text(call.id),
            "content"@ => JsonView::Text(tool_content(result)),
        ],
    )
}

/// The step after a tool: its result joins the messages, and the next tool is run or the next
/// request sent.
pub open spec fn tool_step(
    chat: ChatView,
    current: ToolCallView,
    later: Seq<ToolCallView>,
    result: Result<Seq<char>, ToolErrorView>,
) -> ChatStepView {
    let told = ChatView { messages: chat.messages.push(tool_message(current, result)), ..chat };
    if later.len() == 0 {
        ask(told)
    } else {
        ChatStepView::RunTool { chat: told, current: later[0], later: later.drop_first() }
    }
}

/// The URL of the proxy's chat endpoint.
pub open spec fn proxy_url(config: ConfigView) -> Seq<char> {
    "http://"@ + listening::address_of(config.listen_host, config.listen_port)
        + "/v1/chat/completions"@
}

/// The URL of the proxy's chat endpoint.
pub fn proxy_chat_url(config: &Config) -> (url: String)
    ensures
        url@ == proxy_url(config@),
        url@ == "http://"@ + config.listen_host@ + ":"@ + text::decimal_digits(
            config.listen_port as nat,
        ) + "/v1/chat/completions"@,
{
    let address = listening::address(config.listen_host.as_str(), config.listen_port);
    let mut url = text::together("http://", address.as_str());
    url.append("/v1/chat/completions");
    assert(url@ =~= "http://"@ + config.listen_host@ + ":"@ + text::decimal_digits(
        config.listen_port as nat,
    ) + "/v1/chat/completions"@);
    url
}

/// Continues a session with a prompt.
pub fn chat_client(config: &Config, options: ChatOptions, session: Session) -> (step: ChatStep)
    ensures
        step@ == first_step(
            config@,
            text::optional_string(options.model),
            options.tools,
            options.max_iterations,
            prompt_text(options.prompt@),
            session@,
        ),
{
    let prompt = text::join(&options.prompt, " ");
    if text::is_blank(prompt.as_str()) {
        return ChatStep::Failed(ChatError::EmptyPrompt);
    }
    let mut session = session;
    session.push("user", prompt.as_str());
    let model = match options.model {
        Some(model) => model,
        None => config.default_model.clone(),
    };
    let messages = session.to_json();
    let remaining: usize = if options.max_iterations < 1 {
        1
    } else if options.max_iterations > 32 {
        32
    } else {
        options.max_iterations
    };
    Chat { session, model, tools: options.tools, messages, remaining }.ask()
}

/// The path among the arguments of a call; `None` stands for arguments that are no JSON.
pub fn path_argument(arguments: &Option<Json>) -> (path: Option<String>)
    ensures
        text::optional_string(path) == path_of(
            match *arguments {
                Some(arguments) => Some(arguments@),
                None => None,
            },
        ),
        path is Some <==> arguments is Some && arguments->0@ is Object
            && arguments->0@->Object_0.contains_key("path"@)
            && arguments->0@->Object_0["path"@] is Text,
        path is Some ==> arguments->0@->Object_0["path"@] == JsonView::Text(path->0@),
{
    match arguments {
        Some(arguments) => match arguments.get("path") {
            Some(path) => match path.as_str() {
                Some(path) => Some(path.to_owned()),
                None => None,
            },
            None => None,
        },
        None => None,
    }
}

fn text_part<'a>(value: Option<&'a Json>, name: &str) -> (text: Option<&'a str>)
    ensures
        text::optional_text(text) == json::text_of(
            json::field(or_null(json::option_view(value)), name@),
        ),
{
    match value {
        Some(value) => match value.get(name) {
            Some(part) => part.as_str(),
            None => None,
        },
        None => None,
    }
}

fn text_field(value: Option<&Json>, name: &str, other: &str) -> (text: String)
    ensures
        text@ == text_or(
            json::text_of(json::field(or_null(json::option_view(value)), name@)),
            other@,
        ),
{
    match text_part(value, name) {
        Some(text) => text.to_owned(),
        None => other.to_owned(),
    }
}

/// Reads what a call of a tool asks for.
pub fn read_call(call: &Json) -> (read: ToolCall)
    ensures
        read@ == call_of(call@),
{
    let function = call.get("function");
    let path = match text_part(function, "arguments") {
        Some(arguments) => path_argument(&Json::parse(arguments)),
        None => None,
    };
    ToolCall {
        id: text_field(Some(call), "id", "tool-call"),
        name: text_field(function, "name", ""),
        path,
    }
}

fn read_calls(calls: &Vec<Json>) -> (list: Vec<ToolCall>)
    ensures
        call_views(list@) == calls_of(json::item_views(calls@)),
{
    let mut list: Vec<ToolCall> = Vec::new();
    for index in 0..calls.len()
        invariant
            list@.len() == index,
            forall|i: int| 0 <= i < index ==> (#[trigger] list@[i])@ == call_of(calls@[i]@),
    {
        list.push(read_call(&calls[index]));
    }
    assert(call_views(list@) =~= calls_of(json::item_views(calls@)));
    list
}

fn message_of_response(response: &Json) -> (message: Json)
    ensures
        message@ == response_message(response@),
{
    match response.get("choices") {
        Some(choices) => match choices.at(0) {
            Some(choice) => match choice.get("message") {
                Some(message) => message.clone(),
                None => Json::Null,
            },
            None => Json::Null,
        },
        None => Json::Null,
    }
}

fn calls_of_message(message: &Json) -> (list: Vec<ToolCall>)
    ensures
        call_views(list@) == calls_of(message_calls(message@)),
{
    match message.get("tool_calls") {
        Some(Json::Array(calls)) => read_calls(calls),
        _ => {
            let list: Vec<ToolCall> = Vec::new();
            assert(call_views(list@) =~= calls_of(message_calls(message@)));
            list
        },
    }
}

impl Chat {
    fn ask(self) -> (step: ChatStep)
        ensures
            step@ == ask(self@),
    {
        if self.remaining == 0 {
            ChatStep::Failed(ChatError::NoAnswer)
        } else {
            let mut chat = self;
            chat.remaining = chat.remaining - 1;
            ChatStep::Ask(chat)
        }
    }

    fn tell(self, message: Json) -> (chat: Chat)
        ensures
            chat@ == (ChatView { messages: self@.messages.push(message@), ..self@ }),
    {
        let mut chat = self;
        let ghost before = json::item_views(chat.messages@);
        chat.messages.push(message);
        assert(json::item_views(chat.messages@) =~= before.push(message@));
        chat
    }

    /// The request to send to the proxy.
    pub fn request(&self) -> (request: Json)
        ensures
            request@ == request_json(self@),
    {
        let mut messages: Vec<Json> = Vec::new();
        for index in 0..self.messages.len()
            invariant
                messages@.len() == index,
                forall|i: int|
                    0 <= i < index ==> (#[trigger] messages@[i])@ == self.messages@[i]@,
        {
            messages.push(self.messages[index].clone());
        }
        assert(json::item_views(messages@) =~= self@.messages);
        let plain = Json::object().with_field("model", Json::text(self.model.as_str())).with_field(
            "messages",
            Json::Array(messages),
        );
        if self.tools {
            plain.with_field("tools", safe_tool_definitions()).with_field(
                "tool_choice",
                Json::text("auto"),
            )
        } else {
            plain
        }
    }

    /// Goes on with the proxy's response.
    pub fn responded(self, response: Json) -> (step: ChatStep)
        ensures
            step@ == response_step(self@, response@),
    {
        if let Some(error) = response.get("error") {
            return ChatStep::Failed(ChatError::Proxy(error.clone()));
        }
        let message = message_of_response(&response);
        let mut calls = calls_of_message(&message);
        let ghost all = call_views(calls@);
        if calls.len() == 0 {
            let answer = match message.get("content") {
                Some(content) => match content.as_str() {
                    Some(text) => text.to_owned(),
                    None => {
                        return ChatStep::Failed(ChatError::NoAnswer);
                    },
                },
                None => {
                    return ChatStep::Failed(ChatError::NoAnswer);
                },
            };
            let mut session = self.session;
            session.push("assistant", answer.as_str());
            ChatStep::Answer { session, answer }
        } else {
            let current = calls.remove(0);
            assert(call_views(calls@) =~= all.drop_first());
            ChatStep::RunTool(ToolRound { chat: self.tell(message), current, later: calls })
        }
    }
}

/// What the model is told of the result of a tool.
pub fn tool_text(result: Result<String, ToolError>) -> (content: String)
    ensures
        content@ == tool_content(tools::result_view(result)),
        match result {
            Ok(output) => content@ == output@,
            Err(error) => content@ == "tool error: "@ + tools::message_of(error@),
        },
{
    match result {
        Ok(output) => output,
        Err(error) => text::together("tool error: ", error.message().as_str()),
    }
}

impl ToolRound {
    /// Goes on with the result of the tool.
    pub fn finished(self, result: Result<String, ToolError>) -> (step: ChatStep)
        ensures
            step@ == tool_step(
                self.chat@,
                self.current@,
                call_views(self.later@),
                tools::result_view(result),
            ),
    {
        let content = tool_text(result);
        let message = Json::object().with_field("role", Json::text("tool")).with_field(
            "tool_call_id",
            Json::text(self.current.id.as_str()),
        ).with_field("content", Json::text(content.as_str()));
        let mut later = self.later;
        let ghost all = call_views(later@);
        let chat = self.chat.tell(message);
        if later.len() == 0 {
            chat.ask()
        } else {
            let current = later.remove(0);
            assert(call_views(later@) =~= all.drop_first());
            ChatStep::RunTool(ToolRound { chat, current, later })
        }
    }
}

} // verus!
