//! What a conversation sends and how it goes on, told by the session, the prompt and the fields of
//! the responses.
use crate::chat::{
    self, Chat, ChatError, ChatErrorView, ChatStep, ChatStepView, ChatView, ToolCall, ToolCallView,
};
use crate::codec;
use crate::config::ConfigView;
use crate::definitions;
use crate::json::JsonView;
use crate::session::{self, MessageView, Session};
use crate::text;
use crate::text_laws;
use crate::tools::{self, ToolErrorView};
use vstd::prelude::*;

verus! {

/// A session is taken as it stands: no message is left out, and each keeps its place, role and
/// content.
pub proof fn sessions_are_taken_as_they_stand(session: Session)
    ensures
        session@.len() == session.messages@.len(),
        forall|i: int|
            0 <= i < session.messages@.len() ==> (#[trigger] session@[i]).role
                == session.messages@[i].role@ && session@[i].content
                == session.messages@[i].content@,
{
}

/// A conversation is taken as it stands.
pub proof fn conversations_are_taken_as_they_stand(chat: Chat, call: ToolCall)
    ensures
        chat@.session == chat.session@,
        chat@.model == chat.model@,
        chat@.tools == chat.tools,
        chat@.messages.len() == chat.messages@.len(),
        forall|i: int|
            0 <= i < chat.messages@.len() ==> #[trigger] chat@.messages[i] == chat.messages@[i]@,
        chat@.remaining == chat.remaining,
        call@.id == call.id@,
        call@.name == call.name@,
        call@.path is Some <==> call.path is Some,
        call.path is Some ==> call@.path->0 == call.path->0@,
{
}

/// A step of a conversation is taken as it stands.
pub proof fn steps_are_taken_as_they_stand(step: ChatStep)
    ensures
        match step {
            ChatStep::Ask(chat) => step@ == ChatStepView::Ask(chat@),
            ChatStep::RunTool(round) => {
                &&& step@ is RunTool
                &&& step@->chat == round.chat@
                &&& step@->current == round.current@
                &&& step@->later.len() == round.later@.len()
                &&& forall|i: int|
                    0 <= i < round.later@.len() ==> #[trigger] step@->later[i] == round.later@[i]@
            },
            ChatStep::Answer { session, answer } => step@ is Answer && step@->session == session@
                && step@->answer == answer@,
            ChatStep::Failed(error) => step@ is Failed && match error {
                ChatError::EmptyPrompt => step@->Failed_0 is EmptyPrompt,
                ChatError::Proxy(told) => step@->Failed_0 == ChatErrorView::Proxy(told@),
                ChatError::NoAnswer => step@->Failed_0 is NoAnswer,
            },
        },
{
}

/// What an end without an answer tells of its cause.
pub proof fn errors_name_their_cause(error: JsonView)
    ensures
        chat::message_of(ChatErrorView::Proxy(error)) == "proxy error: "@ + codec::compact_json(
            error,
        ),
        chat::message_of(ChatErrorView::EmptyPrompt) == "prompt must not be empty"@,
        chat::message_of(ChatErrorView::NoAnswer) == "agent loop reached max iterations"@,
{
}

proof fn lemma_labels_differ()
    ensures
        "role"@ != "content"@,
        "role"@ != "tool_call_id"@,
        "content"@ != "tool_call_id"@,
        "model"@ != "messages"@,
        "model"@ != "tools"@,
        "model"@ != "tool_choice"@,
        "messages"@ != "tools"@,
        "messages"@ != "tool_choice"@,
        "tools"@ != "tool_choice"@,
{
    reveal_strlit("role");
    reveal_strlit("content");
    reveal_strlit("tool_call_id");
    reveal_strlit("model");
    reveal_strlit("messages");
    reveal_strlit("tools");
    reveal_strlit("tool_choice");
    assert("role"@.len() == 4);
    assert("content"@.len() == 7);
    assert("tool_call_id"@.len() == 12);
    assert("model"@.len() == 5);
    assert("model"@[0] == 'm');
    assert("messages"@.len() == 8);
    assert("tools"@.len() == 5);
    assert("tools"@[0] == 't');
    assert("tool_choice"@.len() == 11);
}

/// The words of a prompt are put in a row with a space between them; none is left out.
pub proof fn prompts_hold_every_word(words: Seq<String>)
    ensures
        words.len() == 0 ==> chat::prompt_text(words).len() == 0,
        words.len() == 1 ==> chat::prompt_text(words) == words[0]@,
        words.len() > 1 ==> chat::prompt_text(words) == chat::prompt_text(words.drop_last()) + " "@
            + words.last()@,
{
    if words.len() > 1 {
        assert(text::texts(words).drop_last() =~= text::texts(words.drop_last()));
    }
}

/// A conversation begins with a request that carries the session's messages and one more: each
/// message of the session in its place, as an object with its role and its content and nothing
/// else, and then the prompt, as the user's.
pub proof fn first_request_carries_every_message(
    config: ConfigView,
    model: Option<Seq<char>>,
    tools: bool,
    max_iterations: usize,
    prompt: Seq<char>,
    history: Seq<MessageView>,
)
    requires
        !text::blank(prompt),
    ensures
        ({
            let step = chat::first_step(config, model, tools, max_iterations, prompt, history);
            let sent = step->Ask_0.messages;
            &&& step is Ask
            &&& sent.len() == history.len() + 1
            &&& forall|i: int|
                #![trigger sent[i]]
                0 <= i < sent.len() ==> {
                    let role = if i < history.len() {
                        history[i].role
                    } else {
                        "user"@
                    };
                    let content = if i < history.len() {
                        history[i].content
                    } else {
                        prompt
                    };
                    &&& sent[i] is Object
                    &&& sent[i]->Object_0.dom() == set!["role"@, "content"@]
                    &&& sent[i]->Object_0["role"@] == JsonView::Text(role)
                    &&& sent[i]->Object_0["content"@] == JsonView::Text(content)
                }
        }),
{
    lemma_labels_differ();
    let step = chat::first_step(config, model, tools, max_iterations, prompt, history);
    let sent = step->Ask_0.messages;
    assert forall|i: int| #![trigger sent[i]] 0 <= i < sent.len() implies sent[i] is Object
        && sent[i]->Object_0.dom() =~= set!["role"@, "content"@] by {}
}

/// What a conversation is begun with: the session with the prompt as the user's last message, the
/// model wished for or else the default model, and a limit between 1 and 32 of which one request is
/// used at once.
pub proof fn conversations_begin_as_wished(
    config: ConfigView,
    model: Option<Seq<char>>,
    tools: bool,
    max_iterations: usize,
    prompt: Seq<char>,
    history: Seq<MessageView>,
)
    ensures
        ({
            let step = chat::first_step(config, model, tools, max_iterations, prompt, history);
            let begun = step->Ask_0;
            if text::blank(prompt) {
                step == ChatStepView::Failed(ChatErrorView::EmptyPrompt)
            } else {
                &&& step is Ask
                &&& begun.session.len() == history.len() + 1
                &&& forall|i: int|
                    0 <= i < history.len() ==> #[trigger] begun.session[i] == history[i]
                &&& begun.session[history.len() as int].role == "user"@
                &&& begun.session[history.len() as int].content == prompt
                &&& begun.model == if model is Some {
                    model->0
                } else {
                    config.default_model
                }
                &&& begun.tools == tools
                &&& begun.remaining + 1 == if max_iterations == 0 {
                    1int
                } else if max_iterations <= 32 {
                    max_iterations as int
                } else {
                    32
                }
            }
        }),
{
}

/// A request is an object with the model, all the messages, and, where the tools are described to
/// the model, their descriptions and the choice `auto`; it has no other field.
pub proof fn requests_carry_every_message(chat: ChatView)
    ensures
        ({
            let request = chat::request_json(chat);
            let fields = request->Object_0;
            &&& request is Object
            &&& fields.dom() == if chat.tools {
                set!["model"@, "messages"@, "tools"@, "tool_choice"@]
            } else {
                set!["model"@, "messages"@]
            }
            &&& fields["model"@] == JsonView::Text(chat.model)
            &&& fields["messages"@] == JsonView::Array(chat.messages)
            &&& chat.tools ==> fields["tools"@] == JsonView::Array(definitions::definitions())
            &&& chat.tools ==> fields["tool_choice"@] == JsonView::Text("auto"@)
        }),
{
    lemma_labels_differ();
    let fields = chat::request_json(chat)->Object_0;
    assert(fields.dom() =~= if chat.tools {
        set!["model"@, "messages"@, "tools"@, "tool_choice"@]
    } else {
        set!["model"@, "messages"@]
    });
}

/// A response with a field `error` ends the conversation with that error, whatever else it holds.
pub proof fn errors_end_a_conversation(chat: ChatView, response: JsonView)
    requires
        response is Object,
        response->Object_0.contains_key("error"@),
    ensures
        chat::response_step(chat, response) == ChatStepView::Failed(
            ChatErrorView::Proxy(response->Object_0["error"@]),
        ),
{
}

/// Whether a value is the message of a response: the field `message` of the first of its choices.
pub open spec fn holds_message(response: JsonView, message: JsonView) -> bool {
    &&& response is Object
    &&& response->Object_0.contains_key("choices"@)
    &&& response->Object_0["choices"@] is Array
    &&& response->Object_0["choices"@]->Array_0.len() > 0
    &&& response->Object_0["choices"@]->Array_0[0] is Object
    &&& response->Object_0["choices"@]->Array_0[0]->Object_0.contains_pair("message"@, message)
}

/// Where a response tells no error and its message has a list of calls that is not empty, the tools
/// are run, all of them in the order of the list, whatever else the message holds, a text
/// included; the message joins those of the conversation, of which nothing else changes.
pub proof fn calls_are_run_whatever_is_said(
    chat: ChatView,
    response: JsonView,
    message: JsonView,
    calls: Seq<JsonView>,
)
    requires
        response is Object,
        !response->Object_0.contains_key("error"@),
        holds_message(response, message),
        message is Object,
        message->Object_0.contains_pair("tool_calls"@, JsonView::Array(calls)),
        calls.len() > 0,
    ensures
        ({
            let step = chat::response_step(chat, response);
            &&& step is RunTool
            &&& step->later.len() + 1 == calls.len()
            &&& step->current == chat::call_of(calls[0])
            &&& forall|i: int|
                0 <= i < step->later.len() ==> #[trigger] step->later[i] == chat::call_of(
                    calls[i + 1],
                )
            &&& step->chat.messages.len() == chat.messages.len() + 1
            &&& forall|i: int|
                0 <= i < chat.messages.len() ==> #[trigger] step->chat.messages[i]
                    == chat.messages[i]
            &&& step->chat.messages[chat.messages.len() as int] == message
            &&& step->chat.session == chat.session
            &&& step->chat.model == chat.model
            &&& step->chat.tools == chat.tools
            &&& step->chat.remaining == chat.remaining
        }),
{
}

/// Where a response tells no error and its message calls no tool, the message's text is the answer
/// and joins the session as the assistant's; without a text there is no answer.
pub proof fn text_without_calls_is_the_answer(
    chat: ChatView,
    response: JsonView,
    message: JsonView,
)
    requires
        response is Object,
        !response->Object_0.contains_key("error"@),
        holds_message(response, message),
        !(message is Object && message->Object_0.contains_key("tool_calls"@)
            && message->Object_0["tool_calls"@] is Array
            && message->Object_0["tool_calls"@]->Array_0.len() > 0),
    ensures
        ({
            let step = chat::response_step(chat, response);
            if message is Object && message->Object_0.contains_key("content"@)
                && message->Object_0["content"@] is Text {
                &&& step is Answer
                &&& step->answer == message->Object_0["content"@]->Text_0
                &&& step->session.len() == chat.session.len() + 1
                &&& forall|i: int|
                    0 <= i < chat.session.len() ==> #[trigger] step->session[i] == chat.session[i]
                &&& step->session[chat.session.len() as int].role == "assistant"@
                &&& step->session[chat.session.len() as int].content == step->answer
            } else {
                step == ChatStepView::Failed(ChatErrorView::NoAnswer)
            }
        }),
{
}

/// A response that tells no error and holds no message gives no answer.
pub proof fn nothing_said_is_no_answer(chat: ChatView, response: JsonView)
    requires
        !(response is Object && response->Object_0.contains_key("error"@)),
        forall|message: JsonView| !#[trigger] holds_message(response, message),
    ensures
        chat::response_step(chat, response) == ChatStepView::Failed(ChatErrorView::NoAnswer),
{
    let message = chat::response_message(response);
    if message !is Null {
        assert(holds_message(response, message));
    }
}

/// What a call asks for, told by its fields: the id is its field `id`, or `tool-call`; the name that
/// of its function, or empty; the path is the text `path` in the JSON that the arguments spell, and
/// there is none where any of that is missing.
pub proof fn calls_are_read_by_their_fields(call: JsonView)
    ensures
        ({
            let read = chat::call_of(call);
            let function = call->Object_0["function"@];
            let called = call is Object && call->Object_0.contains_key("function"@)
                && function is Object;
            let arguments = function->Object_0["arguments"@];
            let parsed = codec::parsed_json(arguments->Text_0);
            let path = parsed->0->Object_0["path"@];
            &&& read.id == if call is Object && call->Object_0.contains_key("id"@)
                && call->Object_0["id"@] is Text {
                call->Object_0["id"@]->Text_0
            } else {
                "tool-call"@
            }
            &&& read.name == if called && function->Object_0.contains_key("name"@)
                && function->Object_0["name"@] is Text {
                function->Object_0["name"@]->Text_0
            } else {
                ""@
            }
            &&& read.path == if called && function->Object_0.contains_key("arguments"@)
                && arguments is Text && parsed is Some && parsed->0 is Object
                && parsed->0->Object_0.contains_key("path"@) && path is Text {
                Some(path->Text_0)
            } else {
                None
            }
        }),
{
}

/// After a tool, its result is told under the id of its call, as an object with the role `tool`; a
/// failure is told as such. The next tool of the list is run, or the next request sent where one is
/// left; nothing else of the conversation changes.
pub proof fn results_are_told_under_their_id(
    chat: ChatView,
    current: ToolCallView,
    later: Seq<ToolCallView>,
    result: Result<Seq<char>, ToolErrorView>,
    told: ChatView,
)
    requires
        ({
            let message = told.messages[chat.messages.len() as int];
            &&& told.session == chat.session
            &&& told.model == chat.model
            &&& told.tools == chat.tools
            &&& told.remaining == chat.remaining
            &&& told.messages.len() == chat.messages.len() + 1
            &&& forall|i: int|
                0 <= i < chat.messages.len() ==> #[trigger] told.messages[i] == chat.messages[i]
            &&& message is Object
            &&& message->Object_0.dom() == set!["role"@, "tool_call_id"@, "content"@]
            &&& message->Object_0["role"@] == JsonView::Text("tool"@)
            &&& message->Object_0["tool_call_id"@] == JsonView::Text(current.id)
            &&& message->Object_0["content"@] == JsonView::Text(
                if result is Ok {
                    result->Ok_0
                } else {
                    "tool error: "@ + tools::message_of(result->Err_0)
                },
            )
        }),
    ensures
        ({
            let step = chat::tool_step(chat, current, later, result);
            if later.len() > 0 {
                step == (ChatStepView::RunTool {
                    chat: told,
                    current: later[0],
                    later: later.skip(1),
                })
            } else if chat.remaining > 0 {
                step == ChatStepView::Ask(
                    ChatView { remaining: (chat.remaining - 1) as nat, ..told },
                )
            } else {
                step == ChatStepView::Failed(ChatErrorView::NoAnswer)
            }
        }),
{
    lemma_labels_differ();
    let message = told.messages[chat.messages.len() as int];
    let content = chat::tool_content(result);
    assert(message->Object_0 =~= map![
        "role"@ => JsonView::Text("tool"@),
        "tool_call_id"@ => JsonView::Text(current.id),
        "content"@ => JsonView::Text(content),
    ]);
    assert(told.messages =~= chat.messages.push(chat::tool_message(current, result)));
    if later.len() > 0 {
        assert(later.drop_first() =~= later.skip(1));
    }
}

/// The name of a new session is `session-` and the time in decimal digits; different times have
/// different names.
pub proof fn new_sessions_are_named_after_the_time(first: u128, second: u128)
    ensures
        session::new_session_name(first) == "session-"@ + text::decimal_digits(first as nat),
        session::new_session_name(first) == session::new_session_name(second) ==> first == second,
{
    let a = text::decimal_digits(first as nat);
    let b = text::decimal_digits(second as nat);
    if session::new_session_name(first) == session::new_session_name(second) {
        let start = "session-"@.len() as int;
        assert(a =~= ("session-"@ + a).skip(start));
        assert(b =~= ("session-"@ + b).skip(start));
        text_laws::different_numbers_have_different_digits(first as nat, second as nat);
    }
}

} // verus!
