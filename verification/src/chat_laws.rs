//! What holds of every conversation.
use crate::chat::{self, ChatErrorView, ChatStepView, ChatView, ToolCallView};
use crate::config::ConfigView;
use crate::json::{self, JsonView};
use crate::session::{self, MessageView};
use crate::text;
use crate::tools::{self, ToolErrorView};
use vstd::prelude::*;

verus! {

/// What a conversation waits for: a response of the proxy, or the result of a tool.
pub enum ChatEvent {
    Responded(JsonView),
    ToolFinished(Result<Seq<char>, ToolErrorView>),
}

/// The step after an event; an event that the step does not wait for changes nothing.
pub open spec fn advance(step: ChatStepView, event: ChatEvent) -> ChatStepView {
    match (step, event) {
        (ChatStepView::Ask(chat), ChatEvent::Responded(response)) => chat::response_step(
            chat,
            response,
        ),
        (
            ChatStepView::RunTool { chat, current, later },
            ChatEvent::ToolFinished(result),
        ) => chat::tool_step(chat, current, later, result),
        _ => step,
    }
}

/// Where a conversation stands after some events.
pub open spec fn run(step: ChatStepView, events: Seq<ChatEvent>) -> ChatStepView
    decreases events.len(),
{
    if events.len() == 0 {
        step
    } else {
        run(advance(step, events[0]), events.drop_first())
    }
}

/// How many of some events are responses to requests of the conversation.
pub open spec fn requests(step: ChatStepView, events: Seq<ChatEvent>) -> nat
    decreases events.len(),
{
    if events.len() == 0 {
        0
    } else {
        let later = requests(advance(step, events[0]), events.drop_first());
        if step is Ask && events[0] is Responded {
            1 + later
        } else {
            later
        }
    }
}

/// How many requests a conversation may still send.
pub open spec fn credit(step: ChatStepView) -> nat {
    match step {
        ChatStepView::Ask(chat) => chat.remaining + 1,
        ChatStepView::RunTool { chat, current, later } => chat.remaining,
        _ => 0,
    }
}

proof fn lemma_requests_within_credit(step: ChatStepView, events: Seq<ChatEvent>)
    ensures
        requests(step, events) <= credit(step),
    decreases events.len(),
{
    if events.len() > 0 {
        lemma_requests_within_credit(advance(step, events[0]), events.drop_first());
    }
}

/// A conversation sends no more requests than wished for, and never more than 32, whatever the
/// model answers.
pub proof fn conversation_is_bounded(
    config: ConfigView,
    model: Option<Seq<char>>,
    tools: bool,
    max_iterations: usize,
    prompt: Seq<char>,
    history: Seq<MessageView>,
    events: Seq<ChatEvent>,
)
    ensures
        requests(
            chat::first_step(config, model, tools, max_iterations, prompt, history),
            events,
        ) <= chat::request_limit(max_iterations) <= 32,
        max_iterations >= 1 ==> chat::request_limit(max_iterations) <= max_iterations,
{
    lemma_requests_within_credit(
        chat::first_step(config, model, tools, max_iterations, prompt, history),
        events,
    );
}

/// The conversation that a step is about.
pub open spec fn conversation(step: ChatStepView) -> Option<ChatView> {
    match step {
        ChatStepView::Ask(chat) => Some(chat),
        ChatStepView::RunTool { chat, current, later } => Some(chat),
        _ => None,
    }
}

/// What is said stays said: as a conversation goes on, its messages only grow, and its session,
/// model and tools stay as they are.
pub proof fn messages_only_grow(step: ChatStepView, event: ChatEvent)
    requires
        conversation(step) is Some,
        conversation(advance(step, event)) is Some,
    ensures
        ({
            let before = conversation(step)->0;
            let after = conversation(advance(step, event))->0;
            &&& before.messages.is_prefix_of(after.messages)
            &&& after.session == before.session
            &&& after.model == before.model
            &&& after.tools == before.tools
        }),
{
    let before = conversation(step)->0;
    let after = conversation(advance(step, event))->0;
    assert(before.messages =~= after.messages.subrange(0, before.messages.len() as int));
}

proof fn lemma_answer_extends_session(step: ChatStepView, events: Seq<ChatEvent>)
    requires
        conversation(step) is Some,
        run(step, events) is Answer,
    ensures
        run(step, events)->session == conversation(step)->0.session.push(
            session::assistant_message(run(step, events)->answer),
        ),
    decreases events.len(),
{
    if events.len() > 0 {
        let next = advance(step, events[0]);
        if conversation(next) is Some {
            messages_only_grow(step, events[0]);
            lemma_answer_extends_session(next, events.drop_first());
        } else {
            lemma_ended(next, events.drop_first());
        }
    }
}

proof fn lemma_ended(step: ChatStepView, events: Seq<ChatEvent>)
    requires
        conversation(step) is None,
    ensures
        run(step, events) == step,
    decreases events.len(),
{
    if events.len() > 0 {
        lemma_ended(step, events.drop_first());
    }
}

/// The session that is kept is the earlier one with the prompt and the answer: nothing of it is
/// lost, and nothing that passed between the model and the tools joins it.
pub proof fn session_gains_prompt_and_answer(
    config: ConfigView,
    model: Option<Seq<char>>,
    tools: bool,
    max_iterations: usize,
    prompt: Seq<char>,
    history: Seq<MessageView>,
    events: Seq<ChatEvent>,
)
    requires
        run(
            chat::first_step(config, model, tools, max_iterations, prompt, history),
            events,
        ) is Answer,
    ensures
        ({
            let end = run(
                chat::first_step(config, model, tools, max_iterations, prompt, history),
                events,
            );
            end->session == history.push(session::user_message(prompt)).push(
                session::assistant_message(end->answer),
            )
        }),
{
    let first = chat::first_step(config, model, tools, max_iterations, prompt, history);
    if conversation(first) is Some {
        lemma_answer_extends_session(first, events);
    } else {
        lemma_ended(first, events);
    }
}

/// The messages with the results of calls, in the order of the calls.
pub open spec fn result_messages(
    calls: Seq<ToolCallView>,
    results: Seq<Result<Seq<char>, ToolErrorView>>,
) -> Seq<JsonView> {
    Seq::new(results.len(), |i: int| chat::tool_message(calls[i], results[i]))
}

/// The events that bring the results of tools.
pub open spec fn result_events(results: Seq<Result<Seq<char>, ToolErrorView>>) -> Seq<ChatEvent> {
    Seq::new(results.len(), |i: int| ChatEvent::ToolFinished(results[i]))
}

/// Each call of a tool is answered once, under its own id and in its turn, before the next request
/// is sent.
pub proof fn every_call_is_answered(
    chat: ChatView,
    calls: Seq<ToolCallView>,
    results: Seq<Result<Seq<char>, ToolErrorView>>,
)
    requires
        calls.len() > 0,
        calls.len() == results.len(),
    ensures
        run(
            ChatStepView::RunTool { chat, current: calls[0], later: calls.drop_first() },
            result_events(results),
        ) == chat::ask(
            ChatView { messages: chat.messages + result_messages(calls, results), ..chat },
        ),
    decreases calls.len(),
{
    let step = ChatStepView::RunTool { chat, current: calls[0], later: calls.drop_first() };
    let events = result_events(results);
    let told = ChatView {
        messages: chat.messages.push(chat::tool_message(calls[0], results[0])),
        ..chat
    };
    assert(events.drop_first() =~= result_events(results.drop_first()));
    assert(events[0] == ChatEvent::ToolFinished(results[0]));
    if calls.len() == 1 {
        assert(result_messages(calls, results) =~= seq![chat::tool_message(calls[0], results[0])]);
        assert(told.messages =~= chat.messages + result_messages(calls, results));
        assert(advance(step, events[0]) == chat::ask(told));
        assert(events.drop_first() =~= Seq::empty());
        reveal_with_fuel(run, 2);
    } else {
        every_call_is_answered(told, calls.drop_first(), results.drop_first());
        assert(told.messages + result_messages(calls.drop_first(), results.drop_first())
            =~= chat.messages + result_messages(calls, results));
        assert(calls.drop_first()[0] == calls[1]);
    }
}

/// A response that calls tools, and the results of those tools.
pub struct Round {
    pub response: JsonView,
    pub results: Seq<Result<Seq<char>, ToolErrorView>>,
}

/// The calls of tools in a response.
pub open spec fn round_calls(round: Round) -> Seq<ToolCallView> {
    chat::calls_of(chat::message_calls(chat::response_message(round.response)))
}

/// Whether a response tells no error and calls tools, each of which has a result.
pub open spec fn calls_tools(round: Round) -> bool {
    &&& json::field(round.response, "error"@) is None
    &&& round_calls(round).len() > 0
    &&& round_calls(round).len() == round.results.len()
}

/// The events of a round.
pub open spec fn round_events(round: Round) -> Seq<ChatEvent> {
    seq![ChatEvent::Responded(round.response)] + result_events(round.results)
}

/// The events of some rounds.
pub open spec fn events_of(rounds: Seq<Round>) -> Seq<ChatEvent>
    decreases rounds.len(),
{
    if rounds.len() == 0 {
        Seq::empty()
    } else {
        round_events(rounds[0]) + events_of(rounds.drop_first())
    }
}

proof fn lemma_run_in_parts(step: ChatStepView, first: Seq<ChatEvent>, second: Seq<ChatEvent>)
    ensures
        run(step, first + second) == run(run(step, first), second),
        requests(step, first + second) == requests(step, first) + requests(
            run(step, first),
            second,
        ),
    decreases first.len(),
{
    if first.len() == 0 {
        assert(first + second =~= second);
    } else {
        assert((first + second).drop_first() =~= first.drop_first() + second);
        lemma_run_in_parts(advance(step, first[0]), first.drop_first(), second);
    }
}

proof fn lemma_results_are_no_requests(
    step: ChatStepView,
    results: Seq<Result<Seq<char>, ToolErrorView>>,
)
    ensures
        requests(step, result_events(results)) == 0,
    decreases results.len(),
{
    if results.len() > 0 {
        let events = result_events(results);
        assert(events.drop_first() =~= result_events(results.drop_first()));
        lemma_results_are_no_requests(advance(step, events[0]), results.drop_first());
    }
}

proof fn lemma_round(chat: ChatView, round: Round) -> (after: ChatView)
    requires
        calls_tools(round),
    ensures
        after.remaining == chat.remaining,
        run(ChatStepView::Ask(chat), round_events(round)) == chat::ask(after),
        requests(ChatStepView::Ask(chat), round_events(round)) == 1,
{
    let step = ChatStepView::Ask(chat);
    let events = round_events(round);
    let calls = round_calls(round);
    let told = ChatView {
        messages: chat.messages.push(chat::response_message(round.response)),
        ..chat
    };
    let waiting = ChatStepView::RunTool {
        chat: told,
        current: calls[0],
        later: calls.drop_first(),
    };
    assert(events[0] == ChatEvent::Responded(round.response));
    assert(advance(step, events[0]) == waiting);
    assert(events.drop_first() =~= result_events(round.results));
    every_call_is_answered(told, calls, round.results);
    lemma_results_are_no_requests(waiting, round.results);
    ChatView { messages: told.messages + result_messages(calls, round.results), ..told }
}

proof fn lemma_rounds(chat: ChatView, rounds: Seq<Round>)
    requires
        rounds.len() <= chat.remaining + 1,
        forall|i: int| 0 <= i < rounds.len() ==> calls_tools(#[trigger] rounds[i]),
    ensures
        requests(ChatStepView::Ask(chat), events_of(rounds)) == rounds.len(),
        rounds.len() <= chat.remaining ==> run(ChatStepView::Ask(chat), events_of(rounds)) is Ask,
        rounds.len() == chat.remaining + 1 ==> run(ChatStepView::Ask(chat), events_of(rounds))
            == ChatStepView::Failed(ChatErrorView::NoAnswer),
    decreases rounds.len(),
{
    if rounds.len() > 0 {
        let step = ChatStepView::Ask(chat);
        let later = rounds.drop_first();
        assert(calls_tools(rounds[0]));
        let after = lemma_round(chat, rounds[0]);
        lemma_run_in_parts(step, round_events(rounds[0]), events_of(later));
        if after.remaining == 0 {
            assert(later =~= Seq::empty());
        } else {
            let next = ChatView { remaining: (after.remaining - 1) as nat, ..after };
            assert forall|i: int| 0 <= i < later.len() implies calls_tools(#[trigger] later[i]) by {
                assert(calls_tools(rounds[i + 1]));
            }
            assert(chat::ask(after) == ChatStepView::Ask(next));
            lemma_rounds(next, later);
        }
    }
}

/// Where every response calls tools, a conversation sends exactly as many requests as it may: as
/// long as fewer have been answered it asks again, and after the last it ends without an answer.
pub proof fn every_request_is_used(
    config: ConfigView,
    model: Option<Seq<char>>,
    tools: bool,
    max_iterations: usize,
    prompt: Seq<char>,
    history: Seq<MessageView>,
    rounds: Seq<Round>,
)
    requires
        !text::blank(prompt),
        rounds.len() <= chat::request_limit(max_iterations),
        forall|i: int| 0 <= i < rounds.len() ==> calls_tools(#[trigger] rounds[i]),
    ensures
        ({
            let first = chat::first_step(config, model, tools, max_iterations, prompt, history);
            &&& requests(first, events_of(rounds)) == rounds.len()
            &&& rounds.len() < chat::request_limit(max_iterations) ==> run(
                first,
                events_of(rounds),
            ) is Ask
            &&& rounds.len() == chat::request_limit(max_iterations) ==> run(
                first,
                events_of(rounds),
            ) == ChatStepView::Failed(ChatErrorView::NoAnswer)
        }),
{
    let first = chat::first_step(config, model, tools, max_iterations, prompt, history);
    lemma_rounds(first->Ask_0, rounds);
}

/// The failure of a tool does not end a conversation: the model is told of it, and the next tool
/// is run or the next request sent as long as one is left.
pub proof fn tool_failure_is_told(
    chat: ChatView,
    current: ToolCallView,
    later: Seq<ToolCallView>,
    error: ToolErrorView,
)
    requires
        later.len() > 0 || chat.remaining > 0,
    ensures
        ({
            let next = conversation(chat::tool_step(chat, current, later, Err(error)));
            &&& next is Some
            &&& next->0.messages == chat.messages.push(chat::tool_message(current, Err(error)))
        }),
        json::field(chat::tool_message(current, Err(error)), "content"@) == Some(
            JsonView::Text("tool error: "@ + tools::message_of(error)),
        ),
        json::field(chat::tool_message(current, Err(error)), "tool_call_id"@) == Some(
            JsonView::Text(current.id),
        ),
{
    reveal_strlit("content");
    reveal_strlit("tool_call_id");
    assert("content"@.len() == 7);
    assert("tool_call_id"@.len() == 12);
}

/// A request carries the model and the messages, and the tools only where they are described to
/// the model; nothing else.
pub proof fn request_carries_no_more(chat: ChatView, name: Seq<char>)
    ensures
        json::field(chat::request_json(chat), name) is Some <==> (name == "model"@ || name
            == "messages"@ || (chat.tools && (name == "tools"@ || name == "tool_choice"@))),
        json::field(chat::request_json(chat), "model"@) == Some(JsonView::Text(chat.model)),
        json::field(chat::request_json(chat), "messages"@) == Some(
            JsonView::Array(chat.messages),
        ),
{
    reveal_strlit("model");
    reveal_strlit("messages");
    reveal_strlit("tools");
    reveal_strlit("tool_choice");
    assert("model"@.len() == 5);
    assert("messages"@.len() == 8);
    assert("tools"@.len() == 5);
    assert("tool_choice"@.len() == 11);
    assert("model"@[0] == 'm');
    assert("tools"@[0] == 't');
}

/// The first request carries the whole session, each message with its role and content, and the
/// prompt as the last of them.
pub proof fn first_request_carries_session(
    config: ConfigView,
    model: Option<Seq<char>>,
    tools: bool,
    max_iterations: usize,
    prompt: Seq<char>,
    history: Seq<MessageView>,
)
    requires
        !text::blank(prompt),
    ensures
        chat::first_step(config, model, tools, max_iterations, prompt, history) matches ChatStepView::Ask(
            chat,
        ) && chat.messages == session::conversation_json(history).push(
            session::message_json(session::user_message(prompt)),
        ),
{
    let spoken = history.push(session::user_message(prompt));
    assert(session::conversation_json(spoken) =~= session::conversation_json(history).push(
        session::message_json(session::user_message(prompt)),
    ));
}

} // verus!
