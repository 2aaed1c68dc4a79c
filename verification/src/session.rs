//! Sessions: the messages of a conversation that are kept from one run to the next.
use crate::json::{self, Json, JsonView};
use crate::locations;
use crate::text;
use vstd::prelude::*;
use vstd::string::*;

verus! {

/// A message of a conversation.
#[derive(Debug, PartialEq)]
pub struct ChatMessage {
    pub role: String,
    pub content: String,
}

/// The conversation so far.
#[derive(Debug, PartialEq)]
pub struct Session {
    pub messages: Vec<ChatMessage>,
}

/// What a message is.
pub struct MessageView {
    pub role: Seq<char>,
    pub content: Seq<char>,
}

impl View for ChatMessage {
    type V = MessageView;

    open spec fn view(&self) -> MessageView {
        MessageView { role: self.role@, content: self.content@ }
    }
}

impl View for Session {
    type V = Seq<MessageView>;

    open spec fn view(&self) -> Seq<MessageView> {
        Seq::new(self.messages@.len(), |i: int| self.messages@[i]@)
    }
}

impl Default for Session {
    /// The conversation without a message.
    fn default() -> (session: Self)
        ensures
            session@ == Seq::<MessageView>::empty(),
    {
        let session = Session { messages: Vec::new() };
        assert(session@ =~= Seq::empty());
        session
    }
}

/// A message of the user.
pub open spec fn user_message(content: Seq<char>) -> MessageView {
    MessageView { role: "user"@, content }
}

/// A message of the assistant.
pub open spec fn assistant_message(content: Seq<char>) -> MessageView {
    MessageView { role: "assistant"@, content }
}

/// A message as a chat request carries it.
pub open spec fn message_json(message: MessageView) -> JsonView {
    JsonView::Object(
        map![
            "role"@ => JsonView::Text(message.role),
            "content"@ => JsonView::Text(message.content),
        ],
    )
}

/// A conversation as a chat request carries it.
pub open spec fn conversation_json(messages: Seq<MessageView>) -> Seq<JsonView> {
    Seq::new(messages.len(), |i: int| message_json(messages[i]))
}

impl Session {
    /// Adds a message.
    pub fn push(&mut self, role: &str, content: &str)
        ensures
            final(self)@ == old(self)@.push(MessageView { role: role@, content: content@ }),
    {
        let ghost before = self@;
        self.messages.push(ChatMessage { role: role.to_owned(), content: content.to_owned() });
        assert(self@ =~= before.push(MessageView { role: role@, content: content@ }));
    }

    /// The conversation as a chat request carries it.
    pub fn to_json(&self) -> (list: Vec<Json>)
        ensures
            json::item_views(list@) == conversation_json(self@),
            list@.len() == self.messages@.len(),
            forall|i: int|
                0 <= i < list@.len() ==> {
                    let fields = (#[trigger] list@[i])@->Object_0;
                    &&& list@[i]@ is Object
                    &&& fields.dom() == set!["role"@, "content"@]
                    &&& fields["role"@] == JsonView::Text(self.messages@[i].role@)
                    &&& fields["content"@] == JsonView::Text(self.messages@[i].content@)
                },
    {
        let mut list: Vec<Json> = Vec::new();
        for index in 0..self.messages.len()
            invariant
                list@.len() == index,
                forall|i: int| 0 <= i < index ==> (#[trigger] list@[i])@ == message_json(self@[i]),
        {
            let message = &self.messages[index];
            assert(self@[index as int] == message@);
            list.push(
                Json::object().with_field("role", Json::text(message.role.as_str())).with_field(
                    "content",
                    Json::text(message.content.as_str()),
                ),
            );
        }
        assert(json::item_views(list@) =~= conversation_json(self@));
        proof {
            reveal_strlit("role");
            reveal_strlit("content");
            assert("role"@.len() == 4);
            assert("content"@.len() == 7);
            assert forall|i: int| 0 <= i < list@.len() implies (
            #[trigger] list@[i])@->Object_0.dom() =~= set!["role"@, "content"@] by {}
        }
        list
    }
}

/// The name of a session that is begun at a time, in nanoseconds since 1970.
pub open spec fn new_session_name(nanoseconds: u128) -> Seq<char> {
    "session-"@ + text::decimal_digits(nanoseconds as nat)
}

/// The name of the session to use: one made from the time where a new session is wanted,
/// otherwise the given one.
pub fn session_id(new: bool, name: &str, nanoseconds: u128) -> (id: String)
    ensures
        id@ == if new {
            new_session_name(nanoseconds)
        } else {
            name@
        },
{
    if new {
        text::together("session-", text::decimal(nanoseconds).as_str())
    } else {
        name.to_owned()
    }
}

/// Whether a run begins without messages: a new session is wanted, or none is stored.
pub fn begins_anew(new: bool, stored: bool) -> (anew: bool)
    ensures
        anew == (new || !stored),
{
    new || !stored
}

proof fn lemma_digits_are_session_characters(number: nat)
    ensures
        forall|i: int|
            0 <= i < text::decimal_digits(number).len() ==> '0' <= #[trigger] text::decimal_digits(
                number,
            )[i] <= '9',
    decreases number,
{
    let digits = text::decimal_digits(number);
    if number >= 10 {
        let before = text::decimal_digits(number / 10);
        lemma_digits_are_session_characters(number / 10);
        assert('0' <= text::digit(number % 10) <= '9');
        assert forall|i: int| 0 <= i < digits.len() implies '0' <= #[trigger] digits[i] <= '9' by {
            if i < before.len() {
                assert(digits[i] == before[i]);
            }
        }
    } else {
        assert('0' <= text::digit(number) <= '9');
    }
}

/// A name made from the time is a session name.
pub proof fn new_session_names_are_valid(nanoseconds: u128)
    ensures
        locations::session_name(new_session_name(nanoseconds)),
{
    reveal_strlit("session-");
    lemma_digits_are_session_characters(nanoseconds as nat);
}

} // verus!
