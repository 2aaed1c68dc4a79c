//! HTTP replies.
use crate::codec;
use crate::json::{Json, JsonView};
use vstd::prelude::*;
use vstd::string::*;

verus! {

/// An HTTP reply: its status, its body, and the value of its `content-type` header.
#[derive(Debug, PartialEq, Eq)]
pub struct Reply {
    pub status: u16,
    pub body: Vec<u8>,
    pub content_type: Option<Vec<u8>>,
}

/// What a reply is.
pub struct ReplyView {
    pub status: u16,
    pub body: Seq<u8>,
    pub content_type: Option<Seq<u8>>,
}

/// What optional bytes are.
pub open spec fn optional_bytes(value: Option<Vec<u8>>) -> Option<Seq<u8>> {
    match value {
        Some(value) => Some(value@),
        None => None,
    }
}

impl View for Reply {
    type V = ReplyView;

    open spec fn view(&self) -> ReplyView {
        ReplyView {
            status: self.status,
            body: self.body@,
            content_type: optional_bytes(self.content_type),
        }
    }
}

/// Whether a status tells success.
pub open spec fn success(status: u16) -> bool {
    200 <= status < 300
}

/// Whether a status tells that another provider may succeed: too many requests, or a fault of the
/// server.
pub open spec fn retryable(status: u16) -> bool {
    status == 429 || 500 <= status < 600
}

/// The reply that holds a JSON value.
pub open spec fn json_reply_view(status: u16, value: JsonView) -> ReplyView {
    ReplyView {
        status,
        body: vstd::utf8::encode_utf8(codec::compact_json(value)),
        content_type: Some(vstd::utf8::encode_utf8("application/json"@)),
    }
}

/// The object with one field, a text.
pub open spec fn labelled(name: Seq<char>, text: Seq<char>) -> JsonView {
    JsonView::Object(Map::empty().insert(name, JsonView::Text(text)))
}

/// The reply that tells an error.
pub open spec fn error_reply(status: u16, message: Seq<char>) -> ReplyView {
    json_reply_view(status, labelled("error"@, message))
}

/// The JSON value that the body of a reply holds.
pub open spec fn body_json(reply: ReplyView) -> Option<JsonView> {
    codec::parsed_json(vstd::utf8::decode_utf8(reply.body))
}

/// The reply that holds an object with one field, a text. The object is read back from the body,
/// unless the name is one that `serde_json` keeps for itself.
pub fn labelled_reply(status: u16, name: &str, text: &str) -> (reply: Reply)
    ensures
        reply@ == json_reply_view(status, labelled(name@, text@)),
        vstd::utf8::valid_utf8(reply@.body),
        !codec::reserved(name@) ==> body_json(reply@) == Some(labelled(name@, text@)),
{
    let value = Json::object().with_field(name, Json::text(text));
    let written = value.to_text();
    proof {
        vstd::utf8::encode_utf8_decode_utf8(written@);
        vstd::utf8::encode_utf8_valid_utf8(written@);
    }
    Reply {
        status,
        body: written.as_str().as_bytes_vec(),
        content_type: Some("application/json".as_bytes_vec()),
    }
}

/// No label of a reply is a name that `serde_json` keeps for itself.
pub(crate) proof fn lemma_labels_are_not_reserved()
    ensures
        !codec::reserved("error"@),
        !codec::reserved("status"@),
        !codec::reserved("result"@),
{
    reveal_strlit("error");
    reveal_strlit("status");
    reveal_strlit("result");
    reveal_strlit("$serde_json::private::RawValue");
    reveal_strlit("$serde_json::private::Number");
    assert("error"@[0] == 'e');
    assert("status"@[0] == 's');
    assert("result"@[0] == 'r');
    assert("$serde_json::private::RawValue"@[0] == '$');
    assert("$serde_json::private::Number"@[0] == '$');
}

/// The reply that tells an error: its body is an object whose one field `error` is the message.
pub fn error_response(status: u16, message: &str) -> (reply: Reply)
    ensures
        reply@ == error_reply(status, message@),
        reply.status == status,
        codec::parsed_json(vstd::utf8::decode_utf8(reply.body@)) == Some(
            JsonView::Object(Map::empty().insert("error"@, JsonView::Text(message@))),
        ),
        body_json(reply@) == Some(labelled("error"@, message@)),
{
    proof {
        lemma_labels_are_not_reserved();
    }
    labelled_reply(status, "error", message)
}

/// The reply that hands on what an upstream service answered.
pub fn upstream_response(status: u16, body: Vec<u8>, content_type: Option<Vec<u8>>) -> (reply:
    Reply)
    ensures
        reply@ == (ReplyView {
            status,
            body: body@,
            content_type: optional_bytes(content_type),
        }),
        reply.status == status,
        reply.body == body,
        reply.content_type == content_type,
{
    Reply { status, body, content_type }
}

/// The reply that tells that the proxy is up.
pub fn health() -> (reply: Reply)
    ensures
        reply@ == json_reply_view(200, labelled("status"@, "ok"@)),
        reply.status == 200,
        codec::parsed_json(vstd::utf8::decode_utf8(reply.body@)) == Some(
            JsonView::Object(Map::empty().insert("status"@, JsonView::Text("ok"@))),
        ),
        body_json(reply@) == Some(labelled("status"@, "ok"@)),
{
    proof {
        lemma_labels_are_not_reserved();
    }
    labelled_reply(200, "status", "ok")
}

} // verus!
