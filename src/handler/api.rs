//! The envelope in which the store's results are answered, and the choice
//! between its two encodings.
use vstd::prelude::*;
use crate::handler::data::{
    create, get, get_all, has_id, is_blank, is_first_with_id, max_id, next_id, posted_at, remove,
    sorted_by_posted_desc, update, without_id, Message,
};
use crate::handler::text::str_equals;

verus! {

/// What an answer carries.
#[derive(Debug)]
pub enum ResponseContent {
    /// A listing of messages.
    Items(Vec<Message>),
    /// One message.
    Item(Message),
    /// Why a request failed.
    Reason(String),
    /// Nothing: the operation has no payload.
    Empty,
}

/// The envelope of every answer: a status word and a payload.
#[derive(Debug)]
pub struct ApiResponse {
    /// `"OK"` or `"Error"`.
    pub status: String,
    pub result: ResponseContent,
}

/// The encodings an answer can be written in.
#[derive(Debug, Clone, Copy, PartialEq, Eq, Structural)]
pub enum Format {
    Json,
    Xml,
}

/// The status word of a successful answer.
pub open spec fn ok_status() -> Seq<char> {
    "OK"@
}

/// The status word of a failed answer.
pub open spec fn error_status() -> Seq<char> {
    "Error"@
}

/// The format token asks for XML.
pub open spec fn asks_for_xml(format: Option<&str>) -> bool {
    format matches Some(f) && f@ == "xml"@
}

/// Picks the encoding from an optional format token: XML for exactly `"xml"`,
/// JSON for anything else, including no token at all.
pub fn negotiate(format: Option<&str>) -> (r: Format)
    ensures
        r == Format::Xml <==> asks_for_xml(format),
        r == Format::Json <==> !asks_for_xml(format),
{
    match format {
        Some(f) => {
            if str_equals(f, "xml") {
                Format::Xml
            } else {
                Format::Json
            }
        },
        None => Format::Json,
    }
}

impl Format {
    /// The media type under which an answer in this encoding is sent.
    pub fn content_type(&self) -> (r: &'static str)
        ensures
            *self == Format::Xml ==> r@ == "application/xml; charset=utf-8"@,
            *self == Format::Json ==> r@ == "application/json"@,
    {
        match self {
            Format::Xml => "application/xml; charset=utf-8",
            Format::Json => "application/json",
        }
    }
}

fn ok(result: ResponseContent) -> (r: ApiResponse)
    ensures
        r.status@ == ok_status(),
        r.result == result,
{
    ApiResponse { status: String::from_str("OK"), result }
}

fn failure(reason: &str) -> (r: ApiResponse)
    ensures
        r.status@ == error_status(),
        r.result matches ResponseContent::Reason(s) && s@ == reason@,
{
    ApiResponse { status: String::from_str("Error"), result: ResponseContent::Reason(String::from_str(reason)) }
}

/// The answer for a route that does not exist.
pub fn not_found_response() -> (r: ApiResponse)
    ensures
        r.status@ == error_status(),
        r.result matches ResponseContent::Reason(s) && s@ == "API not found"@,
{
    failure("API not found")
}

/// The answer to a listing: every message, latest first, messages posted at
/// the same time in their stored order.
pub fn index_response(messages: Vec<Message>) -> (r: ApiResponse)
    ensures
        r.status@ == ok_status(),
        r.result matches ResponseContent::Items(v) && v@.to_multiset() == messages@.to_multiset()
            && sorted_by_posted_desc(v@) && forall|p: Seq<char>| #[trigger] posted_at(v@, p)
            == posted_at(messages@, p),
{
    ok(ResponseContent::Items(get_all(messages)))
}

/// The answer to a lookup: the first message with the id, or the
/// zero-valued message when there is none.
pub fn show_response(messages: &Vec<Message>, id: i32) -> (r: ApiResponse)
    ensures
        r.status@ == ok_status(),
        r.result matches ResponseContent::Item(m) && (has_id(messages@, id) ==> exists|i: int|
            is_first_with_id(messages@, id, i) && messages@[i] == m) && (!has_id(messages@, id)
            ==> is_blank(m)),
{
    ok(ResponseContent::Item(get(messages, id)))
}

/// Stores a new message with the given sender, content and posting time,
/// under the next id, and answers with it. When no id is left the
/// collection is unchanged and the answer is an error.
pub fn create_response(
    messages: &mut Vec<Message>,
    sender: String,
    content: String,
    posted: String,
) -> (r: ApiResponse)
    ensures
        max_id(old(messages)@) < i32::MAX ==> {
            let m = Message { id: next_id(old(messages)@) as i32, posted, sender, content };
            &&& r.status@ == ok_status()
            &&& r.result == ResponseContent::Item(m)
            &&& final(messages)@ == old(messages)@.push(m)
        },
        max_id(old(messages)@) == i32::MAX ==> {
            &&& r.status@ == error_status()
            &&& r.result matches ResponseContent::Reason(s) && s@ == "no id left"@
            &&& final(messages)@ == old(messages)@
        },
{
    let message = Message { id: 0, posted, sender, content };
    match create(messages, message) {
        Some(m) => ok(ResponseContent::Item(m)),
        None => failure("no id left"),
    }
}

/// Replaces the message with the same id, if there is one, and answers with
/// the message as given, whether or not one was replaced.
pub fn update_response(messages: &mut Vec<Message>, message: Message) -> (r: ApiResponse)
    ensures
        r.status@ == ok_status(),
        r.result == ResponseContent::Item(message),
        has_id(old(messages)@, message.id) ==> exists|i: int|
            is_first_with_id(old(messages)@, message.id, i) && final(messages)@
                == old(messages)@.update(i, message),
        !has_id(old(messages)@, message.id) ==> final(messages)@ == old(messages)@,
{
    update(messages, &message);
    ok(ResponseContent::Item(message))
}

/// Drops the messages with the id and answers with no payload; an absent id
/// is no error.
pub fn delete_response(messages: &mut Vec<Message>, id: i32) -> (r: ApiResponse)
    ensures
        r.status@ == ok_status(),
        r.result == ResponseContent::Empty,
        final(messages)@ == without_id(old(messages)@, id),
{
    remove(messages, id);
    ok(ResponseContent::Empty)
}

} // verus!
