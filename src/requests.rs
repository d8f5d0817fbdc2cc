use vstd::prelude::*;
use vstd::string::StringExecFns;

use crate::dispatch::Command;

verus! {

/// What a request body holds once read as JSON: the `message` member of a
/// JSON object whose `message` is a string, if it is that.
pub uninterp spec fn json_message_of(body: Seq<u8>) -> Option<Seq<char>>;

/// Relies on `serde_json::from_slice` (into `serde_json::Value`), with
/// `Value::get` and `Value::as_str`: parses the body as JSON and takes the
/// string member `message` of the object, if there is one.
#[verifier::external_body]
fn json_message(body: &[u8]) -> (r: Option<String>)
    ensures
        match r {
            Some(m) => json_message_of(body@) == Some(m@),
            None => json_message_of(body@) is None,
        },
{
    let v = serde_json::from_slice::<serde_json::Value>(body).ok()?;
    v.get("message").and_then(|m| m.as_str()).map(|m| m.to_string())
}

/// The argument of a text call, as a request body carries it.
#[derive(Debug, Clone)]
pub struct Text {
    pub message: String,
}

/// The forms a request body can take.
#[derive(Debug, Clone)]
pub enum MultiPayload {
    /// A JSON object with a string `message`: the argument of a text call.
    Text(Text),
    /// An empty body: a call without argument.
    Signal,
}

/// A request body that matches none of the forms.
#[derive(Debug, Clone)]
pub struct MultiPayloadRejection(pub String);

/// What a rejection of an unknown body says.
pub open spec fn unknown_format_message() -> Seq<char> {
    "Request payload didn't match any known format"@
}

/// What a rejection's response says, before its reason.
pub open spec fn rejection_prefix() -> Seq<char> {
    "Invalid or unreadable body: "@
}

impl MultiPayloadRejection {
    pub fn message(&self) -> (r: &String)
        ensures
            r@ == self.0@,
    {
        &self.0
    }

    /// The text of the response that reports this rejection.
    pub fn response_text(&self) -> (r: String)
        ensures
            r@ == rejection_prefix() + self.0@,
    {
        let mut t = String::from_str("Invalid or unreadable body: ");
        t.append(self.0.as_str());
        t
    }
}

impl MultiPayload {
    /// Reads a request body: an empty one is a signal, a JSON object with a
    /// string `message` is a text argument, anything else is rejected.
    pub fn from_body(body: &Vec<u8>) -> (r: Result<MultiPayload, MultiPayloadRejection>)
        ensures
            body@.len() == 0 ==> r matches Ok(MultiPayload::Signal),
            body@.len() != 0 ==> match json_message_of(body@) {
                Some(m) => match r {
                    Ok(MultiPayload::Text(t)) => t.message@ == m,
                    _ => false,
                },
                None => match r {
                    Err(e) => e.0@ == unknown_format_message(),
                    _ => false,
                },
            },
    {
        if body.len() == 0 {
            return Ok(MultiPayload::Signal);
        }
        match json_message(body.as_slice()) {
            Some(message) => Ok(MultiPayload::Text(Text { message })),
            None => Err(
                MultiPayloadRejection(
                    String::from_str("Request payload didn't match any known format"),
                ),
            ),
        }
    }

    /// The argument that the body carries, if any.
    pub fn into_argument(self) -> (r: Option<String>)
        ensures
            match self {
                MultiPayload::Text(t) => r == Some(t.message),
                MultiPayload::Signal => r is None,
            },
    {
        match self {
            MultiPayload::Text(t) => Some(t.message),
            MultiPayload::Signal => None,
        }
    }
}

impl Command {
    /// The command that a request to run `identifier` with this body stands for.
    pub fn from_request(identifier: String, payload: MultiPayload) -> (c: Command)
        ensures
            c.identifier == identifier,
            match payload {
                MultiPayload::Text(t) => c.payload == Some(t.message),
                MultiPayload::Signal => c.payload is None,
            },
    {
        Command { identifier, payload: payload.into_argument() }
    }
}

} // verus!
