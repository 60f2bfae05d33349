//! The Slack sink: what is posted to the webhook for a record.

use vstd::prelude::*;
use vstd::utf8::{decode_utf8, valid_utf8};

verus! {

/// What `String::from_utf8_lossy` makes of bytes: the text that they encode,
/// with a replacement character wherever they encode none.
pub uninterp spec fn lossy_text(bytes: Seq<u8>) -> Seq<char>;

/// Calls `String::from_utf8_lossy`.
///
/// The contract claims that the result depends on the bytes alone, and that
/// bytes that are valid UTF-8 give the text that they encode. Nothing is
/// claimed of where the replacement characters go for other bytes.
#[verifier::external_body]
fn decode_lossy(bytes: &[u8]) -> (text: String)
    ensures
        text@ == lossy_text(bytes@),
        valid_utf8(bytes@) ==> text@ == decode_utf8(bytes@),
{
    String::from_utf8_lossy(bytes).into_owned()
}

/// A message for the webhook.
#[derive(Debug, Clone, PartialEq, Eq)]
pub struct SlackMessage {
    /// What the channel shows.
    pub text: String,
}

impl SlackMessage {
    /// The message that shows `text`.
    pub fn new(text: String) -> (m: SlackMessage)
        ensures
            m.text@ == text@,
    {
        SlackMessage { text }
    }

    /// The message for the value of a record: the value read as text, with a
    /// replacement character wherever it is none. A value that is valid
    /// UTF-8 is shown as the text that it encodes.
    pub fn for_value(value: &[u8]) -> (m: SlackMessage)
        ensures
            m.text@ == lossy_text(value@),
            valid_utf8(value@) ==> m.text@ == decode_utf8(value@),
    {
        SlackMessage::new(decode_lossy(value))
    }
}

} // verus!
