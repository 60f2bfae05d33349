//! A text that must not show up in logs.

use vstd::prelude::*;
use vstd::std_specs::cmp::PartialEqSpecImpl;
use crate::text::text_of;

verus! {

/// What is shown in place of a secret.
pub const REDACTED: &'static str = "[REDACTED]";

/// What every rendering of a secret shows: the redaction marker.
pub open spec fn redacted_text() -> Seq<char> {
    "[REDACTED]"@
}

/// A text whose renderings never reveal it.
///
/// The text itself stays available to code that asks for it by name, to be
/// placed into the credentials of a transport.
pub struct SecretString(String);

impl View for SecretString {
    type V = Seq<char>;

    closed spec fn view(&self) -> Seq<char> {
        self.0@
    }
}

impl PartialEq for SecretString {
    fn eq(&self, other: &SecretString) -> (same: bool) {
        self.0 == other.0
    }
}

impl PartialEqSpecImpl for SecretString {
    open spec fn obeys_eq_spec() -> bool {
        true
    }

    open spec fn eq_spec(&self, other: &SecretString) -> bool {
        self@ == other@
    }
}

impl Default for SecretString {
    fn default() -> (s: SecretString)
        ensures
            s@ == Seq::<char>::empty(),
    {
        SecretString(String::new())
    }
}

impl SecretString {
    /// Wraps `text`. Every text can be a secret.
    pub fn new(text: String) -> (s: SecretString)
        ensures
            s@ == text@,
    {
        SecretString(text)
    }

    /// Wraps a copy of `text`.
    pub fn from_str(text: &str) -> (s: SecretString)
        ensures
            s@ == text@,
    {
        SecretString(text_of(text))
    }

    /// The secret itself.
    pub fn as_str(&self) -> (text: &str)
        ensures
            text@ == self@,
    {
        self.0.as_str()
    }

    /// A copy of the secret.
    pub fn duplicate(&self) -> (s: SecretString)
        ensures
            s@ == self@,
    {
        SecretString(self.0.clone())
    }

    /// What a message for people shows of the secret: the redaction marker,
    /// whatever the secret holds.
    pub fn to_string(&self) -> (shown: String)
        ensures
            shown@ == redacted_text(),
    {
        text_of(REDACTED)
    }

    /// What a dump for developers shows of the secret: the redaction marker,
    /// whatever the secret holds.
    pub fn debug_text(&self) -> (shown: String)
        ensures
            shown@ == redacted_text(),
    {
        text_of(REDACTED)
    }
}

} // verus!
