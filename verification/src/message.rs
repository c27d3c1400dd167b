//! The localizable message wrapper: an optional lookup key plus a
//! human-readable message.

use vstd::prelude::*;

verus! {

/// A user-facing message, optionally tagged with an identifier key
/// (for example an i18n lookup key) so that a client can localize it.
///
/// `message` is always present (it may be empty); `key` is absent by
/// default and is a free-form label, not validated against any catalog.
#[derive(Debug, Clone)]
pub struct MessageResource {
    pub key: Option<String>,
    pub message: String,
}

/// How a key is rendered in display text: `Some("<key>")` with the key
/// inserted verbatim when present, `None` otherwise.
pub open spec fn key_render(k: Option<Seq<char>>) -> Seq<char> {
    match k {
        Some(s) => "Some(\""@ + s + "\")"@,
        None => "None"@,
    }
}

/// Any value that exposes a textual description of a failure.
///
/// This is the capability that lets an underlying error be converted into
/// a [`MessageResource`] (see [`MessageResource::from_describable`]); the
/// library's own [`crate::error::Error`] implements it too.
pub trait DescribableError {
    /// The description as a sequence of characters.
    spec fn description_spec(&self) -> Seq<char>;

    /// Returns the textual description.
    fn description(&self) -> (s: String)
        ensures
            s@ == self.description_spec(),
    ;
}

impl MessageResource {
    /// The key as a sequence of characters, when present.
    pub open spec fn key_view(self) -> Option<Seq<char>> {
        match self.key {
            Some(k) => Some(k@),
            None => None,
        }
    }

    /// The display text: `MessageResource Key: <key>, Message: <message>`,
    /// with the key rendered as [`key_render`] says.
    pub open spec fn display_spec(self) -> Seq<char> {
        "MessageResource Key: "@ + key_render(self.key_view()) + ", Message: "@ + self.message@
    }

    /// Renders the message for logs or diagnostics, exactly as
    /// [`MessageResource::display_spec`] says.
    pub fn display_string(&self) -> (r: String)
        ensures
            r@ == self.display_spec(),
    {
        let mut r = String::from_str("MessageResource Key: ");
        match &self.key {
            Some(k) => {
                r.append("Some(\"");
                r.append(k.as_str());
                r.append("\")");
            },
            None => {
                r.append("None");
            },
        }
        r.append(", Message: ");
        r.append(self.message.as_str());
        proof {
            assert(r@ =~= self.display_spec());
        }
        r
    }

    /// Converts any describable error into a message: no key, and the
    /// message text equal to the error's description.
    pub fn from_describable<E: DescribableError>(e: &E) -> (r: Self)
        ensures
            r.key is None,
            r.message@ == e.description_spec(),
    {
        MessageResource { key: None, message: e.description() }
    }

    /// Builds a message with both the key and the message text set.
    pub fn new(key: &str, msg: &str) -> (r: Self)
        ensures
            r.key_view() == Some(key@),
            r.message@ == msg@,
    {
        MessageResource { key: Some(String::from_str(key)), message: String::from_str(msg) }
    }

    /// Builds a message without a key from borrowed text.
    pub fn new_from_str(msg: &str) -> (r: Self)
        ensures
            r.key is None,
            r.message@ == msg@,
    {
        MessageResource { key: None, message: String::from_str(msg) }
    }

    /// Builds a message without a key from owned text.
    pub fn new_from_string(msg: String) -> (r: Self)
        ensures
            r.key is None,
            r.message@ == msg@,
    {
        MessageResource { key: None, message: msg }
    }
}

impl PartialEq for MessageResource {
    /// Two messages are equal when their keys agree and their texts agree.
    fn eq(&self, other: &Self) -> (r: bool) {
        let keys_eq = match (&self.key, &other.key) {
            (None, None) => true,
            (Some(a), Some(b)) => *a == *b,
            _ => false,
        };
        keys_eq && self.message == other.message
    }
}

impl vstd::std_specs::cmp::PartialEqSpecImpl for MessageResource {
    open spec fn obeys_eq_spec() -> bool {
        true
    }

    open spec fn eq_spec(&self, other: &Self) -> bool {
        self.key_view() == other.key_view() && self.message@ == other.message@
    }
}

impl Default for MessageResource {
    /// The default message: no key, empty text.
    fn default() -> (r: Self)
        ensures
            r.key is None,
            r.message@ == Seq::<char>::empty(),
    {
        MessageResource { key: None, message: String::new() }
    }
}

} // verus!
