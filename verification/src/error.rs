//! The closed set of error categories, each carrying message resources,
//! with one fixed display template per category.

use vstd::prelude::*;
use crate::decimal::{dec_spec, u16_to_dec};
use crate::message::{DescribableError, MessageResource};

verus! {

/// An error category to report to a caller instead of a raw internal
/// error. What is sent back to a client is the contained
/// [`MessageResource`], not the underlying error itself.
#[derive(Debug, Clone)]
pub enum Error {
    /// A network-layer failure.
    Network(MessageResource),
    /// A local I/O failure.
    IO(MessageResource),
    /// An authorization or permission failure.
    Privilege(MessageResource),
    /// A status-code mismatch: the expected code, the actual code, and
    /// supporting detail messages in order.
    UnexpectedStatusCode(u16, u16, Vec<MessageResource>),
    /// A structured-encoding or decoding failure.
    Serde(MessageResource),
    /// A parsing failure.
    Parser(MessageResource),
    /// A fallback for an unknown failure; carries nothing.
    Unspecified,
}

/// The display forms of a sequence of messages, comma-separated.
pub open spec fn list_body(s: Seq<MessageResource>) -> Seq<char>
    decreases s.len(),
{
    if s.len() == 0 {
        Seq::empty()
    } else if s.len() == 1 {
        s[0].display_spec()
    } else {
        list_body(s.drop_last()) + ", "@ + s.last().display_spec()
    }
}

/// How a list of messages is rendered in display text: the display form
/// of each element, comma-separated, between brackets.
pub open spec fn list_render(s: Seq<MessageResource>) -> Seq<char> {
    "["@ + list_body(s) + "]"@
}

impl Error {
    /// The display text, one fixed template per category.
    pub open spec fn display_spec(self) -> Seq<char> {
        match self {
            Error::Network(m) => "Error of type Network. MessageResource: "@ + m.display_spec(),
            Error::IO(m) => "Error of type IO. MessageResource: "@ + m.display_spec(),
            Error::Privilege(m) => "Error of type Privilege. MessageResource: "@
                + m.display_spec(),
            Error::UnexpectedStatusCode(expected, actual, messages) =>
                "Error of type UnexpectedStatusCode. Expected: "@ + dec_spec(expected as nat)
                + ", Actual: "@ + dec_spec(actual as nat) + ", MessageResources: "@
                + list_render(messages@),
            Error::Serde(m) => "Error of type Serde. MessageResource: "@ + m.display_spec(),
            Error::Parser(m) => "Error of type Parser. MessageResource: "@ + m.display_spec(),
            Error::Unspecified => "Error of type Unspecified."@,
        }
    }

    /// Renders the error for logs or diagnostics, exactly as
    /// [`Error::display_spec`] says.
    pub fn display_string(&self) -> (r: String)
        ensures
            r@ == self.display_spec(),
    {
        match self {
            Error::Network(m) => {
                let mut r = String::from_str("Error of type Network. MessageResource: ");
                let d = m.display_string();
                r.append(d.as_str());
                r
            },
            Error::IO(m) => {
                let mut r = String::from_str("Error of type IO. MessageResource: ");
                let d = m.display_string();
                r.append(d.as_str());
                r
            },
            Error::Privilege(m) => {
                let mut r = String::from_str("Error of type Privilege. MessageResource: ");
                let d = m.display_string();
                r.append(d.as_str());
                r
            },
            Error::UnexpectedStatusCode(expected, actual, messages) => {
                let mut r = String::from_str("Error of type UnexpectedStatusCode. Expected: ");
                let e = u16_to_dec(*expected);
                r.append(e.as_str());
                r.append(", Actual: ");
                let a = u16_to_dec(*actual);
                r.append(a.as_str());
                r.append(", MessageResources: ");
                r.append("[");
                let ghost pref = r@;
                let mut i: usize = 0;
                while i < messages.len()
                    invariant
                        i <= messages.len(),
                        r@ == pref + list_body(messages@.subrange(0, i as int)),
                    decreases messages.len() - i,
                {
                    if i > 0 {
                        r.append(", ");
                    }
                    let d = messages[i].display_string();
                    r.append(d.as_str());
                    proof {
                        assert(messages@.subrange(0, i + 1).drop_last() =~= messages@.subrange(
                            0,
                            i as int,
                        ));
                        assert(r@ =~= pref + list_body(messages@.subrange(0, i + 1)));
                    }
                    i += 1;
                }
                r.append("]");
                proof {
                    assert(messages@.subrange(0, messages@.len() as int) =~= messages@);
                    assert(r@ =~= self.display_spec());
                }
                r
            },
            Error::Serde(m) => {
                let mut r = String::from_str("Error of type Serde. MessageResource: ");
                let d = m.display_string();
                r.append(d.as_str());
                r
            },
            Error::Parser(m) => {
                let mut r = String::from_str("Error of type Parser. MessageResource: ");
                let d = m.display_string();
                r.append(d.as_str());
                r
            },
            Error::Unspecified => String::from_str("Error of type Unspecified."),
        }
    }
}

impl DescribableError for Error {
    /// An error's description is its display text.
    open spec fn description_spec(&self) -> Seq<char> {
        self.display_spec()
    }

    fn description(&self) -> (s: String) {
        self.display_string()
    }
}

/// Law: queried through the describable-error capability, every error
/// category describes itself by exactly its display form, and that text
/// is never empty.
pub proof fn lemma_description_is_display(e: &Error)
    ensures
        e.description_spec() == e.display_spec(),
        e.display_spec().len() > 0,
{
    reveal_strlit("Error of type Network. MessageResource: ");
    reveal_strlit("Error of type IO. MessageResource: ");
    reveal_strlit("Error of type Privilege. MessageResource: ");
    reveal_strlit("Error of type UnexpectedStatusCode. Expected: ");
    reveal_strlit("Error of type Serde. MessageResource: ");
    reveal_strlit("Error of type Parser. MessageResource: ");
    reveal_strlit("Error of type Unspecified.");
}

} // verus!
