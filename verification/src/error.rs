//! The error model: one contextual shape carrying which message, which
//! header, and why a parse or composition step failed.

use vstd::prelude::*;

verus! {

/// The mathematical value of an `EmlParseError`.
pub ghost struct ErrV {
    pub id: Option<Seq<char>>,
    pub reason: Seq<char>,
    pub within: Option<Seq<char>>,
}

/// A parse failure, attached to the message identifier and header name in
/// scope when it occurred.
#[derive(Debug)]
pub struct EmlParseError {
    pub id: Option<String>,
    pub reason: String,
    pub within: Option<String>,
}

impl View for EmlParseError {
    type V = ErrV;

    open spec fn view(&self) -> ErrV {
        ErrV { id: self.id.deep_view(), reason: self.reason@, within: self.within.deep_view() }
    }
}

impl DeepView for EmlParseError {
    type V = ErrV;

    open spec fn deep_view(&self) -> ErrV {
        self@
    }
}

/// The rendering of an error as one human-readable line.
pub open spec fn err_message(e: ErrV) -> Seq<char> {
    let eml = match e.id {
        Some(i) => i,
        None => "email"@,
    };
    let what = match e.within {
        Some(w) => eml + "'s "@ + w,
        None => eml,
    };
    "Error parsing "@ + what + ": "@ + e.reason
}

impl EmlParseError {
    /// A fresh error with no context and an unknown reason.
    pub fn new() -> (r: Self)
        ensures
            r@ == (ErrV { id: None, reason: "Unknown"@, within: None }),
    {
        EmlParseError { id: None, reason: String::from_str("Unknown"), within: None }
    }

    /// The same error, attributed to the given message identifier.
    pub fn id(self, id: String) -> (r: Self)
        ensures
            r@ == (ErrV { id: Some(id@), reason: self@.reason, within: self@.within }),
    {
        EmlParseError { id: Some(id), reason: self.reason, within: self.within }
    }

    /// The same error, with its reason replaced.
    pub fn reason(self, reason: &str) -> (r: Self)
        ensures
            r@ == (ErrV { id: self@.id, reason: reason@, within: self@.within }),
    {
        EmlParseError { id: self.id, reason: String::from_str(reason), within: self.within }
    }

    /// The same error, attributed to the given header.
    pub fn within(self, within: &str) -> (r: Self)
        ensures
            r@ == (ErrV { id: self@.id, reason: self@.reason, within: Some(within@) }),
    {
        EmlParseError { id: self.id, reason: self.reason, within: Some(String::from_str(within)) }
    }

    /// Renders the error as one line naming the message, the header and the
    /// reason, as far as each is known.
    pub fn message(&self) -> (r: String)
        ensures
            r@ == err_message(self@),
    {
        let mut r = String::from_str("Error parsing ");
        match &self.id {
            Some(i) => r.append(i.as_str()),
            None => r.append("email"),
        }
        if let Some(w) = &self.within {
            r.append("'s ");
            r.append(w.as_str());
        }
        r.append(": ");
        r.append(self.reason.as_str());
        proof {
            assert(r@ =~= err_message(self@));
        }
        r
    }
}

/// An error surfaced to the presentation layer: either a structured parse
/// failure or an opaque message from a collaborator.
pub enum AmailError {
    Parse(EmlParseError),
    Other(String),
}

impl AmailError {
    /// Renders the error as one line.
    pub fn message(&self) -> (r: String)
        ensures
            self matches AmailError::Parse(e) ==> r@ == err_message(e@),
            self matches AmailError::Other(s) ==> r@ == s@,
    {
        match self {
            AmailError::Parse(e) => e.message(),
            AmailError::Other(s) => s.clone(),
        }
    }
}

} // verus!
