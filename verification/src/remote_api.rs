//! Reading the answers of the remote account and staff service: which status
//! carries the answer proper, which carries a refusal, and what the refusal
//! says.

use crate::json::{json_texts, lookup, text_member};
use vstd::prelude::*;
use vstd::string::*;

verus! {

/// A call to the remote service.
#[derive(Clone, Copy, Debug, PartialEq, Eq, Structural)]
pub enum Endpoint {
    Signup,
    Login,
    RefreshToken,
    Staff,
}

/// What a status means for a call.
#[derive(Clone, Copy, Debug, PartialEq, Eq, Structural)]
pub enum Reply {
    /// The body is the answer to the call.
    Answer,
    /// The body is a document that says why the call was refused.
    Refusal,
    /// The status is none that the call knows.
    Unexpected,
}

impl Endpoint {
    /// What `status` means for this call. Sign-up takes 201 for an answer and
    /// 400 for a refusal; login takes 200 for an answer and 400 and 401 for a
    /// refusal; for the other calls all of 200 to 299 is an answer and
    /// everything else a refusal.
    pub open spec fn reply_of(self, status: u16) -> Reply {
        match self {
            Endpoint::Signup => if status == 201 {
                Reply::Answer
            } else if status == 400 {
                Reply::Refusal
            } else {
                Reply::Unexpected
            },
            Endpoint::Login => if status == 200 {
                Reply::Answer
            } else if status == 400 || status == 401 {
                Reply::Refusal
            } else {
                Reply::Unexpected
            },
            _ => if 200 <= status <= 299 {
                Reply::Answer
            } else {
                Reply::Refusal
            },
        }
    }

    /// The member of a refusal that holds its reason.
    pub open spec fn reason_key_of(self) -> Seq<char> {
        match self {
            Endpoint::Signup => "error"@,
            Endpoint::Login => "error"@,
            _ => "detail"@,
        }
    }

    /// What the caller is told where a refusal gives no reason.
    pub open spec fn fallback_of(self) -> Seq<char> {
        match self {
            Endpoint::RefreshToken => "Token invalid"@,
            _ => "Unknown error"@,
        }
    }

    /// What the caller is told for a refusal: its reason, where it is a
    /// document that holds one as a text, the fallback otherwise.
    pub open spec fn refusal_of(self, doc: serde_json::Value) -> Seq<char> {
        match lookup(json_texts(doc), self.reason_key_of()) {
            Some(reason) => reason,
            None => self.fallback_of(),
        }
    }

    /// What `status` means for this call.
    pub fn reply(self, status: u16) -> (reply: Reply)
        ensures
            reply == self.reply_of(status),
    {
        match self {
            Endpoint::Signup => if status == 201 {
                Reply::Answer
            } else if status == 400 {
                Reply::Refusal
            } else {
                Reply::Unexpected
            },
            Endpoint::Login => if status == 200 {
                Reply::Answer
            } else if status == 400 || status == 401 {
                Reply::Refusal
            } else {
                Reply::Unexpected
            },
            _ => if 200 <= status && status <= 299 {
                Reply::Answer
            } else {
                Reply::Refusal
            },
        }
    }

    /// The member of a refusal that holds its reason.
    pub fn reason_key(self) -> (key: &'static str)
        ensures
            key@ == self.reason_key_of(),
    {
        match self {
            Endpoint::Signup => "error",
            Endpoint::Login => "error",
            _ => "detail",
        }
    }

    /// What the caller is told where a refusal gives no reason.
    pub fn fallback(self) -> (message: &'static str)
        ensures
            message@ == self.fallback_of(),
    {
        match self {
            Endpoint::RefreshToken => "Token invalid",
            _ => "Unknown error",
        }
    }

    /// What the caller is told for the refusal `doc`.
    pub fn refusal(self, doc: &serde_json::Value) -> (message: String)
        ensures
            message@ == self.refusal_of(*doc),
    {
        match text_member(doc, self.reason_key()) {
            Some(reason) => reason,
            None => String::from_str(self.fallback()),
        }
    }
}

} // verus!
