//! What a capability call brings and what it returns.
use vstd::prelude::*;
use vstd::utf8::*;
use crate::coordinator::vocab::ErrorKind;
use crate::outside;
use crate::text::{self, Text};

verus! {

/// A capability call: its argument bytes, the caller, and the tenant that the call is made for.
#[derive(Debug, Clone)]
pub struct InvocationCtx {
    pub args: Vec<u8>,
    pub caller_subject_id: String,
    pub tenant_id: String,
}

/// The mathematical model of [`InvocationCtx`].
pub struct CallRec {
    pub args: Seq<u8>,
    pub caller: Text,
    pub tenant: Text,
}

impl View for InvocationCtx {
    type V = CallRec;

    open spec fn view(&self) -> CallRec {
        CallRec { args: self.args@, caller: self.caller_subject_id@, tenant: self.tenant_id@ }
    }
}

/// An error as it is reported to a caller.
#[derive(Debug, Clone, PartialEq, Eq)]
pub struct ErrorEnvelope {
    pub kind: ErrorKind,
    pub cause: String,
    pub retry_hint: u32,
    pub retry_after: Option<u64>,
}

/// What a capability call returns.
#[derive(Debug, Clone, PartialEq, Eq)]
pub enum HandlerOutcome {
    Done(Vec<u8>),
    Failed(ErrorEnvelope),
}

/// The mathematical model of [`HandlerOutcome`].
pub enum Reply {
    Body(Seq<u8>),
    Error { kind: ErrorKind, cause: Text, retry_hint: u32, retry_after: Option<u64> },
}

impl View for HandlerOutcome {
    type V = Reply;

    open spec fn view(&self) -> Reply {
        match *self {
            HandlerOutcome::Done(b) => Reply::Body(b@),
            HandlerOutcome::Failed(e) => Reply::Error {
                kind: e.kind,
                cause: e.cause@,
                retry_hint: e.retry_hint,
                retry_after: e.retry_after,
            },
        }
    }
}

impl Reply {
    /// A text as the body of a reply.
    pub open spec fn body(t: Text) -> Reply {
        Reply::Body(encode_utf8(t))
    }

    /// The refusal of malformed arguments; retrying does not help.
    pub open spec fn invalid(cause: Text) -> Reply {
        Reply::Error { kind: ErrorKind::InvalidArgs, cause, retry_hint: 2, retry_after: None }
    }

    /// A failure of the responder.
    pub open spec fn internal(cause: Text) -> Reply {
        Reply::Error { kind: ErrorKind::ResponderInternal, cause, retry_hint: 1, retry_after: None }
    }
}

impl CallRec {
    /// The argument as a text, where it is valid UTF-8.
    pub open spec fn text(self) -> Option<Text> {
        if valid_utf8(self.args) {
            Some(decode_utf8(self.args))
        } else {
            None
        }
    }

    /// The refusal of an argument that is no valid UTF-8.
    pub open spec fn bad_utf8(self, what: Text) -> Reply {
        Reply::invalid(what + outside::utf8_fault(self.args))
    }
}

pub fn body(s: String) -> (r: HandlerOutcome)
    ensures
        r@ == Reply::body(s@),
{
    HandlerOutcome::Done(s.as_str().as_bytes_vec())
}

pub fn invalid(cause: String) -> (r: HandlerOutcome)
    ensures
        r@ == Reply::invalid(cause@),
{
    HandlerOutcome::Failed(ErrorEnvelope { kind: ErrorKind::InvalidArgs, cause, retry_hint: 2, retry_after: None })
}

pub fn internal(cause: String) -> (r: HandlerOutcome)
    ensures
        r@ == Reply::internal(cause@),
{
    HandlerOutcome::Failed(ErrorEnvelope { kind: ErrorKind::ResponderInternal, cause, retry_hint: 1, retry_after: None })
}

impl InvocationCtx {
    /// The argument as a string, or the refusal of what is no valid UTF-8; `what` begins its cause.
    pub fn text_or(&self, what: &str) -> (r: Result<String, HandlerOutcome>)
        ensures
            match r {
                Ok(s) => self@.text() == Some(s@),
                Err(e) => self@.text() is None && e@ == self@.bad_utf8(what@),
            },
    {
        match outside::utf8_decode(self.args.as_slice()) {
            Ok(s) => Ok(s),
            Err(m) => Err(invalid(text::owned(what).concat(m.as_str()))),
        }
    }
}

/// Two texts as one.
pub fn glue(a: &str, b: &str) -> (r: String)
    ensures
        r@ == a@ + b@,
{
    text::owned(a).concat(b)
}

} // verus!
