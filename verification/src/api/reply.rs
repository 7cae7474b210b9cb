//! Answers of the control interface.

use crate::text;
use vstd::prelude::*;

verus! {

/// An answer: its status, and the message that tells what is wrong.
#[derive(Clone, Debug)]
pub struct Reply {
    pub status: u16,
    pub message: Option<String>,
}

/// A [`Reply`] with its text as a sequence.
pub struct ReplyView {
    pub status: u16,
    pub message: Option<Seq<char>>,
}

impl View for Reply {
    type V = ReplyView;

    open spec fn view(&self) -> ReplyView {
        ReplyView { status: self.status, message: text::opt_view(self.message) }
    }
}

/// An answer with a message.
pub open spec fn told(status: u16, message: Seq<char>) -> ReplyView {
    ReplyView { status, message: Some(message) }
}

/// An answer without one.
pub open spec fn bare(status: u16) -> ReplyView {
    ReplyView { status, message: None }
}

/// What was asked for is done, and there is nothing to say.
pub const NO_CONTENT: u16 = 204;

/// What was asked for cannot be understood.
pub const BAD_REQUEST: u16 = 400;

/// The one who asks is not known.
pub const UNAUTHORIZED: u16 = 401;

/// What was asked for does not exist.
pub const NOT_FOUND: u16 = 404;

/// What was asked for is taken.
pub const CONFLICT: u16 = 409;

/// What was asked for failed.
pub const INTERNAL_SERVER_ERROR: u16 = 500;

/// What was asked for cannot be had now.
pub const SERVICE_UNAVAILABLE: u16 = 503;

/// What was asked for took too long.
pub const GATEWAY_TIMEOUT: u16 = 504;

/// An answer with a message.
pub fn msg_err(status: u16, message: &str) -> (r: Reply)
    ensures
        r@ == told(status, message@),
{
    Reply { status, message: Some(message.to_owned()) }
}

/// An answer without one.
pub fn only(status: u16) -> (r: Reply)
    ensures
        r@ == bare(status),
{
    Reply { status, message: None }
}

} // verus!
