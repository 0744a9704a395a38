//! Matching free-text replies against the options of an approval prompt.

use vstd::prelude::*;

use crate::text::{chars_eq, chars_to_string, spec_trim, str_to_chars, trim_chars};

verus! {

/// The decision a reply to an approval request expresses.
#[derive(Clone, Copy, Debug, PartialEq, Eq)]
pub enum ReviewDecision {
    /// Approve this request.
    Approved,
    /// Approve this and every later request in the session.
    ApprovedForSession,
    /// Reject the request.
    Abort,
}

/// The lower-case form of a character sequence, as `str::to_lowercase`
/// folds it.
pub uninterp spec fn lower_of(s: Seq<char>) -> Seq<char>;

/// Relies on `str::to_lowercase`: the result depends on the characters
/// alone.
#[verifier::external_body]
fn lowercase(s: &str) -> (r: String)
    ensures
        r@ == lower_of(s@),
{
    s.to_lowercase()
}

/// The decision a reply expresses: its trimmed, case-folded text matched
/// against the prompt's numbered options; `None` for a free-form reply.
pub open spec fn spec_parse_approval(m: Seq<char>) -> Option<ReviewDecision> {
    let n = lower_of(spec_trim(m));
    if n == "yes"@ {
        Some(ReviewDecision::Approved)
    } else if n == "always"@ {
        Some(ReviewDecision::ApprovedForSession)
    } else if n == "no, provide feedback"@ || n == "no"@ {
        Some(ReviewDecision::Abort)
    } else {
        None
    }
}

/// Exact runtime counterpart of [`spec_parse_approval`].
pub fn parse_approval_response(message: &str) -> (r: Option<ReviewDecision>)
    ensures
        r == spec_parse_approval(message@),
{
    let chars = str_to_chars(message);
    let trimmed = trim_chars(&chars);
    let trimmed_s = chars_to_string(&trimmed);
    let normalized = lowercase(trimmed_s.as_str());
    let n = str_to_chars(normalized.as_str());
    if chars_eq(&n, &str_to_chars("yes")) {
        Some(ReviewDecision::Approved)
    } else if chars_eq(&n, &str_to_chars("always")) {
        Some(ReviewDecision::ApprovedForSession)
    } else if chars_eq(&n, &str_to_chars("no, provide feedback")) || chars_eq(
        &n,
        &str_to_chars("no"),
    ) {
        Some(ReviewDecision::Abort)
    } else {
        None
    }
}

/// What a remote reply makes the session do.
#[derive(Clone, Copy, Debug, PartialEq, Eq)]
pub enum PollAction {
    /// Resolve the oldest pending approval request with this decision.
    Resolve(ReviewDecision),
    /// Treat the reply as ordinary user input and forward it.
    Forward,
}

/// What to do with a polled reply: while an approval request is pending,
/// a reply matching one of its options resolves it and any other reply
/// rejects it; with nothing pending, every reply is forwarded as input.
pub open spec fn spec_poll_reply_action(m: Seq<char>, approval_pending: bool) -> PollAction {
    if approval_pending {
        match spec_parse_approval(m) {
            Some(d) => PollAction::Resolve(d),
            None => PollAction::Resolve(ReviewDecision::Abort),
        }
    } else {
        PollAction::Forward
    }
}

/// Exact runtime counterpart of [`spec_poll_reply_action`].
pub fn poll_reply_action(message: &str, approval_pending: bool) -> (r: PollAction)
    ensures
        r == spec_poll_reply_action(message@, approval_pending),
{
    if !approval_pending {
        return PollAction::Forward;
    }
    match parse_approval_response(message) {
        Some(d) => PollAction::Resolve(d),
        None => PollAction::Resolve(ReviewDecision::Abort),
    }
}

} // verus!
