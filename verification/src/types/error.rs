//! Errors of the engine.

use vstd::prelude::*;

use crate::text::{has_substring, middle_is_found};

verus! {

/// An error of the engine.
#[derive(Debug, PartialEq, Eq)]
pub enum EngineError {
    /// An effect could not be carried out.
    Effect { reason: String },
    /// There is no such lease.
    LeaseNotFound { lease_id: String },
    /// The lease is expired, revoked or used up.
    LeaseExpired { capability_name: String },
    /// The store failed.
    Store { reason: String },
    /// A skill document could not be changed.
    Skill { reason: String },
    /// A thread cannot go from its state to the one asked for.
    InvalidTransition { from: String, to: String },
}

/// What an error holds.
pub enum ErrorView {
    Effect(Seq<char>),
    LeaseNotFound(Seq<char>),
    LeaseExpired(Seq<char>),
    Store(Seq<char>),
    Skill(Seq<char>),
    InvalidTransition(Seq<char>, Seq<char>),
}

impl View for EngineError {
    type V = ErrorView;

    open spec fn view(&self) -> ErrorView {
        match self {
            EngineError::Effect { reason } => ErrorView::Effect(reason@),
            EngineError::LeaseNotFound { lease_id } => ErrorView::LeaseNotFound(lease_id@),
            EngineError::LeaseExpired { capability_name } => ErrorView::LeaseExpired(
                capability_name@,
            ),
            EngineError::Store { reason } => ErrorView::Store(reason@),
            EngineError::Skill { reason } => ErrorView::Skill(reason@),
            EngineError::InvalidTransition { from, to } => ErrorView::InvalidTransition(
                from@,
                to@,
            ),
        }
    }
}

/// How an error is told.
pub open spec fn error_text(e: ErrorView) -> Seq<char> {
    match e {
        ErrorView::Effect(reason) => "effect error: "@ + reason,
        ErrorView::LeaseNotFound(id) => "lease not found: "@ + id,
        ErrorView::LeaseExpired(name) => "lease expired: "@ + name,
        ErrorView::Store(reason) => "store error: "@ + reason,
        ErrorView::Skill(reason) => "skill error: "@ + reason,
        ErrorView::InvalidTransition(from, to) => "invalid state transition: "@ + from + " -> "@
            + to,
    }
}

fn told(prefix: &str, rest: &str) -> (r: String)
    ensures
        r@ == prefix@ + rest@,
{
    let mut s = prefix.to_owned();
    s.append(rest);
    s
}

impl EngineError {
    /// How the error is told.
    pub fn message(&self) -> (r: String)
        ensures
            r@ == error_text(self@),
    {
        match self {
            EngineError::Effect { reason } => told("effect error: ", reason.as_str()),
            EngineError::LeaseNotFound { lease_id } => told(
                "lease not found: ",
                lease_id.as_str(),
            ),
            EngineError::LeaseExpired { capability_name } => told(
                "lease expired: ",
                capability_name.as_str(),
            ),
            EngineError::Store { reason } => told("store error: ", reason.as_str()),
            EngineError::Skill { reason } => told("skill error: ", reason.as_str()),
            EngineError::InvalidTransition { from, to } => {
                let mut s = told("invalid state transition: ", from.as_str());
                s.append(" -> ");
                s.append(to.as_str());
                s
            },
        }
    }
}

/// An error is told with what it is about.
pub proof fn errors_tell_what_they_are_about(e: ErrorView)
    ensures
        match e {
            ErrorView::Effect(t) => has_substring(error_text(e), t),
            ErrorView::LeaseNotFound(t) => has_substring(error_text(e), t),
            ErrorView::LeaseExpired(t) => has_substring(error_text(e), t),
            ErrorView::Store(t) => has_substring(error_text(e), t),
            ErrorView::Skill(t) => has_substring(error_text(e), t),
            ErrorView::InvalidTransition(from, to) => has_substring(error_text(e), from)
                && has_substring(error_text(e), to),
        },
{
    let none = Seq::<char>::empty();
    match e {
        ErrorView::Effect(t) => {
            middle_is_found("effect error: "@, t, none);
            assert(error_text(e) =~= "effect error: "@ + t + none);
        },
        ErrorView::LeaseNotFound(t) => {
            middle_is_found("lease not found: "@, t, none);
            assert(error_text(e) =~= "lease not found: "@ + t + none);
        },
        ErrorView::LeaseExpired(t) => {
            middle_is_found("lease expired: "@, t, none);
            assert(error_text(e) =~= "lease expired: "@ + t + none);
        },
        ErrorView::Store(t) => {
            middle_is_found("store error: "@, t, none);
            assert(error_text(e) =~= "store error: "@ + t + none);
        },
        ErrorView::Skill(t) => {
            middle_is_found("skill error: "@, t, none);
            assert(error_text(e) =~= "skill error: "@ + t + none);
        },
        ErrorView::InvalidTransition(from, to) => {
            let head = "invalid state transition: "@;
            middle_is_found(head, from, " -> "@ + to);
            assert(error_text(e) =~= head + from + (" -> "@ + to));
            middle_is_found(head + from + " -> "@, to, none);
            assert(error_text(e) =~= head + from + " -> "@ + to + none);
        },
    }
}

} // verus!
