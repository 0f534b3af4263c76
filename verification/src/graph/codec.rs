//! The names under which subgraphs write proposal states.

use vstd::prelude::*;
use crate::field::{FieldError, JsonField};
use crate::graph::ProposalState;
use crate::text::text_eq;

verus! {

/// The name under which a proposal state is written.
pub open spec fn state_name(s: ProposalState) -> Seq<char> {
    match s {
        ProposalState::PENDING => "PENDING"@,
        ProposalState::ACTIVE => "ACTIVE"@,
        ProposalState::QUEUED => "QUEUED"@,
        ProposalState::EXECUTED => "EXECUTED"@,
        ProposalState::CANCELED => "CANCELED"@,
    }
}

/// The proposal state that a name denotes.
pub open spec fn state_named(t: Seq<char>) -> Option<ProposalState> {
    if t == "PENDING"@ {
        Some(ProposalState::PENDING)
    } else if t == "ACTIVE"@ {
        Some(ProposalState::ACTIVE)
    } else if t == "QUEUED"@ {
        Some(ProposalState::QUEUED)
    } else if t == "EXECUTED"@ {
        Some(ProposalState::EXECUTED)
    } else if t == "CANCELED"@ {
        Some(ProposalState::CANCELED)
    } else {
        None
    }
}

/// Decoding of a proposal-state field: text that names a state.
pub open spec fn field_state(f: JsonField) -> Result<ProposalState, FieldError> {
    match f {
        JsonField::Text(s) => match state_named(s@) {
            Some(a) => Ok(a),
            None => Err(FieldError::UnknownName(s)),
        },
        _ => Err(FieldError::WrongType),
    }
}

/// The proposal state that `t` names, if any.
pub fn state_from_text(t: &str) -> (r: Option<ProposalState>)
    ensures
        r == state_named(t@),
{
    if text_eq(t, "PENDING") {
        Some(ProposalState::PENDING)
    } else if text_eq(t, "ACTIVE") {
        Some(ProposalState::ACTIVE)
    } else if text_eq(t, "QUEUED") {
        Some(ProposalState::QUEUED)
    } else if text_eq(t, "EXECUTED") {
        Some(ProposalState::EXECUTED)
    } else if text_eq(t, "CANCELED") {
        Some(ProposalState::CANCELED)
    } else {
        None
    }
}

/// Decodes a proposal-state field; unknown names are refused with the name kept.
pub fn state_from_field(f: &JsonField) -> (r: Result<ProposalState, FieldError>)
    ensures
        r == field_state(*f),
{
    match f {
        JsonField::Text(s) => match state_from_text(s.as_str()) {
            Some(a) => Ok(a),
            None => Err(FieldError::UnknownName(s.clone())),
        },
        _ => Err(FieldError::WrongType),
    }
}

/// The name under which a proposal state is written.
pub fn state_text(s: ProposalState) -> (r: &'static str)
    ensures
        r@ == state_name(s),
{
    match s {
        ProposalState::PENDING => "PENDING",
        ProposalState::ACTIVE => "ACTIVE",
        ProposalState::QUEUED => "QUEUED",
        ProposalState::EXECUTED => "EXECUTED",
        ProposalState::CANCELED => "CANCELED",
    }
}

/// Every proposal state reads back from the name it is written under, and a
/// name that reads as a state is that state's name.
pub proof fn lemma_state_names(s: ProposalState, t: Seq<char>)
    ensures
        state_named(state_name(s)) == Some(s),
        state_named(t) == Some(s) ==> t == state_name(s),
{
    reveal_strlit("PENDING");
    reveal_strlit("ACTIVE");
    reveal_strlit("QUEUED");
    reveal_strlit("EXECUTED");
    reveal_strlit("CANCELED");
    match s {
        ProposalState::PENDING => {},
        ProposalState::ACTIVE => {
            assert("ACTIVE"@.len() != "PENDING"@.len());
        },
        ProposalState::QUEUED => {
            assert("QUEUED"@.len() != "PENDING"@.len());
            assert("QUEUED"@[0] != "ACTIVE"@[0]);
        },
        ProposalState::EXECUTED => {
            assert("EXECUTED"@.len() != "PENDING"@.len());
            assert("EXECUTED"@.len() != "ACTIVE"@.len());
            assert("EXECUTED"@.len() != "QUEUED"@.len());
        },
        ProposalState::CANCELED => {
            assert("CANCELED"@.len() != "PENDING"@.len());
            assert("CANCELED"@.len() != "ACTIVE"@.len());
            assert("CANCELED"@.len() != "QUEUED"@.len());
            assert("CANCELED"@[0] != "EXECUTED"@[0]);
        },
    }
}

/// The subgraph name of each proposal state, both ways.
pub proof fn lemma_state_literals()
    ensures
        state_name(ProposalState::PENDING) == "PENDING"@,
        state_name(ProposalState::ACTIVE) == "ACTIVE"@,
        state_name(ProposalState::QUEUED) == "QUEUED"@,
        state_name(ProposalState::EXECUTED) == "EXECUTED"@,
        state_name(ProposalState::CANCELED) == "CANCELED"@,
        state_named("PENDING"@) == Some(ProposalState::PENDING),
        state_named("ACTIVE"@) == Some(ProposalState::ACTIVE),
        state_named("QUEUED"@) == Some(ProposalState::QUEUED),
        state_named("EXECUTED"@) == Some(ProposalState::EXECUTED),
        state_named("CANCELED"@) == Some(ProposalState::CANCELED),
{
    let t = Seq::<char>::empty();
    lemma_state_names(ProposalState::PENDING, t);
    lemma_state_names(ProposalState::ACTIVE, t);
    lemma_state_names(ProposalState::QUEUED, t);
    lemma_state_names(ProposalState::EXECUTED, t);
    lemma_state_names(ProposalState::CANCELED, t);
}

} // verus!
