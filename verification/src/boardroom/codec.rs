//! The names under which Boardroom writes adapters, proposal states and
//! proposal types, and the decoding of the fields that hold them.

use vstd::prelude::*;
use crate::boardroom::{Adapter, ProposalState, ProposalType};
use crate::field::{FieldError, JsonField};
use crate::text::text_eq;

verus! {

/// The name that Boardroom writes for an adapter.
pub open spec fn adapter_name(a: Adapter) -> Seq<char> {
    match a {
        Adapter::Onchain => "onchain"@,
        Adapter::OnchainUpgrade => "onchain-upgrade"@,
        Adapter::OnchainSecondary => "onchain-secondary"@,
        Adapter::OnchainTertiary => "onchain-tertiary"@,
        Adapter::OnchainOptimism => "onchain-optimism"@,
        Adapter::OnchainArbitrum => "onchain-arbitrum"@,
        Adapter::Snapshot => "snapshot"@,
        Adapter::Archive => "archive"@,
    }
}

/// The adapter that a name denotes; `archiveAlpha` is an older name of `Archive`.
pub open spec fn adapter_named(t: Seq<char>) -> Option<Adapter> {
    if t == "onchain"@ {
        Some(Adapter::Onchain)
    } else if t == "onchain-upgrade"@ {
        Some(Adapter::OnchainUpgrade)
    } else if t == "onchain-secondary"@ {
        Some(Adapter::OnchainSecondary)
    } else if t == "onchain-tertiary"@ {
        Some(Adapter::OnchainTertiary)
    } else if t == "onchain-optimism"@ {
        Some(Adapter::OnchainOptimism)
    } else if t == "onchain-arbitrum"@ {
        Some(Adapter::OnchainArbitrum)
    } else if t == "snapshot"@ {
        Some(Adapter::Snapshot)
    } else if t == "archive"@ || t == "archiveAlpha"@ {
        Some(Adapter::Archive)
    } else {
        None
    }
}

/// The name that Boardroom writes for a proposal state.
pub open spec fn state_name(s: ProposalState) -> Seq<char> {
    match s {
        ProposalState::PENDING => "pending"@,
        ProposalState::QUEUED => "queued"@,
        ProposalState::ACTIVE => "active"@,
        ProposalState::EXECUTED => "executed"@,
        ProposalState::CANCELED => "canceled"@,
        ProposalState::CLOSED => "closed"@,
    }
}

/// The proposal state that a name denotes.
pub open spec fn state_named(t: Seq<char>) -> Option<ProposalState> {
    if t == "pending"@ {
        Some(ProposalState::PENDING)
    } else if t == "queued"@ {
        Some(ProposalState::QUEUED)
    } else if t == "active"@ {
        Some(ProposalState::ACTIVE)
    } else if t == "executed"@ {
        Some(ProposalState::EXECUTED)
    } else if t == "canceled"@ {
        Some(ProposalState::CANCELED)
    } else if t == "closed"@ {
        Some(ProposalState::CLOSED)
    } else {
        None
    }
}

/// The name that Boardroom writes for a proposal type.
pub open spec fn kind_name(p: ProposalType) -> Seq<char> {
    match p {
        ProposalType::Basic => "basic"@,
        ProposalType::SingleChoice => "single-choice"@,
        ProposalType::RankedChoice => "ranked-choice"@,
        ProposalType::Approval => "approval"@,
        ProposalType::Weighted => "weighted"@,
        ProposalType::Quadratic => "quadratic"@,
    }
}

/// The proposal type that a name denotes; `approvalVoting` and
/// `optimisticApproval` are further names of `Approval`.
pub open spec fn kind_named(t: Seq<char>) -> Option<ProposalType> {
    if t == "basic"@ {
        Some(ProposalType::Basic)
    } else if t == "single-choice"@ {
        Some(ProposalType::SingleChoice)
    } else if t == "ranked-choice"@ {
        Some(ProposalType::RankedChoice)
    } else if t == "approvalVoting"@ || t == "approval"@ || t == "optimisticApproval"@ {
        Some(ProposalType::Approval)
    } else if t == "weighted"@ {
        Some(ProposalType::Weighted)
    } else if t == "quadratic"@ {
        Some(ProposalType::Quadratic)
    } else {
        None
    }
}

/// Decoding of an adapter field: text that names an adapter.
pub open spec fn field_adapter(f: JsonField) -> Result<Adapter, FieldError> {
    match f {
        JsonField::Text(s) => match adapter_named(s@) {
            Some(a) => Ok(a),
            None => Err(FieldError::UnknownName(s)),
        },
        _ => Err(FieldError::WrongType),
    }
}

/// Decoding of a proposal-state field: text that names a state.
pub open spec fn field_state(f: JsonField) -> Result<ProposalState, FieldError> {
    match f {
        JsonField::Text(s) => match state_named(s@) {
            Some(a) => Ok(a),
            None => Err(FieldError::UnknownName(s)),
        },
        _ => Err(FieldError::WrongType),
    }
}

/// Decoding of an optional proposal-type field.
pub open spec fn optional_type(t: Option<String>) -> Result<Option<ProposalType>, FieldError> {
    match t {
        None => Ok(None),
        Some(s) => match kind_named(s@) {
            Some(p) => Ok(Some(p)),
            None => Err(FieldError::UnknownName(s)),
        },
    }
}

/// The adapter that `t` names, if any.
pub fn adapter_from_text(t: &str) -> (r: Option<Adapter>)
    ensures
        r == adapter_named(t@),
{
    if text_eq(t, "onchain") {
        Some(Adapter::Onchain)
    } else if text_eq(t, "onchain-upgrade") {
        Some(Adapter::OnchainUpgrade)
    } else if text_eq(t, "onchain-secondary") {
        Some(Adapter::OnchainSecondary)
    } else if text_eq(t, "onchain-tertiary") {
        Some(Adapter::OnchainTertiary)
    } else if text_eq(t, "onchain-optimism") {
        Some(Adapter::OnchainOptimism)
    } else if text_eq(t, "onchain-arbitrum") {
        Some(Adapter::OnchainArbitrum)
    } else if text_eq(t, "snapshot") {
        Some(Adapter::Snapshot)
    } else if text_eq(t, "archive") || text_eq(t, "archiveAlpha") {
        Some(Adapter::Archive)
    } else {
        None
    }
}

/// The name under which an adapter is written.
pub fn adapter_text(a: Adapter) -> (r: &'static str)
    ensures
        r@ == adapter_name(a),
{
    match a {
        Adapter::Onchain => "onchain",
        Adapter::OnchainUpgrade => "onchain-upgrade",
        Adapter::OnchainSecondary => "onchain-secondary",
        Adapter::OnchainTertiary => "onchain-tertiary",
        Adapter::OnchainOptimism => "onchain-optimism",
        Adapter::OnchainArbitrum => "onchain-arbitrum",
        Adapter::Snapshot => "snapshot",
        Adapter::Archive => "archive",
    }
}

/// The proposal state that `t` names, if any.
pub fn state_from_text(t: &str) -> (r: Option<ProposalState>)
    ensures
        r == state_named(t@),
{
    if text_eq(t, "pending") {
        Some(ProposalState::PENDING)
    } else if text_eq(t, "queued") {
        Some(ProposalState::QUEUED)
    } else if text_eq(t, "active") {
        Some(ProposalState::ACTIVE)
    } else if text_eq(t, "executed") {
        Some(ProposalState::EXECUTED)
    } else if text_eq(t, "canceled") {
        Some(ProposalState::CANCELED)
    } else if text_eq(t, "closed") {
        Some(ProposalState::CLOSED)
    } else {
        None
    }
}

/// The name under which a proposal state is written.
pub fn state_text(s: ProposalState) -> (r: &'static str)
    ensures
        r@ == state_name(s),
{
    match s {
        ProposalState::PENDING => "pending",
        ProposalState::QUEUED => "queued",
        ProposalState::ACTIVE => "active",
        ProposalState::EXECUTED => "executed",
        ProposalState::CANCELED => "canceled",
        ProposalState::CLOSED => "closed",
    }
}

/// The proposal type that `t` names, if any.
pub fn type_from_text(t: &str) -> (r: Option<ProposalType>)
    ensures
        r == kind_named(t@),
{
    if text_eq(t, "basic") {
        Some(ProposalType::Basic)
    } else if text_eq(t, "single-choice") {
        Some(ProposalType::SingleChoice)
    } else if text_eq(t, "ranked-choice") {
        Some(ProposalType::RankedChoice)
    } else if text_eq(t, "approvalVoting") || text_eq(t, "approval") || text_eq(
        t,
        "optimisticApproval",
    ) {
        Some(ProposalType::Approval)
    } else if text_eq(t, "weighted") {
        Some(ProposalType::Weighted)
    } else if text_eq(t, "quadratic") {
        Some(ProposalType::Quadratic)
    } else {
        None
    }
}

/// The name under which a proposal type is written.
pub fn type_text(p: ProposalType) -> (r: &'static str)
    ensures
        r@ == kind_name(p),
{
    match p {
        ProposalType::Basic => "basic",
        ProposalType::SingleChoice => "single-choice",
        ProposalType::RankedChoice => "ranked-choice",
        ProposalType::Approval => "approval",
        ProposalType::Weighted => "weighted",
        ProposalType::Quadratic => "quadratic",
    }
}

/// Decodes an adapter field; unknown names are refused with the name kept.
pub fn adapter_from_field(f: &JsonField) -> (r: Result<Adapter, FieldError>)
    ensures
        r == field_adapter(*f),
{
    match f {
        JsonField::Text(s) => match adapter_from_text(s.as_str()) {
            Some(a) => Ok(a),
            None => Err(FieldError::UnknownName(s.clone())),
        },
        _ => Err(FieldError::WrongType),
    }
}

/// Decodes a proposal-state field; unknown names are refused with the name kept.
pub fn state_from_field(f: &JsonField) -> (r: Result<ProposalState, FieldError>)
    ensures
        r == field_state(*f),
{
    match f {
        JsonField::Text(s) => match state_from_text(s.as_str()) {
            Some(a) => Ok(a),
            None => Err(FieldError::UnknownName(s.clone())),
        },
        _ => Err(FieldError::WrongType),
    }
}

/// Decodes an optional proposal-type field; absent stays absent, unknown
/// names are refused with the name kept.
pub fn type_from_optional_text(t: &Option<String>) -> (r: Result<Option<ProposalType>, FieldError>)
    ensures
        r == optional_type(*t),
{
    match t {
        None => Ok(None),
        Some(s) => match type_from_text(s.as_str()) {
            Some(p) => Ok(Some(p)),
            None => Err(FieldError::UnknownName(s.clone())),
        },
    }
}

/// The written name of `p` when there is one (`None` stays `None`).
pub fn optional_type_text(p: Option<ProposalType>) -> (r: Option<&'static str>)
    ensures
        (match p {
            Some(q) => r is Some && r->0@ == kind_name(q),
            None => r is None,
        }),
{
    match p {
        Some(q) => Some(type_text(q)),
        None => None,
    }
}

/// Every adapter reads back from the name it is written under, and a name
/// that reads as an adapter is that adapter's name or `archiveAlpha`.
pub proof fn lemma_adapter_names(a: Adapter, t: Seq<char>)
    ensures
        adapter_named(adapter_name(a)) == Some(a),
        adapter_named(t) == Some(a) ==> (t == adapter_name(a) || (a == Adapter::Archive && t
            == "archiveAlpha"@)),
{
    reveal_strlit("onchain");
    reveal_strlit("onchain-upgrade");
    reveal_strlit("onchain-secondary");
    reveal_strlit("onchain-tertiary");
    reveal_strlit("onchain-optimism");
    reveal_strlit("onchain-arbitrum");
    reveal_strlit("snapshot");
    reveal_strlit("archive");
    reveal_strlit("archiveAlpha");
    match a {
        Adapter::Onchain => {},
        Adapter::OnchainUpgrade => {
            assert("onchain-upgrade"@.len() != "onchain"@.len());
        },
        Adapter::OnchainSecondary => {
            assert("onchain-secondary"@.len() != "onchain"@.len());
            assert("onchain-secondary"@.len() != "onchain-upgrade"@.len());
        },
        Adapter::OnchainTertiary => {
            assert("onchain-tertiary"@.len() != "onchain"@.len());
            assert("onchain-tertiary"@.len() != "onchain-upgrade"@.len());
            assert("onchain-tertiary"@.len() != "onchain-secondary"@.len());
        },
        Adapter::OnchainOptimism => {
            assert("onchain-optimism"@.len() != "onchain"@.len());
            assert("onchain-optimism"@.len() != "onchain-upgrade"@.len());
            assert("onchain-optimism"@.len() != "onchain-secondary"@.len());
            assert("onchain-optimism"@[8] != "onchain-tertiary"@[8]);
        },
        Adapter::OnchainArbitrum => {
            assert("onchain-arbitrum"@.len() != "onchain"@.len());
            assert("onchain-arbitrum"@.len() != "onchain-upgrade"@.len());
            assert("onchain-arbitrum"@.len() != "onchain-secondary"@.len());
            assert("onchain-arbitrum"@[8] != "onchain-tertiary"@[8]);
            assert("onchain-arbitrum"@[8] != "onchain-optimism"@[8]);
        },
        Adapter::Snapshot => {
            assert("snapshot"@.len() != "onchain"@.len());
            assert("snapshot"@.len() != "onchain-upgrade"@.len());
            assert("snapshot"@.len() != "onchain-secondary"@.len());
            assert("snapshot"@.len() != "onchain-tertiary"@.len());
            assert("snapshot"@.len() != "onchain-optimism"@.len());
            assert("snapshot"@.len() != "onchain-arbitrum"@.len());
        },
        Adapter::Archive => {
            assert("archive"@[0] != "onchain"@[0]);
            assert("archive"@.len() != "onchain-upgrade"@.len());
            assert("archive"@.len() != "onchain-secondary"@.len());
            assert("archive"@.len() != "onchain-tertiary"@.len());
            assert("archive"@.len() != "onchain-optimism"@.len());
            assert("archive"@.len() != "onchain-arbitrum"@.len());
            assert("archive"@.len() != "snapshot"@.len());
        },
    }
}

/// Every proposal state reads back from the name it is written under, and a
/// name that reads as a state is that state's name.
pub proof fn lemma_state_names(s: ProposalState, t: Seq<char>)
    ensures
        state_named(state_name(s)) == Some(s),
        state_named(t) == Some(s) ==> t == state_name(s),
{
    reveal_strlit("pending");
    reveal_strlit("queued");
    reveal_strlit("active");
    reveal_strlit("executed");
    reveal_strlit("canceled");
    reveal_strlit("closed");
    match s {
        ProposalState::PENDING => {},
        ProposalState::QUEUED => {
            assert("queued"@.len() != "pending"@.len());
        },
        ProposalState::ACTIVE => {
            assert("active"@.len() != "pending"@.len());
            assert("active"@[0] != "queued"@[0]);
        },
        ProposalState::EXECUTED => {
            assert("executed"@.len() != "pending"@.len());
            assert("executed"@.len() != "queued"@.len());
            assert("executed"@.len() != "active"@.len());
        },
        ProposalState::CANCELED => {
            assert("canceled"@.len() != "pending"@.len());
            assert("canceled"@.len() != "queued"@.len());
            assert("canceled"@.len() != "active"@.len());
            assert("canceled"@[0] != "executed"@[0]);
        },
        ProposalState::CLOSED => {
            assert("closed"@.len() != "pending"@.len());
            assert("closed"@[0] != "queued"@[0]);
            assert("closed"@[0] != "active"@[0]);
            assert("closed"@.len() != "executed"@.len());
            assert("closed"@.len() != "canceled"@.len());
        },
    }
}

/// Every proposal type reads back from the name it is written under, and a
/// name that reads as a type is that type's name or one of the further names
/// of `Approval`.
pub proof fn lemma_kind_names(p: ProposalType, t: Seq<char>)
    ensures
        kind_named(kind_name(p)) == Some(p),
        kind_named(t) == Some(p) ==> (t == kind_name(p) || (p == ProposalType::Approval && (t
            == "approvalVoting"@ || t == "optimisticApproval"@))),
{
    reveal_strlit("basic");
    reveal_strlit("single-choice");
    reveal_strlit("ranked-choice");
    reveal_strlit("approvalVoting");
    reveal_strlit("approval");
    reveal_strlit("optimisticApproval");
    reveal_strlit("weighted");
    reveal_strlit("quadratic");
    match p {
        ProposalType::Basic => {},
        ProposalType::SingleChoice => {
            assert("single-choice"@.len() != "basic"@.len());
        },
        ProposalType::RankedChoice => {
            assert("ranked-choice"@.len() != "basic"@.len());
            assert("ranked-choice"@[0] != "single-choice"@[0]);
        },
        ProposalType::Approval => {
            assert("approval"@.len() != "basic"@.len());
            assert("approval"@.len() != "single-choice"@.len());
            assert("approval"@.len() != "ranked-choice"@.len());
            assert("approval"@.len() != "approvalVoting"@.len());
        },
        ProposalType::Weighted => {
            assert("weighted"@.len() != "basic"@.len());
            assert("weighted"@.len() != "single-choice"@.len());
            assert("weighted"@.len() != "ranked-choice"@.len());
            assert("weighted"@.len() != "approvalVoting"@.len());
            assert("weighted"@[0] != "approval"@[0]);
            assert("weighted"@.len() != "optimisticApproval"@.len());
        },
        ProposalType::Quadratic => {
            assert("quadratic"@.len() != "basic"@.len());
            assert("quadratic"@.len() != "single-choice"@.len());
            assert("quadratic"@.len() != "ranked-choice"@.len());
            assert("quadratic"@.len() != "approvalVoting"@.len());
            assert("quadratic"@.len() != "approval"@.len());
            assert("quadratic"@.len() != "optimisticApproval"@.len());
            assert("quadratic"@.len() != "weighted"@.len());
        },
    }
}

/// The Boardroom name of each adapter, both ways: each adapter is written
/// under its own name, and each name, `archiveAlpha` among them, reads as its
/// own adapter.
pub proof fn lemma_adapter_literals()
    ensures
        adapter_name(Adapter::Onchain) == "onchain"@,
        adapter_name(Adapter::OnchainUpgrade) == "onchain-upgrade"@,
        adapter_name(Adapter::OnchainSecondary) == "onchain-secondary"@,
        adapter_name(Adapter::OnchainTertiary) == "onchain-tertiary"@,
        adapter_name(Adapter::OnchainOptimism) == "onchain-optimism"@,
        adapter_name(Adapter::OnchainArbitrum) == "onchain-arbitrum"@,
        adapter_name(Adapter::Snapshot) == "snapshot"@,
        adapter_name(Adapter::Archive) == "archive"@,
        adapter_named("onchain"@) == Some(Adapter::Onchain),
        adapter_named("onchain-upgrade"@) == Some(Adapter::OnchainUpgrade),
        adapter_named("onchain-secondary"@) == Some(Adapter::OnchainSecondary),
        adapter_named("onchain-tertiary"@) == Some(Adapter::OnchainTertiary),
        adapter_named("onchain-optimism"@) == Some(Adapter::OnchainOptimism),
        adapter_named("onchain-arbitrum"@) == Some(Adapter::OnchainArbitrum),
        adapter_named("snapshot"@) == Some(Adapter::Snapshot),
        adapter_named("archive"@) == Some(Adapter::Archive),
        adapter_named("archiveAlpha"@) == Some(Adapter::Archive),
{
    let t = Seq::<char>::empty();
    lemma_adapter_names(Adapter::Onchain, t);
    lemma_adapter_names(Adapter::OnchainUpgrade, t);
    lemma_adapter_names(Adapter::OnchainSecondary, t);
    lemma_adapter_names(Adapter::OnchainTertiary, t);
    lemma_adapter_names(Adapter::OnchainOptimism, t);
    lemma_adapter_names(Adapter::OnchainArbitrum, t);
    lemma_adapter_names(Adapter::Snapshot, t);
    lemma_adapter_names(Adapter::Archive, t);
    reveal_strlit("onchain");
    reveal_strlit("onchain-upgrade");
    reveal_strlit("onchain-secondary");
    reveal_strlit("onchain-tertiary");
    reveal_strlit("onchain-optimism");
    reveal_strlit("onchain-arbitrum");
    reveal_strlit("snapshot");
    reveal_strlit("archive");
    reveal_strlit("archiveAlpha");
    assert("archiveAlpha"@.len() == 12);
    assert("onchain"@.len() == 7);
    assert("onchain-upgrade"@.len() == 15);
    assert("onchain-secondary"@.len() == 17);
    assert("onchain-tertiary"@.len() == 16);
    assert("onchain-optimism"@.len() == 16);
    assert("onchain-arbitrum"@.len() == 16);
    assert("snapshot"@.len() == 8);
    assert("archive"@.len() == 7);
}

/// The Boardroom name of each proposal state, both ways.
pub proof fn lemma_state_literals()
    ensures
        state_name(ProposalState::PENDING) == "pending"@,
        state_name(ProposalState::QUEUED) == "queued"@,
        state_name(ProposalState::ACTIVE) == "active"@,
        state_name(ProposalState::EXECUTED) == "executed"@,
        state_name(ProposalState::CANCELED) == "canceled"@,
        state_name(ProposalState::CLOSED) == "closed"@,
        state_named("pending"@) == Some(ProposalState::PENDING),
        state_named("queued"@) == Some(ProposalState::QUEUED),
        state_named("active"@) == Some(ProposalState::ACTIVE),
        state_named("executed"@) == Some(ProposalState::EXECUTED),
        state_named("canceled"@) == Some(ProposalState::CANCELED),
        state_named("closed"@) == Some(ProposalState::CLOSED),
{
    let t = Seq::<char>::empty();
    lemma_state_names(ProposalState::PENDING, t);
    lemma_state_names(ProposalState::QUEUED, t);
    lemma_state_names(ProposalState::ACTIVE, t);
    lemma_state_names(ProposalState::EXECUTED, t);
    lemma_state_names(ProposalState::CANCELED, t);
    lemma_state_names(ProposalState::CLOSED, t);
}

/// The Boardroom name of each proposal type, both ways: each type is written
/// under its own name, and each name, `approvalVoting` and
/// `optimisticApproval` among them, reads as its own type.
pub proof fn lemma_kind_literals()
    ensures
        kind_name(ProposalType::Basic) == "basic"@,
        kind_name(ProposalType::SingleChoice) == "single-choice"@,
        kind_name(ProposalType::RankedChoice) == "ranked-choice"@,
        kind_name(ProposalType::Approval) == "approval"@,
        kind_name(ProposalType::Weighted) == "weighted"@,
        kind_name(ProposalType::Quadratic) == "quadratic"@,
        kind_named("basic"@) == Some(ProposalType::Basic),
        kind_named("single-choice"@) == Some(ProposalType::SingleChoice),
        kind_named("ranked-choice"@) == Some(ProposalType::RankedChoice),
        kind_named("approval"@) == Some(ProposalType::Approval),
        kind_named("approvalVoting"@) == Some(ProposalType::Approval),
        kind_named("optimisticApproval"@) == Some(ProposalType::Approval),
        kind_named("weighted"@) == Some(ProposalType::Weighted),
        kind_named("quadratic"@) == Some(ProposalType::Quadratic),
{
    let t = Seq::<char>::empty();
    lemma_kind_names(ProposalType::Basic, t);
    lemma_kind_names(ProposalType::SingleChoice, t);
    lemma_kind_names(ProposalType::RankedChoice, t);
    lemma_kind_names(ProposalType::Approval, t);
    lemma_kind_names(ProposalType::Weighted, t);
    lemma_kind_names(ProposalType::Quadratic, t);
    reveal_strlit("basic");
    reveal_strlit("single-choice");
    reveal_strlit("ranked-choice");
    reveal_strlit("approvalVoting");
    reveal_strlit("optimisticApproval");
    assert("basic"@.len() == 5);
    assert("single-choice"@.len() == 13);
    assert("ranked-choice"@.len() == 13);
    assert("approvalVoting"@.len() == 14);
    assert("optimisticApproval"@.len() == 18);
}

} // verus!
