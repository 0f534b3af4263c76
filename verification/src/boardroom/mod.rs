//! The Boardroom governance API: its data model, the decoding of its
//! enumerated fields, request building, and the per-DAO report.

pub mod codec;
pub mod report;
pub mod requests;

use vstd::prelude::*;

verus! {

/// Where the list of DAOs and their Boardroom names is kept.
pub const CNAMES: &'static str = "data/cnames.csv";
/// The endpoint that lists all protocols; `{api-key}` stands for the key.
pub const CNAMES_URL: &'static str = "https://api.boardroom.info/v1/protocols?limit=10000&key={api-key}";
/// The endpoint that lists the proposals of one protocol; `{cname}` stands for
/// its Boardroom name and `{api-key}` for the key.
pub const PROPOSAL_URL: &'static str =
    "https://api.boardroom.info/v1/protocols/{cname}/proposals?limit=10000&key={api-key}";
/// Where the fetched responses are kept, one file per DAO.
pub const RESP_DIR: &'static str = "data/responses";
/// Where the raw protocol list is kept.
pub const RAW_PROTOCOLS: &'static str = "data/responses/protocols";

/// One row of the DAO list: the DAO's display name and its Boardroom name.
#[derive(Clone, Debug)]
pub struct CNAMECSVRow {
    pub dao: String,
    pub cname: String,
}

/// An icon of a protocol.
#[derive(Clone, Debug)]
pub struct Icon {
    pub adapter: String,
    pub size: String,
    pub url: String,
}

/// Where a proposal was voted on.
#[derive(Clone, Copy, Debug, PartialEq, Eq, Structural)]
pub enum Adapter {
    Onchain,
    OnchainUpgrade,
    OnchainSecondary,
    OnchainTertiary,
    OnchainOptimism,
    OnchainArbitrum,
    Snapshot,
    Archive,
}

/// The state of a proposal.
#[allow(non_camel_case_types)]
#[derive(Clone, Copy, Debug, PartialEq, Eq, Structural)]
pub enum ProposalState {
    PENDING,
    QUEUED,
    ACTIVE,
    EXECUTED,
    CANCELED,
    CLOSED,
}

/// The voting system of a proposal.
#[derive(Clone, Copy, Debug, PartialEq, Eq, Structural)]
pub enum ProposalType {
    Basic,
    SingleChoice,
    RankedChoice,
    Approval,
    Weighted,
    Quadratic,
}

/// A point in time, when known.
#[derive(Clone, Copy, Debug, PartialEq, Eq, Structural)]
pub struct TimeObject {
    pub timestamp: Option<u32>,
}

/// A block, when known.
#[derive(Clone, Copy, Debug, PartialEq, Eq, Structural)]
pub struct BlockObject {
    pub block_number: Option<u32>,
}

/// A state change in the life of a proposal.
#[derive(Clone, Debug)]
pub struct Event {
    pub time: BlockObject,
    pub event: ProposalState,
    pub timestamp: u32,
    pub tx_hash: String,
}

/// A proposal as the report reads it: every field that Boardroom sends
/// except the per-choice result totals, which are fractional numbers.
#[derive(Clone, Debug)]
pub struct ProposalObject {
    pub ref_id: String,
    pub id: String,
    pub title: String,
    pub content: String,
    pub protocol: String,
    pub adapter: Adapter,
    pub proposer: String,
    pub total_votes: u128,
    pub block_number: u128,
    pub external_url: Option<String>,
    pub start_time: TimeObject,
    pub end_time: TimeObject,
    pub start_timestamp: u32,
    pub end_timestamp: u32,
    pub current_state: ProposalState,
    pub choices: Vec<String>,
    pub events: Vec<Event>,
    pub proposal_type: Option<ProposalType>,
    pub summary: Option<String>,
    pub privacy: Option<String>,
    pub indexed_at: u128,
    pub tx_hash: String,
    pub quorum: u128,
    pub flagged: Option<String>,
    pub execution_args: String,
    pub executables: String,
    pub chain_id: Option<u32>,
}

/// One page of proposals of a DAO, with the cursor of the next page if any.
#[derive(Clone, Debug)]
pub struct ProposalResponse {
    pub data: Option<Vec<ProposalObject>>,
    pub next_cursor: Option<String>,
}

} // verus!
