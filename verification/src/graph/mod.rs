//! Governance subgraphs: their data model, the decoding of their fields,
//! request building, and the two per-DAO tables.

pub mod codec;
pub mod report;
pub mod requests;

use vstd::prelude::*;

verus! {

/// Where the query files are kept.
pub const QUERY_DIR: &'static str = "queries";
/// Where the fetched responses are kept.
pub const RESP_DIR: &'static str = "data/responses";
/// Where the list of DAOs and their subgraph ids is kept.
pub const SUBGRAPH_IDS: &'static str = "data/subgraph_ids.csv";

/// One row of the subgraph list: a DAO's name and the id of its subgraph.
#[derive(Clone, Debug)]
pub struct SubgraphCSVRow {
    pub name: String,
    pub subgraph_id: String,
}

/// The state of a proposal as the subgraphs report it.
#[allow(non_camel_case_types)]
#[derive(Clone, Copy, Debug, PartialEq, Eq, Structural)]
pub enum ProposalState {
    PENDING,
    ACTIVE,
    QUEUED,
    EXECUTED,
    CANCELED,
}

/// One proposal with its vote figures.
#[derive(Clone, Debug)]
pub struct ProposalData {
    pub id: String,
    pub state: ProposalState,
    pub creation_time: u32,
    pub abstain_delegate_votes: u128,
    pub abstain_weighted_votes: u128,
    pub against_delegate_votes: u128,
    pub against_weighted_votes: u128,
    pub for_delegate_votes: u128,
    pub for_weighted_votes: u128,
    pub total_delegate_votes: u128,
    pub total_weighted_votes: u128,
    pub quorum_votes: u128,
    pub delegates_at_start: u128,
    pub token_holders_at_start: u128,
}

/// The figures of a governance contract.
#[derive(Clone, Copy, Debug, PartialEq, Eq, Structural)]
pub struct GovernanceData {
    pub proposals: u32,
    pub total_token_supply: u128,
    pub delegated_votes_raw: u128,
}

/// The answer to the proposal query.
#[derive(Clone, Debug)]
pub struct ProposalQueryResponse {
    pub governances: Vec<GovernanceData>,
    pub proposals: Vec<ProposalData>,
}

/// The data part of a subgraph response.
#[derive(Clone, Debug)]
pub enum Data {
    Query(ProposalQueryResponse),
}

/// A subgraph response.
#[derive(Clone, Debug)]
pub struct GraphResponse {
    pub data: Data,
}

} // verus!
