//! Data model, decoding rules and report computations for querying DAO
//! governance data from the Boardroom API and from governance subgraphs.

pub mod text;
pub mod field;
pub mod boardroom;
pub mod graph;
pub mod dates;
pub mod url;
pub mod sums;
