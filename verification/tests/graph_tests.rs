use dao_querying::field::{u128_from_text_field, u32_from_text_field, FieldError, JsonField};
use dao_querying::graph::codec::{state_from_field, state_text};
use dao_querying::graph::report::{
    activity_row, checked_activity_row, checked_outcome_row, outcome_row,
};
use dao_querying::graph::requests::{
    checked_query_template, query_template, request_body, response_path, subgraph_url,
};
use dao_querying::graph::{
    Data, GovernanceData, GraphResponse, ProposalData, ProposalQueryResponse, ProposalState,
};
use dao_querying::text::NumberError;

fn proposal(state: ProposalState, created: u32, delegates: u128) -> ProposalData {
    ProposalData {
        id: "1".to_string(),
        state,
        creation_time: created,
        abstain_delegate_votes: 0,
        abstain_weighted_votes: 0,
        against_delegate_votes: 4,
        against_weighted_votes: 4_000_000_000_000_000_000,
        for_delegate_votes: 10,
        for_weighted_votes: 30_000_000_000_000_000_000,
        total_delegate_votes: 14,
        total_weighted_votes: 34_000_000_000_000_000_000,
        quorum_votes: 1,
        delegates_at_start: delegates,
        token_holders_at_start: 100,
    }
}

fn response(proposals: Vec<ProposalData>, count: u32) -> ProposalQueryResponse {
    ProposalQueryResponse {
        governances: vec![GovernanceData {
            proposals: count,
            total_token_supply: 1,
            delegated_votes_raw: 1,
        }],
        proposals,
    }
}

#[test]
fn graph_states_read_back() {
    for s in [
        ProposalState::PENDING,
        ProposalState::ACTIVE,
        ProposalState::QUEUED,
        ProposalState::EXECUTED,
        ProposalState::CANCELED,
    ] {
        assert_eq!(state_from_field(&JsonField::Text(state_text(s).to_string())), Ok(s));
    }
    assert_eq!(
        state_from_field(&JsonField::Text("executed".to_string())),
        Err(FieldError::UnknownName("executed".to_string()))
    );
    assert_eq!(
        state_from_field(&JsonField::Number { unsigned: Some(1), signed: Some(1) }),
        Err(FieldError::WrongType)
    );
}

#[test]
fn graph_numbers_must_be_text() {
    assert_eq!(u32_from_text_field(&JsonField::Text("12".to_string())), Ok(12));
    assert_eq!(
        u32_from_text_field(&JsonField::Number { unsigned: Some(12), signed: Some(12) }),
        Err(FieldError::WrongType)
    );
    assert_eq!(
        u128_from_text_field(&JsonField::Text("340282366920938463463374607431768211455".to_string())),
        Ok(u128::MAX)
    );
    assert_eq!(
        u128_from_text_field(&JsonField::Text("".to_string())),
        Err(FieldError::BadNumber(NumberError::Empty))
    );
}

#[test]
fn activity_table_row() {
    let r = response(
        vec![
            proposal(ProposalState::EXECUTED, 1_600_000_000, 10),
            proposal(ProposalState::CANCELED, 1_500_000_000, 7),
            proposal(ProposalState::EXECUTED, 1_700_000_000, 3),
        ],
        2,
    );
    let row = activity_row(&r);
    assert_eq!(row.proposals, 2);
    assert_eq!((row.pending, row.active, row.queued, row.executed, row.canceled), (0, 0, 0, 2, 1));
    assert_eq!(row.oldest, "2017-07-14");
    assert_eq!(row.newest, "2023-11-14");
    // 10/2 + 7/2 + 3/2 = 5 + 3 + 1
    assert_eq!(row.avg_delegates, 9);
}

#[test]
fn activity_table_has_no_row_without_data() {
    let no_proposals = response(vec![], 3);
    assert!(checked_activity_row(&no_proposals).is_none());
    let zero_count = response(vec![proposal(ProposalState::ACTIVE, 0, 1)], 0);
    assert!(checked_activity_row(&zero_count).is_none());
    let no_governance = ProposalQueryResponse {
        governances: vec![],
        proposals: vec![proposal(ProposalState::ACTIVE, 0, 1)],
    };
    assert!(checked_activity_row(&no_governance).is_none());
    let overflowing = response(
        vec![proposal(ProposalState::ACTIVE, 0, u128::MAX), proposal(ProposalState::ACTIVE, 0, u128::MAX)],
        1,
    );
    assert!(checked_activity_row(&overflowing).is_none());
}

#[test]
fn outcome_table_row() {
    let r = response(
        vec![
            proposal(ProposalState::EXECUTED, 0, 0),
            proposal(ProposalState::QUEUED, 0, 0),
            proposal(ProposalState::CANCELED, 0, 0),
            proposal(ProposalState::ACTIVE, 0, 0),
        ],
        4,
    );
    let row = outcome_row(&r);
    assert_eq!(row.finished, 3);
    // (30 + 30 + 4) tokens over 3 decided proposals
    assert_eq!(row.avg_winning_power, 21);
    assert_eq!(row.avg_winning_voters, 8);
    let undecided = response(vec![proposal(ProposalState::PENDING, 0, 0)], 1);
    assert!(checked_outcome_row(&undecided).is_none());
}

#[test]
fn query_files_split_at_blank_lines() {
    let t = query_template("https://x/{subgraph-id}\n\nquery {\n  a\n}\n\ntrailing");
    assert_eq!(t.url, "https://x/{subgraph-id}");
    assert_eq!(t.query, "query {\n  a\n}");
    let t = query_template("u\n\nq");
    assert_eq!(t.query, "q");
    let t = query_template("u\n\n\n\nq");
    assert_eq!(t.query, "");
    assert!(checked_query_template("no blank line\nhere").is_none());
    let content = "a\n\nb\n\nc\n\nd";
    let parts: Vec<&str> = content.split("\n\n").collect();
    let t = query_template(content);
    assert_eq!((t.url.as_str(), t.query.as_str()), (parts[0], parts[1]));
}

#[test]
fn graph_request_parts() {
    assert_eq!(subgraph_url("https://g/{subgraph-id}/x", "ID"), "https://g/ID/x");
    let body = request_body("query {\n a\n}\n");
    assert_eq!(
        body,
        "{\"query\": \"query { a}\", \"operationName\": \"Subgraphs\", \"variables\": {}}"
    );
    assert!(!body.contains('\n'));
    assert_eq!(response_path("Compound", "q.graphql"), "data/responses/Compound_q.graphql");
}

#[test]
fn graph_response_holds_query_data() {
    let g = GraphResponse { data: Data::Query(response(vec![], 0)) };
    match g.data {
        Data::Query(q) => assert_eq!(q.governances.len(), 1),
    }
}

#[test]
fn outcome_ignores_pending_and_active_proposals() {
    let base = vec![
        proposal(ProposalState::EXECUTED, 0, 0),
        proposal(ProposalState::CANCELED, 0, 0),
    ];
    let mut more = base.clone();
    more.insert(1, proposal(ProposalState::PENDING, 5, 9));
    more.push(proposal(ProposalState::ACTIVE, 6, 9));
    assert_eq!(outcome_row(&response(base, 2)), outcome_row(&response(more, 4)));
}
