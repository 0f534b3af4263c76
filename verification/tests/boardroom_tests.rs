use dao_querying::boardroom::codec::{
    adapter_from_field, adapter_from_text, adapter_text, optional_type_text, state_from_field,
    state_text, type_from_optional_text, type_text,
};
use dao_querying::boardroom::report::{
    breakdown, count_cell, report_blocks, dao_cells, is_reported, quorum_row, checked_quorum_row,
    reported_positions, tally_proposals,
};
use dao_querying::boardroom::requests::{
    cname_csv, page_url, proposal_url, response_path, PageCollector,
};
use dao_querying::boardroom::{
    Adapter, BlockObject, CNAMECSVRow, Event, ProposalObject, ProposalResponse, ProposalState,
    ProposalType, TimeObject,
};
use dao_querying::dates::day_cell;
use dao_querying::field::{i32_from_field, u32_from_field, FieldError, JsonField};
use dao_querying::text::NumberError;
use dao_querying::url::with_api_key;

fn proposal(adapter: Adapter, state: ProposalState, votes: u128, start: u32) -> ProposalObject {
    ProposalObject {
        ref_id: "r".to_string(),
        id: "i".to_string(),
        title: "t".to_string(),
        content: String::new(),
        protocol: "p".to_string(),
        adapter,
        proposer: "0x0".to_string(),
        total_votes: votes,
        block_number: 1,
        external_url: None,
        start_time: TimeObject { timestamp: Some(start) },
        end_time: TimeObject { timestamp: None },
        start_timestamp: start,
        end_timestamp: start + 10,
        current_state: state,
        choices: vec!["yes".to_string(), "no".to_string()],
        events: vec![Event {
            time: BlockObject { block_number: Some(1) },
            event: state,
            timestamp: start,
            tx_hash: "0x1".to_string(),
        }],
        proposal_type: Some(ProposalType::Basic),
        summary: None,
        privacy: None,
        indexed_at: 0,
        tx_hash: "0x1".to_string(),
        quorum: votes / 2,
        flagged: None,
        execution_args: String::new(),
        executables: String::new(),
        chain_id: Some(1),
    }
}

fn text(s: &str) -> JsonField {
    JsonField::Text(s.to_string())
}

const ADAPTERS: [Adapter; 8] = [
    Adapter::Onchain,
    Adapter::OnchainUpgrade,
    Adapter::OnchainSecondary,
    Adapter::OnchainTertiary,
    Adapter::OnchainOptimism,
    Adapter::OnchainArbitrum,
    Adapter::Snapshot,
    Adapter::Archive,
];

#[test]
fn adapters_read_back_from_their_names() {
    for a in ADAPTERS {
        assert_eq!(adapter_from_text(adapter_text(a)), Some(a));
        assert_eq!(adapter_from_field(&text(adapter_text(a))), Ok(a));
    }
    assert_eq!(adapter_from_text("archiveAlpha"), Some(Adapter::Archive));
    assert_eq!(adapter_text(Adapter::OnchainUpgrade), "onchain-upgrade");
}

#[test]
fn adapter_field_errors() {
    assert_eq!(
        adapter_from_field(&text("offchain")),
        Err(FieldError::UnknownName("offchain".to_string()))
    );
    assert_eq!(adapter_from_field(&JsonField::Null), Err(FieldError::WrongType));
    assert_eq!(
        adapter_from_field(&JsonField::Number { unsigned: Some(1), signed: Some(1) }),
        Err(FieldError::WrongType)
    );
}

#[test]
fn states_read_back_from_their_names() {
    let all = [
        ProposalState::PENDING,
        ProposalState::QUEUED,
        ProposalState::ACTIVE,
        ProposalState::EXECUTED,
        ProposalState::CANCELED,
        ProposalState::CLOSED,
    ];
    for s in all {
        assert_eq!(state_from_field(&text(state_text(s))), Ok(s));
    }
    assert_eq!(state_text(ProposalState::CANCELED), "canceled");
    assert_eq!(
        state_from_field(&text("PENDING")),
        Err(FieldError::UnknownName("PENDING".to_string()))
    );
    assert_eq!(state_from_field(&JsonField::Other), Err(FieldError::WrongType));
}

#[test]
fn proposal_types_read_back_and_aliases() {
    let all = [
        ProposalType::Basic,
        ProposalType::SingleChoice,
        ProposalType::RankedChoice,
        ProposalType::Approval,
        ProposalType::Weighted,
        ProposalType::Quadratic,
    ];
    for p in all {
        assert_eq!(type_from_optional_text(&Some(type_text(p).to_string())), Ok(Some(p)));
    }
    for alias in ["approvalVoting", "approval", "optimisticApproval"] {
        assert_eq!(
            type_from_optional_text(&Some(alias.to_string())),
            Ok(Some(ProposalType::Approval))
        );
    }
    assert_eq!(type_from_optional_text(&None), Ok(None));
    assert_eq!(
        type_from_optional_text(&Some("ranked".to_string())),
        Err(FieldError::UnknownName("ranked".to_string()))
    );
    assert_eq!(optional_type_text(Some(ProposalType::SingleChoice)), Some("single-choice"));
    assert_eq!(optional_type_text(None), None);
}

#[test]
fn numeric_fields() {
    assert_eq!(u32_from_field(&text("1650000000")), Ok(1_650_000_000));
    assert_eq!(
        u32_from_field(&JsonField::Number { unsigned: Some(17), signed: Some(17) }),
        Ok(17)
    );
    assert_eq!(
        u32_from_field(&JsonField::Number { unsigned: Some((1u64 << 32) + 5), signed: None }),
        Ok(5)
    );
    assert_eq!(u32_from_field(&text("x1")), Err(FieldError::BadNumber(NumberError::InvalidDigit)));
    assert_eq!(u32_from_field(&JsonField::Null), Err(FieldError::WrongType));
    assert_eq!(i32_from_field(&text("-3")), Ok(-3));
    assert_eq!(
        i32_from_field(&JsonField::Number { unsigned: None, signed: Some(-1 - (1i64 << 32)) }),
        Ok(-1)
    );
    assert_eq!(i32_from_field(&JsonField::Other), Err(FieldError::WrongType));
}

#[test]
fn reported_daos_have_five_proposals() {
    let p = proposal(Adapter::Snapshot, ProposalState::CLOSED, 3, 0);
    let four = ProposalResponse { data: Some(vec![p.clone(); 4]), next_cursor: None };
    let five = ProposalResponse { data: Some(vec![p.clone(); 5]), next_cursor: None };
    let none = ProposalResponse { data: None, next_cursor: None };
    assert!(!is_reported(&four));
    assert!(is_reported(&five));
    assert!(!is_reported(&none));
    assert_eq!(reported_positions(&vec![four, five.clone(), none, five]), vec![1, 3]);
}

#[test]
fn tally_of_mixed_proposals() {
    let data = vec![
        proposal(Adapter::Onchain, ProposalState::EXECUTED, 100, 1_600_000_000),
        proposal(Adapter::OnchainUpgrade, ProposalState::CANCELED, 50, 1_500_000_000),
        proposal(Adapter::Snapshot, ProposalState::CLOSED, 7, 1_700_000_000),
        proposal(Adapter::Snapshot, ProposalState::CLOSED, 3, 1_650_000_000),
        proposal(Adapter::Archive, ProposalState::PENDING, 1000, 1_400_000_000),
    ];
    let t = tally_proposals(&data);
    assert_eq!(t.proposals, 5);
    assert_eq!((t.pending, t.active, t.queued, t.executed, t.canceled, t.closed), (1, 0, 0, 1, 1, 2));
    // the plain on-chain proposal counts twice, the upgrade one once
    assert_eq!(t.onchain_entries, 3);
    assert_eq!(t.onchain_upgrade, 1);
    assert_eq!(t.snapshot, 2);
    assert_eq!(t.onchain_votes.low, 150);
    assert_eq!(t.onchain_votes.wraps, 0);
    assert_eq!(t.snapshot_votes.low, 10);
    assert_eq!(t.earliest_start, Some(1_400_000_000));
    assert_eq!(t.latest_start, Some(1_700_000_000));
    let cells = dao_cells(&t);
    assert_eq!(cells.proposals, "5");
    assert_eq!(cells.states, "(1/-/-/1/1/2)");
    assert_eq!(cells.adapters, "(3/1/-/-/-/-)");
    assert_eq!(cells.snapshot, "2");
    assert_eq!(cells.oldest, "2014-05-13");
    assert_eq!(cells.newest, "2023-11-14");
}

#[test]
fn tally_of_no_proposals() {
    let t = tally_proposals(&vec![]);
    assert_eq!(t.proposals, 0);
    assert_eq!(t.earliest_start, None);
    let cells = dao_cells(&t);
    assert_eq!(cells.states, "(-/-/-/-/-/-)");
    assert_eq!(cells.oldest, "-");
    assert_eq!(cells.newest, "-");
}

#[test]
fn vote_sums_are_exact_beyond_u128() {
    let data = vec![
        proposal(Adapter::Snapshot, ProposalState::CLOSED, u128::MAX, 0),
        proposal(Adapter::Snapshot, ProposalState::CLOSED, 2, 0),
    ];
    let t = tally_proposals(&data);
    assert_eq!(t.snapshot_votes.wraps, 1);
    assert_eq!(t.snapshot_votes.low, 1);
}

#[test]
fn count_cells_and_breakdowns() {
    assert_eq!(count_cell(0), "-");
    assert_eq!(count_cell(12), "12");
    assert_eq!(breakdown(0, 1, 2, 0, 10, 0), "(-/1/2/-/10/-)");
}

#[test]
fn days_of_timestamps() {
    assert_eq!(day_cell(Some(0)), "1970-01-01");
    assert_eq!(day_cell(Some(86_399)), "1970-01-01");
    assert_eq!(day_cell(Some(86_400)), "1970-01-02");
    assert_eq!(day_cell(Some(u32::MAX)), "2106-02-07");
    assert_eq!(day_cell(None), "-");
}

#[test]
fn quorum_rows() {
    let data = vec![
        proposal(Adapter::Snapshot, ProposalState::CLOSED, 10, 0),
        proposal(Adapter::Snapshot, ProposalState::CLOSED, 21, 0),
        proposal(Adapter::Archive, ProposalState::CLOSED, 9, 0),
    ];
    let q = quorum_row(&data);
    assert_eq!(q.snapshot_count, 2);
    assert_eq!(q.other_count, 1);
    assert_eq!(q.snapshot_voters, 15);
    assert_eq!(q.snapshot_quorum, 7);
    assert_eq!(q.other_voters, 9);
    assert_eq!(q.other_quorum, 4);
    let only_snapshot = vec![proposal(Adapter::Snapshot, ProposalState::CLOSED, 4, 0)];
    let q = quorum_row(&only_snapshot);
    assert_eq!((q.other_count, q.other_quorum, q.other_voters), (0, 0, 0));
    let overflowing = vec![
        proposal(Adapter::Onchain, ProposalState::CLOSED, u128::MAX, 0),
        proposal(Adapter::Onchain, ProposalState::CLOSED, 1, 0),
    ];
    assert_eq!(checked_quorum_row(&overflowing), None);
}

#[test]
fn request_addresses() {
    assert_eq!(
        proposal_url("aave"),
        "https://api.boardroom.info/v1/protocols/aave/proposals?limit=10000&key={api-key}"
    );
    assert_eq!(
        page_url("aave", "abc"),
        "https://api.boardroom.info/v1/protocols/aave/proposals?limit=10000&key={api-key}&cursor=abc"
    );
    assert_eq!(
        with_api_key(&proposal_url("aave"), "K"),
        "https://api.boardroom.info/v1/protocols/aave/proposals?limit=10000&key=K"
    );
    assert_eq!(response_path("Aave"), "data/responses/Aave");
}

#[test]
fn pages_are_collected_in_order() {
    let mut c = PageCollector::start(Some(vec![1, 2]), Some("c1".to_string()));
    assert_eq!(
        c.next_url("uni"),
        Some(
            "https://api.boardroom.info/v1/protocols/uni/proposals?limit=10000&key={api-key}&cursor=c1"
                .to_string()
        )
    );
    c.absorb(None, Some("c2".to_string()));
    c.absorb(Some(vec![3]), None);
    assert_eq!(c.items, vec![1, 2, 3]);
    assert_eq!(c.next_url("uni"), None);
    let empty: PageCollector<u8> = PageCollector::start(None, None);
    assert!(empty.items.is_empty());
}

#[test]
fn cname_list_file() {
    let rows = vec![
        CNAMECSVRow { dao: "Aave".to_string(), cname: "aave".to_string() },
        CNAMECSVRow { dao: "Uniswap".to_string(), cname: "uniswap".to_string() },
    ];
    assert_eq!(cname_csv(&rows), "dao,cname\nAave,aave\nUniswap,uniswap");
    assert_eq!(cname_csv(&vec![]), "dao,cname\n");
}

#[test]
fn tally_does_not_depend_on_order() {
    let data = vec![
        proposal(Adapter::Onchain, ProposalState::EXECUTED, 100, 1_600_000_000),
        proposal(Adapter::Snapshot, ProposalState::CLOSED, 7, 1_700_000_000),
        proposal(Adapter::Archive, ProposalState::PENDING, 1000, 1_400_000_000),
        proposal(Adapter::OnchainArbitrum, ProposalState::QUEUED, 5, 1_650_000_000),
    ];
    let mut reversed = data.clone();
    reversed.reverse();
    let a = tally_proposals(&data);
    let b = tally_proposals(&reversed);
    assert_eq!(a, b);
    let (ca, cb) = (dao_cells(&a), dao_cells(&b));
    assert_eq!((ca.states, ca.adapters, ca.oldest), (cb.states, cb.adapters, cb.oldest));
}

#[test]
fn report_lines_in_blocks_of_seventy() {
    assert!(report_blocks(&vec![]).is_empty());
    let rows: Vec<usize> = (0..150).collect();
    let blocks = report_blocks(&rows);
    assert_eq!(blocks.len(), 3);
    assert_eq!(blocks[0], (0..70).collect::<Vec<usize>>());
    assert_eq!(blocks[1], (70..140).collect::<Vec<usize>>());
    assert_eq!(blocks[2], (140..150).collect::<Vec<usize>>());
    let exact: Vec<usize> = (0..70).collect();
    assert_eq!(report_blocks(&exact), vec![exact.clone()]);
    assert_eq!(report_blocks(&vec![3, 9]), vec![vec![3, 9]]);
}

#[test]
fn days_in_leap_years_and_month_ends() {
    assert_eq!(day_cell(Some(951_782_400)), "2000-02-29");
    assert_eq!(day_cell(Some(951_868_800)), "2000-03-01");
    assert_eq!(day_cell(Some(4_107_456_000)), "2100-02-28");
    assert_eq!(day_cell(Some(4_107_542_400)), "2100-03-01");
    assert_eq!(day_cell(Some(1_704_067_199)), "2023-12-31");
    assert_eq!(day_cell(Some(1_704_067_200)), "2024-01-01");
}
