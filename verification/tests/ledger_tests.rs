use brc20_index::brc20_index::{
    operation_kind, Brc20Index, Event, OperationKind, Outcome, Summary,
};
use brc20_index::brc20_ticker::{Brc20Ticker, TickerMap};
use brc20_index::deploy::Brc20DeployTx;
use brc20_index::payload::{Brc20Deploy, Brc20Mint, Brc20Transfer, Operation};
use brc20_index::transfer::{Brc20TransferTx, TransferState};
use brc20_index::tx::{
    get_owner_of_output, transaction_inputs_to_addresses_values,
    transaction_outputs_to_addresses_values, Brc20Tx, InvalidBrc20Tx, InvalidBrc20TxMap, Network,
    OutPoint, RawTxInfo, TxError, TxInput, TxOutput,
};
use brc20_index::user_balance::UserBalance;

fn raw(txid: &str, spends: &[(&str, u32)]) -> RawTxInfo {
    RawTxInfo {
        txid: txid.to_string(),
        blocktime: Some(1_700_000_000),
        vin: spends
            .iter()
            .map(|(t, v)| TxInput { txid: Some(t.to_string()), vout: Some(*v), sequence: 0 })
            .collect(),
        vout: vec![TxOutput { n: 0, value: 546, script_pub_key: Vec::new() }],
    }
}

fn tx(txid: &str, owner: &str) -> Brc20Tx {
    Brc20Tx::new(raw(txid, &[]), owner.to_string()).unwrap()
}

fn spending(txid: &str, owner: &str, spent: &str) -> Brc20Tx {
    Brc20Tx::new(raw(txid, &[(spent, 0)]), owner.to_string()).unwrap()
}

fn outpoint(txid: &str) -> OutPoint {
    OutPoint { txid: txid.to_string(), vout: 0 }
}

fn deploy(tick: &str, max: &str, lim: Option<&str>, dec: Option<&str>) -> Brc20Deploy {
    Brc20Deploy {
        p: "brc-20".to_string(),
        op: "deploy".to_string(),
        tick: tick.to_string(),
        max: max.to_string(),
        lim: lim.map(|s| s.to_string()),
        dec: dec.map(|s| s.to_string()),
    }
}

fn mint(tick: &str, amt: &str) -> Brc20Mint {
    Brc20Mint {
        p: "brc-20".to_string(),
        op: "mint".to_string(),
        tick: tick.to_string(),
        amt: amt.to_string(),
    }
}

fn transfer(tick: &str, amt: &str) -> Brc20Transfer {
    Brc20Transfer {
        p: "brc-20".to_string(),
        op: "transfer".to_string(),
        tick: tick.to_string(),
        amt: amt.to_string(),
    }
}

/// An index with ticker `ordi` of supply 21000, limit 1000 and no decimals.
fn with_ordi() -> Brc20Index {
    let mut index = Brc20Index::new();
    assert!(index.apply_deploy(tx("d0", "dev"), deploy("ordi", "21000", Some("1000"), Some("0"))).is_valid());
    index
}

fn ordi(index: &Brc20Index) -> &Brc20Ticker {
    index.get_tickers().get("ordi").unwrap()
}

fn reason(index: &Brc20Index, txid: &str) -> Option<String> {
    index.get_invalid_tx_map().get_reason(txid)
}

#[test]
fn fresh_deploy_registers_the_ticker() {
    let mut index = Brc20Index::new();
    let record =
        index.apply_deploy(tx("d0", "dev"), deploy("ordi", "21000000", Some("1000"), Some("8")));
    assert!(record.is_valid());
    assert_eq!(record.get_max_supply(), 2_100_000_000_000_000);
    assert_eq!(record.get_limit(), 100_000_000_000);
    assert_eq!(record.get_decimals(), 8);
    assert_eq!(index.get_tickers().len(), 1);
    let t = ordi(&index);
    assert_eq!(t.get_ticker(), "ordi");
    assert_eq!(t.get_max_supply(), 2_100_000_000_000_000);
    assert_eq!(t.get_limit(), 100_000_000_000);
    assert_eq!(t.get_decimals(), 8);
    assert_eq!(t.get_total_supply(), 0);
    assert_eq!(index.get_invalid_tx_map().len(), 0);
}

#[test]
fn duplicate_deploy_is_rejected() {
    let mut index = with_ordi();
    let again = index.apply_deploy(tx("d1", "dev"), deploy("ordi", "5", None, None));
    assert!(!again.is_valid());
    assert_eq!(reason(&index, "d1"), Some("Ticker symbol already exists".to_string()));
    assert_eq!(index.get_tickers().len(), 1);
    assert_eq!(ordi(&index).get_max_supply(), 21000);
}

#[test]
fn deploy_is_keyed_by_the_lowercase_symbol() {
    let mut index = Brc20Index::new();
    assert!(index.apply_deploy(tx("d0", "dev"), deploy("ORDI", "10", None, None)).is_valid());
    assert!(index.get_tickers().contains_key("ordi"));
    assert!(!index.get_tickers().contains_key("ORDI"));
    assert_eq!(ordi(&index).get_symbol(), "ORDI");
    assert!(!index.apply_deploy(tx("d1", "dev"), deploy("Ordi", "10", None, None)).is_valid());
    assert_eq!(reason(&index, "d1"), Some("Ticker symbol already exists".to_string()));
}

#[test]
fn deploy_with_three_or_five_characters_is_rejected() {
    let mut index = Brc20Index::new();
    assert!(!index.apply_deploy(tx("d0", "dev"), deploy("ord", "10", None, None)).is_valid());
    assert!(!index.apply_deploy(tx("d1", "dev"), deploy("ordis", "10", None, None)).is_valid());
    assert_eq!(reason(&index, "d0"), Some("Ticker symbol must be 4 characters long".to_string()));
    assert_eq!(reason(&index, "d1"), Some("Ticker symbol must be 4 characters long".to_string()));
    assert_eq!(index.get_tickers().len(), 0);
}

#[test]
fn deploy_length_counts_characters_not_bytes() {
    let mut index = Brc20Index::new();
    assert!(index
        .apply_deploy(tx("d0", "dev"), deploy("\u{4e2d}\u{6587}ab", "10", None, None))
        .is_valid());
}

#[test]
fn deploy_with_nineteen_decimals_is_rejected() {
    let mut index = Brc20Index::new();
    assert!(!index.apply_deploy(tx("d0", "dev"), deploy("ordi", "10", None, Some("19"))).is_valid());
    assert_eq!(reason(&index, "d0"), Some("Decimals must be 18 or less".to_string()));
    assert!(index.apply_deploy(tx("d1", "dev"), deploy("ordi", "10", None, Some("18"))).is_valid());
}

#[test]
fn deploy_with_signed_decimals_is_accepted() {
    let mut index = Brc20Index::new();
    let record = index.apply_deploy(tx("d0", "dev"), deploy("ordi", "21000000", None, Some("+8")));
    assert!(record.is_valid());
    assert_eq!(record.get_decimals(), 8);
    assert_eq!(record.get_max_supply(), 2_100_000_000_000_000);
    assert_eq!(record.get_limit(), 2_100_000_000_000_000);
    assert_eq!(ordi(&index).get_decimals(), 8);
    assert_eq!(index.get_invalid_tx_map().len(), 0);
    assert!(!index.apply_deploy(tx("d1", "dev"), deploy("pepe", "1", None, Some("-8"))).is_valid());
    assert_eq!(reason(&index, "d1"), Some("Decimals must be 18 or less".to_string()));
    assert!(!index.apply_deploy(tx("d2", "dev"), deploy("pepe", "1", None, Some("+"))).is_valid());
    assert!(!index.apply_deploy(tx("d3", "dev"), deploy("pepe", "1", None, Some("+19"))).is_valid());
}

#[test]
fn deploy_with_zero_supply_is_rejected() {
    let mut index = Brc20Index::new();
    assert!(!index.apply_deploy(tx("d0", "dev"), deploy("ordi", "0", None, None)).is_valid());
    assert_eq!(reason(&index, "d0"), Some("Max supply must be greater than 0".to_string()));
    assert!(!index.apply_deploy(tx("d1", "dev"), deploy("ordi", "0.00", None, Some("2"))).is_valid());
    assert_eq!(index.get_tickers().len(), 0);
}

#[test]
fn deploy_with_malformed_supply_is_rejected() {
    let mut index = Brc20Index::new();
    assert!(!index.apply_deploy(tx("d0", "dev"), deploy("ordi", "ten", None, None)).is_valid());
    assert_eq!(reason(&index, "d0"), Some("Amount is not a number".to_string()));
    assert!(!index.apply_deploy(tx("d1", "dev"), deploy("ordi", "1.5", None, Some("0"))).is_valid());
    assert_eq!(reason(&index, "d1"), Some("Amount has more decimals than the ticker".to_string()));
}

#[test]
fn deploy_limit_defaults_to_the_supply() {
    let mut index = Brc20Index::new();
    assert_eq!(index.apply_deploy(tx("d0", "dev"), deploy("aaaa", "10", None, Some("0"))).get_limit(), 10);
    assert_eq!(index.apply_deploy(tx("d1", "dev"), deploy("bbbb", "10", Some("0"), Some("0"))).get_limit(), 10);
    assert_eq!(index.apply_deploy(tx("d2", "dev"), deploy("cccc", "10", Some("10"), Some("0"))).get_limit(), 10);
    assert_eq!(index.apply_deploy(tx("d3", "dev"), deploy("dddd", "10", Some("3"), Some("0"))).get_limit(), 3);
}

#[test]
fn deploy_limit_over_the_supply_is_rejected() {
    let mut index = Brc20Index::new();
    assert!(!index.apply_deploy(tx("d0", "dev"), deploy("ordi", "10", Some("11"), Some("0"))).is_valid());
    assert_eq!(
        reason(&index, "d0"),
        Some("Limit must be less than or equal to max supply".to_string())
    );
}

#[test]
fn deploy_records_the_first_reason() {
    let mut index = Brc20Index::new();
    assert!(!index.apply_deploy(tx("d0", "dev"), deploy("ord", "0", Some("x"), Some("19"))).is_valid());
    assert_eq!(reason(&index, "d0"), Some("Ticker symbol must be 4 characters long".to_string()));
}

#[test]
fn deploy_without_decimals_has_eighteen() {
    let mut index = Brc20Index::new();
    let record = index.apply_deploy(tx("d0", "dev"), deploy("ordi", "2", None, None));
    assert_eq!(record.get_decimals(), 18);
    assert_eq!(record.get_max_supply(), 2_000_000_000_000_000_000);
}

#[test]
fn mint_within_limit_is_credited() {
    let mut index = Brc20Index::new();
    index.apply_deploy(tx("d0", "dev"), deploy("ordi", "21000000", Some("1000"), Some("8")));
    let record = index.apply_mint(&tx("m0", "A"), mint("ordi", "1000"));
    assert!(record.is_valid());
    assert!(!record.is_adjusted());
    assert_eq!(record.get_reason(), "");
    assert_eq!(record.get_amount(), 100_000_000_000);
    let t = ordi(&index);
    assert_eq!(t.get_total_supply(), 100_000_000_000);
    assert_eq!(t.get_total_minted_from_mint_txs(), 100_000_000_000);
    assert_eq!(t.get_mint_txs().len(), 1);
    let a = t.get_user_balance("A").unwrap();
    assert_eq!(a.get_overall_balance(), 100_000_000_000);
    assert_eq!(a.get_available_balance(), 100_000_000_000);
    assert_eq!(a.get_mint_txs().len(), 1);
    assert_eq!(a.get_overall_balance_from_txs(), Some(100_000_000_000));
}

#[test]
fn mint_finds_the_ticker_whatever_the_case() {
    let mut index = with_ordi();
    assert!(index.apply_mint(&tx("m0", "A"), mint("ORDI", "1")).is_valid());
    assert_eq!(ordi(&index).get_total_supply(), 1);
}

#[test]
fn mint_over_the_limit_is_rejected() {
    let mut index = with_ordi();
    assert!(!index.apply_mint(&tx("m0", "A"), mint("ordi", "1001")).is_valid());
    assert_eq!(reason(&index, "m0"), Some("Mint amount exceeds limit".to_string()));
    assert_eq!(ordi(&index).get_total_supply(), 0);
    assert!(ordi(&index).get_user_balance("A").is_none());
    assert!(index.apply_mint(&tx("m1", "A"), mint("ordi", "1000")).is_valid());
}

#[test]
fn mint_of_unknown_ticker_is_rejected() {
    let mut index = with_ordi();
    assert!(!index.apply_mint(&tx("m0", "A"), mint("pepe", "1")).is_valid());
    assert_eq!(reason(&index, "m0"), Some("Ticker symbol does not exist".to_string()));
}

#[test]
fn mint_with_malformed_amount_is_rejected() {
    let mut index = with_ordi();
    assert!(!index.apply_mint(&tx("m0", "A"), mint("ordi", "-5")).is_valid());
    assert_eq!(reason(&index, "m0"), Some("Amount is not a number".to_string()));
    assert!(!index.apply_mint(&tx("m1", "A"), mint("ordi", "0.5")).is_valid());
    assert_eq!(reason(&index, "m1"), Some("Amount has more decimals than the ticker".to_string()));
    assert_eq!(ordi(&index).get_total_supply(), 0);
}

#[test]
fn mint_is_clamped_to_what_is_left() {
    let mut index = Brc20Index::new();
    index.apply_deploy(tx("d0", "dev"), deploy("ordi", "1500", Some("1000"), Some("0")));
    assert!(index.apply_mint(&tx("m0", "A"), mint("ordi", "1000")).is_valid());
    assert_eq!(ordi(&index).get_total_supply(), 1000);
    let clamped = index.apply_mint(&tx("m1", "B"), mint("ordi", "1000"));
    assert!(clamped.is_valid());
    assert!(clamped.is_adjusted());
    assert_eq!(clamped.get_amount(), 500);
    assert_eq!(
        clamped.get_reason(),
        "Total minted amount exceeds maximum. Adjusted mint amount to 500"
    );
    assert_eq!(ordi(&index).get_total_supply(), 1500);
    assert_eq!(ordi(&index).get_user_balance("B").unwrap().get_overall_balance(), 500);
    assert_eq!(reason(&index, "m1"), None);
    let next = index.apply_mint(&tx("m2", "B"), mint("ordi", "1"));
    assert!(!next.is_valid());
    assert_eq!(reason(&index, "m2"), Some("Supply exhausted".to_string()));
    assert_eq!(ordi(&index).get_total_supply(), 1500);
    assert_eq!(ordi(&index).get_user_balance("B").unwrap().get_overall_balance(), 500);
}

#[test]
fn mint_that_fills_the_supply_exactly_is_not_adjusted() {
    let mut index = Brc20Index::new();
    index.apply_deploy(tx("d0", "dev"), deploy("ordi", "10", None, Some("0")));
    let record = index.apply_mint(&tx("m0", "A"), mint("ordi", "10"));
    assert!(record.is_valid());
    assert!(!record.is_adjusted());
    assert_eq!(ordi(&index).get_total_supply(), 10);
}

#[test]
fn transfer_without_balance_is_rejected() {
    let mut index = with_ordi();
    let record = index.apply_transfer(tx("t0", "A"), transfer("ordi", "1"));
    assert!(!record.is_valid());
    assert_eq!(record.get_state(), TransferState::Invalid);
    assert_eq!(reason(&index, "t0"), Some("User balance not found".to_string()));
}

#[test]
fn rejected_transfer_comes_back_as_not_valid() {
    let mut tickers = TickerMap::new();
    let mut invalid = InvalidBrc20TxMap::new();
    let marked = Brc20TransferTx::new(tx("t0", "A"), transfer("ordi", "1")).set_validity(true);
    assert!(marked.is_valid());
    let record = marked.handle_inscribe_transfer_amount(&mut tickers, &mut invalid);
    assert!(!record.is_valid());
    assert_eq!(record.get_state(), TransferState::Invalid);
    assert_eq!(invalid.get_reason("t0"), Some("Ticker not found".to_string()));
    let accepted = Brc20TransferTx::new(tx("t1", "A"), transfer("ordi", "1")).accepted(7);
    let record = accepted.handle_inscribe_transfer_amount(&mut tickers, &mut invalid);
    assert!(!record.is_valid());
    assert_eq!(record.get_amount(), 7);
    assert_eq!(invalid.len(), 2);
    assert_eq!(tickers.len(), 0);
}

#[test]
fn transfer_of_unknown_ticker_is_rejected() {
    let mut index = with_ordi();
    assert!(!index.apply_transfer(tx("t0", "A"), transfer("pepe", "1")).is_valid());
    assert_eq!(reason(&index, "t0"), Some("Ticker not found".to_string()));
}

#[test]
fn transfer_of_exactly_the_available_balance_is_accepted() {
    let mut index = with_ordi();
    index.apply_mint(&tx("m0", "A"), mint("ordi", "1000"));
    let record = index.apply_transfer(tx("t0", "A"), transfer("ordi", "1000"));
    assert!(record.is_valid());
    assert_eq!(record.get_state(), TransferState::Inscribed);
    assert_eq!(record.get_amount(), 1000);
    let a = ordi(&index).get_user_balance("A").unwrap();
    assert_eq!(a.get_overall_balance(), 1000);
    assert_eq!(a.get_transferable_balance(), 1000);
    assert_eq!(a.get_available_balance(), 0);
    assert!(!index.apply_transfer(tx("t1", "A"), transfer("ordi", "1")).is_valid());
}

#[test]
fn transfer_inscribe_and_send() {
    let mut index = with_ordi();
    index.apply_mint(&tx("m0", "A"), mint("ordi", "1000"));
    assert!(index.apply_transfer(tx("t0", "A"), transfer("ordi", "400")).is_valid());
    {
        let a = ordi(&index).get_user_balance("A").unwrap();
        assert_eq!(a.get_available_balance(), 600);
        assert_eq!(a.get_transferable_balance(), 400);
        assert_eq!(a.get_overall_balance(), 1000);
        assert!(a.is_active_inscription(&outpoint("t0")));
        assert_eq!(a.get_active_transfer_inscriptions().len(), 1);
    }
    let sent = index.apply_send(&outpoint("t0"), tx("s0", "B"));
    assert_eq!(sent.map(|s| s.amt), Some("400".to_string()));
    let t = ordi(&index);
    let a = t.get_user_balance("A").unwrap();
    let b = t.get_user_balance("B").unwrap();
    assert_eq!(a.get_overall_balance(), 600);
    assert_eq!(a.get_available_balance(), 600);
    assert_eq!(a.get_transferable_balance(), 0);
    assert_eq!(a.get_active_transfer_inscriptions().len(), 0);
    assert_eq!(a.get_transfer_sends().len(), 1);
    assert_eq!(a.get_total_amount_from_transfer_sends(), Some(400));
    assert_eq!(a.get_overall_balance_from_txs(), Some(600));
    assert_eq!(b.get_overall_balance(), 400);
    assert_eq!(b.get_transfer_receives().len(), 1);
    assert_eq!(b.get_total_amount_from_transfer_receives(), Some(400));
    assert_eq!(b.get_available_balance_from_txs(), Some(400));
    assert_eq!(t.get_transfer_txs().len(), 1);
    let done = &t.get_transfer_txs()[0];
    assert_eq!(done.get_state(), TransferState::Sent);
    assert_eq!(done.get_receiver(), Some("B".to_string()));
    assert_eq!(done.get_amount(), 400);
    assert_eq!(done.get_transfer_brc20_tx().unwrap().get_tx_id(), "s0");
    assert_eq!(done.get_inscription_brc20_tx().get_owner(), "A");
    assert_eq!(t.get_total_supply(), 1000);
}

#[test]
fn transfer_over_what_is_there_is_rejected() {
    let mut index = with_ordi();
    index.apply_mint(&tx("m0", "A"), mint("ordi", "100"));
    let record = index.apply_transfer(tx("t0", "A"), transfer("ordi", "101"));
    assert!(!record.is_valid());
    assert_eq!(
        reason(&index, "t0"),
        Some("Transfer amount exceeds available balance".to_string())
    );
    let a = ordi(&index).get_user_balance("A").unwrap();
    assert_eq!(a.get_overall_balance(), 100);
    assert_eq!(a.get_available_balance(), 100);
    assert_eq!(a.get_active_transfer_inscriptions().len(), 0);
}

#[test]
fn outstanding_inscriptions_count_against_the_next() {
    let mut index = with_ordi();
    index.apply_mint(&tx("m0", "A"), mint("ordi", "1000"));
    assert!(index.apply_transfer(tx("t0", "A"), transfer("ordi", "600")).is_valid());
    assert!(!index.apply_transfer(tx("t1", "A"), transfer("ordi", "500")).is_valid());
    assert!(index.apply_transfer(tx("t2", "A"), transfer("ordi", "400")).is_valid());
    let a = ordi(&index).get_user_balance("A").unwrap();
    assert_eq!(a.get_transferable_balance(), 1000);
    assert_eq!(a.get_available_balance(), 0);
}

#[test]
fn inscription_on_the_same_output_takes_the_place_of_the_first() {
    let mut index = with_ordi();
    index.apply_mint(&tx("m0", "A"), mint("ordi", "1000"));
    assert!(index.apply_transfer(tx("t0", "A"), transfer("ordi", "300")).is_valid());
    assert!(index.apply_transfer(tx("t0", "A"), transfer("ordi", "200")).is_valid());
    let a = ordi(&index).get_user_balance("A").unwrap();
    assert_eq!(a.get_active_transfer_inscriptions().len(), 1);
    assert_eq!(a.get_transferable_balance(), 200);
}

#[test]
fn spend_of_an_output_without_inscription_changes_nothing() {
    let mut index = with_ordi();
    index.apply_mint(&tx("m0", "A"), mint("ordi", "1000"));
    assert!(index.apply_send(&outpoint("m0"), tx("s0", "B")).is_none());
    assert!(index.apply_send(&OutPoint { txid: "t0".to_string(), vout: 1 }, tx("s1", "B")).is_none());
    let t = ordi(&index);
    assert_eq!(t.get_user_balance("A").unwrap().get_overall_balance(), 1000);
    assert!(t.get_user_balance("B").is_none());
    assert_eq!(t.get_transfer_txs().len(), 0);
}

#[test]
fn inscription_is_spent_only_once() {
    let mut index = with_ordi();
    index.apply_mint(&tx("m0", "A"), mint("ordi", "1000"));
    index.apply_transfer(tx("t0", "A"), transfer("ordi", "400"));
    assert!(index.apply_send(&outpoint("t0"), tx("s0", "B")).is_some());
    assert!(index.apply_send(&outpoint("t0"), tx("s1", "C")).is_none());
    assert_eq!(ordi(&index).get_user_balance("B").unwrap().get_overall_balance(), 400);
    assert!(ordi(&index).get_user_balance("C").is_none());
}

#[test]
fn send_to_oneself_keeps_the_balance() {
    let mut index = with_ordi();
    index.apply_mint(&tx("m0", "A"), mint("ordi", "1000"));
    index.apply_transfer(tx("t0", "A"), transfer("ordi", "400"));
    assert!(index.apply_send(&outpoint("t0"), tx("s0", "A")).is_some());
    let a = ordi(&index).get_user_balance("A").unwrap();
    assert_eq!(a.get_overall_balance(), 1000);
    assert_eq!(a.get_available_balance(), 1000);
    assert_eq!(a.get_transfer_sends().len(), 1);
    assert_eq!(a.get_transfer_receives().len(), 1);
    assert_eq!(a.get_overall_balance_from_txs(), Some(1000));
}

#[test]
fn received_tokens_can_be_sent_on() {
    let mut index = with_ordi();
    index.apply_mint(&tx("m0", "A"), mint("ordi", "1000"));
    index.apply_transfer(tx("t0", "A"), transfer("ordi", "400"));
    index.apply_send(&outpoint("t0"), tx("s0", "B"));
    assert!(index.apply_transfer(tx("t1", "B"), transfer("ordi", "400")).is_valid());
    index.apply_send(&outpoint("t1"), tx("s1", "C"));
    let t = ordi(&index);
    assert_eq!(t.get_user_balance("A").unwrap().get_overall_balance(), 600);
    assert_eq!(t.get_user_balance("B").unwrap().get_overall_balance(), 0);
    assert_eq!(t.get_user_balance("C").unwrap().get_overall_balance(), 400);
    assert_eq!(t.get_holders().len(), 3);
    assert_eq!(t.get_total_supply(), 1000);
}

#[test]
fn event_completes_transfers_before_its_payload() {
    let mut index = with_ordi();
    index.apply_mint(&tx("m0", "A"), mint("ordi", "1000"));
    index.apply_transfer(tx("t0", "A"), transfer("ordi", "400"));
    let event = spending("s0", "B", "t0");
    let step = index.process(&event, &Operation::Transfer(transfer("ordi", "400")));
    assert_eq!(step.outcome, Outcome::Accepted);
    assert_eq!(step.emitted.len(), 1);
    assert!(matches!(&step.emitted[0], Operation::Transfer(t) if t.amt == "400"));
    let b = ordi(&index).get_user_balance("B").unwrap();
    assert_eq!(b.get_overall_balance(), 400);
    assert_eq!(b.get_transferable_balance(), 400);
}

#[test]
fn event_reports_how_its_payload_fared() {
    let mut index = Brc20Index::new();
    let d = index.process(&tx("d0", "dev"), &Operation::Deploy(deploy("ordi", "10", None, Some("0"))));
    assert_eq!(d.outcome, Outcome::Accepted);
    assert!(matches!(&d.emitted[..], [Operation::Deploy(x)] if x.tick == "ordi"));
    let m = index.process(&tx("m0", "A"), &Operation::Mint(mint("ordi", "4")));
    assert_eq!(m.outcome, Outcome::Accepted);
    assert!(matches!(&m.emitted[..], [Operation::Mint(x)] if x.amt == "4"));
    let r = index.process(&tx("m1", "A"), &Operation::Mint(mint("ordi", "11")));
    assert_eq!(r.outcome, Outcome::Rejected);
    assert!(r.emitted.is_empty());
    let t = index.process(&tx("t0", "A"), &Operation::Transfer(transfer("ordi", "4")));
    assert_eq!(t.outcome, Outcome::Accepted);
    assert!(t.emitted.is_empty());
    let i = index.process(&tx("i0", "A"), &Operation::Ignore);
    assert_eq!(i.outcome, Outcome::Ignored);
    assert!(i.emitted.is_empty());
    assert_eq!(index.get_invalid_tx_map().len(), 1);
}

#[test]
fn rejected_event_changes_no_ticker() {
    let mut index = with_ordi();
    index.apply_mint(&tx("m0", "A"), mint("ordi", "10"));
    index.apply_mint(&tx("m1", "A"), mint("ordi", "5000"));
    index.apply_transfer(tx("t0", "A"), transfer("ordi", "11"));
    index.apply_deploy(tx("d1", "dev"), deploy("ordi", "1", None, None));
    let t = ordi(&index);
    assert_eq!(index.get_tickers().len(), 1);
    assert_eq!(t.get_total_supply(), 10);
    assert_eq!(t.get_mint_txs().len(), 1);
    assert_eq!(t.get_holders().len(), 1);
    let a = t.get_user_balance("A").unwrap();
    assert_eq!(a.get_overall_balance(), 10);
    assert_eq!(a.get_active_transfer_inscriptions().len(), 0);
    assert_eq!(index.get_invalid_tx_map().len(), 3);
}

#[test]
fn invalid_registry_holds_one_entry_for_a_transaction() {
    let mut map = InvalidBrc20TxMap::new();
    map.add_invalid_tx(InvalidBrc20Tx::new(tx("x", "A"), "first".to_string()));
    map.add_invalid_tx(InvalidBrc20Tx::new(tx("y", "A"), "other".to_string()));
    map.add_invalid_tx(InvalidBrc20Tx::new(tx("x", "B"), "second".to_string()));
    assert_eq!(map.len(), 2);
    assert_eq!(map.get_reason("x"), Some("second".to_string()));
    assert_eq!(map.get_reason("y"), Some("other".to_string()));
    assert_eq!(map.get_reason("z"), None);
}

fn stream() -> Vec<Event> {
    vec![
        Event { tx: tx("d0", "dev"), operation: Operation::Deploy(deploy("ordi", "21000", Some("1000"), Some("0"))) },
        Event { tx: tx("d1", "dev"), operation: Operation::Deploy(deploy("pepe", "100", None, Some("2"))) },
        Event { tx: tx("m0", "A"), operation: Operation::Mint(mint("ordi", "1000")) },
        Event { tx: tx("m1", "B"), operation: Operation::Mint(mint("pepe", "1.5")) },
        Event { tx: tx("m2", "B"), operation: Operation::Mint(mint("ordi", "2000")) },
        Event { tx: tx("t0", "A"), operation: Operation::Transfer(transfer("ordi", "250")) },
        Event { tx: spending("s0", "B", "t0"), operation: Operation::Ignore },
    ]
}

fn snapshot(index: &Brc20Index) -> Vec<(String, u128, Vec<(String, u128, u128)>)> {
    let mut out = Vec::new();
    for key in ["ordi", "pepe"] {
        if let Some(t) = index.get_tickers().get(key) {
            let holders = t
                .get_holders()
                .iter()
                .map(|h| {
                    (
                        h.get_address().clone(),
                        h.get_balance().get_overall_balance(),
                        h.get_balance().get_transferable_balance(),
                    )
                })
                .collect();
            out.push((t.get_ticker(), t.get_total_supply(), holders));
        }
    }
    out
}

#[test]
fn replay_of_a_stream_gives_the_same_state_each_time() {
    let first = Brc20Index::replay(&stream());
    let second = Brc20Index::replay(&stream());
    assert_eq!(snapshot(&first), snapshot(&second));
    assert_eq!(
        snapshot(&first),
        vec![
            ("ordi".to_string(), 1000, vec![("A".to_string(), 750, 0), ("B".to_string(), 250, 0)]),
            ("pepe".to_string(), 150, vec![("B".to_string(), 150, 0)]),
        ]
    );
    assert_eq!(first.get_invalid_tx_map().len(), 1);
    assert_eq!(first.get_invalid_tx_map().get_reason("m2"), second.get_invalid_tx_map().get_reason("m2"));
}

#[test]
fn events_on_different_tickers_can_change_places() {
    let mut one = stream();
    let mut other = stream();
    one.truncate(4);
    other.truncate(4);
    other.swap(2, 3);
    assert_eq!(snapshot(&Brc20Index::replay(&one)), snapshot(&Brc20Index::replay(&other)));
}

#[test]
fn events_on_one_ticker_are_order_sensitive() {
    let mut index = Brc20Index::new();
    index.apply_deploy(tx("d0", "dev"), deploy("ordi", "10", None, Some("0")));
    index.apply_mint(&tx("m0", "A"), mint("ordi", "10"));
    index.apply_mint(&tx("m1", "B"), mint("ordi", "10"));
    assert_eq!(ordi(&index).get_user_balance("A").unwrap().get_overall_balance(), 10);
    assert!(ordi(&index).get_user_balance("B").is_none());
}

#[test]
fn context_needs_outputs_and_a_block_time() {
    let mut no_outputs = raw("x", &[]);
    no_outputs.vout.clear();
    assert_eq!(Brc20Tx::new(no_outputs, "A".to_string()).err(), Some(TxError::NoOutputs));
    let mut no_time = raw("x", &[]);
    no_time.blocktime = None;
    assert_eq!(Brc20Tx::new(no_time, "A".to_string()).err(), Some(TxError::BlocktimeNotFound));
}

#[test]
fn context_reads_the_first_output() {
    let mut info = raw("abc", &[("p", 3)]);
    info.vout = vec![
        TxOutput { n: 7, value: 1, script_pub_key: Vec::new() },
        TxOutput { n: 8, value: 2, script_pub_key: Vec::new() },
    ];
    let t = Brc20Tx::new(info, "A".to_string()).unwrap();
    assert_eq!(t.get_tx_id(), "abc");
    assert_eq!(t.get_vout(), 7);
    assert_eq!(t.get_blocktime(), 1_700_000_000);
    assert_eq!(t.get_owner(), "A");
    assert_eq!(t.get_inputs_len(), 1);
    assert!(!t.get_inputs_is_empty());
    assert_eq!(t.get_inputs()[0].vout, Some(3));
    assert!(t.get_outpoint().same(&OutPoint { txid: "abc".to_string(), vout: 7 }));
    assert!(t.get_input_outpoint(0).unwrap().same(&OutPoint { txid: "p".to_string(), vout: 3 }));
}

fn pay_to_pubkey_hash() -> Vec<u8> {
    let mut script = vec![0x76, 0xa9, 0x14];
    script.extend_from_slice(&[0u8; 20]);
    script.extend_from_slice(&[0x88, 0xac]);
    script
}

fn raw_with_script(script: Vec<u8>) -> RawTxInfo {
    let mut info = raw("abc", &[]);
    info.vout = vec![TxOutput { n: 0, value: 546, script_pub_key: script }];
    info
}

fn pay_to_script_hash() -> Vec<u8> {
    let mut script = vec![0xa9, 0x14];
    script.extend_from_slice(&[0u8; 20]);
    script.push(0x87);
    script
}

#[test]
fn outputs_with_an_address_are_listed_with_their_values() {
    let outputs = vec![
        TxOutput { n: 0, value: 10, script_pub_key: pay_to_pubkey_hash() },
        TxOutput { n: 1, value: 20, script_pub_key: vec![0x6a] },
        TxOutput { n: 2, value: 30, script_pub_key: pay_to_script_hash() },
    ];
    let listed = transaction_outputs_to_addresses_values(&outputs, Network::Bitcoin).unwrap();
    assert_eq!(listed.len(), 2);
    assert_eq!(listed[0], ("1111111111111111111114oLvT2".to_string(), 10));
    assert_eq!(listed[1].1, 30);
    assert!(listed[1].0.starts_with('3'));
    let none = vec![TxOutput { n: 0, value: 10, script_pub_key: vec![0x6a] }];
    assert_eq!(
        transaction_outputs_to_addresses_values(&none, Network::Bitcoin),
        Err(TxError::NoAddresses)
    );
    assert_eq!(
        transaction_outputs_to_addresses_values(&Vec::new(), Network::Bitcoin),
        Err(TxError::NoAddresses)
    );
}

#[test]
fn spent_outputs_must_all_have_an_address() {
    let good = vec![
        TxOutput { n: 0, value: 10, script_pub_key: pay_to_pubkey_hash() },
        TxOutput { n: 2, value: 30, script_pub_key: pay_to_pubkey_hash() },
    ];
    assert_eq!(
        transaction_inputs_to_addresses_values(&good, Network::Bitcoin),
        Ok(vec![
            ("1111111111111111111114oLvT2".to_string(), 10),
            ("1111111111111111111114oLvT2".to_string(), 30),
        ])
    );
    let mixed = vec![
        TxOutput { n: 0, value: 10, script_pub_key: pay_to_pubkey_hash() },
        TxOutput { n: 1, value: 20, script_pub_key: vec![0x6a] },
    ];
    assert_eq!(
        transaction_inputs_to_addresses_values(&mixed, Network::Bitcoin),
        Err(TxError::UnresolvableScript)
    );
    assert_eq!(
        transaction_inputs_to_addresses_values(&Vec::new(), Network::Bitcoin),
        Err(TxError::NoAddresses)
    );
}

#[test]
fn every_error_has_its_reason() {
    assert_eq!(TxError::NoOutputs.message(), "Transaction has no outputs");
    assert_eq!(TxError::BlocktimeNotFound.message(), "Blocktime not found in raw transaction result");
    assert_eq!(TxError::OutputNotFound.message(), "Output not found in raw transaction result");
    assert_eq!(TxError::UnresolvableScript.message(), "Couldn't derive address from scriptPubKey");
    assert_eq!(
        TxError::NoAddresses.message(),
        "Couldn't derive any addresses or values from scriptPubKeys"
    );
}

#[test]
fn owner_is_the_address_of_the_output_script() {
    let info = raw_with_script(pay_to_pubkey_hash());
    assert_eq!(
        get_owner_of_output(&outpoint("abc"), &info, Network::Bitcoin),
        Ok("1111111111111111111114oLvT2".to_string())
    );
    let on_testnet = get_owner_of_output(&outpoint("abc"), &info, Network::Testnet).unwrap();
    assert_ne!(on_testnet, "1111111111111111111114oLvT2");
    assert_eq!(
        get_owner_of_output(&outpoint("abc"), &info, Network::Signet),
        Ok(on_testnet)
    );
}

#[test]
fn owner_of_an_unknown_script_or_output_is_an_error() {
    let info = raw_with_script(vec![0x6a]);
    assert_eq!(
        get_owner_of_output(&outpoint("abc"), &info, Network::Testnet),
        Err(TxError::UnresolvableScript)
    );
    assert_eq!(
        get_owner_of_output(&OutPoint { txid: "abc".to_string(), vout: 1 }, &info, Network::Testnet),
        Err(TxError::OutputNotFound)
    );
}

#[test]
fn inscription_is_applied_from_the_chain_data() {
    let mut index = Brc20Index::new();
    let body = br#"{"p":"brc-20","op":"deploy","tick":"ordi","max":"21000000","lim":"1000","dec":"8"}"#;
    let step = index.process_inscription(
        &outpoint("abc"),
        raw_with_script(pay_to_pubkey_hash()),
        "application/json",
        body,
        Network::Bitcoin,
    );
    assert_eq!(step.outcome, Outcome::Accepted);
    let t = ordi(&index);
    assert_eq!(t.get_max_supply(), 2_100_000_000_000_000);
    assert_eq!(t.get_deploy_tx().get_brc20_tx().get_owner(), "1111111111111111111114oLvT2");
    let mint_body = br#"{"p":"brc-20","op":"mint","tick":"ordi","amt":"1000"}"#;
    let mut second = raw_with_script(pay_to_pubkey_hash());
    second.txid = "def".to_string();
    let minted =
        index.process_inscription(&outpoint("def"), second, "text/plain;charset=utf-8", mint_body, Network::Bitcoin);
    assert_eq!(minted.outcome, Outcome::Accepted);
    assert_eq!(
        ordi(&index).get_user_balance("1111111111111111111114oLvT2").unwrap().get_overall_balance(),
        100_000_000_000
    );
    let ignored = index.process_inscription(
        &outpoint("abc"),
        raw_with_script(pay_to_pubkey_hash()),
        "image/png",
        body,
        Network::Bitcoin,
    );
    assert_eq!(ignored.outcome, Outcome::Ignored);
}

#[test]
fn inscription_that_cannot_be_resolved_is_recorded() {
    let mut index = with_ordi();
    let body = br#"{"p":"brc-20","op":"mint","tick":"ordi","amt":"1"}"#;
    let mut no_time = raw_with_script(pay_to_pubkey_hash());
    no_time.blocktime = None;
    let step = index.process_inscription(&outpoint("abc"), no_time, "application/json", body, Network::Testnet);
    assert_eq!(step.outcome, Outcome::Rejected);
    assert!(step.emitted.is_empty());
    assert_eq!(reason(&index, "abc"), Some("Blocktime not found in raw transaction result".to_string()));
    let mut unknown = raw_with_script(vec![0x6a]);
    unknown.txid = "def".to_string();
    index.process_inscription(&outpoint("def"), unknown, "application/json", body, Network::Testnet);
    assert_eq!(reason(&index, "def"), Some("Couldn't derive address from scriptPubKey".to_string()));
    let mut short = raw_with_script(pay_to_pubkey_hash());
    short.txid = "ghi".to_string();
    index.process_inscription(
        &OutPoint { txid: "ghi".to_string(), vout: 5 },
        short,
        "application/json",
        body,
        Network::Testnet,
    );
    assert_eq!(reason(&index, "ghi"), Some("Output not found in raw transaction result".to_string()));
    assert_eq!(ordi(&index).get_total_supply(), 0);
}

#[test]
fn summary_counts_events_by_outcome() {
    let mut index = Brc20Index::new();
    let mut summary = Summary::new();
    let events = [
        (tx("d0", "dev"), Operation::Deploy(deploy("ordi", "10", None, Some("0")))),
        (tx("d1", "dev"), Operation::Deploy(deploy("ordi", "10", None, Some("0")))),
        (tx("m0", "A"), Operation::Mint(mint("ordi", "4"))),
        (tx("m1", "A"), Operation::Mint(mint("ordi", "4"))),
        (tx("t0", "A"), Operation::Transfer(transfer("ordi", "8"))),
        (tx("t1", "A"), Operation::Transfer(transfer("ordi", "1"))),
        (tx("i0", "A"), Operation::Ignore),
    ];
    for (context, operation) in &events {
        let step = index.process(context, operation);
        assert_eq!(step.kind, operation_kind(operation));
        summary.record(step.kind, step.outcome);
    }
    assert_eq!(
        summary,
        Summary { accepted_deploys: 1, accepted_mints: 2, accepted_transfers: 1, invalid: 2, ignored: 1 }
    );
}

#[test]
fn summary_count_stays_at_the_largest_number() {
    let mut summary = Summary {
        accepted_deploys: 0,
        accepted_mints: 0,
        accepted_transfers: 0,
        invalid: u64::MAX,
        ignored: u64::MAX - 1,
    };
    summary.record(OperationKind::Mint, Outcome::Rejected);
    summary.record(OperationKind::Ignore, Outcome::Ignored);
    summary.record(OperationKind::Ignore, Outcome::Accepted);
    assert_eq!(summary.invalid, u64::MAX);
    assert_eq!(summary.ignored, u64::MAX);
    assert_eq!(summary.accepted_deploys + summary.accepted_mints + summary.accepted_transfers, 0);
}

#[test]
fn balance_methods_keep_the_books() {
    let mut b = UserBalance::new();
    assert_eq!(b.get_overall_balance(), 0);
    b.increase_overall_balance(10);
    assert_eq!(b.get_overall_balance(), 10);
    assert_eq!(b.decrease_overall_balance(4), Ok(()));
    assert_eq!(b.get_overall_balance(), 6);
    assert_eq!(
        b.decrease_overall_balance(7),
        Err("Decrease amount exceeds overall balance".to_string())
    );
    assert_eq!(b.get_overall_balance(), 6);
    let record = Brc20TransferTx::new(tx("t0", "A"), transfer("ordi", "3")).accepted(3);
    b.add_transfer_inscription(record);
    assert!(b.is_active_inscription(&outpoint("t0")));
    assert!(!b.is_active_inscription(&outpoint("t1")));
    assert_eq!(b.get_transferable_balance(), 3);
    let taken = b.remove_inscription(&outpoint("t0")).unwrap();
    assert_eq!(taken.get_amount(), 3);
    assert!(b.remove_inscription(&outpoint("t0")).is_none());
    assert_eq!(b.get_total_amount_from_mints(), Some(0));
}

#[test]
fn records_start_unvalidated() {
    let d = Brc20DeployTx::new(tx("d0", "dev"), deploy("ordi", "10", None, None));
    assert!(!d.is_valid());
    assert_eq!(d.get_max_supply(), 0);
    assert_eq!(d.get_limit(), 0);
    assert_eq!(d.get_decimals(), 18);
    assert_eq!(d.get_deploy_script().tick, "ordi");
    assert!(d.set_valid(true).is_valid());
    let t = Brc20TransferTx::new(tx("t0", "A"), transfer("ordi", "3"));
    assert!(!t.is_valid());
    assert_eq!(t.get_amount(), 0);
    assert!(t.get_transfer_brc20_tx().is_none());
    assert!(t.get_inscription_outpoint().same(&outpoint("t0")));
    assert_eq!(t.get_transfer_script().amt, "3");
    let t = t.set_validity(true).set_transfer_tx(tx("s0", "B")).set_receiver("B".to_string());
    assert_eq!(t.get_state(), TransferState::Sent);
    assert_eq!(t.get_receiver(), Some("B".to_string()));
}

#[test]
fn validators_work_on_a_registry_of_their_own() {
    let mut tickers = TickerMap::new();
    let mut invalid = InvalidBrc20TxMap::new();
    let d = Brc20DeployTx::new(tx("d0", "dev"), deploy("ordi", "10", None, Some("0")))
        .validate_deploy_script(&mut invalid, &tickers);
    assert!(d.is_valid());
    tickers.insert(Brc20Ticker::new(d));
    let m = mint("ordi", "4").validate(&tx("m0", "A"), &mut tickers, &mut invalid);
    assert!(m.is_valid());
    assert_eq!(m.get_mint().amt, "4");
    assert_eq!(m.get_brc20_tx().get_owner(), "A");
    let t = Brc20TransferTx::new(tx("t0", "A"), transfer("ordi", "4"))
        .handle_inscribe_transfer_amount(&mut tickers, &mut invalid);
    assert!(t.is_valid());
    assert_eq!(tickers.get("ordi").unwrap().get_user_balance("A").unwrap().get_available_balance(), 0);
    assert_eq!(invalid.len(), 0);
}
