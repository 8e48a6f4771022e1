//! What holds of every state that the indexer can reach, and of replaying
//! a stream of events.

use crate::amount::{
    base_units, decimal_digits, decode_spec, digits_value, fraction_part, has_point,
    integer_part, is_digit, lemma_decimal_digits_value, pow10, AmountError,
};
use crate::brc20_index::{
    empty_index, index_wf, lemma_deploy_accepts, payload_invalid, payload_outcome,
    payload_tickers, replay_spec, spend_inputs, step, Outcome,
};
use crate::brc20_ticker::{
    lemma_push_ticker_wf, lemma_ticker_add_mint_wf, lemma_ticker_inscribe_wf,
    lemma_ticker_send_wf, lemma_update_ticker_wf,
};
use crate::model::{
    addresses, deploy_decision, deploy_params_ok, deploy_record, deploy_tickers,
    inscribe_outcome, inscribe_record, inscribe_tickers, mint_amounts, mint_outcome,
    mint_record, mint_tickers, new_deploy, new_ticker, new_transfer, outpoint_of, outpoints,
    overalls, send_tickers, ticker_add_mint, ticker_holds_outpoint, ticker_inscribe, ticker_keys,
    ticker_send, ticker_wf, tickers_wf, transfer_amounts, transferable, DeployTxView,
    HolderView, IndexView, MintTxView, TickerView, TransferTxView,
};
use crate::payload::{lowercase, AmountScriptView, DeployView, OperationView};
use crate::seqs::{lemma_position, lemma_position_distinct, position, total};
use crate::tx::{
    input_outpoint, invalid_position, lemma_invalid_position, lemma_invalid_position_is,
    lemma_record_invalid_distinct, record_invalid, InvalidTxView, TxView,
};
use vstd::prelude::*;

verus! {

// ---------------------------------------------------------------------
// Every operation keeps the state consistent
// ---------------------------------------------------------------------
/// The ticker that an accepted deploy creates is consistent.
pub proof fn lemma_new_ticker_wf(d: DeployTxView)
    requires
        deploy_params_ok(d),
    ensures
        ticker_wf(new_ticker(d)),
{
    assert(mint_amounts(Seq::<MintTxView>::empty()) =~= Seq::<nat>::empty());
    assert(overalls(Seq::<HolderView>::empty()) =~= Seq::<nat>::empty());
    assert(addresses(Seq::<HolderView>::empty()) =~= Seq::<Seq<char>>::empty());
}

/// A deploy keeps the tickers consistent.
pub proof fn lemma_deploy_keeps_consistent(t: Seq<TickerView>, tx: TxView, script: DeployView)
    requires
        tickers_wf(t),
    ensures
        tickers_wf(deploy_tickers(t, tx, script)),
{
    let d = deploy_record(ticker_keys(t), new_deploy(tx, script));
    if d.is_valid {
        lemma_deploy_accepts(ticker_keys(t), script);
        lemma_new_ticker_wf(d);
        lemma_push_ticker_wf(t, new_ticker(d));
    }
}

/// A mint keeps the tickers consistent.
pub proof fn lemma_mint_keeps_consistent(t: Seq<TickerView>, tx: TxView, script: AmountScriptView)
    requires
        tickers_wf(t),
    ensures
        tickers_wf(mint_tickers(t, tx, script)),
{
    if mint_outcome(t, script) is Ok {
        let k = position(ticker_keys(t), lowercase(script.tick));
        lemma_position(ticker_keys(t), lowercase(script.tick));
        assert(ticker_wf(t[k]));
        let record = mint_record(t, tx, script);
        lemma_ticker_add_mint_wf(t[k], record);
        lemma_update_ticker_wf(t, k, ticker_add_mint(t[k], record));
    }
}

/// A transfer inscription keeps the tickers consistent.
pub proof fn lemma_inscribe_keeps_consistent(t: Seq<TickerView>, r: TransferTxView)
    requires
        tickers_wf(t),
    ensures
        tickers_wf(inscribe_tickers(t, r)),
{
    if inscribe_outcome(t, r.inscription_tx.owner, r.script) is Ok {
        let k = position(ticker_keys(t), lowercase(r.script.tick));
        lemma_position(ticker_keys(t), lowercase(r.script.tick));
        assert(ticker_wf(t[k]));
        assert(ticker_keys(t)[k] == t[k].key);
        let record = inscribe_record(t, r);
        lemma_ticker_inscribe_wf(t[k], record);
        lemma_update_ticker_wf(t, k, ticker_inscribe(t[k], record));
    }
}

/// The spend of an output keeps the tickers consistent.
pub proof fn lemma_send_keeps_consistent(
    t: Seq<TickerView>,
    outpoint: (Seq<char>, u32),
    spend: TxView,
)
    requires
        tickers_wf(t),
    ensures
        tickers_wf(send_tickers(t, outpoint, spend)),
{
    let flags = ticker_holds_outpoint(t, outpoint);
    let k = position(flags, true);
    lemma_position(flags, true);
    if k < t.len() {
        assert(flags[k] == true);
        assert(ticker_wf(t[k]));
        lemma_ticker_send_wf(t[k], outpoint, spend);
        lemma_update_ticker_wf(t, k, ticker_send(t[k], outpoint, spend));
    }
}

/// Completing the transfers that a transaction spends keeps the tickers
/// consistent.
pub proof fn lemma_spend_inputs_keeps_consistent(t: Seq<TickerView>, tx: TxView, n: int)
    requires
        tickers_wf(t),
    ensures
        tickers_wf(spend_inputs(t, tx, n)),
    decreases n,
{
    if n > 0 {
        lemma_spend_inputs_keeps_consistent(t, tx, n - 1);
        match input_outpoint(tx.inputs[n - 1]) {
            Some(outpoint) => {
                lemma_send_keeps_consistent(spend_inputs(t, tx, n - 1), outpoint, tx);
            },
            None => {},
        }
    }
}

/// Every event takes a consistent state to a consistent state.
pub proof fn law_step_keeps_consistent(s: IndexView, tx: TxView, op: OperationView)
    requires
        index_wf(s),
    ensures
        index_wf(step(s, tx, op)),
{
    let spent = spend_inputs(s.tickers, tx, tx.inputs.len() as int);
    lemma_spend_inputs_keeps_consistent(s.tickers, tx, tx.inputs.len() as int);
    match op {
        OperationView::Deploy(d) => {
            lemma_deploy_keeps_consistent(spent, tx, d);
            match deploy_decision(ticker_keys(spent), d) {
                Ok(_) => {},
                Err(reason) => {
                    lemma_record_invalid_distinct(s.invalid, InvalidTxView { tx, reason });
                },
            }
        },
        OperationView::Mint(m) => {
            lemma_mint_keeps_consistent(spent, tx, m);
            match mint_outcome(spent, m) {
                Ok(_) => {},
                Err(reason) => {
                    lemma_record_invalid_distinct(s.invalid, InvalidTxView { tx, reason });
                },
            }
        },
        OperationView::Transfer(x) => {
            lemma_inscribe_keeps_consistent(spent, new_transfer(tx, x));
            match inscribe_outcome(spent, tx.owner, x) {
                Ok(_) => {},
                Err(reason) => {
                    lemma_record_invalid_distinct(s.invalid, InvalidTxView { tx, reason });
                },
            }
        },
        OperationView::Ignore => {},
    }
}

/// Every state that a stream of events leads to from the empty state is
/// consistent.
pub proof fn law_replay_consistent(events: Seq<(TxView, OperationView)>, n: int)
    requires
        n <= events.len(),
    ensures
        index_wf(replay_spec(empty_index(), events, n)),
    decreases n,
{
    if n <= 0 {
        assert(ticker_keys(Seq::<TickerView>::empty()) =~= Seq::<Seq<char>>::empty());
    } else {
        law_replay_consistent(events, n - 1);
        law_step_keeps_consistent(
            replay_spec(empty_index(), events, n - 1),
            events[n - 1].0,
            events[n - 1].1,
        );
    }
}

// ---------------------------------------------------------------------
// What holds of every consistent state
// ---------------------------------------------------------------------
/// What a ticker has minted is the sum of the amounts of its mints, and is
/// no more than its maximum supply.
pub proof fn law_minted_is_sum_of_mints(s: IndexView, k: int)
    requires
        index_wf(s),
        0 <= k < s.tickers.len(),
    ensures
        s.tickers[k].total_minted == total(mint_amounts(s.tickers[k].mints)),
        s.tickers[k].total_minted <= s.tickers[k].max_supply,
{
    assert(ticker_wf(s.tickers[k]));
}

/// The overall balance of every holder is what it received and minted less
/// what it sent.
pub proof fn law_overall_is_history(s: IndexView, k: int, h: int)
    requires
        index_wf(s),
        0 <= k < s.tickers.len(),
        0 <= h < s.tickers[k].balances.len(),
    ensures
        s.tickers[k].balances[h].balance.overall == total(
            transfer_amounts(s.tickers[k].balances[h].balance.receives),
        ) + total(mint_amounts(s.tickers[k].balances[h].balance.mints)) - total(
            transfer_amounts(s.tickers[k].balances[h].balance.sends),
        ),
{
    assert(ticker_wf(s.tickers[k]));
    assert(crate::model::balance_wf(s.tickers[k].balances[h].balance));
}

/// What a holder has locked in outstanding transfer inscriptions is the sum
/// of their amounts, and is no more than the holder's overall balance.
pub proof fn law_transferable_within_overall(s: IndexView, k: int, h: int)
    requires
        index_wf(s),
        0 <= k < s.tickers.len(),
        0 <= h < s.tickers[k].balances.len(),
    ensures
        transferable(s.tickers[k].balances[h].balance) == total(
            transfer_amounts(s.tickers[k].balances[h].balance.active),
        ),
        transferable(s.tickers[k].balances[h].balance)
            <= s.tickers[k].balances[h].balance.overall,
{
    assert(ticker_wf(s.tickers[k]));
    assert(crate::model::balance_wf(s.tickers[k].balances[h].balance));
}

/// The holders' overall balances of a ticker add up to what was minted.
pub proof fn law_balances_add_up_to_minted(s: IndexView, k: int)
    requires
        index_wf(s),
        0 <= k < s.tickers.len(),
    ensures
        total(overalls(s.tickers[k].balances)) == s.tickers[k].total_minted,
{
    assert(ticker_wf(s.tickers[k]));
}

/// Whether the inscription `j` of holder `h` of ticker `k` is outstanding.
pub open spec fn outstanding_at(s: IndexView, k: int, h: int, j: int) -> bool {
    &&& 0 <= k < s.tickers.len()
    &&& 0 <= h < s.tickers[k].balances.len()
    &&& 0 <= j < s.tickers[k].balances[h].balance.active.len()
}

pub open spec fn record_at(s: IndexView, k: int, h: int, j: int) -> TransferTxView {
    s.tickers[k].balances[h].balance.active[j]
}

/// An outstanding inscription sits with the address that inscribed it, in
/// the ticker that its payload names.
pub proof fn law_outstanding_sits_with_its_owner(s: IndexView, k: int, h: int, j: int)
    requires
        index_wf(s),
        outstanding_at(s, k, h, j),
    ensures
        record_at(s, k, h, j).inscription_tx.owner == s.tickers[k].balances[h].address,
        lowercase(record_at(s, k, h, j).script.tick) == s.tickers[k].key,
        record_at(s, k, h, j).is_valid,
        record_at(s, k, h, j).transfer_tx is None,
        outpoints(s.tickers[k].balances[h].balance.active)[j] == (
            record_at(s, k, h, j).inscription_tx.tx_id,
            record_at(s, k, h, j).inscription_tx.vout,
        ),
        position(
            outpoints(s.tickers[k].balances[h].balance.active),
            outpoint_of(record_at(s, k, h, j)),
        ) == j,
{
    assert(ticker_wf(s.tickers[k]));
    assert(crate::model::holder_owns_active(s.tickers[k].key, s.tickers[k].balances[h]));
    assert(crate::model::balance_wf(s.tickers[k].balances[h].balance));
    lemma_position_distinct(outpoints(s.tickers[k].balances[h].balance.active), j);
}

/// Where two different holdings (of different tickers, or of different
/// addresses in one ticker) have an outstanding inscription on the same
/// output, the two were inscribed by different owners or for different
/// tickers: no owner has one output outstanding twice for one ticker.
pub proof fn law_shared_outpoint_has_two_owners_or_tickers(
    s: IndexView,
    k1: int,
    h1: int,
    j1: int,
    k2: int,
    h2: int,
    j2: int,
)
    requires
        index_wf(s),
        outstanding_at(s, k1, h1, j1),
        outstanding_at(s, k2, h2, j2),
        outpoint_of(record_at(s, k1, h1, j1)) == outpoint_of(record_at(s, k2, h2, j2)),
        k1 != k2 || h1 != h2,
    ensures
        record_at(s, k1, h1, j1).inscription_tx.owner != record_at(
            s,
            k2,
            h2,
            j2,
        ).inscription_tx.owner || lowercase(record_at(s, k1, h1, j1).script.tick) != lowercase(
            record_at(s, k2, h2, j2).script.tick,
        ),
        k1 == k2 ==> record_at(s, k1, h1, j1).inscription_tx.owner != record_at(
            s,
            k2,
            h2,
            j2,
        ).inscription_tx.owner,
        k1 != k2 ==> lowercase(record_at(s, k1, h1, j1).script.tick) != lowercase(
            record_at(s, k2, h2, j2).script.tick,
        ),
{
    law_outstanding_sits_with_its_owner(s, k1, h1, j1);
    law_outstanding_sits_with_its_owner(s, k2, h2, j2);
    assert(ticker_keys(s.tickers)[k1] == s.tickers[k1].key);
    assert(ticker_keys(s.tickers)[k2] == s.tickers[k2].key);
    if k1 == k2 {
        assert(ticker_wf(s.tickers[k1]));
        let b = s.tickers[k1].balances;
        assert(addresses(b)[h1] == b[h1].address);
        assert(addresses(b)[h2] == b[h2].address);
    }
}

/// An output holds at most one outstanding inscription of one owner for
/// one ticker: two outstanding inscriptions on the same output, by the same
/// owner and for the same ticker, are one and the same.
pub proof fn law_outstanding_outpoints_unique(
    s: IndexView,
    k1: int,
    h1: int,
    j1: int,
    k2: int,
    h2: int,
    j2: int,
)
    requires
        index_wf(s),
        outstanding_at(s, k1, h1, j1),
        outstanding_at(s, k2, h2, j2),
        outpoint_of(record_at(s, k1, h1, j1)) == outpoint_of(record_at(s, k2, h2, j2)),
        record_at(s, k1, h1, j1).inscription_tx.owner == record_at(
            s,
            k2,
            h2,
            j2,
        ).inscription_tx.owner,
        lowercase(record_at(s, k1, h1, j1).script.tick) == lowercase(
            record_at(s, k2, h2, j2).script.tick,
        ),
    ensures
        k1 == k2 && h1 == h2 && j1 == j2,
{
    law_outstanding_sits_with_its_owner(s, k1, h1, j1);
    law_outstanding_sits_with_its_owner(s, k2, h2, j2);
    assert(ticker_keys(s.tickers)[k1] == s.tickers[k1].key);
    assert(ticker_keys(s.tickers)[k2] == s.tickers[k2].key);
    assert(k1 == k2);
    assert(ticker_wf(s.tickers[k1]));
    let b = s.tickers[k1].balances;
    assert(addresses(b)[h1] == b[h1].address);
    assert(addresses(b)[h2] == b[h2].address);
    assert(h1 == h2);
    assert(crate::model::balance_wf(b[h1].balance));
    let a = b[h1].balance.active;
    assert(outpoints(a)[j1] == outpoint_of(a[j1]));
    assert(outpoints(a)[j2] == outpoint_of(a[j2]));
}

/// Within one balance, no output holds two outstanding inscriptions.
pub proof fn law_outpoints_unique_in_balance(s: IndexView, k: int, h: int, j1: int, j2: int)
    requires
        index_wf(s),
        outstanding_at(s, k, h, j1),
        outstanding_at(s, k, h, j2),
        outpoint_of(record_at(s, k, h, j1)) == outpoint_of(record_at(s, k, h, j2)),
    ensures
        j1 == j2,
{
    assert(ticker_wf(s.tickers[k]));
    assert(crate::model::balance_wf(s.tickers[k].balances[h].balance));
    let a = s.tickers[k].balances[h].balance.active;
    assert(outpoints(a)[j1] == outpoint_of(a[j1]));
    assert(outpoints(a)[j2] == outpoint_of(a[j2]));
}

/// Every ticker is registered under the lowercase form of its symbol, which
/// has four characters, and no key is registered twice.
pub proof fn law_keys_are_lowercase_symbols(s: IndexView, k: int, other: int)
    requires
        index_wf(s),
        0 <= k < s.tickers.len(),
        0 <= other < s.tickers.len(),
    ensures
        s.tickers[k].key == lowercase(s.tickers[k].tick),
        s.tickers[k].tick.len() == 4,
        other != k ==> s.tickers[other].key != s.tickers[k].key,
        position(ticker_keys(s.tickers), s.tickers[k].key) == k,
{
    assert(ticker_wf(s.tickers[k]));
    assert(ticker_keys(s.tickers)[k] == s.tickers[k].key);
    assert(ticker_keys(s.tickers)[other] == s.tickers[other].key);
    lemma_position_distinct(ticker_keys(s.tickers), k);
}

/// A rejected payload changes no ticker and no balance: it only adds the
/// event to the rejected ones.
pub proof fn law_rejected_changes_no_ticker(
    t: Seq<TickerView>,
    invalid: Seq<InvalidTxView>,
    tx: TxView,
    op: OperationView,
)
    requires
        payload_outcome(t, tx, op) == Outcome::Rejected,
    ensures
        payload_tickers(t, tx, op) == t,
        payload_invalid(t, tx, op, invalid).len() >= invalid.len(),
        exists|i: int|
            0 <= i < payload_invalid(t, tx, op, invalid).len() && (#[trigger] payload_invalid(
                t,
                tx,
                op,
                invalid,
            )[i]).tx == tx,
{
    let after = payload_invalid(t, tx, op, invalid);
    crate::tx::lemma_invalid_position(invalid, tx.tx_id);
    let p = crate::tx::invalid_position(invalid, tx.tx_id);
    assert(after[p].tx == tx);
}

/// An accepted or ignored payload adds nothing to the rejected events.
pub proof fn law_only_rejections_are_recorded(
    t: Seq<TickerView>,
    invalid: Seq<InvalidTxView>,
    tx: TxView,
    op: OperationView,
)
    requires
        payload_outcome(t, tx, op) != Outcome::Rejected,
    ensures
        payload_invalid(t, tx, op, invalid) == invalid,
{
}

// ---------------------------------------------------------------------
// Events on different tickers
// ---------------------------------------------------------------------
/// The key of the ticker that a payload names.
pub open spec fn payload_key(op: OperationView) -> Option<Seq<char>> {
    match op {
        OperationView::Deploy(d) => Some(lowercase(d.tick)),
        OperationView::Mint(m) => Some(lowercase(m.tick)),
        OperationView::Transfer(x) => Some(lowercase(x.tick)),
        OperationView::Ignore => None,
    }
}

/// Two payloads are independent: they do not name the same ticker.
pub open spec fn independent(a: OperationView, b: OperationView) -> bool {
    match (payload_key(a), payload_key(b)) {
        (Some(x), Some(y)) => x != y,
        _ => true,
    }
}

/// A transaction completes no transfer in a state.
pub open spec fn completes_nothing(t: Seq<TickerView>, tx: TxView) -> bool {
    spend_inputs(t, tx, tx.inputs.len() as int) == t
}

/// A key that is not the last of a list is found in the list without its
/// last element where it is found at all, and at the same place.
pub proof fn lemma_position_push<K>(keys: Seq<K>, last: K, key: K)
    requires
        last != key,
    ensures
        position(keys.push(last), key) < keys.len() + 1 <==> position(keys, key) < keys.len(),
        position(keys, key) < keys.len() ==> position(keys.push(last), key) == position(
            keys,
            key,
        ),
{
    lemma_position(keys, key);
    let p = position(keys, key);
    if p < keys.len() {
        crate::seqs::lemma_position_is(keys.push(last), key, p);
    } else {
        crate::seqs::lemma_position_is(keys.push(last), key, keys.len() as int + 1);
    }
}

/// A payload leaves alone every ticker that it does not name: such a
/// ticker is registered after it if and only if it was before, at the same
/// place and with the same contents.
pub proof fn lemma_payload_frame(t: Seq<TickerView>, tx: TxView, op: OperationView, key: Seq<char>)
    requires
        payload_key(op) != Some(key),
    ensures
        crate::seqs::has_key(ticker_keys(payload_tickers(t, tx, op)), key) == crate::seqs::has_key(
            ticker_keys(t),
            key,
        ),
        crate::seqs::has_key(ticker_keys(t), key) ==> position(
            ticker_keys(payload_tickers(t, tx, op)),
            key,
        ) == position(ticker_keys(t), key) && payload_tickers(t, tx, op)[position(
            ticker_keys(t),
            key,
        )] == t[position(ticker_keys(t), key)],
{
    let after = payload_tickers(t, tx, op);
    let keys = ticker_keys(t);
    lemma_position(keys, key);
    let p = position(keys, key);
    match op {
        OperationView::Deploy(d) => {
            if after != t {
                let fresh = new_ticker(deploy_record(keys, new_deploy(tx, d)));
                assert(ticker_keys(after) =~= keys.push(fresh.key));
                lemma_position_push(keys, fresh.key, key);
            }
        },
        OperationView::Mint(m) => {
            let k = position(keys, lowercase(m.tick));
            lemma_position(keys, lowercase(m.tick));
            if mint_outcome(t, m) is Ok {
                assert(keys[k] == t[k].key);
                assert(ticker_keys(after) =~= keys);
            }
        },
        OperationView::Transfer(x) => {
            let k = position(keys, lowercase(x.tick));
            lemma_position(keys, lowercase(x.tick));
            if inscribe_outcome(t, tx.owner, x) is Ok {
                assert(keys[k] == t[k].key);
                assert(ticker_keys(after) =~= keys);
            }
        },
        OperationView::Ignore => {},
    }
}

/// A payload fares the same whether or not an independent payload was
/// applied before it.
pub proof fn law_independent_outcome(
    t: Seq<TickerView>,
    tx1: TxView,
    op1: OperationView,
    tx2: TxView,
    op2: OperationView,
)
    requires
        independent(op1, op2),
    ensures
        payload_outcome(payload_tickers(t, tx1, op1), tx2, op2) == payload_outcome(t, tx2, op2),
        payload_invalid(payload_tickers(t, tx1, op1), tx2, op2, Seq::empty()) == payload_invalid(
            t,
            tx2,
            op2,
            Seq::empty(),
        ),
{
    match payload_key(op2) {
        Some(key) => {
            lemma_payload_frame(t, tx1, op1, key);
        },
        None => {},
    }
}

/// Two independent payloads, of which at most one is a deploy, lead to the
/// same tickers and balances in either order.
pub proof fn law_independent_payloads_commute(
    t: Seq<TickerView>,
    tx1: TxView,
    op1: OperationView,
    tx2: TxView,
    op2: OperationView,
)
    requires
        independent(op1, op2),
        !(op1 is Deploy && op2 is Deploy),
    ensures
        payload_tickers(payload_tickers(t, tx1, op1), tx2, op2) == payload_tickers(
            payload_tickers(t, tx2, op2),
            tx1,
            op1,
        ),
{
    let keys = ticker_keys(t);
    let t1 = payload_tickers(t, tx1, op1);
    let t2 = payload_tickers(t, tx2, op2);
    match payload_key(op2) {
        Some(key) => {
            lemma_payload_frame(t, tx1, op1, key);
            lemma_position(keys, key);
        },
        None => {},
    }
    match payload_key(op1) {
        Some(key) => {
            lemma_payload_frame(t, tx2, op2, key);
            lemma_position(keys, key);
        },
        None => {},
    }
    law_independent_outcome(t, tx1, op1, tx2, op2);
    law_independent_outcome(t, tx2, op2, tx1, op1);
    if t1 == t {
    } else if t2 == t {
    } else {
        lemma_keys_after_payload(t, tx1, op1);
        lemma_keys_after_payload(t, tx2, op2);
        assert(payload_tickers(t1, tx2, op2) =~= payload_tickers(t2, tx1, op1));
    }
}

/// A payload that is no deploy keeps the keys of the registry; an accepted
/// deploy adds its key at the end.
pub proof fn lemma_keys_after_payload(t: Seq<TickerView>, tx: TxView, op: OperationView)
    ensures
        !(op is Deploy) ==> ticker_keys(payload_tickers(t, tx, op)) == ticker_keys(t),
        op is Deploy ==> payload_tickers(t, tx, op) == t || payload_tickers(t, tx, op)
            == t.push(new_ticker(deploy_record(ticker_keys(t), new_deploy(tx, op->Deploy_0)))),
{
    let keys = ticker_keys(t);
    let after = payload_tickers(t, tx, op);
    match op {
        OperationView::Mint(m) => {
            lemma_position(keys, lowercase(m.tick));
            assert(ticker_keys(after) =~= keys);
        },
        OperationView::Transfer(x) => {
            lemma_position(keys, lowercase(x.tick));
            assert(ticker_keys(after) =~= keys);
        },
        _ => {},
    }
}

/// Two events that complete no transfer and whose payloads are
/// independent, at most one of them a deploy, lead to the same tickers and
/// balances in either order; and to the same rejected events unless both
/// are rejected.
pub proof fn law_independent_events_commute(
    s: IndexView,
    tx1: TxView,
    op1: OperationView,
    tx2: TxView,
    op2: OperationView,
)
    requires
        independent(op1, op2),
        !(op1 is Deploy && op2 is Deploy),
        completes_nothing(s.tickers, tx1),
        completes_nothing(s.tickers, tx2),
        completes_nothing(payload_tickers(s.tickers, tx1, op1), tx2),
        completes_nothing(payload_tickers(s.tickers, tx2, op2), tx1),
    ensures
        step(step(s, tx1, op1), tx2, op2).tickers == step(step(s, tx2, op2), tx1, op1).tickers,
        !(payload_outcome(s.tickers, tx1, op1) == Outcome::Rejected && payload_outcome(
            s.tickers,
            tx2,
            op2,
        ) == Outcome::Rejected) ==> step(step(s, tx1, op1), tx2, op2) == step(
            step(s, tx2, op2),
            tx1,
            op1,
        ),
{
    law_independent_payloads_commute(s.tickers, tx1, op1, tx2, op2);
    lemma_independent_invalid(s.tickers, s.invalid, tx1, op1, tx2, op2);
    lemma_independent_invalid(s.tickers, s.invalid, tx2, op2, tx1, op1);
    lemma_independent_invalid(
        s.tickers,
        payload_invalid(s.tickers, tx1, op1, s.invalid),
        tx1,
        op1,
        tx2,
        op2,
    );
    lemma_independent_invalid(
        s.tickers,
        payload_invalid(s.tickers, tx2, op2, s.invalid),
        tx2,
        op2,
        tx1,
        op1,
    );
}

/// The ticker registered under `key`, if there is one.
pub open spec fn registered(t: Seq<TickerView>, key: Seq<char>) -> Option<TickerView> {
    let k = position(ticker_keys(t), key);
    if k < t.len() {
        Some(t[k])
    } else {
        None
    }
}

/// Two deploys of different tickers register the same tickers in either
/// order: under every key the same ticker is found, or none. Only the order
/// in which the registry lists them differs.
pub proof fn law_independent_deploys_commute(
    t: Seq<TickerView>,
    tx1: TxView,
    d1: DeployView,
    tx2: TxView,
    d2: DeployView,
    key: Seq<char>,
)
    requires
        lowercase(d1.tick) != lowercase(d2.tick),
    ensures
        registered(deploy_tickers(deploy_tickers(t, tx1, d1), tx2, d2), key) == registered(
            deploy_tickers(deploy_tickers(t, tx2, d2), tx1, d1),
            key,
        ),
        deploy_tickers(deploy_tickers(t, tx1, d1), tx2, d2).len() == deploy_tickers(
            deploy_tickers(t, tx2, d2),
            tx1,
            d1,
        ).len(),
{
    let keys = ticker_keys(t);
    let k1 = lowercase(d1.tick);
    let k2 = lowercase(d2.tick);
    let t1 = deploy_tickers(t, tx1, d1);
    let t2 = deploy_tickers(t, tx2, d2);
    let n1 = new_ticker(deploy_record(keys, new_deploy(tx1, d1)));
    let n2 = new_ticker(deploy_record(keys, new_deploy(tx2, d2)));
    lemma_position(keys, k1);
    lemma_position(keys, k2);
    lemma_position(keys, key);
    lemma_position_push(keys, k1, k2);
    lemma_position_push(keys, k2, k1);
    if deploy_decision(keys, d1) is Ok {
        assert(ticker_keys(t1) =~= keys.push(k1));
    }
    if deploy_decision(keys, d2) is Ok {
        assert(ticker_keys(t2) =~= keys.push(k2));
    }
    let ta = deploy_tickers(t1, tx2, d2);
    let tb = deploy_tickers(t2, tx1, d1);
    if deploy_decision(keys, d1) is Ok && deploy_decision(keys, d2) is Ok {
        assert(ta =~= t.push(n1).push(n2));
        assert(tb =~= t.push(n2).push(n1));
        let ka = keys.push(k1).push(k2);
        let kb = keys.push(k2).push(k1);
        assert(ticker_keys(ta) =~= ka);
        assert(ticker_keys(tb) =~= kb);
        let n = keys.len() as int;
        if position(keys, key) < n {
            crate::seqs::lemma_position_is(ka, key, position(keys, key));
            crate::seqs::lemma_position_is(kb, key, position(keys, key));
        } else if key == k1 {
            crate::seqs::lemma_position_is(ka, key, n);
            crate::seqs::lemma_position_is(kb, key, n + 1);
        } else if key == k2 {
            crate::seqs::lemma_position_is(ka, key, n + 1);
            crate::seqs::lemma_position_is(kb, key, n);
        } else {
            crate::seqs::lemma_position_is(ka, key, n + 2);
            crate::seqs::lemma_position_is(kb, key, n + 2);
        }
    } else {
        assert(ta =~= tb);
    }
}

/// What a payload adds to the rejected events does not depend on whether
/// an independent payload was applied to the tickers before it.
pub proof fn lemma_independent_invalid(
    t: Seq<TickerView>,
    invalid: Seq<InvalidTxView>,
    tx1: TxView,
    op1: OperationView,
    tx2: TxView,
    op2: OperationView,
)
    requires
        independent(op1, op2),
    ensures
        payload_invalid(payload_tickers(t, tx1, op1), tx2, op2, invalid) == payload_invalid(
            t,
            tx2,
            op2,
            invalid,
        ),
        payload_outcome(payload_tickers(t, tx1, op1), tx2, op2) == payload_outcome(t, tx2, op2),
        payload_outcome(t, tx2, op2) != Outcome::Rejected ==> payload_invalid(t, tx2, op2, invalid)
            == invalid,
{
    match payload_key(op2) {
        Some(key) => {
            lemma_payload_frame(t, tx1, op1, key);
        },
        None => {},
    }
}

/// The rejection recorded for transaction `txid`, if there is one.
pub open spec fn rejection_of(s: Seq<InvalidTxView>, txid: Seq<char>) -> Option<InvalidTxView> {
    let p = invalid_position(s, txid);
    if p < s.len() {
        Some(s[p])
    } else {
        None
    }
}

/// After a rejection was recorded, it is what is found for its
/// transaction, and what is found for every other transaction is as before.
pub proof fn lemma_rejection_after_record(
    s: Seq<InvalidTxView>,
    entry: InvalidTxView,
    txid: Seq<char>,
)
    ensures
        rejection_of(record_invalid(s, entry), txid) == (if txid == entry.tx.tx_id {
            Some(entry)
        } else {
            rejection_of(s, txid)
        }),
{
    let t = record_invalid(s, entry);
    let p = invalid_position(s, entry.tx.tx_id);
    let q = invalid_position(s, txid);
    lemma_invalid_position(s, entry.tx.tx_id);
    lemma_invalid_position(s, txid);
    if txid == entry.tx.tx_id {
        lemma_invalid_position_is(t, txid, p);
    } else if q < s.len() {
        lemma_invalid_position_is(t, txid, q);
    } else {
        lemma_invalid_position_is(t, txid, t.len() as int);
    }
}

/// Two rejections of different transactions can be recorded in either
/// order: for every transaction the same rejection is found afterwards.
/// Only the order in which the registry lists them differs.
pub proof fn law_rejections_commute(
    s: Seq<InvalidTxView>,
    a: InvalidTxView,
    b: InvalidTxView,
    txid: Seq<char>,
)
    requires
        a.tx.tx_id != b.tx.tx_id,
    ensures
        rejection_of(record_invalid(record_invalid(s, a), b), txid) == rejection_of(
            record_invalid(record_invalid(s, b), a),
            txid,
        ),
{
    lemma_rejection_after_record(s, a, txid);
    lemma_rejection_after_record(s, b, txid);
    lemma_rejection_after_record(record_invalid(s, a), b, txid);
    lemma_rejection_after_record(record_invalid(s, b), a, txid);
}

/// The tickers as a map from key to ticker: what a lookup by key sees.
pub open spec fn tickers_by_key(t: Seq<TickerView>) -> Map<Seq<char>, TickerView> {
    Map::new(
        |key: Seq<char>| registered(t, key) is Some,
        |key: Seq<char>| registered(t, key)->Some_0,
    )
}

/// The rejected events as a map from transaction id to rejection.
pub open spec fn rejections_by_txid(s: Seq<InvalidTxView>) -> Map<Seq<char>, InvalidTxView> {
    Map::new(
        |txid: Seq<char>| rejection_of(s, txid) is Some,
        |txid: Seq<char>| rejection_of(s, txid)->Some_0,
    )
}

/// The rejection that a payload leads to, if it is rejected.
pub open spec fn payload_rejection(t: Seq<TickerView>, tx: TxView, op: OperationView) -> Option<
    InvalidTxView,
> {
    match op {
        OperationView::Deploy(d) => match deploy_decision(ticker_keys(t), d) {
            Ok(_) => None,
            Err(reason) => Some(InvalidTxView { tx, reason }),
        },
        OperationView::Mint(m) => match mint_outcome(t, m) {
            Ok(_) => None,
            Err(reason) => Some(InvalidTxView { tx, reason }),
        },
        OperationView::Transfer(x) => match inscribe_outcome(t, tx.owner, x) {
            Ok(_) => None,
            Err(reason) => Some(InvalidTxView { tx, reason }),
        },
        OperationView::Ignore => None,
    }
}

/// What a payload does to the rejected events is to record its rejection,
/// if it is rejected, under its own transaction.
pub proof fn lemma_payload_invalid_is_record(
    t: Seq<TickerView>,
    tx: TxView,
    op: OperationView,
    invalid: Seq<InvalidTxView>,
)
    ensures
        payload_invalid(t, tx, op, invalid) == (match payload_rejection(t, tx, op) {
            Some(entry) => record_invalid(invalid, entry),
            None => invalid,
        }),
        payload_rejection(t, tx, op) is Some ==> payload_rejection(t, tx, op)->Some_0.tx == tx,
        payload_rejection(t, tx, op) is Some <==> payload_outcome(t, tx, op) == Outcome::Rejected,
{
}

/// Whether and why a payload is rejected does not depend on whether an
/// independent payload was applied before it.
pub proof fn lemma_independent_rejection(
    t: Seq<TickerView>,
    tx1: TxView,
    op1: OperationView,
    tx2: TxView,
    op2: OperationView,
)
    requires
        independent(op1, op2),
    ensures
        payload_rejection(payload_tickers(t, tx1, op1), tx2, op2) == payload_rejection(
            t,
            tx2,
            op2,
        ),
{
    match payload_key(op2) {
        Some(key) => {
            lemma_payload_frame(t, tx1, op1, key);
        },
        None => {},
    }
}

/// Two events of different transactions that complete no transfer and
/// whose payloads are independent lead, in either order, to states in which
/// every key has the same ticker, with the same balances, and every
/// transaction the same rejection. This holds of two deploys and of two
/// rejections too, where only the order of the two in the lists differs.
pub proof fn law_independent_events_commute_by_key(
    s: IndexView,
    tx1: TxView,
    op1: OperationView,
    tx2: TxView,
    op2: OperationView,
)
    requires
        independent(op1, op2),
        tx1.tx_id != tx2.tx_id,
        completes_nothing(s.tickers, tx1),
        completes_nothing(s.tickers, tx2),
        completes_nothing(payload_tickers(s.tickers, tx1, op1), tx2),
        completes_nothing(payload_tickers(s.tickers, tx2, op2), tx1),
    ensures
        tickers_by_key(step(step(s, tx1, op1), tx2, op2).tickers) == tickers_by_key(
            step(step(s, tx2, op2), tx1, op1).tickers,
        ),
        rejections_by_txid(step(step(s, tx1, op1), tx2, op2).invalid) == rejections_by_txid(
            step(step(s, tx2, op2), tx1, op1).invalid,
        ),
        step(step(s, tx1, op1), tx2, op2).tickers.len() == step(
            step(s, tx2, op2),
            tx1,
            op1,
        ).tickers.len(),
{
    let t = s.tickers;
    let a = step(step(s, tx1, op1), tx2, op2);
    let b = step(step(s, tx2, op2), tx1, op1);
    let t1 = payload_tickers(t, tx1, op1);
    let t2 = payload_tickers(t, tx2, op2);
    assert(a.tickers == payload_tickers(t1, tx2, op2));
    assert(b.tickers == payload_tickers(t2, tx1, op1));
    assert forall|key: Seq<char>| registered(a.tickers, key) == registered(b.tickers, key) by {
        match (op1, op2) {
            (OperationView::Deploy(d1), OperationView::Deploy(d2)) => {
                law_independent_deploys_commute(t, tx1, d1, tx2, d2, key);
            },
            _ => {
                law_independent_payloads_commute(t, tx1, op1, tx2, op2);
            },
        }
    }
    assert(tickers_by_key(a.tickers) =~= tickers_by_key(b.tickers));
    match (op1, op2) {
        (OperationView::Deploy(d1), OperationView::Deploy(d2)) => {
            law_independent_deploys_commute(t, tx1, d1, tx2, d2, Seq::empty());
        },
        _ => {
            law_independent_payloads_commute(t, tx1, op1, tx2, op2);
        },
    }
    lemma_independent_rejection(t, tx1, op1, tx2, op2);
    lemma_independent_rejection(t, tx2, op2, tx1, op1);
    let i1 = payload_invalid(t, tx1, op1, s.invalid);
    let i2 = payload_invalid(t, tx2, op2, s.invalid);
    lemma_payload_invalid_is_record(t, tx1, op1, s.invalid);
    lemma_payload_invalid_is_record(t, tx2, op2, s.invalid);
    lemma_payload_invalid_is_record(t1, tx2, op2, i1);
    lemma_payload_invalid_is_record(t2, tx1, op1, i2);
    assert(a.invalid == payload_invalid(t1, tx2, op2, i1));
    assert(b.invalid == payload_invalid(t2, tx1, op1, i2));
    assert forall|txid: Seq<char>| rejection_of(a.invalid, txid) == rejection_of(
        b.invalid,
        txid,
    ) by {
        match (payload_rejection(t, tx1, op1), payload_rejection(t, tx2, op2)) {
            (Some(e1), Some(e2)) => {
                law_rejections_commute(s.invalid, e1, e2, txid);
            },
            _ => {},
        }
    }
    assert(rejections_by_txid(a.invalid) =~= rejections_by_txid(b.invalid));
}

/// Two events may change places: they complete no transfer in the states
/// concerned, their payloads are independent, they are not both deploys
/// and not both rejected.
pub open spec fn may_change_places(
    s: IndexView,
    first: (TxView, OperationView),
    second: (TxView, OperationView),
) -> bool {
    &&& independent(first.1, second.1)
    &&& !(first.1 is Deploy && second.1 is Deploy)
    &&& !(payload_outcome(s.tickers, first.0, first.1) == Outcome::Rejected && payload_outcome(
        s.tickers,
        second.0,
        second.1,
    ) == Outcome::Rejected)
    &&& completes_nothing(s.tickers, first.0)
    &&& completes_nothing(s.tickers, second.0)
    &&& completes_nothing(payload_tickers(s.tickers, first.0, first.1), second.0)
    &&& completes_nothing(payload_tickers(s.tickers, second.0, second.1), first.0)
}

/// The stream with the events at `i` and `i + 1` in each other's place.
pub open spec fn swapped(events: Seq<(TxView, OperationView)>, i: int) -> Seq<
    (TxView, OperationView),
> {
    events.update(i, events[i + 1]).update(i + 1, events[i])
}

/// The state after the first `n` events depends on those events alone.
pub proof fn lemma_replay_prefix(
    a: Seq<(TxView, OperationView)>,
    b: Seq<(TxView, OperationView)>,
    n: int,
)
    requires
        n <= a.len(),
        n <= b.len(),
        forall|j: int| 0 <= j < n ==> a[j] == b[j],
    ensures
        replay_spec(empty_index(), a, n) == replay_spec(empty_index(), b, n),
    decreases n,
{
    if n > 0 {
        lemma_replay_prefix(a, b, n - 1);
    }
}

/// Where two neighbouring events of a stream may change places in the
/// state that the events before them lead to, the stream and the stream
/// with the two in each other's place lead to the same state: the same
/// tickers, balances and rejected events, after the two and after every
/// event that follows them.
pub proof fn law_independent_events_swap(events: Seq<(TxView, OperationView)>, i: int, n: int)
    requires
        0 <= i,
        i + 2 <= n <= events.len(),
        may_change_places(replay_spec(empty_index(), events, i), events[i], events[i + 1]),
    ensures
        replay_spec(empty_index(), swapped(events, i), n) == replay_spec(
            empty_index(),
            events,
            n,
        ),
    decreases n,
{
    let other = swapped(events, i);
    if n == i + 2 {
        lemma_replay_prefix(other, events, i);
        let s = replay_spec(empty_index(), events, i);
        assert(replay_spec(empty_index(), events, i + 1) == step(s, events[i].0, events[i].1));
        assert(replay_spec(empty_index(), other, i + 1) == step(s, other[i].0, other[i].1));
        assert(other[i] == events[i + 1]);
        assert(other[i + 1] == events[i]);
        law_independent_events_commute(
            s,
            events[i].0,
            events[i].1,
            events[i + 1].0,
            events[i + 1].1,
        );
    } else {
        law_independent_events_swap(events, i, n - 1);
        assert(other[n - 1] == events[n - 1]);
    }
}

/// A number of base units, written in decimal digits, decodes to itself
/// for a token without decimals.
pub proof fn law_written_amount_decodes(n: u128)
    ensures
        decode_spec(decimal_digits(n as nat), 0) == Ok::<u128, AmountError>(n),
{
    let s = decimal_digits(n as nat);
    lemma_decimal_digits_value(n as nat);
    assert(is_digit(s[0]));
    assert(!has_point(s)) by {
        if has_point(s) {
            let i = choose|i: int| 0 <= i < s.len() && #[trigger] s[i] == '.';
            assert(is_digit(s[i]));
        }
    }
    assert(integer_part(s) =~= s);
    assert(integer_part(s) + fraction_part(s) =~= s);
    assert(pow10(0) == 1);
    assert(base_units(s, 0) == n) by (nonlinear_arith)
        requires
            base_units(s, 0) == digits_value(s) * pow10(0),
            pow10(0) == 1,
            digits_value(s) == n,
    ;
}

/// Replaying a stream is a function of the stream: the same events, in the
/// same order, from the empty state, lead to the same tickers, balances and
/// rejected events.
pub proof fn law_replay_is_deterministic(
    first: Seq<(TxView, OperationView)>,
    second: Seq<(TxView, OperationView)>,
)
    requires
        first =~= second,
    ensures
        replay_spec(empty_index(), first, first.len() as int) == replay_spec(
            empty_index(),
            second,
            second.len() as int,
        ),
{
}

} // verus!
