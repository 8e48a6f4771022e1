//! The ledger as mathematics: what each record, balance and ticker holds,
//! which states are consistent, and how each operation changes the state.

use crate::amount::{decode_spec, digits_value, is_digit, AmountError};
use crate::payload::{lowercase, AmountScriptView, DeployView};
use crate::seqs::{distinct, has_key, position, total};
use crate::tx::{record_invalid, InvalidTxView, TxView};
use vstd::prelude::*;

verus! {

pub struct DeployTxView {
    pub max_supply: u128,
    pub limit: u128,
    pub decimals: u8,
    pub tx: TxView,
    pub script: DeployView,
    pub is_valid: bool,
}

pub struct MintTxView {
    pub tx: TxView,
    pub script: AmountScriptView,
    pub amount: u128,
    pub adjusted: bool,
    pub is_valid: bool,
}

pub struct TransferTxView {
    pub inscription_tx: TxView,
    pub transfer_tx: Option<TxView>,
    pub script: AmountScriptView,
    pub amount: u128,
    pub receiver: Option<Seq<char>>,
    pub is_valid: bool,
}

pub struct BalanceView {
    pub overall: u128,
    pub active: Seq<TransferTxView>,
    pub sends: Seq<TransferTxView>,
    pub receives: Seq<TransferTxView>,
    pub mints: Seq<MintTxView>,
}

pub struct HolderView {
    pub address: Seq<char>,
    pub balance: BalanceView,
}

pub struct TickerView {
    pub tick: Seq<char>,
    pub key: Seq<char>,
    pub limit: u128,
    pub max_supply: u128,
    pub total_minted: u128,
    pub decimals: u8,
    pub deploy_tx: DeployTxView,
    pub mints: Seq<MintTxView>,
    pub transfers: Seq<TransferTxView>,
    pub balances: Seq<HolderView>,
}

pub struct IndexView {
    pub tickers: Seq<TickerView>,
    pub invalid: Seq<InvalidTxView>,
}

// ---------------------------------------------------------------------
// Readings of sequences
// ---------------------------------------------------------------------
pub open spec fn mint_amounts(s: Seq<MintTxView>) -> Seq<nat> {
    Seq::new(s.len(), |i: int| s[i].amount as nat)
}

pub open spec fn transfer_amounts(s: Seq<TransferTxView>) -> Seq<nat> {
    Seq::new(s.len(), |i: int| s[i].amount as nat)
}

pub open spec fn overalls(b: Seq<HolderView>) -> Seq<nat> {
    Seq::new(b.len(), |i: int| b[i].balance.overall as nat)
}

pub open spec fn addresses(b: Seq<HolderView>) -> Seq<Seq<char>> {
    Seq::new(b.len(), |i: int| b[i].address)
}

/// The output on which a transfer inscription sits.
pub open spec fn outpoint_of(t: TransferTxView) -> (Seq<char>, u32) {
    (t.inscription_tx.tx_id, t.inscription_tx.vout)
}

pub open spec fn outpoints(s: Seq<TransferTxView>) -> Seq<(Seq<char>, u32)> {
    Seq::new(s.len(), |i: int| outpoint_of(s[i]))
}

pub open spec fn ticker_keys(t: Seq<TickerView>) -> Seq<Seq<char>> {
    Seq::new(t.len(), |i: int| t[i].key)
}

// ---------------------------------------------------------------------
// Consistent states
// ---------------------------------------------------------------------
/// What is locked in outstanding transfer inscriptions.
pub open spec fn transferable(b: BalanceView) -> nat {
    total(transfer_amounts(b.active))
}

/// What can still be inscribed for transfer.
pub open spec fn available(b: BalanceView) -> int {
    b.overall - transferable(b)
}

pub open spec fn empty_balance() -> BalanceView {
    BalanceView {
        overall: 0,
        active: Seq::empty(),
        sends: Seq::empty(),
        receives: Seq::empty(),
        mints: Seq::empty(),
    }
}

/// A balance is what was received and minted less what was sent; no more is
/// locked than is there; and no output holds two outstanding inscriptions.
pub open spec fn balance_wf(b: BalanceView) -> bool {
    &&& b.overall + total(transfer_amounts(b.sends)) == total(transfer_amounts(b.receives))
        + total(mint_amounts(b.mints))
    &&& transferable(b) <= b.overall
    &&& distinct(outpoints(b.active))
}

/// Every outstanding inscription of a holder was inscribed by that holder
/// for this ticker, and is neither spent nor rejected.
pub open spec fn holder_owns_active(key: Seq<char>, h: HolderView) -> bool {
    forall|j: int|
        0 <= j < h.balance.active.len() ==> {
            &&& (#[trigger] h.balance.active[j]).inscription_tx.owner == h.address
            &&& lowercase(h.balance.active[j].script.tick) == key
            &&& h.balance.active[j].is_valid
            &&& h.balance.active[j].transfer_tx is None
        }
}

pub open spec fn ticker_wf(t: TickerView) -> bool {
    &&& t.tick.len() == 4
    &&& t.key == lowercase(t.tick)
    &&& 0 < t.limit <= t.max_supply
    &&& t.decimals <= 18
    &&& t.total_minted == total(mint_amounts(t.mints))
    &&& t.total_minted <= t.max_supply
    &&& distinct(addresses(t.balances))
    &&& total(overalls(t.balances)) == t.total_minted
    &&& forall|i: int|
        0 <= i < t.balances.len() ==> balance_wf((#[trigger] t.balances[i]).balance)
            && holder_owns_active(t.key, t.balances[i])
}

pub open spec fn tickers_wf(t: Seq<TickerView>) -> bool {
    &&& distinct(ticker_keys(t))
    &&& forall|i: int| 0 <= i < t.len() ==> ticker_wf(#[trigger] t[i])
}

// ---------------------------------------------------------------------
// Reasons for rejection
// ---------------------------------------------------------------------
pub open spec fn amount_error_text(e: AmountError) -> Seq<char> {
    match e {
        AmountError::Empty => "Amount is empty"@,
        AmountError::NotNumeric => "Amount is not a number"@,
        AmountError::MultiplePoints => "Amount has more than one decimal point"@,
        AmountError::TooManyDecimals => "Amount has more decimals than the ticker"@,
        AmountError::Overflow => "Amount is too large"@,
    }
}

// ---------------------------------------------------------------------
// Deploy
// ---------------------------------------------------------------------
/// What is left of the text of an integer once one leading `+` is taken
/// off.
pub open spec fn without_plus(s: Seq<char>) -> Seq<char> {
    if s.len() > 0 && s[0] == '+' {
        s.subrange(1, s.len() as int)
    } else {
        s
    }
}

/// The number from 0 to 18 that a run of decimal digits writes; nothing
/// where the run is empty, holds anything but digits, or writes more.
pub open spec fn small_number(s: Seq<char>) -> Option<u8> {
    if s.len() > 0 && (forall|i: int| 0 <= i < s.len() ==> is_digit(#[trigger] s[i]))
        && digits_value(s) <= 18 {
        Some(digits_value(s) as u8)
    } else {
        None
    }
}

/// The decimals that a deploy asks for: 18 where it names none. What it
/// names is read as an unsigned integer is written: one `+` may come first,
/// then at least one decimal digit and nothing else; leading zeros count
/// for nothing. It is nothing where the text is not of that form or writes
/// more than 18.
pub open spec fn decimals_spec(dec: Option<Seq<char>>) -> Option<u8> {
    match dec {
        None => Some(18u8),
        Some(s) => small_number(without_plus(s)),
    }
}

/// The limit of a deploy with supply `max`: `max` where no limit is named
/// or the named one is zero.
pub open spec fn limit_spec(lim: Option<Seq<char>>, decimals: u8, max: u128) -> Result<
    u128,
    Seq<char>,
> {
    match lim {
        None => Ok(max),
        Some(l) => match decode_spec(l, decimals as nat) {
            Err(e) => Err(amount_error_text(e)),
            Ok(v) => if v == 0 {
                Ok(max)
            } else if v > max {
                Err("Limit must be less than or equal to max supply"@)
            } else {
                Ok(v)
            },
        },
    }
}

/// The parameters `(max_supply, limit, decimals)` of the ticker that a
/// deploy creates, or the first reason for which it creates none.
pub open spec fn deploy_decision(keys: Seq<Seq<char>>, d: DeployView) -> Result<
    (u128, u128, u8),
    Seq<char>,
> {
    if d.tick.len() != 4 {
        Err("Ticker symbol must be 4 characters long"@)
    } else if has_key(keys, lowercase(d.tick)) {
        Err("Ticker symbol already exists"@)
    } else {
        match decimals_spec(d.dec) {
            None => Err("Decimals must be 18 or less"@),
            Some(decimals) => match decode_spec(d.max, decimals as nat) {
                Err(e) => Err(amount_error_text(e)),
                Ok(max) => if max == 0 {
                    Err("Max supply must be greater than 0"@)
                } else {
                    match limit_spec(d.lim, decimals, max) {
                        Err(r) => Err(r),
                        Ok(limit) => Ok((max, limit, decimals)),
                    }
                },
            },
        }
    }
}

/// The deploy record before validation.
pub open spec fn new_deploy(tx: TxView, script: DeployView) -> DeployTxView {
    DeployTxView { max_supply: 0, limit: 0, decimals: 18, tx, script, is_valid: false }
}

/// The deploy record after validation against the registered keys.
pub open spec fn deploy_record(keys: Seq<Seq<char>>, d: DeployTxView) -> DeployTxView {
    match deploy_decision(keys, d.script) {
        Ok((max, limit, decimals)) => DeployTxView {
            max_supply: max,
            limit,
            decimals,
            is_valid: true,
            ..d
        },
        Err(_) => DeployTxView { is_valid: false, ..d },
    }
}

/// The registry of rejected events after a deploy was validated.
pub open spec fn deploy_invalid(
    keys: Seq<Seq<char>>,
    d: DeployTxView,
    invalid: Seq<InvalidTxView>,
) -> Seq<InvalidTxView> {
    match deploy_decision(keys, d.script) {
        Ok(_) => invalid,
        Err(reason) => record_invalid(invalid, InvalidTxView { tx: d.tx, reason }),
    }
}

/// The parameters of a deploy record are those of a ticker.
pub open spec fn deploy_params_ok(d: DeployTxView) -> bool {
    &&& d.script.tick.len() == 4
    &&& 0 < d.limit <= d.max_supply
    &&& d.decimals <= 18
}

/// The ticker that a deploy record creates.
pub open spec fn new_ticker(d: DeployTxView) -> TickerView {
    TickerView {
        tick: d.script.tick,
        key: lowercase(d.script.tick),
        limit: d.limit,
        max_supply: d.max_supply,
        total_minted: 0,
        decimals: d.decimals,
        deploy_tx: d,
        mints: Seq::empty(),
        transfers: Seq::empty(),
        balances: Seq::empty(),
    }
}

/// The tickers after a deploy: the new ticker comes last where the deploy
/// is accepted, and nothing changes where it is not.
pub open spec fn deploy_tickers(t: Seq<TickerView>, tx: TxView, script: DeployView) -> Seq<
    TickerView,
> {
    let d = deploy_record(ticker_keys(t), new_deploy(tx, script));
    if d.is_valid {
        t.push(new_ticker(d))
    } else {
        t
    }
}

// ---------------------------------------------------------------------
// Mint
// ---------------------------------------------------------------------
/// The amount that a mint of `amt` is accepted for, and whether it was cut
/// down to the supply that is left; or the reason for which it is rejected.
pub open spec fn mint_decision(t: TickerView, amt: Seq<char>) -> Result<(u128, bool), Seq<char>> {
    match decode_spec(amt, t.decimals as nat) {
        Err(e) => Err(amount_error_text(e)),
        Ok(v) => if v > t.limit {
            Err("Mint amount exceeds limit"@)
        } else if t.total_minted + v > t.max_supply {
            if t.max_supply - t.total_minted == 0 {
                Err("Supply exhausted"@)
            } else {
                Ok(((t.max_supply - t.total_minted) as u128, true))
            }
        } else {
            Ok((v, false))
        },
    }
}

/// The same, for a mint against a registry: the ticker is looked up by the
/// lowercase form of the payload's symbol.
pub open spec fn mint_outcome(t: Seq<TickerView>, script: AmountScriptView) -> Result<
    (u128, bool),
    Seq<char>,
> {
    let k = position(ticker_keys(t), lowercase(script.tick));
    if k >= t.len() {
        Err("Ticker symbol does not exist"@)
    } else {
        mint_decision(t[k], script.amt)
    }
}

pub open spec fn new_mint(tx: TxView, script: AmountScriptView) -> MintTxView {
    MintTxView { tx, script, amount: 0, adjusted: false, is_valid: false }
}

/// The mint record after validation.
pub open spec fn mint_record(t: Seq<TickerView>, tx: TxView, script: AmountScriptView) -> MintTxView {
    match mint_outcome(t, script) {
        Ok((amount, adjusted)) => MintTxView { tx, script, amount, adjusted, is_valid: true },
        Err(_) => new_mint(tx, script),
    }
}

/// The balance after a mint: the record joins the mints and its amount the
/// overall balance.
pub open spec fn balance_add_mint(b: BalanceView, m: MintTxView) -> BalanceView {
    BalanceView { overall: (b.overall + m.amount) as u128, mints: b.mints.push(m), ..b }
}

/// The holders after `address` was given `balance`: in place of the balance
/// it held, or as a new holder, who comes last.
pub open spec fn upsert_holder(
    b: Seq<HolderView>,
    address: Seq<char>,
    balance: BalanceView,
) -> Seq<HolderView> {
    let i = position(addresses(b), address);
    if i < b.len() {
        b.update(i, HolderView { address, balance })
    } else {
        b.push(HolderView { address, balance })
    }
}

/// The balance of `address`, empty where it holds none.
pub open spec fn balance_of(b: Seq<HolderView>, address: Seq<char>) -> BalanceView {
    let i = position(addresses(b), address);
    if i < b.len() {
        b[i].balance
    } else {
        empty_balance()
    }
}

/// The ticker after an accepted mint: the record joins the ticker's and the
/// owner's mints, and its amount is added to the supply and to the owner.
pub open spec fn ticker_add_mint(t: TickerView, m: MintTxView) -> TickerView {
    TickerView {
        total_minted: (t.total_minted + m.amount) as u128,
        mints: t.mints.push(m),
        balances: upsert_holder(
            t.balances,
            m.tx.owner,
            balance_add_mint(balance_of(t.balances, m.tx.owner), m),
        ),
        ..t
    }
}

/// The tickers after a mint.
pub open spec fn mint_tickers(t: Seq<TickerView>, tx: TxView, script: AmountScriptView) -> Seq<
    TickerView,
> {
    let k = position(ticker_keys(t), lowercase(script.tick));
    match mint_outcome(t, script) {
        Ok(_) => t.update(k, ticker_add_mint(t[k], mint_record(t, tx, script))),
        Err(_) => t,
    }
}

/// The registry of rejected events after a mint.
pub open spec fn mint_invalid(
    t: Seq<TickerView>,
    tx: TxView,
    script: AmountScriptView,
    invalid: Seq<InvalidTxView>,
) -> Seq<InvalidTxView> {
    match mint_outcome(t, script) {
        Ok(_) => invalid,
        Err(reason) => record_invalid(invalid, InvalidTxView { tx, reason }),
    }
}

// ---------------------------------------------------------------------
// Transfer: inscription
// ---------------------------------------------------------------------
/// The amount for which a transfer inscription is accepted, or the reason
/// for which it is rejected.
pub open spec fn inscribe_outcome(t: Seq<TickerView>, owner: Seq<char>, script: AmountScriptView) -> Result<
    u128,
    Seq<char>,
> {
    let k = position(ticker_keys(t), lowercase(script.tick));
    if k >= t.len() {
        Err("Ticker not found"@)
    } else {
        match decode_spec(script.amt, t[k].decimals as nat) {
            Err(e) => Err(amount_error_text(e)),
            Ok(v) => {
                let h = position(addresses(t[k].balances), owner);
                if h >= t[k].balances.len() {
                    Err("User balance not found"@)
                } else if available(t[k].balances[h].balance) < v {
                    Err("Transfer amount exceeds available balance"@)
                } else {
                    Ok(v)
                }
            },
        }
    }
}

pub open spec fn new_transfer(tx: TxView, script: AmountScriptView) -> TransferTxView {
    TransferTxView {
        inscription_tx: tx,
        transfer_tx: None,
        script,
        amount: 0,
        receiver: None,
        is_valid: false,
    }
}

/// The transfer record after its inscription was validated: an accepted one
/// carries its amount and is outstanding, with no spend and no receiver; a
/// rejected one is not valid, whatever it was marked as before.
pub open spec fn inscribe_record(t: Seq<TickerView>, r: TransferTxView) -> TransferTxView {
    match inscribe_outcome(t, r.inscription_tx.owner, r.script) {
        Ok(amount) => TransferTxView {
            amount,
            is_valid: true,
            transfer_tx: None,
            receiver: None,
            ..r
        },
        Err(_) => TransferTxView { is_valid: false, ..r },
    }
}

/// The balance after a transfer inscription became outstanding: it takes
/// the place of one on the same output, or comes last.
pub open spec fn balance_add_inscription(b: BalanceView, r: TransferTxView) -> BalanceView {
    let i = position(outpoints(b.active), outpoint_of(r));
    BalanceView {
        active: if i < b.active.len() {
            b.active.update(i, r)
        } else {
            b.active.push(r)
        },
        ..b
    }
}

pub open spec fn ticker_inscribe(t: TickerView, r: TransferTxView) -> TickerView {
    let h = position(addresses(t.balances), r.inscription_tx.owner);
    TickerView {
        balances: t.balances.update(
            h,
            HolderView {
                address: t.balances[h].address,
                balance: balance_add_inscription(t.balances[h].balance, r),
            },
        ),
        ..t
    }
}

/// The tickers after a transfer inscription.
pub open spec fn inscribe_tickers(t: Seq<TickerView>, r: TransferTxView) -> Seq<TickerView> {
    let k = position(ticker_keys(t), lowercase(r.script.tick));
    match inscribe_outcome(t, r.inscription_tx.owner, r.script) {
        Ok(_) => t.update(k, ticker_inscribe(t[k], inscribe_record(t, r))),
        Err(_) => t,
    }
}

/// The registry of rejected events after a transfer inscription.
pub open spec fn inscribe_invalid(
    t: Seq<TickerView>,
    r: TransferTxView,
    invalid: Seq<InvalidTxView>,
) -> Seq<InvalidTxView> {
    match inscribe_outcome(t, r.inscription_tx.owner, r.script) {
        Ok(_) => invalid,
        Err(reason) => record_invalid(invalid, InvalidTxView { tx: r.inscription_tx, reason }),
    }
}

// ---------------------------------------------------------------------
// Transfer: spend
// ---------------------------------------------------------------------
/// Which holders have an outstanding inscription on `outpoint`.
pub open spec fn holds_outpoint(b: Seq<HolderView>, outpoint: (Seq<char>, u32)) -> Seq<bool> {
    Seq::new(b.len(), |i: int| has_key(outpoints(b[i].balance.active), outpoint))
}

/// Which tickers have a holder with an outstanding inscription on `outpoint`.
pub open spec fn ticker_holds_outpoint(t: Seq<TickerView>, outpoint: (Seq<char>, u32)) -> Seq<
    bool,
> {
    Seq::new(t.len(), |i: int| has_key(holds_outpoint(t[i].balances, outpoint), true))
}

/// A transfer record once its inscription was spent by `spend`.
pub open spec fn sent_record(r: TransferTxView, spend: TxView) -> TransferTxView {
    TransferTxView { transfer_tx: Some(spend), receiver: Some(spend.owner), ..r }
}

pub open spec fn balance_send(b: BalanceView, j: int, done: TransferTxView) -> BalanceView {
    BalanceView {
        overall: (b.overall - done.amount) as u128,
        active: b.active.remove(j),
        sends: b.sends.push(done),
        ..b
    }
}

pub open spec fn balance_receive(b: BalanceView, done: TransferTxView) -> BalanceView {
    BalanceView {
        overall: (b.overall + done.amount) as u128,
        receives: b.receives.push(done),
        ..b
    }
}

/// The ticker after the inscription on `outpoint` was spent by `spend`: the
/// sender's overall balance goes down by the amount and the receiver's up;
/// the record leaves the sender's outstanding inscriptions and joins the
/// sender's sends, the receiver's receives and the ticker's transfers.
pub open spec fn ticker_send(t: TickerView, outpoint: (Seq<char>, u32), spend: TxView) -> TickerView {
    let h = position(holds_outpoint(t.balances, outpoint), true);
    let j = position(outpoints(t.balances[h].balance.active), outpoint);
    let done = sent_record(t.balances[h].balance.active[j], spend);
    let after_send = t.balances.update(
        h,
        HolderView {
            address: t.balances[h].address,
            balance: balance_send(t.balances[h].balance, j, done),
        },
    );
    TickerView {
        transfers: t.transfers.push(done),
        balances: upsert_holder(
            after_send,
            spend.owner,
            balance_receive(balance_of(after_send, spend.owner), done),
        ),
        ..t
    }
}

/// Whether an inscription on `outpoint` is outstanding anywhere.
pub open spec fn is_outstanding(t: Seq<TickerView>, outpoint: (Seq<char>, u32)) -> bool {
    has_key(ticker_holds_outpoint(t, outpoint), true)
}

/// The tickers after the output `outpoint` was spent by `spend`: nothing
/// changes unless an inscription on it is outstanding.
pub open spec fn send_tickers(t: Seq<TickerView>, outpoint: (Seq<char>, u32), spend: TxView) -> Seq<
    TickerView,
> {
    let k = position(ticker_holds_outpoint(t, outpoint), true);
    if k < t.len() {
        t.update(k, ticker_send(t[k], outpoint, spend))
    } else {
        t
    }
}

} // verus!
