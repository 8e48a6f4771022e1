//! A ticker with its supply, history and holders, and the registry of
//! tickers.

use crate::deploy::Brc20DeployTx;
use crate::mint::Brc20MintTx;
use crate::model::{
    addresses, available, balance_add_mint, balance_of, balance_receive, balance_send,
    balance_wf, deploy_params_ok, empty_balance, holder_owns_active, holds_outpoint, is_outstanding, mint_amounts, new_ticker, outpoint_of,
    outpoints, overalls, send_tickers, sent_record, ticker_add_mint, ticker_holds_outpoint,
    ticker_inscribe, ticker_keys, ticker_send, ticker_wf, tickers_wf, transfer_amounts,
    upsert_holder, BalanceView, HolderView, MintTxView, TickerView, TransferTxView,
};
use crate::payload::{lowercase, ticker_key, AmountScriptView, Brc20Transfer};
use crate::seqs::{
    distinct, has_key, lemma_position, lemma_position_is, lemma_total_push, lemma_total_update,
    position, total,
};
use crate::transfer::Brc20TransferTx;
use crate::tx::{same_text, Brc20Tx, OutPoint, TxView};
use crate::user_balance::{
    lemma_add_inscription_wf, lemma_add_mint_wf, lemma_receive_wf, lemma_send_wf, mints_view,
    sum_mints, transfers_view, UserBalance,
};
use vstd::prelude::*;
use vstd::string::*;

verus! {

/// An address and what it holds of a ticker.
#[derive(Debug)]
pub struct Holder {
    address: String,
    balance: UserBalance,
}

impl View for Holder {
    type V = HolderView;

    closed spec fn view(&self) -> HolderView {
        HolderView { address: self.address@, balance: self.balance@ }
    }
}

impl Holder {
    pub fn get_address(&self) -> (r: &String)
        ensures
            r@ == self@.address,
    {
        &self.address
    }

    pub fn get_balance(&self) -> (r: &UserBalance)
        ensures
            r@ == self@.balance,
    {
        &self.balance
    }
}

pub open spec fn holders_view(v: Seq<Holder>) -> Seq<HolderView> {
    Seq::new(v.len(), |i: int| v[i]@)
}

/// The outstanding inscription on `outpoint` in a ticker: that of the first
/// holder who has one.
pub open spec fn outstanding_in(t: TickerView, outpoint: (Seq<char>, u32)) -> TransferTxView {
    let h = position(holds_outpoint(t.balances, outpoint), true);
    let active = t.balances[h].balance.active;
    active[position(outpoints(active), outpoint)]
}

/// The payload of the outstanding inscription on `outpoint`, if there is one
/// in any ticker: that of the first ticker that has one.
pub open spec fn sent_script(t: Seq<TickerView>, outpoint: (Seq<char>, u32)) -> Option<
    AmountScriptView,
> {
    let k = position(ticker_holds_outpoint(t, outpoint), true);
    if k < t.len() {
        Some(outstanding_in(t[k], outpoint).script)
    } else {
        None
    }
}

pub open spec fn sent_view(r: Option<Brc20Transfer>) -> Option<AmountScriptView> {
    match r {
        Some(s) => Some(s@),
        None => None,
    }
}

// ---------------------------------------------------------------------
// What the operations keep
// ---------------------------------------------------------------------
pub proof fn lemma_empty_balance_wf()
    ensures
        balance_wf(empty_balance()),
{
    assert(transfer_amounts(Seq::<TransferTxView>::empty()) =~= Seq::<nat>::empty());
    assert(mint_amounts(Seq::<MintTxView>::empty()) =~= Seq::<nat>::empty());
    assert(outpoints(Seq::<TransferTxView>::empty()) =~= Seq::<(Seq<char>, u32)>::empty());
}

/// Replacing or adding the balance of an address changes the sum of the
/// overall balances by the difference, and keeps the addresses distinct.
pub proof fn lemma_upsert_holder(b: Seq<HolderView>, address: Seq<char>, balance: BalanceView)
    requires
        distinct(addresses(b)),
    ensures
        distinct(addresses(upsert_holder(b, address, balance))),
        total(overalls(upsert_holder(b, address, balance))) == total(overalls(b)) - balance_of(
            b,
            address,
        ).overall + balance.overall,
        balance_of(b, address).overall <= total(overalls(b)),
        forall|i: int|
            0 <= i < upsert_holder(b, address, balance).len() ==> #[trigger] upsert_holder(
                b,
                address,
                balance,
            )[i] == (if i == position(addresses(b), address) {
                HolderView { address, balance }
            } else {
                b[i]
            }),
        upsert_holder(b, address, balance).len() == (if has_key(addresses(b), address) {
            b.len()
        } else {
            b.len() + 1
        }),
{
    let keys = addresses(b);
    let i = position(keys, address);
    lemma_position(keys, address);
    let after = upsert_holder(b, address, balance);
    if i < b.len() {
        assert(addresses(after) =~= keys);
        assert(overalls(after) =~= overalls(b).update(i, balance.overall as nat));
        lemma_total_update(overalls(b), i, balance.overall as nat);
    } else {
        assert(overalls(after) =~= overalls(b).push(balance.overall as nat));
        lemma_total_push(overalls(b), balance.overall as nat);
        let new_keys = addresses(after);
        assert forall|x: int, y: int|
            0 <= x < new_keys.len() && 0 <= y < new_keys.len() && x != y implies #[trigger] new_keys[x]
            != #[trigger] new_keys[y] by {
            if x < keys.len() {
                assert(new_keys[x] == keys[x]);
            }
            if y < keys.len() {
                assert(new_keys[y] == keys[y]);
            }
        }
    }
}

/// A mint that stays within the supply keeps a ticker consistent.
pub proof fn lemma_ticker_add_mint_wf(t: TickerView, m: MintTxView)
    requires
        ticker_wf(t),
        t.total_minted + m.amount <= t.max_supply,
    ensures
        ticker_wf(ticker_add_mint(t, m)),
        balance_of(t.balances, m.tx.owner).overall + m.amount <= u128::MAX,
{
    let after = ticker_add_mint(t, m);
    let before = balance_of(t.balances, m.tx.owner);
    let i = position(addresses(t.balances), m.tx.owner);
    lemma_position(addresses(t.balances), m.tx.owner);
    lemma_empty_balance_wf();
    lemma_upsert_holder(t.balances, m.tx.owner, balance_add_mint(before, m));
    assert(mint_amounts(t.mints.push(m)) =~= mint_amounts(t.mints).push(m.amount as nat));
    lemma_total_push(mint_amounts(t.mints), m.amount as nat);
    lemma_add_mint_wf(before, m);
    assert forall|x: int| 0 <= x < after.balances.len() implies balance_wf(
        (#[trigger] after.balances[x]).balance,
    ) && holder_owns_active(after.key, after.balances[x]) by {
        if x == i {
            if i < t.balances.len() {
                assert(t.balances[i].address == addresses(t.balances)[i]);
                assert(holder_owns_active(t.key, t.balances[i]));
            }
        } else {
            assert(balance_wf(t.balances[x].balance));
        }
    }
}

/// An inscription by a holder of no more than is available keeps a ticker
/// consistent.
pub proof fn lemma_ticker_inscribe_wf(t: TickerView, r: TransferTxView)
    requires
        ticker_wf(t),
        has_key(addresses(t.balances), r.inscription_tx.owner),
        r.amount <= available(
            t.balances[position(addresses(t.balances), r.inscription_tx.owner)].balance,
        ),
        lowercase(r.script.tick) == t.key,
        r.is_valid,
        r.transfer_tx is None,
    ensures
        ticker_wf(ticker_inscribe(t, r)),
{
    let after = ticker_inscribe(t, r);
    let h = position(addresses(t.balances), r.inscription_tx.owner);
    lemma_position(addresses(t.balances), r.inscription_tx.owner);
    let b = t.balances[h].balance;
    lemma_add_inscription_wf(b, r);
    assert(t.balances[h].address == addresses(t.balances)[h]);
    assert(addresses(after.balances) =~= addresses(t.balances));
    assert(overalls(after.balances) =~= overalls(t.balances));
    lemma_position(outpoints(b.active), outpoint_of(r));
    assert forall|x: int| 0 <= x < after.balances.len() implies balance_wf(
        (#[trigger] after.balances[x]).balance,
    ) && holder_owns_active(after.key, after.balances[x]) by {
        if x == h {
            assert(holder_owns_active(t.key, t.balances[h]));
            let now = after.balances[h].balance.active;
            assert forall|j: int| 0 <= j < now.len() implies {
                &&& (#[trigger] now[j]).inscription_tx.owner == after.balances[h].address
                &&& lowercase(now[j].script.tick) == after.key
                &&& now[j].is_valid
                &&& now[j].transfer_tx is None
            } by {
                if now[j] != r {
                    assert(now[j] == b.active[j]);
                }
            }
        } else {
            assert(balance_wf(t.balances[x].balance));
        }
    }
}

/// Spending an outstanding inscription keeps a ticker consistent.
pub proof fn lemma_ticker_send_wf(t: TickerView, outpoint: (Seq<char>, u32), spend: TxView)
    requires
        ticker_wf(t),
        has_key(holds_outpoint(t.balances, outpoint), true),
    ensures
        ticker_wf(ticker_send(t, outpoint, spend)),
{
    let h = position(holds_outpoint(t.balances, outpoint), true);
    lemma_position(holds_outpoint(t.balances, outpoint), true);
    let sender = t.balances[h].balance;
    let j = position(outpoints(sender.active), outpoint);
    lemma_position(outpoints(sender.active), outpoint);
    let done = sent_record(sender.active[j], spend);
    assert(balance_wf(sender));
    lemma_send_wf(sender, j, done);
    let sent = balance_send(sender, j, done);
    let after_send = t.balances.update(
        h,
        HolderView { address: t.balances[h].address, balance: sent },
    );
    assert(addresses(after_send) =~= addresses(t.balances));
    assert(overalls(after_send) =~= overalls(t.balances).update(h, sent.overall as nat));
    lemma_total_update(overalls(t.balances), h, sent.overall as nat);
    let before = balance_of(after_send, spend.owner);
    let r = position(addresses(after_send), spend.owner);
    lemma_position(addresses(after_send), spend.owner);
    lemma_empty_balance_wf();
    lemma_upsert_holder(after_send, spend.owner, balance_receive(before, done));
    if r < after_send.len() {
        if r == h {
        } else {
            assert(balance_wf(t.balances[r].balance));
        }
    }
    lemma_receive_wf(before, done);
    let after = ticker_send(t, outpoint, spend);
    assert forall|x: int| 0 <= x < after.balances.len() implies balance_wf(
        (#[trigger] after.balances[x]).balance,
    ) && holder_owns_active(after.key, after.balances[x]) by {
        assert(holder_owns_active(t.key, t.balances[h]));
        assert forall|y: int| 0 <= y < sent.active.len() implies {
            &&& (#[trigger] sent.active[y]).inscription_tx.owner == t.balances[h].address
            &&& lowercase(sent.active[y].script.tick) == t.key
            &&& sent.active[y].is_valid
            &&& sent.active[y].transfer_tx is None
        } by {
            let z = if y < j {
                y
            } else {
                y + 1
            };
            assert(sent.active[y] == sender.active[z]);
        }
        if x == r {
            if r < after_send.len() {
                assert(after_send[r].address == addresses(after_send)[r]);
                if r != h {
                    assert(holder_owns_active(t.key, t.balances[r]));
                }
            }
        } else if x == h {
        } else {
            assert(balance_wf(t.balances[x].balance));
            assert(holder_owns_active(t.key, t.balances[x]));
        }
    }
}

// ---------------------------------------------------------------------
// The ticker
// ---------------------------------------------------------------------
/// One token: its symbol and the key it is registered under, its deploy
/// parameters, what was minted, and the history and holders.
#[derive(Debug)]
pub struct Brc20Ticker {
    ticker: String,
    key: String,
    limit: u128,
    max_supply: u128,
    total_minted: u128,
    decimals: u8,
    deploy_tx: Brc20DeployTx,
    mints: Vec<Brc20MintTx>,
    transfers: Vec<Brc20TransferTx>,
    balances: Vec<Holder>,
}

impl View for Brc20Ticker {
    type V = TickerView;

    closed spec fn view(&self) -> TickerView {
        TickerView {
            tick: self.ticker@,
            key: self.key@,
            limit: self.limit,
            max_supply: self.max_supply,
            total_minted: self.total_minted,
            decimals: self.decimals,
            deploy_tx: self.deploy_tx@,
            mints: mints_view(self.mints@),
            transfers: transfers_view(self.transfers@),
            balances: holders_view(self.balances@),
        }
    }
}

impl Brc20Ticker {
    /// The ticker is consistent.
    pub open spec fn wf(&self) -> bool {
        ticker_wf(self@)
    }

    /// The ticker that a deploy creates, with nothing minted and no holder.
    pub fn new(deploy_tx: Brc20DeployTx) -> (r: Brc20Ticker)
        ensures
            r@ == new_ticker(deploy_tx@),
            deploy_params_ok(deploy_tx@) ==> r.wf(),
    {
        let ticker = deploy_tx.get_deploy_script().tick.clone();
        let key = ticker_key(ticker.as_str());
        let r = Brc20Ticker {
            ticker,
            key,
            limit: deploy_tx.get_limit(),
            max_supply: deploy_tx.get_max_supply(),
            total_minted: 0,
            decimals: deploy_tx.get_decimals(),
            deploy_tx,
            mints: Vec::new(),
            transfers: Vec::new(),
            balances: Vec::new(),
        };
        assert(r@.mints =~= Seq::empty());
        assert(r@.transfers =~= Seq::empty());
        assert(r@.balances =~= Seq::empty());
        assert(mint_amounts(Seq::<MintTxView>::empty()) =~= Seq::<nat>::empty());
        assert(overalls(Seq::<HolderView>::empty()) =~= Seq::<nat>::empty());
        assert(addresses(Seq::<HolderView>::empty()) =~= Seq::<Seq<char>>::empty());
        r
    }

    /// The place of the holder with this address.
    pub fn find_holder(&self, address: &str) -> (r: Option<usize>)
        ensures
            match r {
                Some(i) => i < self@.balances.len() && i == position(
                    addresses(self@.balances),
                    address@,
                ),
                None => !has_key(addresses(self@.balances), address@),
            },
    {
        let ghost keys = addresses(self@.balances);
        let mut i: usize = 0;
        while i < self.balances.len()
            invariant
                0 <= i <= self.balances.len(),
                keys == addresses(self@.balances),
                forall|x: int| 0 <= x < i ==> #[trigger] keys[x] != address@,
            decreases self.balances.len() - i,
        {
            assert(keys[i as int] == self.balances@[i as int]@.address);
            if same_text(self.balances[i].address.as_str(), address) {
                proof {
                    lemma_position_is(keys, address@, i as int);
                }
                return Some(i);
            }
            i += 1;
        }
        proof {
            lemma_position_is(keys, address@, i as int);
        }
        None
    }

    /// The place of the holder with an outstanding inscription on `outpoint`.
    pub fn find_holder_of(&self, outpoint: &OutPoint) -> (r: Option<usize>)
        ensures
            match r {
                Some(i) => i < self@.balances.len() && i == position(
                    holds_outpoint(self@.balances, outpoint@),
                    true,
                ),
                None => !has_key(holds_outpoint(self@.balances, outpoint@), true),
            },
    {
        let ghost flags = holds_outpoint(self@.balances, outpoint@);
        let mut i: usize = 0;
        while i < self.balances.len()
            invariant
                0 <= i <= self.balances.len(),
                flags == holds_outpoint(self@.balances, outpoint@),
                forall|x: int| 0 <= x < i ==> #[trigger] flags[x] != true,
            decreases self.balances.len() - i,
        {
            assert(self@.balances[i as int] == self.balances@[i as int]@);
            if self.balances[i].balance.is_active_inscription(outpoint) {
                proof {
                    lemma_position_is(flags, true, i as int);
                }
                return Some(i);
            }
            i += 1;
        }
        proof {
            lemma_position_is(flags, true, i as int);
        }
        None
    }

    /// Adds an accepted mint: to the ticker's mints and supply, and to the
    /// owner's balance, which is created where the owner held none.
    pub fn add_mint(&mut self, mint: Brc20MintTx)
        requires
            old(self).wf(),
            old(self)@.total_minted + mint@.amount <= old(self)@.max_supply,
        ensures
            final(self)@ == ticker_add_mint(old(self)@, mint@),
            final(self).wf(),
    {
        proof {
            lemma_ticker_add_mint_wf(old(self)@, mint@);
            lemma_position(addresses(old(self)@.balances), mint@.tx.owner);
        }
        let owner = mint.get_brc20_tx().get_owner().clone();
        match self.find_holder(owner.as_str()) {
            Some(i) => {
                assert(old(self)@.balances[i as int] == self.balances@[i as int]@);
                self.balances[i].balance.add_mint_tx(mint.clone());
            },
            None => {
                let mut balance = UserBalance::new();
                balance.add_mint_tx(mint.clone());
                self.balances.push(Holder { address: owner, balance });
            },
        }
        self.total_minted = self.total_minted + mint.get_amount();
        self.mints.push(mint);
        assert(self@.mints =~= old(self)@.mints.push(mint@));
        assert(self@.balances =~= ticker_add_mint(old(self)@, mint@).balances);
    }

    /// Adds a completed transfer to the ticker's history.
    pub fn add_transfer(&mut self, transfer: Brc20TransferTx)
        ensures
            final(self)@ == (TickerView {
                transfers: old(self)@.transfers.push(transfer@),
                ..old(self)@
            }),
            old(self).wf() ==> final(self).wf(),
    {
        self.transfers.push(transfer);
        assert(self@.transfers =~= old(self)@.transfers.push(transfer@));
    }

    /// Makes an accepted transfer inscription outstanding in its owner's
    /// balance.
    pub fn inscribe(&mut self, record: Brc20TransferTx)
        requires
            old(self).wf(),
            has_key(addresses(old(self)@.balances), record@.inscription_tx.owner),
            record@.amount <= available(
                old(self)@.balances[position(
                    addresses(old(self)@.balances),
                    record@.inscription_tx.owner,
                )].balance,
            ),
            lowercase(record@.script.tick) == old(self)@.key,
            record@.is_valid,
            record@.transfer_tx is None,
        ensures
            final(self)@ == ticker_inscribe(old(self)@, record@),
            final(self).wf(),
    {
        proof {
            lemma_ticker_inscribe_wf(old(self)@, record@);
        }
        let found = self.find_holder(record.get_inscription_brc20_tx().get_owner().as_str());
        let h = found.unwrap();
        assert(old(self)@.balances[h as int] == self.balances@[h as int]@);
        self.balances[h].balance.add_transfer_inscription(record);
        assert(self@.balances =~= ticker_inscribe(old(self)@, record@).balances);
    }

    /// Completes the transfer whose inscription sits on `outpoint`: `spend`
    /// moved it, and the owner of `spend` receives the amount.
    pub fn send(&mut self, outpoint: &OutPoint, spend: Brc20Tx) -> (r: Brc20Transfer)
        requires
            old(self).wf(),
            has_key(holds_outpoint(old(self)@.balances, outpoint@), true),
        ensures
            final(self)@ == ticker_send(old(self)@, outpoint@, spend@),
            final(self).wf(),
            r@ == outstanding_in(old(self)@, outpoint@).script,
    {
        let ghost before = old(self)@;
        proof {
            lemma_ticker_send_wf(before, outpoint@, spend@);
        }
        let found = self.find_holder_of(outpoint);
        let h = found.unwrap();
        let ghost sender = before.balances[h as int].balance;
        let ghost j = position(outpoints(sender.active), outpoint@);
        proof {
            lemma_position(holds_outpoint(before.balances, outpoint@), true);
            lemma_position(outpoints(sender.active), outpoint@);
            assert(before.balances[h as int] == self.balances@[h as int]@);
            assert(balance_wf(sender));
            lemma_send_wf(sender, j, sent_record(sender.active[j], spend@));
        }
        let receiver = spend.get_owner().clone();
        let taken = self.balances[h].balance.remove_inscription(outpoint);
        let done = taken.unwrap().sent(spend);
        self.balances[h].balance.add_transfer_send(done.clone());
        let ghost after_send = before.balances.update(
            h as int,
            HolderView {
                address: before.balances[h as int].address,
                balance: balance_send(sender, j, done@),
            },
        );
        assert(holders_view(self.balances@) =~= after_send);
        proof {
            assert(addresses(after_send) =~= addresses(before.balances));
            assert(overalls(after_send) =~= overalls(before.balances).update(
                h as int,
                balance_send(sender, j, done@).overall as nat,
            ));
            lemma_total_update(
                overalls(before.balances),
                h as int,
                balance_send(sender, j, done@).overall as nat,
            );
            lemma_upsert_holder(after_send, receiver@, empty_balance());
        }
        let ghost received = upsert_holder(
            after_send,
            receiver@,
            balance_receive(balance_of(after_send, receiver@), done@),
        );
        match self.find_holder(receiver.as_str()) {
            Some(r) => {
                proof {
                    lemma_position(addresses(after_send), receiver@);
                    assert(after_send[r as int] == self.balances@[r as int]@);
                    assert(addresses(after_send)[r as int] == after_send[r as int].address);
                }
                self.balances[r].balance.add_transfer_receive(done.clone());
                assert(holders_view(self.balances@) =~= received);
            },
            None => {
                let mut balance = UserBalance::new();
                balance.add_transfer_receive(done.clone());
                self.balances.push(Holder { address: receiver, balance });
                assert(holders_view(self.balances@) =~= received);
            },
        }
        let script = done.get_transfer_script().clone();
        self.transfers.push(done);
        assert(self@.transfers =~= before.transfers.push(done@));
        assert(self@.balances =~= ticker_send(before, outpoint@, spend@).balances);
        script
    }

    /// The balance of `address`, if it holds one.
    pub fn get_user_balance(&self, address: &str) -> (r: Option<&UserBalance>)
        ensures
            has_key(addresses(self@.balances), address@) ==> r is Some && r->Some_0@
                == self@.balances[position(addresses(self@.balances), address@)].balance,
            !has_key(addresses(self@.balances), address@) ==> r is None,
            self.wf() && r is Some ==> r->Some_0.wf(),
    {
        match self.find_holder(address) {
            Some(i) => {
                assert(self@.balances[i as int] == self.balances@[i as int]@);
                assert(self.wf() ==> balance_wf(self@.balances[i as int].balance));
                Some(&self.balances[i].balance)
            },
            None => None,
        }
    }

    /// What `address` has available, if it holds a balance.
    pub fn available_of(&self, address: &str) -> (r: Option<u128>)
        requires
            self.wf(),
        ensures
            has_key(addresses(self@.balances), address@) ==> r == Some(
                available(
                    self@.balances[position(addresses(self@.balances), address@)].balance,
                ) as u128,
            ),
            !has_key(addresses(self@.balances), address@) ==> r is None,
    {
        match self.find_holder(address) {
            Some(i) => {
                assert(self@.balances[i as int] == self.balances@[i as int]@);
                assert(balance_wf(self@.balances[i as int].balance));
                Some(self.balances[i].balance.get_available_balance())
            },
            None => None,
        }
    }

    /// What has been minted.
    pub fn get_total_supply(&self) -> (r: u128)
        ensures
            r == self@.total_minted,
    {
        self.total_minted
    }

    /// What has been minted.
    pub fn get_total_minted(&self) -> (r: u128)
        ensures
            r == self@.total_minted,
    {
        self.total_minted
    }

    /// The accepted mints, oldest first.
    pub fn get_mints(&self) -> (r: &Vec<Brc20MintTx>)
        ensures
            mints_view(r@) == self@.mints,
    {
        &self.mints
    }

    /// The completed transfers, oldest first.
    pub fn get_transfers(&self) -> (r: &Vec<Brc20TransferTx>)
        ensures
            transfers_view(r@) == self@.transfers,
    {
        &self.transfers
    }

    /// Adds a completed transfer to the ticker's history.
    pub fn add_completed_transfer(&mut self, transfer: Brc20TransferTx)
        ensures
            final(self)@ == (TickerView {
                transfers: old(self)@.transfers.push(transfer@),
                ..old(self)@
            }),
            old(self).wf() ==> final(self).wf(),
    {
        self.add_transfer(transfer)
    }

    /// What has been minted, as the mint history gives it.
    pub fn get_total_minted_from_mint_txs(&self) -> (r: u128)
        requires
            self.wf(),
        ensures
            r == total(mint_amounts(self@.mints)),
            r == self@.total_minted,
    {
        match sum_mints(&self.mints) {
            Some(v) => v,
            None => 0,
        }
    }

    pub fn get_mint_txs(&self) -> (r: &Vec<Brc20MintTx>)
        ensures
            mints_view(r@) == self@.mints,
    {
        &self.mints
    }

    pub fn get_transfer_txs(&self) -> (r: &Vec<Brc20TransferTx>)
        ensures
            transfers_view(r@) == self@.transfers,
    {
        &self.transfers
    }

    pub fn get_holders(&self) -> (r: &Vec<Holder>)
        ensures
            holders_view(r@) == self@.balances,
    {
        &self.balances
    }

    /// The lowercase form of the symbol. Of a consistent ticker it is the
    /// key under which the ticker is registered, and the symbol has four
    /// characters.
    pub fn get_ticker(&self) -> (r: String)
        ensures
            r@ == lowercase(self@.tick),
            self.wf() ==> r@ == self@.key && self@.tick.len() == 4,
    {
        ticker_key(self.ticker.as_str())
    }

    /// The key under which the ticker is registered.
    pub fn get_key(&self) -> (r: &String)
        ensures
            r@ == self@.key,
    {
        &self.key
    }

    /// The symbol as it was deployed.
    pub fn get_symbol(&self) -> (r: &String)
        ensures
            r@ == self@.tick,
    {
        &self.ticker
    }

    pub fn get_decimals(&self) -> (r: u8)
        ensures
            r == self@.decimals,
    {
        self.decimals
    }

    pub fn get_limit(&self) -> (r: u128)
        ensures
            r == self@.limit,
    {
        self.limit
    }

    pub fn get_max_supply(&self) -> (r: u128)
        ensures
            r == self@.max_supply,
    {
        self.max_supply
    }

    pub fn get_deploy_tx(&self) -> (r: &Brc20DeployTx)
        ensures
            r@ == self@.deploy_tx,
    {
        &self.deploy_tx
    }
}

// ---------------------------------------------------------------------
// The registry
// ---------------------------------------------------------------------
/// The tickers, each under its key, in the order in which they were
/// deployed.
#[derive(Debug)]
pub struct TickerMap {
    entries: Vec<Brc20Ticker>,
}

impl View for TickerMap {
    type V = Seq<TickerView>;

    closed spec fn view(&self) -> Seq<TickerView> {
        Seq::new(self.entries@.len(), |i: int| self.entries@[i]@)
    }
}

/// Replacing a ticker by a consistent one with the same key keeps the
/// registry consistent.
pub proof fn lemma_update_ticker_wf(t: Seq<TickerView>, k: int, ticker: TickerView)
    requires
        tickers_wf(t),
        0 <= k < t.len(),
        ticker_wf(ticker),
        ticker.key == t[k].key,
    ensures
        tickers_wf(t.update(k, ticker)),
{
    assert(ticker_keys(t.update(k, ticker)) =~= ticker_keys(t));
}

/// Adding a consistent ticker under a new key keeps the registry consistent.
pub proof fn lemma_push_ticker_wf(t: Seq<TickerView>, ticker: TickerView)
    requires
        tickers_wf(t),
        ticker_wf(ticker),
        !has_key(ticker_keys(t), ticker.key),
    ensures
        tickers_wf(t.push(ticker)),
{
    let keys = ticker_keys(t);
    let new_keys = ticker_keys(t.push(ticker));
    lemma_position(keys, ticker.key);
    assert forall|x: int, y: int|
        0 <= x < new_keys.len() && 0 <= y < new_keys.len() && x != y implies #[trigger] new_keys[x]
        != #[trigger] new_keys[y] by {
        if x < keys.len() {
            assert(new_keys[x] == keys[x]);
        }
        if y < keys.len() {
            assert(new_keys[y] == keys[y]);
        }
    }
}

impl TickerMap {
    /// No key is registered twice, and every ticker is consistent.
    pub open spec fn wf(&self) -> bool {
        tickers_wf(self@)
    }

    pub fn new() -> (r: Self)
        ensures
            r@ == Seq::<TickerView>::empty(),
            r.wf(),
    {
        let r = TickerMap { entries: Vec::new() };
        assert(r@ =~= Seq::<TickerView>::empty());
        assert(ticker_keys(r@) =~= Seq::<Seq<char>>::empty());
        r
    }

    pub fn len(&self) -> (r: usize)
        ensures
            r == self@.len(),
    {
        self.entries.len()
    }

    /// The place of the ticker registered under `key`.
    pub fn find(&self, key: &str) -> (r: Option<usize>)
        ensures
            match r {
                Some(k) => k < self@.len() && k == position(ticker_keys(self@), key@),
                None => !has_key(ticker_keys(self@), key@),
            },
    {
        let ghost keys = ticker_keys(self@);
        let mut k: usize = 0;
        while k < self.entries.len()
            invariant
                0 <= k <= self.entries.len(),
                keys == ticker_keys(self@),
                forall|x: int| 0 <= x < k ==> #[trigger] keys[x] != key@,
            decreases self.entries.len() - k,
        {
            assert(keys[k as int] == self.entries@[k as int]@.key);
            if same_text(self.entries[k].key.as_str(), key) {
                proof {
                    lemma_position_is(keys, key@, k as int);
                }
                return Some(k);
            }
            k += 1;
        }
        proof {
            lemma_position_is(keys, key@, k as int);
        }
        None
    }

    pub fn contains_key(&self, key: &str) -> (r: bool)
        ensures
            r == has_key(ticker_keys(self@), key@),
    {
        self.find(key).is_some()
    }

    /// The ticker registered under `key`.
    pub fn get(&self, key: &str) -> (r: Option<&Brc20Ticker>)
        ensures
            has_key(ticker_keys(self@), key@) ==> r is Some && r->Some_0@
                == self@[position(ticker_keys(self@), key@)],
            !has_key(ticker_keys(self@), key@) ==> r is None,
            self.wf() && r is Some ==> r->Some_0.wf(),
    {
        match self.find(key) {
            Some(k) => {
                assert(self.wf() ==> ticker_wf(self@[k as int]));
                Some(&self.entries[k])
            },
            None => None,
        }
    }

    /// The ticker at place `k`.
    pub fn get_at(&self, k: usize) -> (r: &Brc20Ticker)
        requires
            k < self@.len(),
        ensures
            r@ == self@[k as int],
            self.wf() ==> r.wf(),
    {
        assert(self.wf() ==> ticker_wf(self@[k as int]));
        &self.entries[k]
    }

    /// Registers a ticker under its key, which must be new.
    pub fn insert(&mut self, ticker: Brc20Ticker)
        requires
            !has_key(ticker_keys(old(self)@), ticker@.key),
        ensures
            final(self)@ == old(self)@.push(ticker@),
            old(self).wf() && ticker.wf() ==> final(self).wf(),
    {
        proof {
            if old(self).wf() && ticker.wf() {
                lemma_push_ticker_wf(old(self)@, ticker@);
            }
        }
        self.entries.push(ticker);
        assert(self@ =~= old(self)@.push(ticker@));
    }

    /// Adds an accepted mint to the ticker at place `k`.
    pub fn add_mint_at(&mut self, k: usize, mint: Brc20MintTx)
        requires
            old(self).wf(),
            k < old(self)@.len(),
            old(self)@[k as int].total_minted + mint@.amount <= old(self)@[k as int].max_supply,
        ensures
            final(self)@ == old(self)@.update(k as int, ticker_add_mint(old(self)@[k as int], mint@)),
            final(self).wf(),
    {
        assert(old(self)@[k as int] == self.entries@[k as int]@);
        self.entries[k].add_mint(mint);
        assert(self@ =~= old(self)@.update(k as int, ticker_add_mint(old(self)@[k as int], mint@)));
        proof {
            lemma_update_ticker_wf(
                old(self)@,
                k as int,
                ticker_add_mint(old(self)@[k as int], mint@),
            );
        }
    }

    /// Makes an accepted transfer inscription outstanding in the ticker at
    /// place `k`.
    pub fn inscribe_at(&mut self, k: usize, record: Brc20TransferTx)
        requires
            old(self).wf(),
            k < old(self)@.len(),
            has_key(addresses(old(self)@[k as int].balances), record@.inscription_tx.owner),
            record@.amount <= available(
                old(self)@[k as int].balances[position(
                    addresses(old(self)@[k as int].balances),
                    record@.inscription_tx.owner,
                )].balance,
            ),
            lowercase(record@.script.tick) == old(self)@[k as int].key,
            record@.is_valid,
            record@.transfer_tx is None,
        ensures
            final(self)@ == old(self)@.update(
                k as int,
                ticker_inscribe(old(self)@[k as int], record@),
            ),
            final(self).wf(),
    {
        assert(old(self)@[k as int] == self.entries@[k as int]@);
        self.entries[k].inscribe(record);
        assert(self@ =~= old(self)@.update(
            k as int,
            ticker_inscribe(old(self)@[k as int], record@),
        ));
        proof {
            lemma_update_ticker_wf(
                old(self)@,
                k as int,
                ticker_inscribe(old(self)@[k as int], record@),
            );
        }
    }

    /// The place of the ticker in which an inscription on `outpoint` is
    /// outstanding.
    pub fn find_outstanding(&self, outpoint: &OutPoint) -> (r: Option<usize>)
        ensures
            match r {
                Some(k) => k < self@.len() && k == position(
                    ticker_holds_outpoint(self@, outpoint@),
                    true,
                ),
                None => !is_outstanding(self@, outpoint@),
            },
    {
        let ghost flags = ticker_holds_outpoint(self@, outpoint@);
        let mut k: usize = 0;
        while k < self.entries.len()
            invariant
                0 <= k <= self.entries.len(),
                flags == ticker_holds_outpoint(self@, outpoint@),
                forall|x: int| 0 <= x < k ==> #[trigger] flags[x] != true,
            decreases self.entries.len() - k,
        {
            assert(self@[k as int] == self.entries@[k as int]@);
            if self.entries[k].find_holder_of(outpoint).is_some() {
                proof {
                    lemma_position_is(flags, true, k as int);
                }
                return Some(k);
            }
            k += 1;
        }
        proof {
            lemma_position_is(flags, true, k as int);
        }
        None
    }

    /// Completes the transfer whose inscription sits on `outpoint`, if one
    /// is outstanding there, and hands out its payload.
    pub fn send(&mut self, outpoint: &OutPoint, spend: Brc20Tx) -> (r: Option<Brc20Transfer>)
        requires
            old(self).wf(),
        ensures
            sent_view(r) == sent_script(old(self)@, outpoint@),
            final(self)@ == send_tickers(old(self)@, outpoint@, spend@),
            final(self).wf(),
    {
        match self.find_outstanding(outpoint) {
            None => None,
            Some(k) => {
                proof {
                    lemma_position(ticker_holds_outpoint(old(self)@, outpoint@), true);
                    assert(old(self)@[k as int] == self.entries@[k as int]@);
                }
                let script = self.entries[k].send(outpoint, spend);
                assert(self@ =~= send_tickers(old(self)@, outpoint@, spend@));
                proof {
                    lemma_update_ticker_wf(
                        old(self)@,
                        k as int,
                        ticker_send(old(self)@[k as int], outpoint@, spend@),
                    );
                }
                Some(script)
            },
        }
    }
}

} // verus!
