//! The ledger of one address for one ticker.

use crate::mint::Brc20MintTx;
use crate::model::{
    available, balance_add_inscription, balance_add_mint, balance_receive, balance_send,
    balance_wf, empty_balance, mint_amounts, outpoint_of, outpoints, transfer_amounts,
    transferable, BalanceView, MintTxView, TransferTxView,
};
use crate::seqs::{
    distinct, has_key, lemma_position, lemma_position_is, lemma_total_prefix, lemma_total_push,
    lemma_total_remove, lemma_total_update, position, total,
};
use crate::transfer::Brc20TransferTx;
use crate::tx::OutPoint;
use vstd::prelude::*;
use vstd::string::*;

verus! {

pub open spec fn transfers_view(v: Seq<Brc20TransferTx>) -> Seq<TransferTxView> {
    Seq::new(v.len(), |i: int| v[i]@)
}

pub open spec fn mints_view(v: Seq<Brc20MintTx>) -> Seq<MintTxView> {
    Seq::new(v.len(), |i: int| v[i]@)
}

pub open spec fn record_view(r: Option<Brc20TransferTx>) -> Option<TransferTxView> {
    match r {
        Some(t) => Some(t@),
        None => None,
    }
}

/// The outstanding inscription on `outpoint`, if the balance has one.
pub open spec fn outstanding_on(b: BalanceView, outpoint: (Seq<char>, u32)) -> Option<
    TransferTxView,
> {
    let j = position(outpoints(b.active), outpoint);
    if j < b.active.len() {
        Some(b.active[j])
    } else {
        None
    }
}

/// The balance without the outstanding inscription on `outpoint`.
pub open spec fn balance_without(b: BalanceView, outpoint: (Seq<char>, u32)) -> BalanceView {
    let j = position(outpoints(b.active), outpoint);
    if j < b.active.len() {
        BalanceView { active: b.active.remove(j), ..b }
    } else {
        b
    }
}

/// A mint keeps a balance consistent.
pub proof fn lemma_add_mint_wf(b: BalanceView, m: MintTxView)
    requires
        balance_wf(b),
        b.overall + m.amount <= u128::MAX,
    ensures
        balance_wf(balance_add_mint(b, m)),
{
    assert(mint_amounts(b.mints.push(m)) =~= mint_amounts(b.mints).push(m.amount as nat));
    lemma_total_push(mint_amounts(b.mints), m.amount as nat);
}

/// An inscription of no more than is available keeps a balance consistent.
pub proof fn lemma_add_inscription_wf(b: BalanceView, r: TransferTxView)
    requires
        balance_wf(b),
        r.amount <= available(b),
    ensures
        balance_wf(balance_add_inscription(b, r)),
{
    let keys = outpoints(b.active);
    let i = position(keys, outpoint_of(r));
    lemma_position(keys, outpoint_of(r));
    let after = balance_add_inscription(b, r);
    if i < b.active.len() {
        assert(transfer_amounts(after.active) =~= transfer_amounts(b.active).update(
            i,
            r.amount as nat,
        ));
        lemma_total_update(transfer_amounts(b.active), i, r.amount as nat);
        assert(outpoints(after.active) =~= keys);
    } else {
        assert(transfer_amounts(after.active) =~= transfer_amounts(b.active).push(r.amount as nat));
        lemma_total_push(transfer_amounts(b.active), r.amount as nat);
        let new_keys = outpoints(after.active);
        assert forall|x: int, y: int|
            0 <= x < new_keys.len() && 0 <= y < new_keys.len() && x != y implies #[trigger] new_keys[x]
            != #[trigger] new_keys[y] by {
            if x < keys.len() {
                assert(new_keys[x] == keys[x]);
            }
            if y < keys.len() {
                assert(new_keys[y] == keys[y]);
            }
        }
    }
}

/// Removing an outstanding inscription keeps the outputs distinct and
/// takes its amount off what is locked.
pub proof fn lemma_remove_active(active: Seq<TransferTxView>, j: int)
    requires
        distinct(outpoints(active)),
        0 <= j < active.len(),
    ensures
        distinct(outpoints(active.remove(j))),
        total(transfer_amounts(active.remove(j))) == total(transfer_amounts(active))
            - active[j].amount,
        active[j].amount <= total(transfer_amounts(active)),
        !has_key(outpoints(active.remove(j)), outpoint_of(active[j])),
{
    let keys = outpoints(active);
    let rest = outpoints(active.remove(j));
    assert(transfer_amounts(active.remove(j)) =~= transfer_amounts(active).remove(j));
    lemma_total_remove(transfer_amounts(active), j);
    lemma_total_update(transfer_amounts(active), j, 0);
    assert forall|x: int| 0 <= x < rest.len() implies #[trigger] rest[x] == keys[if x < j {
        x
    } else {
        x + 1
    }] by {}
    assert forall|x: int, y: int|
        0 <= x < rest.len() && 0 <= y < rest.len() && x != y implies #[trigger] rest[x]
        != #[trigger] rest[y] by {
        let a = if x < j {
            x
        } else {
            x + 1
        };
        let b = if y < j {
            y
        } else {
            y + 1
        };
        assert(rest[x] == keys[a]);
        assert(rest[y] == keys[b]);
    }
    lemma_position(rest, outpoint_of(active[j]));
    let p = position(rest, outpoint_of(active[j]));
    if p < rest.len() {
        let a = if p < j {
            p
        } else {
            p + 1
        };
        assert(rest[p] == keys[a]);
        assert(keys[j] == outpoint_of(active[j]));
        assert(keys[a] != keys[j]);
    }
}

/// Sending an outstanding inscription keeps a balance consistent.
pub proof fn lemma_send_wf(b: BalanceView, j: int, done: TransferTxView)
    requires
        balance_wf(b),
        0 <= j < b.active.len(),
        done.amount == b.active[j].amount,
    ensures
        done.amount <= b.overall,
        balance_wf(balance_send(b, j, done)),
{
    lemma_remove_active(b.active, j);
    assert(transfer_amounts(b.sends.push(done)) =~= transfer_amounts(b.sends).push(
        done.amount as nat,
    ));
    lemma_total_push(transfer_amounts(b.sends), done.amount as nat);
}

/// Receiving keeps a balance consistent.
pub proof fn lemma_receive_wf(b: BalanceView, done: TransferTxView)
    requires
        balance_wf(b),
        b.overall + done.amount <= u128::MAX,
    ensures
        balance_wf(balance_receive(b, done)),
{
    assert(transfer_amounts(b.receives.push(done)) =~= transfer_amounts(b.receives).push(
        done.amount as nat,
    ));
    lemma_total_push(transfer_amounts(b.receives), done.amount as nat);
}

/// The sum of the amounts of `v`, where it fits in 128 bits.
pub fn sum_transfers(v: &Vec<Brc20TransferTx>) -> (r: Option<u128>)
    ensures
        total(transfer_amounts(transfers_view(v@))) <= u128::MAX ==> r == Some(
            total(transfer_amounts(transfers_view(v@))) as u128,
        ),
        total(transfer_amounts(transfers_view(v@))) > u128::MAX ==> r is None,
{
    let ghost amounts = transfer_amounts(transfers_view(v@));
    let mut sum: u128 = 0;
    let mut i: usize = 0;
    while i < v.len()
        invariant
            0 <= i <= v.len(),
            amounts == transfer_amounts(transfers_view(v@)),
            sum == total(amounts.subrange(0, i as int)),
        decreases v.len() - i,
    {
        let a = v[i].get_amount();
        proof {
            assert(amounts.subrange(0, i + 1).drop_last() =~= amounts.subrange(0, i as int));
            assert(amounts[i as int] == a);
            lemma_total_prefix(amounts, i + 1);
        }
        if a > u128::MAX - sum {
            return None;
        }
        sum = sum + a;
        i += 1;
    }
    assert(amounts.subrange(0, i as int) =~= amounts);
    Some(sum)
}

/// The sum of the amounts of `v`, where it fits in 128 bits.
pub fn sum_mints(v: &Vec<Brc20MintTx>) -> (r: Option<u128>)
    ensures
        total(mint_amounts(mints_view(v@))) <= u128::MAX ==> r == Some(
            total(mint_amounts(mints_view(v@))) as u128,
        ),
        total(mint_amounts(mints_view(v@))) > u128::MAX ==> r is None,
{
    let ghost amounts = mint_amounts(mints_view(v@));
    let mut sum: u128 = 0;
    let mut i: usize = 0;
    while i < v.len()
        invariant
            0 <= i <= v.len(),
            amounts == mint_amounts(mints_view(v@)),
            sum == total(amounts.subrange(0, i as int)),
        decreases v.len() - i,
    {
        let a = v[i].get_amount();
        proof {
            assert(amounts.subrange(0, i + 1).drop_last() =~= amounts.subrange(0, i as int));
            assert(amounts[i as int] == a);
            lemma_total_prefix(amounts, i + 1);
        }
        if a > u128::MAX - sum {
            return None;
        }
        sum = sum + a;
        i += 1;
    }
    assert(amounts.subrange(0, i as int) =~= amounts);
    Some(sum)
}

/// What one address holds of one ticker: its overall balance, its
/// outstanding transfer inscriptions, and the history of its sends,
/// receives and mints.
#[derive(Debug)]
pub struct UserBalance {
    overall_balance: u128,
    active_transfer_inscriptions: Vec<Brc20TransferTx>,
    transfer_sends: Vec<Brc20TransferTx>,
    transfer_receives: Vec<Brc20TransferTx>,
    mints: Vec<Brc20MintTx>,
}

impl View for UserBalance {
    type V = BalanceView;

    closed spec fn view(&self) -> BalanceView {
        BalanceView {
            overall: self.overall_balance,
            active: transfers_view(self.active_transfer_inscriptions@),
            sends: transfers_view(self.transfer_sends@),
            receives: transfers_view(self.transfer_receives@),
            mints: mints_view(self.mints@),
        }
    }
}

impl UserBalance {
    /// The balance is consistent.
    pub open spec fn wf(&self) -> bool {
        balance_wf(self@)
    }

    /// The balance of an address that has neither minted nor received.
    pub fn new() -> (r: Self)
        ensures
            r@ == empty_balance(),
            r.wf(),
    {
        let r = UserBalance {
            overall_balance: 0,
            active_transfer_inscriptions: Vec::new(),
            transfer_sends: Vec::new(),
            transfer_receives: Vec::new(),
            mints: Vec::new(),
        };
        assert(r@.active =~= Seq::empty());
        assert(r@.sends =~= Seq::empty());
        assert(r@.receives =~= Seq::empty());
        assert(r@.mints =~= Seq::empty());
        assert(transfer_amounts(Seq::<TransferTxView>::empty()) =~= Seq::<nat>::empty());
        assert(mint_amounts(Seq::<MintTxView>::empty()) =~= Seq::<nat>::empty());
        assert(outpoints(Seq::<TransferTxView>::empty()) =~= Seq::<(Seq<char>, u32)>::empty());
        r
    }

    /// What is locked in outstanding transfer inscriptions.
    pub fn get_transferable_balance(&self) -> (r: u128)
        requires
            self.wf(),
        ensures
            r == transferable(self@),
    {
        match sum_transfers(&self.active_transfer_inscriptions) {
            Some(v) => v,
            None => 0,
        }
    }

    /// What can still be inscribed for transfer.
    pub fn get_available_balance(&self) -> (r: u128)
        requires
            self.wf(),
        ensures
            r == available(self@),
    {
        self.overall_balance - self.get_transferable_balance()
    }

    pub fn get_overall_balance(&self) -> (r: u128)
        ensures
            r == self@.overall,
    {
        self.overall_balance
    }

    /// Adds `amount` to the overall balance and nothing to the history.
    pub fn increase_overall_balance(&mut self, amount: u128)
        requires
            old(self)@.overall + amount <= u128::MAX,
        ensures
            final(self)@ == (BalanceView {
                overall: (old(self)@.overall + amount) as u128,
                ..old(self)@
            }),
    {
        self.overall_balance = self.overall_balance + amount;
    }

    /// Takes `amount` off the overall balance, unless it is more than
    /// there is.
    pub fn decrease_overall_balance(&mut self, amount: u128) -> (r: Result<(), String>)
        ensures
            amount <= old(self)@.overall ==> r is Ok && final(self)@ == (BalanceView {
                overall: (old(self)@.overall - amount) as u128,
                ..old(self)@
            }),
            amount > old(self)@.overall ==> r is Err && r->Err_0@
                == "Decrease amount exceeds overall balance"@ && final(self)@ == old(self)@,
    {
        if self.overall_balance >= amount {
            self.overall_balance = self.overall_balance - amount;
            Ok(())
        } else {
            Err("Decrease amount exceeds overall balance".to_string())
        }
    }

    /// The place of the outstanding inscription on `outpoint`.
    pub fn find_active(&self, outpoint: &OutPoint) -> (r: Option<usize>)
        ensures
            match r {
                Some(j) => j < self@.active.len() && j == position(
                    outpoints(self@.active),
                    outpoint@,
                ),
                None => !has_key(outpoints(self@.active), outpoint@),
            },
    {
        let ghost keys = outpoints(self@.active);
        let mut j: usize = 0;
        while j < self.active_transfer_inscriptions.len()
            invariant
                0 <= j <= self.active_transfer_inscriptions.len(),
                keys == outpoints(self@.active),
                forall|x: int| 0 <= x < j ==> #[trigger] keys[x] != outpoint@,
            decreases self.active_transfer_inscriptions.len() - j,
        {
            let here = self.active_transfer_inscriptions[j].get_inscription_outpoint();
            assert(keys[j as int] == here@);
            if here.same(outpoint) {
                proof {
                    lemma_position_is(keys, outpoint@, j as int);
                }
                return Some(j);
            }
            j += 1;
        }
        proof {
            lemma_position_is(keys, outpoint@, j as int);
        }
        None
    }

    /// Makes a transfer inscription outstanding, in place of one on the
    /// same output if there is one.
    pub fn add_transfer_inscription(&mut self, transfer_inscription: Brc20TransferTx)
        ensures
            final(self)@ == balance_add_inscription(old(self)@, transfer_inscription@),
            old(self).wf() && transfer_inscription@.amount <= available(old(self)@) ==> final(self).wf(),
    {
        let outpoint = transfer_inscription.get_inscription_outpoint();
        proof {
            if old(self).wf() && transfer_inscription@.amount <= available(old(self)@) {
                lemma_add_inscription_wf(old(self)@, transfer_inscription@);
            }
        }
        match self.find_active(&outpoint) {
            Some(j) => {
                self.active_transfer_inscriptions[j] = transfer_inscription;
            },
            None => {
                self.active_transfer_inscriptions.push(transfer_inscription);
            },
        }
        assert(self@.active =~= balance_add_inscription(old(self)@, transfer_inscription@).active);
    }

    pub fn is_active_inscription(&self, outpoint: &OutPoint) -> (r: bool)
        ensures
            r == has_key(outpoints(self@.active), outpoint@),
    {
        self.find_active(outpoint).is_some()
    }

    /// Takes the outstanding inscription on `outpoint` out, if there is one.
    pub fn remove_inscription(&mut self, outpoint: &OutPoint) -> (r: Option<Brc20TransferTx>)
        ensures
            record_view(r) == outstanding_on(old(self)@, outpoint@),
            final(self)@ == balance_without(old(self)@, outpoint@),
            old(self).wf() ==> final(self).wf(),
    {
        match self.find_active(outpoint) {
            Some(j) => {
                proof {
                    if old(self).wf() {
                        lemma_remove_active(old(self)@.active, j as int);
                    }
                }
                let taken = self.active_transfer_inscriptions.remove(j);
                assert(self@.active =~= old(self)@.active.remove(j as int));
                Some(taken)
            },
            None => None,
        }
    }

    /// Adds a mint to the history and its amount to the overall balance.
    pub fn add_mint_tx(&mut self, mint: Brc20MintTx)
        requires
            old(self)@.overall + mint@.amount <= u128::MAX,
        ensures
            final(self)@ == balance_add_mint(old(self)@, mint@),
            old(self).wf() ==> final(self).wf(),
    {
        proof {
            if old(self).wf() {
                lemma_add_mint_wf(old(self)@, mint@);
            }
        }
        self.overall_balance = self.overall_balance + mint.get_amount();
        self.mints.push(mint);
        assert(self@.mints =~= old(self)@.mints.push(mint@));
    }

    pub fn get_mint_txs(&self) -> (r: &Vec<Brc20MintTx>)
        ensures
            mints_view(r@) == self@.mints,
    {
        &self.mints
    }

    pub fn get_active_transfer_inscriptions(&self) -> (r: &Vec<Brc20TransferTx>)
        ensures
            transfers_view(r@) == self@.active,
    {
        &self.active_transfer_inscriptions
    }

    pub fn get_transfer_sends(&self) -> (r: &Vec<Brc20TransferTx>)
        ensures
            transfers_view(r@) == self@.sends,
    {
        &self.transfer_sends
    }

    pub fn get_transfer_receives(&self) -> (r: &Vec<Brc20TransferTx>)
        ensures
            transfers_view(r@) == self@.receives,
    {
        &self.transfer_receives
    }

    /// Adds a completed transfer to the sends and takes its amount off the
    /// overall balance.
    pub fn add_transfer_send(&mut self, transfer_send: Brc20TransferTx)
        requires
            transfer_send@.amount <= old(self)@.overall,
        ensures
            final(self)@ == (BalanceView {
                overall: (old(self)@.overall - transfer_send@.amount) as u128,
                sends: old(self)@.sends.push(transfer_send@),
                ..old(self)@
            }),
    {
        self.overall_balance = self.overall_balance - transfer_send.get_amount();
        self.transfer_sends.push(transfer_send);
        assert(self@.sends =~= old(self)@.sends.push(transfer_send@));
    }

    /// Adds a completed transfer to the receives and its amount to the
    /// overall balance.
    pub fn add_transfer_receive(&mut self, transfer_receive: Brc20TransferTx)
        requires
            old(self)@.overall + transfer_receive@.amount <= u128::MAX,
        ensures
            final(self)@ == balance_receive(old(self)@, transfer_receive@),
            old(self).wf() ==> final(self).wf(),
    {
        proof {
            if old(self).wf() {
                lemma_receive_wf(old(self)@, transfer_receive@);
            }
        }
        self.overall_balance = self.overall_balance + transfer_receive.get_amount();
        self.transfer_receives.push(transfer_receive);
        assert(self@.receives =~= old(self)@.receives.push(transfer_receive@));
    }

    /// The sum of what was sent, where it fits in 128 bits.
    pub fn get_total_amount_from_transfer_sends(&self) -> (r: Option<u128>)
        ensures
            total(transfer_amounts(self@.sends)) <= u128::MAX ==> r == Some(
                total(transfer_amounts(self@.sends)) as u128,
            ),
            total(transfer_amounts(self@.sends)) > u128::MAX ==> r is None,
    {
        sum_transfers(&self.transfer_sends)
    }

    /// The sum of what was received, where it fits in 128 bits.
    pub fn get_total_amount_from_transfer_receives(&self) -> (r: Option<u128>)
        ensures
            total(transfer_amounts(self@.receives)) <= u128::MAX ==> r == Some(
                total(transfer_amounts(self@.receives)) as u128,
            ),
            total(transfer_amounts(self@.receives)) > u128::MAX ==> r is None,
    {
        sum_transfers(&self.transfer_receives)
    }

    /// The sum of what was minted, where it fits in 128 bits.
    pub fn get_total_amount_from_mints(&self) -> (r: Option<u128>)
        ensures
            total(mint_amounts(self@.mints)) <= u128::MAX ==> r == Some(
                total(mint_amounts(self@.mints)) as u128,
            ),
            total(mint_amounts(self@.mints)) > u128::MAX ==> r is None,
    {
        sum_mints(&self.mints)
    }

    /// The overall balance as the history gives it: what was received and
    /// minted less what was sent, where the three sums fit in 128 bits. On
    /// a consistent balance it is the overall balance.
    pub fn get_overall_balance_from_txs(&self) -> (r: Option<u128>)
        requires
            self.wf(),
        ensures
            r is Some ==> r == Some(self@.overall),
            r is Some <==> total(transfer_amounts(self@.receives)) + total(
                mint_amounts(self@.mints),
            ) <= u128::MAX,
    {
        let received = sum_transfers(&self.transfer_receives);
        let minted = sum_mints(&self.mints);
        let sent = sum_transfers(&self.transfer_sends);
        match (received, minted, sent) {
            (Some(a), Some(b), Some(c)) => {
                if a > u128::MAX - b {
                    None
                } else {
                    Some(a + b - c)
                }
            },
            _ => None,
        }
    }

    /// What is available as the history gives it.
    pub fn get_available_balance_from_txs(&self) -> (r: Option<u128>)
        requires
            self.wf(),
        ensures
            r is Some ==> r == Some(available(self@) as u128),
            r is Some <==> total(transfer_amounts(self@.receives)) + total(
                mint_amounts(self@.mints),
            ) <= u128::MAX,
    {
        match self.get_overall_balance_from_txs() {
            Some(v) => Some(v - self.get_transferable_balance()),
            None => None,
        }
    }
}

} // verus!
