//! Transfer records and the validation of transfer inscriptions.

use crate::amount::{decode_amount, decode_spec};
use crate::brc20_ticker::TickerMap;
use crate::mint::amount_error_message;
use crate::model::{
    addresses, amount_error_text, balance_wf, inscribe_invalid, inscribe_outcome,
    inscribe_record, inscribe_tickers, new_transfer, outpoint_of, sent_record, ticker_keys,
    TransferTxView,
};
use crate::seqs::{lemma_position, position};
use crate::payload::{clone_opt, ticker_key, Brc20Transfer};
use crate::tx::{text_view, Brc20Tx, InvalidBrc20Tx, InvalidBrc20TxMap, OutPoint, TxView};
use vstd::prelude::*;
use vstd::string::*;

verus! {

/// Where a transfer stands.
#[derive(Clone, Copy, Debug, PartialEq, Eq, Structural)]
pub enum TransferState {
    /// Accepted and outstanding: the inscription's output is unspent.
    Inscribed,
    /// Completed: the inscription's output was spent to the receiver.
    Sent,
    /// Not accepted.
    Invalid,
}

pub open spec fn state_of(t: TransferTxView) -> TransferState {
    if !t.is_valid {
        TransferState::Invalid
    } else if t.transfer_tx is Some {
        TransferState::Sent
    } else {
        TransferState::Inscribed
    }
}

/// A transfer: the context of its inscription, the context of the spend
/// that completed it (if any), its payload, its amount and its receiver.
#[derive(Debug)]
pub struct Brc20TransferTx {
    inscription_tx: Brc20Tx,
    transfer_tx: Option<Brc20Tx>,
    transfer_script: Brc20Transfer,
    amount: u128,
    receiver: Option<String>,
    is_valid: bool,
}

pub open spec fn opt_tx_view(t: Option<Brc20Tx>) -> Option<TxView> {
    match t {
        Some(x) => Some(x@),
        None => None,
    }
}

impl View for Brc20TransferTx {
    type V = TransferTxView;

    closed spec fn view(&self) -> TransferTxView {
        TransferTxView {
            inscription_tx: self.inscription_tx@,
            transfer_tx: opt_tx_view(self.transfer_tx),
            script: self.transfer_script@,
            amount: self.amount,
            receiver: text_view(self.receiver),
            is_valid: self.is_valid,
        }
    }
}

impl Clone for Brc20TransferTx {
    fn clone(&self) -> (r: Self)
        ensures
            r@ == self@,
    {
        let transfer_tx = match &self.transfer_tx {
            Some(t) => Some(t.clone()),
            None => None,
        };
        Brc20TransferTx {
            inscription_tx: self.inscription_tx.clone(),
            transfer_tx,
            transfer_script: self.transfer_script.clone(),
            amount: self.amount,
            receiver: clone_opt(&self.receiver),
            is_valid: self.is_valid,
        }
    }
}

pub open spec fn inscribe_outcome_view(r: Result<u128, String>) -> Result<u128, Seq<char>> {
    match r {
        Ok(v) => Ok(v),
        Err(e) => Err(e@),
    }
}

/// Decides a transfer inscription of `amt` against what its owner has
/// available, if the owner has a balance at all.
pub fn decide_inscribe(amt: &str, decimals: u8, available: Option<u128>) -> (r: Result<
    u128,
    String,
>)
    requires
        decimals <= 18,
    ensures
        inscribe_outcome_view(r) == (match decode_spec(amt@, decimals as nat) {
            Err(e) => Err::<u128, Seq<char>>(amount_error_text(e)),
            Ok(v) => match available {
                None => Err("User balance not found"@),
                Some(a) => if a < v {
                    Err("Transfer amount exceeds available balance"@)
                } else {
                    Ok(v)
                },
            },
        }),
{
    match decode_amount(amt, decimals) {
        Err(e) => Err(amount_error_message(e)),
        Ok(v) => match available {
            None => Err("User balance not found".to_string()),
            Some(a) => if a < v {
                Err("Transfer amount exceeds available balance".to_string())
            } else {
                Ok(v)
            },
        },
    }
}

impl Brc20TransferTx {
    /// A transfer record that has not been validated: it is not valid, has
    /// no spend and no receiver, and its amount is zero.
    pub fn new(inscription_tx: Brc20Tx, transfer_script: Brc20Transfer) -> (r: Self)
        ensures
            r@ == new_transfer(inscription_tx@, transfer_script@),
    {
        Brc20TransferTx {
            inscription_tx,
            transfer_tx: None,
            transfer_script,
            amount: 0,
            receiver: None,
            is_valid: false,
        }
    }

    pub fn get_transfer_script(&self) -> (r: &Brc20Transfer)
        ensures
            r@ == self@.script,
    {
        &self.transfer_script
    }

    pub fn get_inscription_brc20_tx(&self) -> (r: &Brc20Tx)
        ensures
            r@ == self@.inscription_tx,
    {
        &self.inscription_tx
    }

    pub fn get_transfer_brc20_tx(&self) -> (r: Option<Brc20Tx>)
        ensures
            opt_tx_view(r) == self@.transfer_tx,
    {
        match &self.transfer_tx {
            Some(t) => Some(t.clone()),
            None => None,
        }
    }

    /// The output on which the inscription sits.
    pub fn get_inscription_outpoint(&self) -> (r: OutPoint)
        ensures
            r@ == outpoint_of(self@),
    {
        self.inscription_tx.get_outpoint()
    }

    pub fn get_amount(&self) -> (r: u128)
        ensures
            r == self@.amount,
    {
        self.amount
    }

    pub fn get_receiver(&self) -> (r: Option<String>)
        ensures
            text_view(r) == self@.receiver,
    {
        clone_opt(&self.receiver)
    }

    pub fn is_valid(&self) -> (r: bool)
        ensures
            r == self@.is_valid,
    {
        self.is_valid
    }

    pub fn get_state(&self) -> (r: TransferState)
        ensures
            r == state_of(self@),
    {
        if !self.is_valid {
            TransferState::Invalid
        } else if self.transfer_tx.is_some() {
            TransferState::Sent
        } else {
            TransferState::Inscribed
        }
    }

    pub fn set_validity(self, is_valid: bool) -> (r: Self)
        ensures
            r@ == (TransferTxView { is_valid, ..self@ }),
    {
        let mut out = self;
        out.is_valid = is_valid;
        out
    }

    pub fn set_transfer_tx(self, transfer_tx: Brc20Tx) -> (r: Self)
        ensures
            r@ == (TransferTxView { transfer_tx: Some(transfer_tx@), ..self@ }),
    {
        let mut out = self;
        out.transfer_tx = Some(transfer_tx);
        out
    }

    pub fn set_receiver(self, receiver: String) -> (r: Self)
        ensures
            r@ == (TransferTxView { receiver: Some(receiver@), ..self@ }),
    {
        let mut out = self;
        out.receiver = Some(receiver);
        out
    }

    /// The record of an accepted inscription of `amount`: valid, with no
    /// spend and no receiver yet.
    pub fn accepted(self, amount: u128) -> (r: Self)
        ensures
            r@ == (TransferTxView {
                amount,
                is_valid: true,
                transfer_tx: None,
                receiver: None,
                ..self@
            }),
    {
        let mut out = self;
        out.amount = amount;
        out.is_valid = true;
        out.transfer_tx = None;
        out.receiver = None;
        out
    }

    /// The record once its inscription was spent by `spend`, whose owner
    /// receives the amount.
    pub fn sent(self, spend: Brc20Tx) -> (r: Self)
        ensures
            r@ == sent_record(self@, spend@),
    {
        let receiver = spend.get_owner().clone();
        self.set_transfer_tx(spend).set_receiver(receiver)
    }

    /// Validates a transfer inscription against the registry. An accepted
    /// one becomes outstanding in its owner's balance; a rejected one is
    /// recorded with its reason, changes no ticker and comes back marked as
    /// not valid.
    pub fn handle_inscribe_transfer_amount(
        &self,
        ticker_map: &mut TickerMap,
        invalid_tx_map: &mut InvalidBrc20TxMap,
    ) -> (r: Self)
        requires
            old(ticker_map).wf(),
            old(invalid_tx_map).wf(),
        ensures
            r@ == inscribe_record(old(ticker_map)@, self@),
            final(ticker_map)@ == inscribe_tickers(old(ticker_map)@, self@),
            final(invalid_tx_map)@ == inscribe_invalid(
                old(ticker_map)@,
                self@,
                old(invalid_tx_map)@,
            ),
            final(ticker_map).wf(),
            final(invalid_tx_map).wf(),
    {
        let key = ticker_key(self.transfer_script.tick.as_str());
        let found = ticker_map.find(key.as_str());
        let outcome = match found {
            None => Err("Ticker not found".to_string()),
            Some(k) => {
                let ticker = ticker_map.get_at(k);
                let available = ticker.available_of(self.inscription_tx.get_owner().as_str());
                decide_inscribe(self.transfer_script.amt.as_str(), ticker.get_decimals(), available)
            },
        };
        proof {
            lemma_position(ticker_keys(old(ticker_map)@), key@);
            match found {
                Some(k) => {
                    let t = old(ticker_map)@[k as int];
                    let h = position(addresses(t.balances), self@.inscription_tx.owner);
                    lemma_position(addresses(t.balances), self@.inscription_tx.owner);
                    assert(ticker_keys(old(ticker_map)@)[k as int] == t.key);
                    if h < t.balances.len() {
                        assert(balance_wf(t.balances[h].balance));
                    }
                },
                None => {},
            }
        }
        assert(inscribe_outcome_view(outcome) == inscribe_outcome(
            old(ticker_map)@,
            self@.inscription_tx.owner,
            self@.script,
        ));
        match outcome {
            Err(reason) => {
                invalid_tx_map.add_invalid_tx(
                    InvalidBrc20Tx::new(self.inscription_tx.clone(), reason),
                );
                self.clone().set_validity(false)
            },
            Ok(amount) => {
                let record = self.clone().accepted(amount);
                ticker_map.inscribe_at(found.unwrap(), record.clone());
                record
            },
        }
    }
}

} // verus!
