//! Mint records and the validation of mint payloads.

use crate::amount::{decimal_digits, decimal_text, decode_amount, decode_spec, AmountError};
use crate::brc20_ticker::TickerMap;
use crate::model::{
    amount_error_text, mint_invalid, mint_outcome, mint_record, mint_tickers, new_mint,
    MintTxView,
};
use crate::payload::{ticker_key, Brc20Mint};
use crate::tx::{Brc20Tx, InvalidBrc20Tx, InvalidBrc20TxMap};
use vstd::prelude::*;
use vstd::string::*;

verus! {

/// The reason under which a malformed amount is rejected.
pub fn amount_error_message(e: AmountError) -> (r: String)
    ensures
        r@ == amount_error_text(e),
{
    match e {
        AmountError::Empty => "Amount is empty".to_string(),
        AmountError::NotNumeric => "Amount is not a number".to_string(),
        AmountError::MultiplePoints => "Amount has more than one decimal point".to_string(),
        AmountError::TooManyDecimals => "Amount has more decimals than the ticker".to_string(),
        AmountError::Overflow => "Amount is too large".to_string(),
    }
}

/// The note that goes with a mint: where its amount was cut down to the
/// supply that was left, that it was and to how many base units.
pub open spec fn adjustment_note(m: MintTxView) -> Seq<char> {
    if m.adjusted {
        "Total minted amount exceeds maximum. Adjusted mint amount to "@ + decimal_digits(
            m.amount as nat,
        )
    } else {
        Seq::empty()
    }
}

/// A mint event: its context, its payload, the amount it was accepted for
/// and whether that amount was cut down to the supply that was left.
#[derive(Debug)]
pub struct Brc20MintTx {
    brc20_tx: Brc20Tx,
    mint: Brc20Mint,
    amount: u128,
    adjusted: bool,
    is_valid: bool,
}

impl View for Brc20MintTx {
    type V = MintTxView;

    closed spec fn view(&self) -> MintTxView {
        MintTxView {
            tx: self.brc20_tx@,
            script: self.mint@,
            amount: self.amount,
            adjusted: self.adjusted,
            is_valid: self.is_valid,
        }
    }
}

impl Clone for Brc20MintTx {
    fn clone(&self) -> (r: Self)
        ensures
            r@ == self@,
    {
        Brc20MintTx {
            brc20_tx: self.brc20_tx.clone(),
            mint: self.mint.clone(),
            amount: self.amount,
            adjusted: self.adjusted,
            is_valid: self.is_valid,
        }
    }
}

impl Brc20MintTx {
    /// A mint record that has not been validated: it is not valid and its
    /// amount is zero.
    pub fn new(brc20_tx: &Brc20Tx, mint: Brc20Mint) -> (r: Self)
        ensures
            r@ == new_mint(brc20_tx@, mint@),
    {
        Brc20MintTx {
            brc20_tx: brc20_tx.clone(),
            mint,
            amount: 0,
            adjusted: false,
            is_valid: false,
        }
    }

    pub fn get_amount(&self) -> (r: u128)
        ensures
            r == self@.amount,
    {
        self.amount
    }

    pub fn is_valid(&self) -> (r: bool)
        ensures
            r == self@.is_valid,
    {
        self.is_valid
    }

    /// Whether the amount was cut down to the supply that was left.
    pub fn is_adjusted(&self) -> (r: bool)
        ensures
            r == self@.adjusted,
    {
        self.adjusted
    }

    /// The note that goes with an accepted mint: where the amount was cut
    /// down, it says so and to how many base units; otherwise it is empty.
    pub fn get_reason(&self) -> (r: String)
        ensures
            r@ == adjustment_note(self@),
    {
        if self.adjusted {
            let note = "Total minted amount exceeds maximum. Adjusted mint amount to ".to_string();
            note.concat(decimal_text(self.amount).as_str())
        } else {
            String::new()
        }
    }

    pub fn get_mint(&self) -> (r: &Brc20Mint)
        ensures
            r@ == self@.script,
    {
        &self.mint
    }

    pub fn get_brc20_tx(&self) -> (r: &Brc20Tx)
        ensures
            r@ == self@.tx,
    {
        &self.brc20_tx
    }
}

pub open spec fn outcome_view(r: Result<(u128, bool), String>) -> Result<(u128, bool), Seq<char>> {
    match r {
        Ok(v) => Ok(v),
        Err(e) => Err(e@),
    }
}

/// Decides a mint of `amt` against a ticker's limit, supply and decimals.
pub fn decide_mint(
    amt: &str,
    decimals: u8,
    limit: u128,
    max_supply: u128,
    total_minted: u128,
) -> (r: Result<(u128, bool), String>)
    requires
        decimals <= 18,
        total_minted <= max_supply,
    ensures
        outcome_view(r) == (match decode_spec(amt@, decimals as nat) {
            Err(e) => Err::<(u128, bool), Seq<char>>(amount_error_text(e)),
            Ok(v) => if v > limit {
                Err("Mint amount exceeds limit"@)
            } else if total_minted + v > max_supply {
                if max_supply - total_minted == 0 {
                    Err("Supply exhausted"@)
                } else {
                    Ok(((max_supply - total_minted) as u128, true))
                }
            } else {
                Ok((v, false))
            },
        }),
{
    match decode_amount(amt, decimals) {
        Err(e) => Err(amount_error_message(e)),
        Ok(v) => {
            if v > limit {
                Err("Mint amount exceeds limit".to_string())
            } else if v > max_supply - total_minted {
                if max_supply - total_minted == 0 {
                    Err("Supply exhausted".to_string())
                } else {
                    Ok((max_supply - total_minted, true))
                }
            } else {
                Ok((v, false))
            }
        },
    }
}

impl Brc20Mint {
    /// Validates a mint against the registry. An accepted mint joins its
    /// ticker, for the amount asked or, where that would pass the maximum
    /// supply, for what is left of it; a rejected one is recorded with its
    /// reason and changes no ticker.
    pub fn validate(
        self,
        brc20_tx: &Brc20Tx,
        ticker_map: &mut TickerMap,
        invalid_tx_map: &mut InvalidBrc20TxMap,
    ) -> (r: Brc20MintTx)
        requires
            old(ticker_map).wf(),
            old(invalid_tx_map).wf(),
        ensures
            r@ == mint_record(old(ticker_map)@, brc20_tx@, self@),
            final(ticker_map)@ == mint_tickers(old(ticker_map)@, brc20_tx@, self@),
            final(invalid_tx_map)@ == mint_invalid(
                old(ticker_map)@,
                brc20_tx@,
                self@,
                old(invalid_tx_map)@,
            ),
            final(ticker_map).wf(),
            final(invalid_tx_map).wf(),
    {
        let key = ticker_key(self.tick.as_str());
        let found = ticker_map.find(key.as_str());
        let outcome = match found {
            None => Err("Ticker symbol does not exist".to_string()),
            Some(k) => {
                let ticker = ticker_map.get_at(k);
                decide_mint(
                    self.amt.as_str(),
                    ticker.get_decimals(),
                    ticker.get_limit(),
                    ticker.get_max_supply(),
                    ticker.get_total_supply(),
                )
            },
        };
        assert(outcome_view(outcome) == mint_outcome(old(ticker_map)@, self@));
        match outcome {
            Err(reason) => {
                let record = Brc20MintTx::new(brc20_tx, self);
                invalid_tx_map.add_invalid_tx(InvalidBrc20Tx::new(brc20_tx.clone(), reason));
                record
            },
            Ok((amount, adjusted)) => {
                let record = Brc20MintTx {
                    brc20_tx: brc20_tx.clone(),
                    mint: self,
                    amount,
                    adjusted,
                    is_valid: true,
                };
                ticker_map.add_mint_at(found.unwrap(), record.clone());
                record
            },
        }
    }
}

} // verus!
