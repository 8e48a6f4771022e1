//! Deploy records and the validation of deploy payloads.

use crate::amount::{decode_amount, digits_value, is_digit, lemma_digits_prefix_le};
use crate::brc20_ticker::TickerMap;
use crate::mint::amount_error_message;
use crate::model::{
    decimals_spec, deploy_decision, deploy_invalid, deploy_record, limit_spec, new_deploy,
    small_number, ticker_keys, DeployTxView,
};
use crate::payload::{ticker_key, Brc20Deploy};
use crate::tx::{text_view, Brc20Tx, InvalidBrc20Tx, InvalidBrc20TxMap};
use vstd::prelude::*;
use vstd::string::*;

verus! {

/// The number from 0 to 18 that a run of decimal digits writes.
pub fn parse_small_number(s: &str) -> (r: Option<u8>)
    ensures
        r == small_number(s@),
{
    let n: usize = s.unicode_len();
    if n == 0 {
        return None;
    }
    let mut acc: u8 = 0;
    let mut i: usize = 0;
    while i < n
        invariant
            n == s@.len(),
            n > 0,
            0 <= i <= n,
            acc <= 18,
            acc == digits_value(s@.subrange(0, i as int)),
            forall|j: int| 0 <= j < i ==> is_digit(#[trigger] s@[j]),
        decreases n - i,
    {
        let c = s.get_char(i);
        if !('0' <= c && c <= '9') {
            return None;
        }
        let d: u8 = (c as u32 - '0' as u32) as u8;
        proof {
            assert(s@.subrange(0, i + 1).drop_last() =~= s@.subrange(0, i as int));
            assert(digits_value(s@.subrange(0, i + 1)) == 10 * acc + d);
            lemma_digits_prefix_le(s@, i + 1);
        }
        if acc > 1 || acc * 10 + d > 18 {
            return None;
        }
        acc = acc * 10 + d;
        i += 1;
    }
    assert(s@.subrange(0, i as int) =~= s@);
    Some(acc)
}

/// The decimals that a deploy asks for: 18 where it names none. What it
/// names is read as an unsigned integer is written: one `+` may come first,
/// then at least one decimal digit and nothing else. It is nothing where
/// the text is not of that form or writes more than 18.
pub fn parse_decimals(dec: &Option<String>) -> (r: Option<u8>)
    ensures
        r == decimals_spec(text_view(*dec)),
{
    match dec {
        None => Some(18),
        Some(text) => {
            let s = text.as_str();
            let n: usize = s.unicode_len();
            if n > 0 && s.get_char(0) == '+' {
                parse_small_number(s.substring_char(1, n))
            } else {
                parse_small_number(s)
            }
        },
    }
}

pub open spec fn limit_view(r: Result<u128, String>) -> Result<u128, Seq<char>> {
    match r {
        Ok(v) => Ok(v),
        Err(e) => Err(e@),
    }
}

/// The limit of a deploy with supply `max`.
pub fn decide_limit(lim: &Option<String>, decimals: u8, max: u128) -> (r: Result<u128, String>)
    requires
        decimals <= 18,
    ensures
        limit_view(r) == limit_spec(text_view(*lim), decimals, max),
{
    match lim {
        None => Ok(max),
        Some(l) => match decode_amount(l.as_str(), decimals) {
            Err(e) => Err(amount_error_message(e)),
            Ok(v) => if v == 0 {
                Ok(max)
            } else if v > max {
                Err("Limit must be less than or equal to max supply".to_string())
            } else {
                Ok(v)
            },
        },
    }
}

pub open spec fn decision_view(r: Result<(u128, u128, u8), String>) -> Result<
    (u128, u128, u8),
    Seq<char>,
> {
    match r {
        Ok(v) => Ok(v),
        Err(e) => Err(e@),
    }
}

/// Decides a deploy against the registry: the parameters of the ticker it
/// creates, or the first reason for which it creates none.
pub fn decide_deploy(script: &Brc20Deploy, ticker_map: &TickerMap) -> (r: Result<
    (u128, u128, u8),
    String,
>)
    ensures
        decision_view(r) == deploy_decision(ticker_keys(ticker_map@), script@),
{
    if script.tick.as_str().unicode_len() != 4 {
        return Err("Ticker symbol must be 4 characters long".to_string());
    }
    let key = ticker_key(script.tick.as_str());
    if ticker_map.contains_key(key.as_str()) {
        return Err("Ticker symbol already exists".to_string());
    }
    let decimals = match parse_decimals(&script.dec) {
        None => {
            return Err("Decimals must be 18 or less".to_string());
        },
        Some(d) => d,
    };
    let max = match decode_amount(script.max.as_str(), decimals) {
        Err(e) => {
            return Err(amount_error_message(e));
        },
        Ok(v) => v,
    };
    if max == 0 {
        return Err("Max supply must be greater than 0".to_string());
    }
    match decide_limit(&script.lim, decimals, max) {
        Err(reason) => Err(reason),
        Ok(limit) => Ok((max, limit, decimals)),
    }
}

/// A deploy event: its context, its payload, and the parameters that
/// validation derived from the payload.
#[derive(Debug)]
pub struct Brc20DeployTx {
    max_supply: u128,
    limit: u128,
    decimals: u8,
    brc20_tx: Brc20Tx,
    deploy_script: Brc20Deploy,
    is_valid: bool,
}

impl View for Brc20DeployTx {
    type V = DeployTxView;

    closed spec fn view(&self) -> DeployTxView {
        DeployTxView {
            max_supply: self.max_supply,
            limit: self.limit,
            decimals: self.decimals,
            tx: self.brc20_tx@,
            script: self.deploy_script@,
            is_valid: self.is_valid,
        }
    }
}

impl Clone for Brc20DeployTx {
    fn clone(&self) -> (r: Self)
        ensures
            r@ == self@,
    {
        Brc20DeployTx {
            max_supply: self.max_supply,
            limit: self.limit,
            decimals: self.decimals,
            brc20_tx: self.brc20_tx.clone(),
            deploy_script: self.deploy_script.clone(),
            is_valid: self.is_valid,
        }
    }
}

impl Brc20DeployTx {
    /// A deploy record that has not been validated: it is not valid, its
    /// supply and limit are zero and its decimals 18.
    pub fn new(brc20_tx: Brc20Tx, deploy_script: Brc20Deploy) -> (r: Self)
        ensures
            r@ == new_deploy(brc20_tx@, deploy_script@),
    {
        Brc20DeployTx {
            max_supply: 0,
            limit: 0,
            decimals: 18,
            brc20_tx,
            deploy_script,
            is_valid: false,
        }
    }

    pub fn get_max_supply(&self) -> (r: u128)
        ensures
            r == self@.max_supply,
    {
        self.max_supply
    }

    pub fn get_limit(&self) -> (r: u128)
        ensures
            r == self@.limit,
    {
        self.limit
    }

    pub fn get_decimals(&self) -> (r: u8)
        ensures
            r == self@.decimals,
    {
        self.decimals
    }

    pub fn is_valid(&self) -> (r: bool)
        ensures
            r == self@.is_valid,
    {
        self.is_valid
    }

    pub fn set_valid(self, is_valid: bool) -> (r: Self)
        ensures
            r@ == (DeployTxView { is_valid, ..self@ }),
    {
        let mut out = self;
        out.is_valid = is_valid;
        out
    }

    pub fn get_deploy_script(&self) -> (r: &Brc20Deploy)
        ensures
            r@ == self@.script,
    {
        &self.deploy_script
    }

    pub fn get_brc20_tx(&self) -> (r: &Brc20Tx)
        ensures
            r@ == self@.tx,
    {
        &self.brc20_tx
    }

    /// Validates the deploy against the registry. An accepted deploy
    /// carries the parameters of its ticker; a rejected one is recorded
    /// with the first reason that applies.
    pub fn validate_deploy_script(
        self,
        invalid_tx_map: &mut InvalidBrc20TxMap,
        ticker_map: &TickerMap,
    ) -> (r: Self)
        requires
            old(invalid_tx_map).wf(),
        ensures
            r@ == deploy_record(ticker_keys(ticker_map@), self@),
            final(invalid_tx_map)@ == deploy_invalid(
                ticker_keys(ticker_map@),
                self@,
                old(invalid_tx_map)@,
            ),
            final(invalid_tx_map).wf(),
    {
        let mut out = self;
        match decide_deploy(&out.deploy_script, ticker_map) {
            Ok((max_supply, limit, decimals)) => {
                out.max_supply = max_supply;
                out.limit = limit;
                out.decimals = decimals;
                out.is_valid = true;
            },
            Err(reason) => {
                out.is_valid = false;
                invalid_tx_map.add_invalid_tx(InvalidBrc20Tx::new(out.brc20_tx.clone(), reason));
            },
        }
        out
    }
}

} // verus!
