//! The indexer: the registry of tickers and of rejected events, and the
//! state machine that applies the inscription stream to them.

use crate::brc20_ticker::{sent_script, Brc20Ticker, TickerMap};
use crate::deploy::Brc20DeployTx;
use crate::mint::Brc20MintTx;
use crate::model::{
    deploy_decision, deploy_invalid, deploy_record, deploy_tickers, inscribe_invalid,
    inscribe_outcome, inscribe_record, inscribe_tickers, mint_invalid, mint_outcome,
    mint_record, mint_tickers, new_deploy, new_transfer, send_tickers, ticker_keys, tickers_wf,
    IndexView, TickerView,
};
use crate::payload::{
    lowercase, parse_operation, parse_spec, Brc20Deploy, Brc20Mint, Brc20Transfer, Operation,
    OperationView,
};
use crate::seqs::has_key;
use crate::transfer::Brc20TransferTx;
use crate::tx::{
    build_context, context_spec, get_owner_of_output, input_outpoint, inputs_view,
    invalid_keys_distinct, owner_of_output, record_invalid, script_address, Brc20Tx,
    InvalidBrc20TxMap, InvalidTxView, Network, OutPoint, RawTxInfo, TxError, TxOutput, TxView,
};
use vstd::prelude::*;

verus! {

/// How the payload of an event fared.
#[derive(Clone, Copy, Debug, PartialEq, Eq, Structural)]
pub enum Outcome {
    /// The operation was applied.
    Accepted,
    /// The operation broke a rule and is recorded as invalid.
    Rejected,
    /// The inscription is no BRC-20 operation.
    Ignored,
}

/// What one event did: how its payload fared, and the records to hand to
/// the document store, in order.
#[derive(Debug)]
pub struct Step {
    pub kind: OperationKind,
    pub outcome: Outcome,
    pub emitted: Vec<Operation>,
}

/// Which operation a payload is.
#[derive(Clone, Copy, Debug, PartialEq, Eq, Structural)]
pub enum OperationKind {
    Deploy,
    Mint,
    Transfer,
    Ignore,
}

pub open spec fn kind_of(op: OperationView) -> OperationKind {
    match op {
        OperationView::Deploy(_) => OperationKind::Deploy,
        OperationView::Mint(_) => OperationKind::Mint,
        OperationView::Transfer(_) => OperationKind::Transfer,
        OperationView::Ignore => OperationKind::Ignore,
    }
}

/// Which operation a payload is.
pub fn operation_kind(operation: &Operation) -> (r: OperationKind)
    ensures
        r == kind_of(operation@),
{
    match operation {
        Operation::Deploy(_) => OperationKind::Deploy,
        Operation::Mint(_) => OperationKind::Mint,
        Operation::Transfer(_) => OperationKind::Transfer,
        Operation::Ignore => OperationKind::Ignore,
    }
}

pub open spec fn emitted_view(v: Seq<Operation>) -> Seq<OperationView> {
    Seq::new(v.len(), |i: int| v[i]@)
}

/// How many events fared how: the accepted ones by operation, the rejected
/// and the ignored ones. A count that has reached the largest number stays
/// there.
#[derive(Clone, Copy, Debug, PartialEq, Eq, Structural)]
pub struct Summary {
    pub accepted_deploys: u64,
    pub accepted_mints: u64,
    pub accepted_transfers: u64,
    pub invalid: u64,
    pub ignored: u64,
}

/// The count after one more.
pub open spec fn one_more(n: u64) -> u64 {
    if n < u64::MAX {
        (n + 1) as u64
    } else {
        n
    }
}

/// The counts after an event whose payload of kind `kind` fared as
/// `outcome` says.
pub open spec fn summary_after(s: Summary, kind: OperationKind, outcome: Outcome) -> Summary {
    match outcome {
        Outcome::Rejected => Summary { invalid: one_more(s.invalid), ..s },
        Outcome::Ignored => Summary { ignored: one_more(s.ignored), ..s },
        Outcome::Accepted => match kind {
            OperationKind::Deploy => Summary {
                accepted_deploys: one_more(s.accepted_deploys),
                ..s
            },
            OperationKind::Mint => Summary { accepted_mints: one_more(s.accepted_mints), ..s },
            OperationKind::Transfer => Summary {
                accepted_transfers: one_more(s.accepted_transfers),
                ..s
            },
            OperationKind::Ignore => s,
        },
    }
}

fn count_one_more(n: u64) -> (r: u64)
    ensures
        r == one_more(n),
{
    if n < u64::MAX {
        n + 1
    } else {
        n
    }
}

impl Summary {
    /// The counts before any event.
    pub fn new() -> (r: Self)
        ensures
            r == (Summary {
                accepted_deploys: 0,
                accepted_mints: 0,
                accepted_transfers: 0,
                invalid: 0,
                ignored: 0,
            }),
    {
        Summary {
            accepted_deploys: 0,
            accepted_mints: 0,
            accepted_transfers: 0,
            invalid: 0,
            ignored: 0,
        }
    }

    /// Counts one event.
    pub fn record(&mut self, kind: OperationKind, outcome: Outcome)
        ensures
            *final(self) == summary_after(*old(self), kind, outcome),
    {
        match outcome {
            Outcome::Rejected => {
                self.invalid = count_one_more(self.invalid);
            },
            Outcome::Ignored => {
                self.ignored = count_one_more(self.ignored);
            },
            Outcome::Accepted => match kind {
                OperationKind::Deploy => {
                    self.accepted_deploys = count_one_more(self.accepted_deploys);
                },
                OperationKind::Mint => {
                    self.accepted_mints = count_one_more(self.accepted_mints);
                },
                OperationKind::Transfer => {
                    self.accepted_transfers = count_one_more(self.accepted_transfers);
                },
                OperationKind::Ignore => {},
            },
        }
    }
}

// ---------------------------------------------------------------------
// One event, as mathematics
// ---------------------------------------------------------------------
/// The tickers after the first `n` inputs of `tx` were looked at: each
/// input that spends an output with an outstanding transfer inscription
/// completes that transfer, to the owner of `tx`.
pub open spec fn spend_inputs(t: Seq<TickerView>, tx: TxView, n: int) -> Seq<TickerView>
    decreases n,
{
    if n <= 0 {
        t
    } else {
        let before = spend_inputs(t, tx, n - 1);
        match input_outpoint(tx.inputs[n - 1]) {
            Some(outpoint) => send_tickers(before, outpoint, tx),
            None => before,
        }
    }
}

/// The transfer payloads that the first `n` inputs of `tx` completed.
pub open spec fn spend_emitted(t: Seq<TickerView>, tx: TxView, n: int) -> Seq<OperationView>
    decreases n,
{
    if n <= 0 {
        Seq::empty()
    } else {
        let before = spend_inputs(t, tx, n - 1);
        let emitted = spend_emitted(t, tx, n - 1);
        match input_outpoint(tx.inputs[n - 1]) {
            Some(outpoint) => match sent_script(before, outpoint) {
                Some(script) => emitted.push(OperationView::Transfer(script)),
                None => emitted,
            },
            None => emitted,
        }
    }
}

/// The tickers after the payload of an event was applied.
pub open spec fn payload_tickers(t: Seq<TickerView>, tx: TxView, op: OperationView) -> Seq<
    TickerView,
> {
    match op {
        OperationView::Deploy(d) => deploy_tickers(t, tx, d),
        OperationView::Mint(m) => mint_tickers(t, tx, m),
        OperationView::Transfer(x) => inscribe_tickers(t, new_transfer(tx, x)),
        OperationView::Ignore => t,
    }
}

/// The registry of rejected events after the payload of an event was applied.
pub open spec fn payload_invalid(
    t: Seq<TickerView>,
    tx: TxView,
    op: OperationView,
    invalid: Seq<InvalidTxView>,
) -> Seq<InvalidTxView> {
    match op {
        OperationView::Deploy(d) => deploy_invalid(ticker_keys(t), new_deploy(tx, d), invalid),
        OperationView::Mint(m) => mint_invalid(t, tx, m, invalid),
        OperationView::Transfer(x) => inscribe_invalid(t, new_transfer(tx, x), invalid),
        OperationView::Ignore => invalid,
    }
}

/// How the payload of an event fares.
pub open spec fn payload_outcome(t: Seq<TickerView>, tx: TxView, op: OperationView) -> Outcome {
    match op {
        OperationView::Deploy(d) => if deploy_decision(ticker_keys(t), d) is Ok {
            Outcome::Accepted
        } else {
            Outcome::Rejected
        },
        OperationView::Mint(m) => if mint_outcome(t, m) is Ok {
            Outcome::Accepted
        } else {
            Outcome::Rejected
        },
        OperationView::Transfer(x) => if inscribe_outcome(t, tx.owner, x) is Ok {
            Outcome::Accepted
        } else {
            Outcome::Rejected
        },
        OperationView::Ignore => Outcome::Ignored,
    }
}

/// What the payload of an event hands to the document store: an accepted
/// deploy or mint. A transfer is handed over when it is completed.
pub open spec fn payload_emitted(t: Seq<TickerView>, tx: TxView, op: OperationView) -> Seq<
    OperationView,
> {
    match op {
        OperationView::Deploy(d) => if deploy_decision(ticker_keys(t), d) is Ok {
            seq![op]
        } else {
            Seq::empty()
        },
        OperationView::Mint(m) => if mint_outcome(t, m) is Ok {
            seq![op]
        } else {
            Seq::empty()
        },
        _ => Seq::empty(),
    }
}

/// The state after an event: first the transfers that its transaction
/// completes, then its payload.
pub open spec fn step(s: IndexView, tx: TxView, op: OperationView) -> IndexView {
    let spent = spend_inputs(s.tickers, tx, tx.inputs.len() as int);
    IndexView {
        tickers: payload_tickers(spent, tx, op),
        invalid: payload_invalid(spent, tx, op, s.invalid),
    }
}

pub open spec fn step_outcome(s: IndexView, tx: TxView, op: OperationView) -> Outcome {
    payload_outcome(spend_inputs(s.tickers, tx, tx.inputs.len() as int), tx, op)
}

pub open spec fn step_emitted(s: IndexView, tx: TxView, op: OperationView) -> Seq<OperationView> {
    spend_emitted(s.tickers, tx, tx.inputs.len() as int) + payload_emitted(
        spend_inputs(s.tickers, tx, tx.inputs.len() as int),
        tx,
        op,
    )
}

/// The state before any event.
pub open spec fn empty_index() -> IndexView {
    IndexView { tickers: Seq::empty(), invalid: Seq::empty() }
}

/// The state after the first `n` events of a stream.
pub open spec fn replay_spec(s: IndexView, events: Seq<(TxView, OperationView)>, n: int) -> IndexView
    decreases n,
{
    if n <= 0 {
        s
    } else {
        step(replay_spec(s, events, n - 1), events[n - 1].0, events[n - 1].1)
    }
}

/// The state is consistent: the tickers are, and no transaction has two
/// entries among the rejected events.
pub open spec fn index_wf(s: IndexView) -> bool {
    tickers_wf(s.tickers) && invalid_keys_distinct(s.invalid)
}

/// The owner of the output that an inscription sits on.
pub open spec fn owner_spec(vout: u32, outputs: Seq<TxOutput>, network: Network) -> Result<
    Seq<char>,
    TxError,
> {
    if vout >= outputs.len() {
        Err(TxError::OutputNotFound)
    } else {
        owner_of_output(
            outputs.len() as int,
            vout as int,
            script_address(outputs[vout as int].script_pub_key@, network),
        )
    }
}

/// A deploy that is accepted has the parameters of a ticker, under a key
/// that is not registered.
pub proof fn lemma_deploy_accepts(keys: Seq<Seq<char>>, d: crate::payload::DeployView)
    requires
        deploy_decision(keys, d) is Ok,
    ensures
        d.tick.len() == 4,
        !has_key(keys, lowercase(d.tick)),
        0 < deploy_decision(keys, d)->Ok_0.1 <= deploy_decision(keys, d)->Ok_0.0,
        deploy_decision(keys, d)->Ok_0.2 <= 18,
{
}

// ---------------------------------------------------------------------
// The indexer
// ---------------------------------------------------------------------
/// One event of the stream: its context and what its inscription asks for.
#[derive(Debug)]
pub struct Event {
    pub tx: Brc20Tx,
    pub operation: Operation,
}

pub open spec fn events_view(v: Seq<Event>) -> Seq<(TxView, OperationView)> {
    Seq::new(v.len(), |i: int| (v[i].tx@, v[i].operation@))
}

/// The tickers and the rejected events.
#[derive(Debug)]
pub struct Brc20Index {
    tickers: TickerMap,
    invalid_tx_map: InvalidBrc20TxMap,
}

impl View for Brc20Index {
    type V = IndexView;

    closed spec fn view(&self) -> IndexView {
        IndexView { tickers: self.tickers@, invalid: self.invalid_tx_map@ }
    }
}

impl Brc20Index {
    /// The state is consistent.
    pub open spec fn wf(&self) -> bool {
        index_wf(self@)
    }

    /// The indexer before any event.
    pub fn new() -> (r: Self)
        ensures
            r@ == empty_index(),
            r.wf(),
    {
        Brc20Index { tickers: TickerMap::new(), invalid_tx_map: InvalidBrc20TxMap::new() }
    }

    pub fn get_tickers(&self) -> (r: &TickerMap)
        ensures
            r@ == self@.tickers,
            self.wf() ==> r.wf(),
    {
        &self.tickers
    }

    pub fn get_invalid_tx_map(&self) -> (r: &InvalidBrc20TxMap)
        ensures
            r@ == self@.invalid,
            self.wf() ==> r.wf(),
    {
        &self.invalid_tx_map
    }

    /// Validates a deploy and, where it is accepted, registers its ticker.
    pub fn apply_deploy(&mut self, tx: Brc20Tx, script: Brc20Deploy) -> (r: Brc20DeployTx)
        requires
            old(self).wf(),
        ensures
            r@ == deploy_record(ticker_keys(old(self)@.tickers), new_deploy(tx@, script@)),
            final(self)@.tickers == deploy_tickers(old(self)@.tickers, tx@, script@),
            final(self)@.invalid == deploy_invalid(
                ticker_keys(old(self)@.tickers),
                new_deploy(tx@, script@),
                old(self)@.invalid,
            ),
            final(self).wf(),
    {
        let validated = Brc20DeployTx::new(tx, script).validate_deploy_script(
            &mut self.invalid_tx_map,
            &self.tickers,
        );
        if validated.is_valid() {
            proof {
                lemma_deploy_accepts(ticker_keys(old(self)@.tickers), script@);
            }
            let ticker = Brc20Ticker::new(validated.clone());
            self.tickers.insert(ticker);
        }
        validated
    }

    /// Validates a mint and, where it is accepted, applies it.
    pub fn apply_mint(&mut self, tx: &Brc20Tx, script: Brc20Mint) -> (r: Brc20MintTx)
        requires
            old(self).wf(),
        ensures
            r@ == mint_record(old(self)@.tickers, tx@, script@),
            final(self)@.tickers == mint_tickers(old(self)@.tickers, tx@, script@),
            final(self)@.invalid == mint_invalid(
                old(self)@.tickers,
                tx@,
                script@,
                old(self)@.invalid,
            ),
            final(self).wf(),
    {
        script.validate(tx, &mut self.tickers, &mut self.invalid_tx_map)
    }

    /// Validates a transfer inscription and, where it is accepted, makes it
    /// outstanding.
    pub fn apply_transfer(&mut self, tx: Brc20Tx, script: Brc20Transfer) -> (r: Brc20TransferTx)
        requires
            old(self).wf(),
        ensures
            r@ == inscribe_record(old(self)@.tickers, new_transfer(tx@, script@)),
            final(self)@.tickers == inscribe_tickers(
                old(self)@.tickers,
                new_transfer(tx@, script@),
            ),
            final(self)@.invalid == inscribe_invalid(
                old(self)@.tickers,
                new_transfer(tx@, script@),
                old(self)@.invalid,
            ),
            final(self).wf(),
    {
        Brc20TransferTx::new(tx, script).handle_inscribe_transfer_amount(
            &mut self.tickers,
            &mut self.invalid_tx_map,
        )
    }

    /// Completes the transfer whose inscription sits on `outpoint`, if one
    /// is outstanding there, and hands out its payload. Nothing changes
    /// where none is.
    pub fn apply_send(&mut self, outpoint: &OutPoint, spend: Brc20Tx) -> (r: Option<Brc20Transfer>)
        requires
            old(self).wf(),
        ensures
            crate::brc20_ticker::sent_view(r) == sent_script(old(self)@.tickers, outpoint@),
            final(self)@.tickers == send_tickers(old(self)@.tickers, outpoint@, spend@),
            final(self)@.invalid == old(self)@.invalid,
            final(self).wf(),
    {
        self.tickers.send(outpoint, spend)
    }

    /// Applies one event: the transfers that its transaction completes,
    /// then its payload.
    pub fn process(&mut self, tx: &Brc20Tx, operation: &Operation) -> (r: Step)
        requires
            old(self).wf(),
        ensures
            final(self)@ == step(old(self)@, tx@, operation@),
            r.kind == kind_of(operation@),
            r.outcome == step_outcome(old(self)@, tx@, operation@),
            emitted_view(r.emitted@) == step_emitted(old(self)@, tx@, operation@),
            final(self).wf(),
    {
        let mut emitted: Vec<Operation> = Vec::new();
        let n = tx.get_inputs_len();
        let mut i: usize = 0;
        assert(emitted_view(emitted@) =~= Seq::empty());
        while i < n
            invariant
                0 <= i <= n,
                n == tx@.inputs.len(),
                self.wf(),
                self@.tickers == spend_inputs(old(self)@.tickers, tx@, i as int),
                self@.invalid == old(self)@.invalid,
                emitted_view(emitted@) == spend_emitted(old(self)@.tickers, tx@, i as int),
            decreases n - i,
        {
            let ghost before = emitted_view(emitted@);
            match tx.get_input_outpoint(i) {
                Some(outpoint) => {
                    match self.apply_send(&outpoint, tx.clone()) {
                        Some(script) => {
                            emitted.push(Operation::Transfer(script));
                            assert(emitted_view(emitted@) =~= before.push(
                                OperationView::Transfer(script@),
                            ));
                        },
                        None => {},
                    }
                },
                None => {},
            }
            i += 1;
        }
        let ghost spent = self@.tickers;
        let ghost sends = emitted_view(emitted@);
        let outcome = match operation {
            Operation::Deploy(d) => {
                if self.apply_deploy(tx.clone(), d.clone()).is_valid() {
                    emitted.push(Operation::Deploy(d.clone()));
                    Outcome::Accepted
                } else {
                    Outcome::Rejected
                }
            },
            Operation::Mint(m) => {
                if self.apply_mint(tx, m.clone()).is_valid() {
                    emitted.push(Operation::Mint(m.clone()));
                    Outcome::Accepted
                } else {
                    Outcome::Rejected
                }
            },
            Operation::Transfer(x) => {
                if self.apply_transfer(tx.clone(), x.clone()).is_valid() {
                    Outcome::Accepted
                } else {
                    Outcome::Rejected
                }
            },
            Operation::Ignore => Outcome::Ignored,
        };
        assert(emitted_view(emitted@) =~= sends + payload_emitted(spent, tx@, operation@));
        Step { kind: operation_kind(operation), outcome, emitted }
    }

    /// Applies one inscription as the chain reports it: resolves the owner
    /// of its output, builds its context, decodes its payload and applies
    /// the event. An inscription whose owner or context cannot be resolved
    /// is recorded as rejected and changes no ticker.
    pub fn process_inscription(
        &mut self,
        location: &OutPoint,
        raw_tx_info: RawTxInfo,
        content_type: &str,
        body: &[u8],
        network: Network,
    ) -> (r: Step)
        requires
            old(self).wf(),
        ensures
            final(self).wf(),
            match context_spec(
                raw_tx_info.txid@,
                raw_tx_info.blocktime,
                inputs_view(raw_tx_info.vin@),
                raw_tx_info.vout@,
                owner_spec(location.vout, raw_tx_info.vout@, network),
            ) {
                Err(rejection) => {
                    &&& final(self)@.tickers == old(self)@.tickers
                    &&& final(self)@.invalid == record_invalid(old(self)@.invalid, rejection)
                    &&& r.kind == OperationKind::Ignore
                    &&& r.outcome == Outcome::Rejected
                    &&& r.emitted@.len() == 0
                },
                Ok(tx) => {
                    &&& final(self)@ == step(old(self)@, tx, parse_spec(content_type@, body@))
                    &&& r.kind == kind_of(parse_spec(content_type@, body@))
                    &&& r.outcome == step_outcome(old(self)@, tx, parse_spec(content_type@, body@))
                    &&& emitted_view(r.emitted@) == step_emitted(
                        old(self)@,
                        tx,
                        parse_spec(content_type@, body@),
                    )
                },
            },
    {
        let owner = get_owner_of_output(location, &raw_tx_info, network);
        match build_context(raw_tx_info, owner) {
            Err(rejection) => {
                self.invalid_tx_map.add_invalid_tx(rejection);
                Step {
                    kind: OperationKind::Ignore,
                    outcome: Outcome::Rejected,
                    emitted: Vec::new(),
                }
            },
            Ok(tx) => {
                let operation = parse_operation(content_type, body);
                self.process(&tx, &operation)
            },
        }
    }

    /// Applies a stream of events, in order, to the empty state.
    pub fn replay(events: &Vec<Event>) -> (r: Self)
        ensures
            r@ == replay_spec(empty_index(), events_view(events@), events.len() as int),
            r.wf(),
    {
        let mut index = Brc20Index::new();
        let mut i: usize = 0;
        while i < events.len()
            invariant
                0 <= i <= events.len(),
                index.wf(),
                index@ == replay_spec(empty_index(), events_view(events@), i as int),
            decreases events.len() - i,
        {
            index.process(&events[i].tx, &events[i].operation);
            i += 1;
        }
        index
    }
}

} // verus!
