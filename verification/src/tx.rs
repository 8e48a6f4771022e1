//! The Bitcoin-side context of an inscription event, and the registry of
//! rejected events.

use vstd::prelude::*;
use vstd::string::*;

verus! {

/// Whether two strings hold the same characters.
pub fn same_text(a: &str, b: &str) -> (r: bool)
    ensures
        r == (a@ == b@),
{
    let x = a.to_owned();
    let y = b.to_owned();
    x == y
}

/// The network on which addresses are derived.
#[derive(Clone, Copy, Debug, PartialEq, Eq, Structural)]
pub enum Network {
    Bitcoin,
    Testnet,
    Signet,
    Regtest,
}

/// A transaction output: the transaction's id in hexadecimal, and the output's index.
#[derive(Debug)]
pub struct OutPoint {
    pub txid: String,
    pub vout: u32,
}

impl View for OutPoint {
    type V = (Seq<char>, u32);

    open spec fn view(&self) -> (Seq<char>, u32) {
        (self.txid@, self.vout)
    }
}

impl Clone for OutPoint {
    fn clone(&self) -> (r: Self)
        ensures
            r@ == self@,
    {
        OutPoint { txid: self.txid.clone(), vout: self.vout }
    }
}

impl OutPoint {
    /// Whether `self` and `other` name the same output.
    pub fn same(&self, other: &OutPoint) -> (r: bool)
        ensures
            r == (self@ == other@),
    {
        self.vout == other.vout && self.txid == other.txid
    }
}

/// One input of a transaction, as the node reports it: the output it spends
/// (absent for a coinbase input) and its sequence number.
#[derive(Debug)]
pub struct TxInput {
    pub txid: Option<String>,
    pub vout: Option<u32>,
    pub sequence: u32,
}

pub struct TxInputView {
    pub txid: Option<Seq<char>>,
    pub vout: Option<u32>,
    pub sequence: u32,
}

impl View for TxInput {
    type V = TxInputView;

    open spec fn view(&self) -> TxInputView {
        TxInputView {
            txid: match self.txid {
                Some(t) => Some(t@),
                None => None,
            },
            vout: self.vout,
            sequence: self.sequence,
        }
    }
}

impl Clone for TxInput {
    fn clone(&self) -> (r: Self)
        ensures
            r@ == self@,
    {
        let txid = match &self.txid {
            Some(t) => Some(t.clone()),
            None => None,
        };
        TxInput { txid, vout: self.vout, sequence: self.sequence }
    }
}

pub open spec fn inputs_view(v: Seq<TxInput>) -> Seq<TxInputView> {
    Seq::new(v.len(), |i: int| v[i]@)
}

/// A copy of `v` with the same contents.
pub fn clone_inputs(v: &Vec<TxInput>) -> (r: Vec<TxInput>)
    ensures
        inputs_view(r@) == inputs_view(v@),
{
    let mut out: Vec<TxInput> = Vec::new();
    let mut i: usize = 0;
    while i < v.len()
        invariant
            0 <= i <= v.len(),
            out.len() == i,
            forall|j: int| 0 <= j < i ==> out[j]@ == v[j]@,
        decreases v.len() - i,
    {
        out.push(v[i].clone());
        i += 1;
    }
    assert(inputs_view(out@) =~= inputs_view(v@));
    out
}

/// One output of a transaction: its index, its value in satoshis and its
/// locking script.
#[derive(Debug)]
pub struct TxOutput {
    pub n: u32,
    pub value: u64,
    pub script_pub_key: Vec<u8>,
}

/// What the node reports of a transaction, as far as the indexer reads it.
#[derive(Debug)]
pub struct RawTxInfo {
    pub txid: String,
    pub blocktime: Option<u64>,
    pub vin: Vec<TxInput>,
    pub vout: Vec<TxOutput>,
}

/// Why no transaction context could be built for an event.
#[derive(Clone, Copy, Debug, PartialEq, Eq, Structural)]
pub enum TxError {
    /// The transaction has no outputs.
    NoOutputs,
    /// The transaction is not in a block yet.
    BlocktimeNotFound,
    /// The output that the event names does not exist.
    OutputNotFound,
    /// No address can be derived from the output's script.
    UnresolvableScript,
    /// There is no output from which an address could be derived.
    NoAddresses,
}

impl TxError {
    /// The reason under which the event is recorded as invalid.
    pub fn message(&self) -> (r: String)
        ensures
            r@ == tx_error_text(*self),
    {
        match self {
            TxError::NoOutputs => "Transaction has no outputs".to_string(),
            TxError::BlocktimeNotFound => "Blocktime not found in raw transaction result".to_string(),
            TxError::OutputNotFound => "Output not found in raw transaction result".to_string(),
            TxError::UnresolvableScript => "Couldn't derive address from scriptPubKey".to_string(),
            TxError::NoAddresses => "Couldn't derive any addresses or values from scriptPubKeys".to_string(),
        }
    }
}

pub open spec fn tx_error_text(e: TxError) -> Seq<char> {
    match e {
        TxError::NoOutputs => "Transaction has no outputs"@,
        TxError::BlocktimeNotFound => "Blocktime not found in raw transaction result"@,
        TxError::OutputNotFound => "Output not found in raw transaction result"@,
        TxError::UnresolvableScript => "Couldn't derive address from scriptPubKey"@,
        TxError::NoAddresses => "Couldn't derive any addresses or values from scriptPubKeys"@,
    }
}

/// The address, in its text form, that `bitcoin::Address::from_script`
/// derives from a locking script on a network; `None` where it derives none.
pub uninterp spec fn script_address(script: Seq<u8>, network: Network) -> Option<Seq<char>>;

pub open spec fn text_view(s: Option<String>) -> Option<Seq<char>> {
    match s {
        Some(t) => Some(t@),
        None => None,
    }
}

/// Calls `bitcoin::Address::from_script` on the script's bytes and renders
/// the address with its `Display`. The contract only names the result: the
/// same script and network always give the same address or the same failure.
#[verifier::external_body]
fn address_from_script(script: &Vec<u8>, network: Network) -> (r: Option<String>)
    ensures
        text_view(r) == script_address(script@, network),
{
    let net = match network {
        Network::Bitcoin => bitcoin::Network::Bitcoin,
        Network::Testnet => bitcoin::Network::Testnet,
        Network::Signet => bitcoin::Network::Signet,
        Network::Regtest => bitcoin::Network::Regtest,
    };
    match bitcoin::Address::from_script(&bitcoin::Script::from(script.clone()), net) {
        Ok(address) => Some(address.to_string()),
        Err(_) => None,
    }
}

/// The owner of output `index` of a transaction, given the address derived
/// from that output's script.
pub open spec fn owner_of_output(
    outputs: int,
    index: int,
    derived: Option<Seq<char>>,
) -> Result<Seq<char>, TxError> {
    if index >= outputs {
        Err(TxError::OutputNotFound)
    } else {
        match derived {
            Some(a) => Ok(a),
            None => Err(TxError::UnresolvableScript),
        }
    }
}

pub open spec fn owner_view(r: Result<String, TxError>) -> Result<Seq<char>, TxError> {
    match r {
        Ok(a) => Ok(a@),
        Err(e) => Err(e),
    }
}

/// Decides the owner of an output from the address derived for it.
pub fn resolve_owner(outputs: usize, index: u32, derived: Option<String>) -> (r: Result<
    String,
    TxError,
>)
    ensures
        owner_view(r) == owner_of_output(outputs as int, index as int, text_view(derived)),
{
    if index as usize >= outputs {
        Err(TxError::OutputNotFound)
    } else {
        match derived {
            Some(a) => Ok(a),
            None => Err(TxError::UnresolvableScript),
        }
    }
}

/// The address that controls the output named by `outpoint`.
pub fn get_owner_of_output(outpoint: &OutPoint, raw_tx_info: &RawTxInfo, network: Network) -> (r:
    Result<String, TxError>)
    ensures
        outpoint.vout >= raw_tx_info.vout.len() ==> r == Err::<String, TxError>(
            TxError::OutputNotFound,
        ),
        outpoint.vout < raw_tx_info.vout.len() ==> owner_view(r) == owner_of_output(
            raw_tx_info.vout.len() as int,
            outpoint.vout as int,
            script_address(raw_tx_info.vout[outpoint.vout as int].script_pub_key@, network),
        ),
{
    let index = outpoint.vout as usize;
    if index >= raw_tx_info.vout.len() {
        return Err(TxError::OutputNotFound);
    }
    let derived = address_from_script(&raw_tx_info.vout[index].script_pub_key, network);
    resolve_owner(raw_tx_info.vout.len(), outpoint.vout, derived)
}

/// The addresses and values of those of the first `n` outputs from whose
/// script an address can be derived, in the outputs' order.
pub open spec fn resolved_outputs(outputs: Seq<TxOutput>, network: Network, n: int) -> Seq<
    (Seq<char>, u64),
>
    decreases n,
{
    if n <= 0 {
        Seq::empty()
    } else {
        let before = resolved_outputs(outputs, network, n - 1);
        match script_address(outputs[n - 1].script_pub_key@, network) {
            Some(a) => before.push((a, outputs[n - 1].value)),
            None => before,
        }
    }
}

pub open spec fn pairs_view(v: Seq<(String, u64)>) -> Seq<(Seq<char>, u64)> {
    Seq::new(v.len(), |i: int| (v[i].0@, v[i].1))
}

pub open spec fn pairs_result_view(r: Result<Vec<(String, u64)>, TxError>) -> Result<
    Seq<(Seq<char>, u64)>,
    TxError,
> {
    match r {
        Ok(v) => Ok(pairs_view(v@)),
        Err(e) => Err(e),
    }
}

/// The address and value of every output from whose script an address can
/// be derived; an error where there is none.
pub fn transaction_outputs_to_addresses_values(outputs: &Vec<TxOutput>, network: Network) -> (r:
    Result<Vec<(String, u64)>, TxError>)
    ensures
        pairs_result_view(r) == (if resolved_outputs(
            outputs@,
            network,
            outputs.len() as int,
        ).len() == 0 {
            Err::<Seq<(Seq<char>, u64)>, TxError>(TxError::NoAddresses)
        } else {
            Ok(resolved_outputs(outputs@, network, outputs.len() as int))
        }),
{
    let mut found: Vec<(String, u64)> = Vec::new();
    let mut i: usize = 0;
    assert(pairs_view(found@) =~= Seq::empty());
    while i < outputs.len()
        invariant
            0 <= i <= outputs.len(),
            pairs_view(found@) == resolved_outputs(outputs@, network, i as int),
        decreases outputs.len() - i,
    {
        let ghost before = pairs_view(found@);
        match address_from_script(&outputs[i].script_pub_key, network) {
            Some(address) => {
                found.push((address, outputs[i].value));
                assert(pairs_view(found@) =~= before.push((address@, outputs[i as int].value)));
            },
            None => {},
        }
        i += 1;
    }
    if found.len() == 0 {
        Err(TxError::NoAddresses)
    } else {
        Ok(found)
    }
}

/// Whether an address can be derived from the script of every one of the
/// first `n` outputs.
pub open spec fn all_resolve(outputs: Seq<TxOutput>, network: Network, n: int) -> bool {
    forall|i: int| 0 <= i < n ==> script_address(
        (#[trigger] outputs[i]).script_pub_key@,
        network,
    ) is Some
}

/// The address and value of every output that a transaction spends, given
/// those outputs: an error where one of them has a script from which no
/// address can be derived, or where there is none.
pub fn transaction_inputs_to_addresses_values(spent: &Vec<TxOutput>, network: Network) -> (r:
    Result<Vec<(String, u64)>, TxError>)
    ensures
        pairs_result_view(r) == (if !all_resolve(spent@, network, spent.len() as int) {
            Err::<Seq<(Seq<char>, u64)>, TxError>(TxError::UnresolvableScript)
        } else if spent.len() == 0 {
            Err(TxError::NoAddresses)
        } else {
            Ok(
                Seq::new(
                    spent.len() as nat,
                    |i: int| (script_address(spent[i].script_pub_key@, network)->Some_0, spent[i].value),
                ),
            )
        }),
{
    let mut found: Vec<(String, u64)> = Vec::new();
    let mut i: usize = 0;
    while i < spent.len()
        invariant
            0 <= i <= spent.len(),
            all_resolve(spent@, network, i as int),
            found.len() == i,
            forall|j: int|
                0 <= j < i ==> (#[trigger] found[j]).0@ == script_address(
                    spent[j].script_pub_key@,
                    network,
                )->Some_0 && found[j].1 == spent[j].value,
        decreases spent.len() - i,
    {
        match address_from_script(&spent[i].script_pub_key, network) {
            Some(address) => {
                found.push((address, spent[i].value));
            },
            None => {
                assert(!(script_address(spent[i as int].script_pub_key@, network) is Some));
                return Err(TxError::UnresolvableScript);
            },
        }
        i += 1;
    }
    if found.len() == 0 {
        Err(TxError::NoAddresses)
    } else {
        assert(pairs_view(found@) =~= Seq::new(
            spent.len() as nat,
            |i: int| (script_address(spent[i].script_pub_key@, network)->Some_0, spent[i].value),
        ));
        Ok(found)
    }
}

/// The context of an inscription event: the transaction, its first output's
/// index, the time of its block, the address that owns the inscription's
/// output, and the transaction's inputs.
#[derive(Debug)]
pub struct Brc20Tx {
    tx_id: String,
    vout: u32,
    blocktime: u64,
    owner: String,
    inputs: Vec<TxInput>,
}

pub struct TxView {
    pub tx_id: Seq<char>,
    pub vout: u32,
    pub blocktime: u64,
    pub owner: Seq<char>,
    pub inputs: Seq<TxInputView>,
}

impl View for Brc20Tx {
    type V = TxView;

    closed spec fn view(&self) -> TxView {
        TxView {
            tx_id: self.tx_id@,
            vout: self.vout,
            blocktime: self.blocktime,
            owner: self.owner@,
            inputs: inputs_view(self.inputs@),
        }
    }
}

impl Clone for Brc20Tx {
    fn clone(&self) -> (r: Self)
        ensures
            r@ == self@,
    {
        Brc20Tx {
            tx_id: self.tx_id.clone(),
            vout: self.vout,
            blocktime: self.blocktime,
            owner: self.owner.clone(),
            inputs: clone_inputs(&self.inputs),
        }
    }
}

/// The context that `Brc20Tx::new` builds, or why it builds none.
pub open spec fn new_tx_spec(
    txid: Seq<char>,
    blocktime: Option<u64>,
    inputs: Seq<TxInputView>,
    outputs: Seq<TxOutput>,
    owner: Seq<char>,
) -> Result<TxView, TxError> {
    if outputs.len() == 0 {
        Err(TxError::NoOutputs)
    } else {
        match blocktime {
            None => Err(TxError::BlocktimeNotFound),
            Some(t) => Ok(
                TxView { tx_id: txid, vout: outputs[0].n, blocktime: t, owner, inputs },
            ),
        }
    }
}

/// The context under which an event is recorded whose transaction could
/// not be resolved.
pub open spec fn unresolved_spec(
    txid: Seq<char>,
    blocktime: Option<u64>,
    inputs: Seq<TxInputView>,
    outputs: Seq<TxOutput>,
    owner: Option<Seq<char>>,
) -> TxView {
    TxView {
        tx_id: txid,
        vout: if outputs.len() == 0 {
            0
        } else {
            outputs[0].n
        },
        blocktime: match blocktime {
            Some(t) => t,
            None => 0,
        },
        owner: match owner {
            Some(a) => a,
            None => Seq::empty(),
        },
        inputs,
    }
}

/// The output that an input spends, if it names one.
pub open spec fn input_outpoint(i: TxInputView) -> Option<(Seq<char>, u32)> {
    match (i.txid, i.vout) {
        (Some(t), Some(v)) => Some((t, v)),
        _ => None,
    }
}

pub open spec fn outpoint_view(r: Option<OutPoint>) -> Option<(Seq<char>, u32)> {
    match r {
        Some(o) => Some(o@),
        None => None,
    }
}

/// The context of an event, or the record of its rejection: the owner's
/// resolution is looked at first, then the outputs, then the block time.
pub open spec fn context_spec(
    txid: Seq<char>,
    blocktime: Option<u64>,
    inputs: Seq<TxInputView>,
    outputs: Seq<TxOutput>,
    owner: Result<Seq<char>, TxError>,
) -> Result<TxView, InvalidTxView> {
    match owner {
        Err(e) => Err(
            InvalidTxView {
                tx: unresolved_spec(txid, blocktime, inputs, outputs, None),
                reason: tx_error_text(e),
            },
        ),
        Ok(a) => match new_tx_spec(txid, blocktime, inputs, outputs, a) {
            Ok(t) => Ok(t),
            Err(e) => Err(
                InvalidTxView {
                    tx: unresolved_spec(txid, blocktime, inputs, outputs, Some(a)),
                    reason: tx_error_text(e),
                },
            ),
        },
    }
}

pub open spec fn context_view(r: Result<Brc20Tx, InvalidBrc20Tx>) -> Result<TxView, InvalidTxView> {
    match r {
        Ok(t) => Ok(t@),
        Err(i) => Err(i@),
    }
}

/// Builds the context of an event from the node's report and the result of
/// resolving the owner; where either falls short, the event's rejection.
pub fn build_context(raw_tx_result: RawTxInfo, owner: Result<String, TxError>) -> (r: Result<
    Brc20Tx,
    InvalidBrc20Tx,
>)
    ensures
        context_view(r) == context_spec(
            raw_tx_result.txid@,
            raw_tx_result.blocktime,
            inputs_view(raw_tx_result.vin@),
            raw_tx_result.vout@,
            owner_view(owner),
        ),
{
    match owner {
        Err(e) => Err(InvalidBrc20Tx::new(Brc20Tx::unresolved(raw_tx_result, None), e.message())),
        Ok(a) => {
            if raw_tx_result.vout.len() == 0 {
                Err(
                    InvalidBrc20Tx::new(
                        Brc20Tx::unresolved(raw_tx_result, Some(a)),
                        TxError::NoOutputs.message(),
                    ),
                )
            } else {
                match raw_tx_result.blocktime {
                    None => Err(
                        InvalidBrc20Tx::new(
                            Brc20Tx::unresolved(raw_tx_result, Some(a)),
                            TxError::BlocktimeNotFound.message(),
                        ),
                    ),
                    Some(blocktime) => {
                        let vout = raw_tx_result.vout[0].n;
                        Ok(
                            Brc20Tx {
                                tx_id: raw_tx_result.txid,
                                vout,
                                blocktime,
                                owner: a,
                                inputs: raw_tx_result.vin,
                            },
                        )
                    },
                }
            }
        },
    }
}

pub open spec fn tx_result_view(r: Result<Brc20Tx, TxError>) -> Result<TxView, TxError> {
    match r {
        Ok(t) => Ok(t@),
        Err(e) => Err(e),
    }
}

impl Brc20Tx {
    /// Builds the context of an event from the node's report of its
    /// transaction and the owner of the inscription's output.
    pub fn new(raw_tx_result: RawTxInfo, owner: String) -> (r: Result<Brc20Tx, TxError>)
        ensures
            tx_result_view(r) == new_tx_spec(
                raw_tx_result.txid@,
                raw_tx_result.blocktime,
                inputs_view(raw_tx_result.vin@),
                raw_tx_result.vout@,
                owner@,
            ),
    {
        if raw_tx_result.vout.len() == 0 {
            return Err(TxError::NoOutputs);
        }
        let vout = raw_tx_result.vout[0].n;
        match raw_tx_result.blocktime {
            None => Err(TxError::BlocktimeNotFound),
            Some(blocktime) => Ok(
                Brc20Tx {
                    tx_id: raw_tx_result.txid,
                    vout,
                    blocktime,
                    owner,
                    inputs: raw_tx_result.vin,
                },
            ),
        }
    }

    pub fn get_tx_id(&self) -> (r: String)
        ensures
            r@ == self@.tx_id,
    {
        self.tx_id.clone()
    }

    pub fn get_vout(&self) -> (r: u32)
        ensures
            r == self@.vout,
    {
        self.vout
    }

    /// The output on which the inscription sits.
    pub fn get_outpoint(&self) -> (r: OutPoint)
        ensures
            r@ == (self@.tx_id, self@.vout),
    {
        OutPoint { txid: self.tx_id.clone(), vout: self.vout }
    }

    pub fn get_blocktime(&self) -> (r: u64)
        ensures
            r == self@.blocktime,
    {
        self.blocktime
    }

    pub fn get_owner(&self) -> (r: &String)
        ensures
            r@ == self@.owner,
    {
        &self.owner
    }

    pub fn get_inputs(&self) -> (r: Vec<TxInput>)
        ensures
            inputs_view(r@) == self@.inputs,
    {
        clone_inputs(&self.inputs)
    }

    /// The output that input `i` spends, if the input names one.
    pub fn get_input_outpoint(&self, i: usize) -> (r: Option<OutPoint>)
        requires
            i < self@.inputs.len(),
        ensures
            outpoint_view(r) == input_outpoint(self@.inputs[i as int]),
    {
        let input = &self.inputs[i];
        assert(self@.inputs[i as int] == input@);
        match (&input.txid, input.vout) {
            (Some(txid), Some(vout)) => Some(OutPoint { txid: txid.clone(), vout }),
            _ => None,
        }
    }

    /// A context for an event whose transaction could not be resolved, to
    /// record the event under: what is missing is empty or zero.
    pub fn unresolved(raw_tx_result: RawTxInfo, owner: Option<String>) -> (r: Brc20Tx)
        ensures
            r@ == unresolved_spec(
                raw_tx_result.txid@,
                raw_tx_result.blocktime,
                inputs_view(raw_tx_result.vin@),
                raw_tx_result.vout@,
                text_view(owner),
            ),
    {
        let vout = if raw_tx_result.vout.len() == 0 {
            0
        } else {
            raw_tx_result.vout[0].n
        };
        let blocktime = match raw_tx_result.blocktime {
            Some(t) => t,
            None => 0,
        };
        let owner = match owner {
            Some(a) => a,
            None => String::new(),
        };
        Brc20Tx {
            tx_id: raw_tx_result.txid,
            vout,
            blocktime,
            owner,
            inputs: raw_tx_result.vin,
        }
    }

    pub fn get_inputs_len(&self) -> (r: usize)
        ensures
            r == self@.inputs.len(),
    {
        self.inputs.len()
    }

    pub fn get_inputs_is_empty(&self) -> (r: bool)
        ensures
            r == (self@.inputs.len() == 0),
    {
        self.inputs.len() == 0
    }
}

/// A rejected event and the reason for its rejection.
#[derive(Debug)]
pub struct InvalidBrc20Tx {
    pub brc20_tx: Brc20Tx,
    pub reason: String,
}

pub struct InvalidTxView {
    pub tx: TxView,
    pub reason: Seq<char>,
}

impl View for InvalidBrc20Tx {
    type V = InvalidTxView;

    open spec fn view(&self) -> InvalidTxView {
        InvalidTxView { tx: self.brc20_tx@, reason: self.reason@ }
    }
}

impl InvalidBrc20Tx {
    pub fn new(brc20_tx: Brc20Tx, reason: String) -> (r: Self)
        ensures
            r@ == (InvalidTxView { tx: brc20_tx@, reason: reason@ }),
    {
        InvalidBrc20Tx { brc20_tx, reason }
    }
}

/// The position of the entry for transaction `txid`, or the length of `s`
/// where there is none.
pub open spec fn invalid_position(s: Seq<InvalidTxView>, txid: Seq<char>) -> int
    decreases s.len(),
{
    if s.len() == 0 {
        0
    } else if s.first().tx.tx_id == txid {
        0
    } else {
        1 + invalid_position(s.drop_first(), txid)
    }
}

/// The registry after `entry` is recorded: it takes the place of the entry
/// of the same transaction, or comes last where there was none.
pub open spec fn record_invalid(s: Seq<InvalidTxView>, entry: InvalidTxView) -> Seq<InvalidTxView> {
    let i = invalid_position(s, entry.tx.tx_id);
    if i < s.len() {
        s.update(i, entry)
    } else {
        s.push(entry)
    }
}

/// No two entries are of the same transaction.
pub open spec fn invalid_keys_distinct(s: Seq<InvalidTxView>) -> bool {
    forall|i: int, j: int|
        0 <= i < s.len() && 0 <= j < s.len() && i != j ==> (#[trigger] s[i]).tx.tx_id != (
        #[trigger] s[j]).tx.tx_id
}

pub proof fn lemma_invalid_position(s: Seq<InvalidTxView>, txid: Seq<char>)
    ensures
        0 <= invalid_position(s, txid) <= s.len(),
        invalid_position(s, txid) < s.len() ==> s[invalid_position(s, txid)].tx.tx_id == txid,
        forall|j: int| 0 <= j < invalid_position(s, txid) ==> (#[trigger] s[j]).tx.tx_id != txid,
    decreases s.len(),
{
    if s.len() == 0 {
    } else if s.first().tx.tx_id == txid {
    } else {
        lemma_invalid_position(s.drop_first(), txid);
        let p = invalid_position(s.drop_first(), txid);
        assert forall|j: int| 0 <= j < p + 1 implies (#[trigger] s[j]).tx.tx_id != txid by {
            if j > 0 {
                assert(s.drop_first()[j - 1] == s[j]);
            }
        }
        if p < s.len() - 1 {
            assert(s.drop_first()[p] == s[p + 1]);
        }
    }
}

/// If no entry before `i` is of `txid`, and the one at `i` is (or `i` is the
/// length), then `i` is the position of `txid`.
pub proof fn lemma_invalid_position_is(s: Seq<InvalidTxView>, txid: Seq<char>, i: int)
    requires
        0 <= i <= s.len(),
        forall|j: int| 0 <= j < i ==> (#[trigger] s[j]).tx.tx_id != txid,
        i < s.len() ==> s[i].tx.tx_id == txid,
    ensures
        invalid_position(s, txid) == i,
{
    lemma_invalid_position(s, txid);
    let p = invalid_position(s, txid);
    if p < i {
        assert(s[p].tx.tx_id != txid);
    }
}

/// Recording an entry keeps the registry free of duplicates.
pub proof fn lemma_record_invalid_distinct(s: Seq<InvalidTxView>, entry: InvalidTxView)
    requires
        invalid_keys_distinct(s),
    ensures
        invalid_keys_distinct(record_invalid(s, entry)),
{
    lemma_invalid_position(s, entry.tx.tx_id);
    let i = invalid_position(s, entry.tx.tx_id);
    let t = record_invalid(s, entry);
    assert forall|a: int, b: int| 0 <= a < t.len() && 0 <= b < t.len() && a != b implies (
    #[trigger] t[a]).tx.tx_id != (#[trigger] t[b]).tx.tx_id by {
        if i < s.len() {
            if a != i && b != i {
                assert(t[a] == s[a] && t[b] == s[b]);
            } else if a == i {
                assert(t[b] == s[b]);
                assert(s[i].tx.tx_id != s[b].tx.tx_id);
            } else {
                assert(t[a] == s[a]);
                assert(s[i].tx.tx_id != s[a].tx.tx_id);
            }
        } else {
            if a < s.len() && b < s.len() {
                assert(t[a] == s[a] && t[b] == s[b]);
            } else if a < s.len() {
                assert(t[a] == s[a]);
            } else {
                assert(t[b] == s[b]);
            }
        }
    }
}

/// The rejected events, at most one for each transaction, in the order in
/// which their transactions were first rejected.
#[derive(Debug)]
pub struct InvalidBrc20TxMap {
    entries: Vec<InvalidBrc20Tx>,
}

impl View for InvalidBrc20TxMap {
    type V = Seq<InvalidTxView>;

    closed spec fn view(&self) -> Seq<InvalidTxView> {
        Seq::new(self.entries@.len(), |i: int| self.entries@[i]@)
    }
}

impl InvalidBrc20TxMap {
    /// No transaction has two entries.
    pub open spec fn wf(&self) -> bool {
        invalid_keys_distinct(self@)
    }

    pub fn new() -> (r: Self)
        ensures
            r@ == Seq::<InvalidTxView>::empty(),
            r.wf(),
    {
        let r = InvalidBrc20TxMap { entries: Vec::new() };
        assert(r@ =~= Seq::<InvalidTxView>::empty());
        r
    }

    /// Records a rejected event under its transaction's id, in place of an
    /// earlier entry of the same transaction.
    pub fn add_invalid_tx(&mut self, invalid_tx: InvalidBrc20Tx)
        requires
            old(self).wf(),
        ensures
            final(self)@ == record_invalid(old(self)@, invalid_tx@),
            final(self).wf(),
    {
        let ghost before = self@;
        let mut i: usize = 0;
        while i < self.entries.len()
            invariant
                0 <= i <= self.entries.len(),
                self@ == before,
                before == old(self)@,
                invalid_keys_distinct(before),
                forall|j: int| 0 <= j < i ==> (#[trigger] before[j]).tx.tx_id != invalid_tx@.tx.tx_id,
            decreases self.entries.len() - i,
        {
            assert(before[i as int] == self.entries@[i as int]@);
            if self.entries[i].brc20_tx.tx_id == invalid_tx.brc20_tx.tx_id {
                proof {
                    lemma_invalid_position_is(before, invalid_tx@.tx.tx_id, i as int);
                    lemma_record_invalid_distinct(before, invalid_tx@);
                }
                self.entries[i] = invalid_tx;
                assert(self@ =~= record_invalid(before, invalid_tx@));
                return ;
            }
            i += 1;
        }
        proof {
            lemma_invalid_position_is(before, invalid_tx@.tx.tx_id, i as int);
            lemma_record_invalid_distinct(before, invalid_tx@);
        }
        self.entries.push(invalid_tx);
        assert(self@ =~= record_invalid(before, invalid_tx@));
    }

    /// The number of recorded events.
    pub fn len(&self) -> (r: usize)
        ensures
            r == self@.len(),
    {
        self.entries.len()
    }

    /// The reason recorded for transaction `txid`, if it has an entry.
    pub fn get_reason(&self, txid: &str) -> (r: Option<String>)
        ensures
            invalid_position(self@, txid@) < self@.len() ==> text_view(r) == Some(
                self@[invalid_position(self@, txid@)].reason,
            ),
            invalid_position(self@, txid@) >= self@.len() ==> r is None,
    {
        let mut i: usize = 0;
        while i < self.entries.len()
            invariant
                0 <= i <= self.entries.len(),
                forall|j: int| 0 <= j < i ==> (#[trigger] self@[j]).tx.tx_id != txid@,
            decreases self.entries.len() - i,
        {
            assert(self@[i as int] == self.entries@[i as int]@);
            if same_text(self.entries[i].brc20_tx.tx_id.as_str(), txid) {
                proof {
                    lemma_invalid_position_is(self@, txid@, i as int);
                }
                return Some(self.entries[i].reason.clone());
            }
            i += 1;
        }
        proof {
            lemma_invalid_position_is(self@, txid@, i as int);
        }
        None
    }
}

} // verus!
