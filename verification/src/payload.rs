//! Inscription payloads: the three BRC-20 operations and their decoding
//! from an inscription's content type and body.

use crate::seqs::{lemma_position_is, position};
use crate::tx::{same_text, text_view};
use vstd::prelude::*;
use vstd::string::*;
use vstd::utf8::*;

verus! {

/// A deploy payload, its strings kept as they were inscribed.
#[derive(Debug)]
pub struct Brc20Deploy {
    pub p: String,
    pub op: String,
    pub tick: String,
    pub max: String,
    pub lim: Option<String>,
    pub dec: Option<String>,
}

pub struct DeployView {
    pub p: Seq<char>,
    pub op: Seq<char>,
    pub tick: Seq<char>,
    pub max: Seq<char>,
    pub lim: Option<Seq<char>>,
    pub dec: Option<Seq<char>>,
}

/// A copy of an optional string.
pub fn clone_opt(s: &Option<String>) -> (r: Option<String>)
    ensures
        text_view(r) == text_view(*s),
{
    match s {
        Some(t) => Some(t.clone()),
        None => None,
    }
}

impl View for Brc20Deploy {
    type V = DeployView;

    open spec fn view(&self) -> DeployView {
        DeployView {
            p: self.p@,
            op: self.op@,
            tick: self.tick@,
            max: self.max@,
            lim: text_view(self.lim),
            dec: text_view(self.dec),
        }
    }
}

impl Clone for Brc20Deploy {
    fn clone(&self) -> (r: Self)
        ensures
            r@ == self@,
    {
        Brc20Deploy {
            p: self.p.clone(),
            op: self.op.clone(),
            tick: self.tick.clone(),
            max: self.max.clone(),
            lim: clone_opt(&self.lim),
            dec: clone_opt(&self.dec),
        }
    }
}

/// What a mint payload and a transfer payload hold.
pub struct AmountScriptView {
    pub p: Seq<char>,
    pub op: Seq<char>,
    pub tick: Seq<char>,
    pub amt: Seq<char>,
}

/// A mint payload.
#[derive(Debug)]
pub struct Brc20Mint {
    pub p: String,
    pub op: String,
    pub tick: String,
    pub amt: String,
}

impl View for Brc20Mint {
    type V = AmountScriptView;

    open spec fn view(&self) -> AmountScriptView {
        AmountScriptView { p: self.p@, op: self.op@, tick: self.tick@, amt: self.amt@ }
    }
}

impl Clone for Brc20Mint {
    fn clone(&self) -> (r: Self)
        ensures
            r@ == self@,
    {
        Brc20Mint {
            p: self.p.clone(),
            op: self.op.clone(),
            tick: self.tick.clone(),
            amt: self.amt.clone(),
        }
    }
}

/// A transfer payload.
#[derive(Debug)]
pub struct Brc20Transfer {
    pub p: String,
    pub op: String,
    pub tick: String,
    pub amt: String,
}

impl View for Brc20Transfer {
    type V = AmountScriptView;

    open spec fn view(&self) -> AmountScriptView {
        AmountScriptView { p: self.p@, op: self.op@, tick: self.tick@, amt: self.amt@ }
    }
}

impl Clone for Brc20Transfer {
    fn clone(&self) -> (r: Self)
        ensures
            r@ == self@,
    {
        Brc20Transfer {
            p: self.p.clone(),
            op: self.op.clone(),
            tick: self.tick.clone(),
            amt: self.amt.clone(),
        }
    }
}

/// What an inscription asks for.
#[derive(Debug)]
pub enum Operation {
    Deploy(Brc20Deploy),
    Mint(Brc20Mint),
    Transfer(Brc20Transfer),
    /// Not a BRC-20 operation.
    Ignore,
}

pub enum OperationView {
    Deploy(DeployView),
    Mint(AmountScriptView),
    Transfer(AmountScriptView),
    Ignore,
}

impl View for Operation {
    type V = OperationView;

    open spec fn view(&self) -> OperationView {
        match self {
            Operation::Deploy(d) => OperationView::Deploy(d@),
            Operation::Mint(m) => OperationView::Mint(m@),
            Operation::Transfer(t) => OperationView::Transfer(t@),
            Operation::Ignore => OperationView::Ignore,
        }
    }
}

/// The value of one member of a JSON object, as far as a payload reads it.
#[derive(Debug)]
pub enum JsonValue {
    Null,
    Text(String),
    /// A boolean, a number, an array or an object.
    Other,
}

pub enum JsonValueView {
    Null,
    Text(Seq<char>),
    Other,
}

impl View for JsonValue {
    type V = JsonValueView;

    open spec fn view(&self) -> JsonValueView {
        match self {
            JsonValue::Null => JsonValueView::Null,
            JsonValue::Text(s) => JsonValueView::Text(s@),
            JsonValue::Other => JsonValueView::Other,
        }
    }
}

pub open spec fn members_view(v: Seq<(String, JsonValue)>) -> Seq<(Seq<char>, JsonValueView)> {
    Seq::new(v.len(), |i: int| (v[i].0@, v[i].1@))
}

pub open spec fn object_view(r: Option<Vec<(String, JsonValue)>>) -> Option<
    Seq<(Seq<char>, JsonValueView)>,
> {
    match r {
        Some(v) => Some(members_view(v@)),
        None => None,
    }
}

/// The members of the JSON object that `serde_json` reads from `text`, each
/// with its name and value, in the order in which `serde_json`'s map yields
/// them; `None` where `text` is not one JSON object.
pub uninterp spec fn json_object(text: Seq<char>) -> Option<Seq<(Seq<char>, JsonValueView)>>;

/// Calls `serde_json::from_str` for a `serde_json::Value` and hands out the
/// members of the object it read. The contract only names the result: the
/// same text always gives the same members or the same failure.
#[verifier::external_body]
fn parse_json_object(text: &str) -> (r: Option<Vec<(String, JsonValue)>>)
    ensures
        object_view(r) == json_object(text@),
{
    match serde_json::from_str::<serde_json::Value>(text) {
        Ok(serde_json::Value::Object(map)) => Some(
            map.into_iter().map(|(k, v)| (k, match v {
                serde_json::Value::Null => JsonValue::Null,
                serde_json::Value::String(s) => JsonValue::Text(s),
                _ => JsonValue::Other,
            })).collect(),
        ),
        Ok(_) => None,
        Err(_) => None,
    }
}

/// Calls `std::str::from_utf8`: the text that the bytes encode, where they
/// are valid UTF-8, and nothing where they are not.
#[verifier::external_body]
fn utf8_text(body: &[u8]) -> (r: Option<String>)
    ensures
        r is Some <==> valid_utf8(body@),
        r is Some ==> r->Some_0@ == decode_utf8(body@),
{
    match std::str::from_utf8(body) {
        Ok(s) => Some(s.to_owned()),
        Err(_) => None,
    }
}

pub open spec fn member_keys(m: Seq<(Seq<char>, JsonValueView)>) -> Seq<Seq<char>> {
    Seq::new(m.len(), |i: int| m[i].0)
}

/// The value of the first member named `key`.
pub open spec fn member_value(m: Seq<(Seq<char>, JsonValueView)>, key: Seq<char>) -> Option<
    JsonValueView,
> {
    let i = position(member_keys(m), key);
    if i < m.len() {
        Some(m[i].1)
    } else {
        None
    }
}

/// The text of a member that must be there and be a string.
pub open spec fn required_text(m: Seq<(Seq<char>, JsonValueView)>, key: Seq<char>) -> Option<
    Seq<char>,
> {
    match member_value(m, key) {
        Some(JsonValueView::Text(s)) => Some(s),
        _ => None,
    }
}

/// The text of a member that may be missing or null but, where it is
/// neither, must be a string: `None` where it is something else.
pub open spec fn optional_text(m: Seq<(Seq<char>, JsonValueView)>, key: Seq<char>) -> Option<
    Option<Seq<char>>,
> {
    match member_value(m, key) {
        None => Some(None),
        Some(JsonValueView::Null) => Some(None),
        Some(JsonValueView::Text(s)) => Some(Some(s)),
        Some(JsonValueView::Other) => None,
    }
}

/// The operation that a JSON object's members describe: decided by `op`,
/// and `Ignore` unless every field of that operation's shape is in order.
pub open spec fn classify_spec(m: Seq<(Seq<char>, JsonValueView)>) -> OperationView {
    match (required_text(m, "p"@), required_text(m, "op"@), required_text(m, "tick"@)) {
        (Some(p), Some(op), Some(tick)) => {
            if op == "deploy"@ {
                match (required_text(m, "max"@), optional_text(m, "lim"@), optional_text(m, "dec"@)) {
                    (Some(max), Some(lim), Some(dec)) => OperationView::Deploy(
                        DeployView { p, op, tick, max, lim, dec },
                    ),
                    _ => OperationView::Ignore,
                }
            } else if op == "mint"@ {
                match required_text(m, "amt"@) {
                    Some(amt) => OperationView::Mint(AmountScriptView { p, op, tick, amt }),
                    None => OperationView::Ignore,
                }
            } else if op == "transfer"@ {
                match required_text(m, "amt"@) {
                    Some(amt) => OperationView::Transfer(AmountScriptView { p, op, tick, amt }),
                    None => OperationView::Ignore,
                }
            } else {
                OperationView::Ignore
            }
        },
        _ => OperationView::Ignore,
    }
}

pub open spec fn value_view(v: Option<&JsonValue>) -> Option<JsonValueView> {
    match v {
        Some(x) => Some(x@),
        None => None,
    }
}

fn member<'a>(members: &'a Vec<(String, JsonValue)>, key: &str) -> (r: Option<&'a JsonValue>)
    ensures
        value_view(r) == member_value(members_view(members@), key@),
{
    let ghost m = members_view(members@);
    let mut i: usize = 0;
    while i < members.len()
        invariant
            0 <= i <= members.len(),
            m == members_view(members@),
            forall|j: int| 0 <= j < i ==> #[trigger] member_keys(m)[j] != key@,
        decreases members.len() - i,
    {
        if same_text(members[i].0.as_str(), key) {
            proof {
                lemma_position_is(member_keys(m), key@, i as int);
            }
            return Some(&members[i].1);
        }
        i += 1;
    }
    proof {
        lemma_position_is(member_keys(m), key@, i as int);
    }
    None
}

fn required(members: &Vec<(String, JsonValue)>, key: &str) -> (r: Option<String>)
    ensures
        text_view(r) == required_text(members_view(members@), key@),
{
    match member(members, key) {
        Some(JsonValue::Text(s)) => Some(s.clone()),
        _ => None,
    }
}

pub open spec fn opt_text_view(r: Option<Option<String>>) -> Option<Option<Seq<char>>> {
    match r {
        Some(x) => Some(text_view(x)),
        None => None,
    }
}

fn optional(members: &Vec<(String, JsonValue)>, key: &str) -> (r: Option<Option<String>>)
    ensures
        opt_text_view(r) == optional_text(members_view(members@), key@),
{
    match member(members, key) {
        None => Some(None),
        Some(JsonValue::Null) => Some(None),
        Some(JsonValue::Text(s)) => Some(Some(s.clone())),
        Some(JsonValue::Other) => None,
    }
}

/// Classifies the members of a JSON object as a deploy, a mint or a
/// transfer, or as none of them.
pub fn classify(members: &Vec<(String, JsonValue)>) -> (r: Operation)
    ensures
        r@ == classify_spec(members_view(members@)),
{
    let p = required(members, "p");
    let op = required(members, "op");
    let tick = required(members, "tick");
    match (p, op, tick) {
        (Some(p), Some(op), Some(tick)) => {
            if same_text(op.as_str(), "deploy") {
                let max = required(members, "max");
                let lim = optional(members, "lim");
                let dec = optional(members, "dec");
                match (max, lim, dec) {
                    (Some(max), Some(lim), Some(dec)) => Operation::Deploy(
                        Brc20Deploy { p, op, tick, max, lim, dec },
                    ),
                    _ => Operation::Ignore,
                }
            } else if same_text(op.as_str(), "mint") {
                match required(members, "amt") {
                    Some(amt) => Operation::Mint(Brc20Mint { p, op, tick, amt }),
                    None => Operation::Ignore,
                }
            } else if same_text(op.as_str(), "transfer") {
                match required(members, "amt") {
                    Some(amt) => Operation::Transfer(Brc20Transfer { p, op, tick, amt }),
                    None => Operation::Ignore,
                }
            } else {
                Operation::Ignore
            }
        },
        _ => Operation::Ignore,
    }
}

/// The content types under which a payload is read.
pub open spec fn accepted_content_type(content_type: Seq<char>) -> bool {
    content_type == "application/json"@ || content_type == "text/plain;charset=utf-8"@
}

/// The operation that an inscription stands for.
pub open spec fn parse_spec(content_type: Seq<char>, body: Seq<u8>) -> OperationView {
    if !accepted_content_type(content_type) || !valid_utf8(body) {
        OperationView::Ignore
    } else {
        match json_object(decode_utf8(body)) {
            Some(m) => classify_spec(m),
            None => OperationView::Ignore,
        }
    }
}

/// Decodes an inscription: `Ignore` unless the content type is accepted,
/// the body is UTF-8 and a JSON object, and the object has the shape of the
/// operation that its `op` names.
pub fn parse_operation(content_type: &str, body: &[u8]) -> (r: Operation)
    ensures
        r@ == parse_spec(content_type@, body@),
{
    if !same_text(content_type, "application/json") && !same_text(
        content_type,
        "text/plain;charset=utf-8",
    ) {
        return Operation::Ignore;
    }
    match utf8_text(body) {
        None => Operation::Ignore,
        Some(text) => match parse_json_object(text.as_str()) {
            None => Operation::Ignore,
            Some(members) => classify(&members),
        },
    }
}

/// The text that `str::to_lowercase` gives for `s`.
pub uninterp spec fn lowercase(s: Seq<char>) -> Seq<char>;

/// Calls `str::to_lowercase`. The contract only names the result: the same
/// text always has the same lowercase form.
#[verifier::external_body]
fn to_lowercase(s: &str) -> (r: String)
    ensures
        r@ == lowercase(s@),
{
    s.to_lowercase()
}

/// The key under which a ticker symbol is registered and looked up: its
/// lowercase form.
pub fn ticker_key(tick: &str) -> (r: String)
    ensures
        r@ == lowercase(tick@),
{
    to_lowercase(tick)
}

} // verus!
