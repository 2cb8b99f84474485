//! The catalog of incoming messages: each kind is an alternative of one
//! tagged union, selected by its decimal tag and read member by member.
//!
//! Float-valued members are kept as the decimal text the gateway sent.
use vstd::prelude::*;
use crate::buffers::fields_view;
use crate::codec::DecodedMessage;
use crate::conn::{conn_step, ConnAction, ConnEvent, ConnState};
use crate::de::{
    conforms, decode_union, decode_value, lemma_composite_views, lemma_record_schema_view,
    lemma_list_members, lemma_record_members, lemma_union_members, lemma_union_schema_view,
    lemma_value_conforms, lemma_variant_view, schema_views, variant_views, views,
    DecodeError, Deserializer, Schema, SchemaV, Value, ValueV, Variant, VariantV,
};

verus! {

/// The ASCII decimal numeral of `n`, for `n < 1000`.
pub open spec fn decimal_tag(n: int) -> Seq<u8> {
    if n < 10 {
        seq![(48 + n) as u8]
    } else if n < 100 {
        seq![(48 + n / 10) as u8, (48 + n % 10) as u8]
    } else {
        seq![(48 + n / 100) as u8, (48 + (n / 10) % 10) as u8, (48 + n % 10) as u8]
    }
}

/// The tag `UNSET_INTEGER`.
pub open spec fn unset_tag() -> Seq<u8> {
    seq![85u8, 78u8, 83u8, 69u8, 84u8, 95u8, 73u8, 78u8, 84u8, 69u8, 71u8, 69u8, 82u8]
}

/// The decimal numeral of `n`.
pub fn decimal_tag_bytes(n: u32) -> (r: Vec<u8>)
    requires
        n < 1000,
    ensures
        r@ == decimal_tag(n as int),
{
    let mut r: Vec<u8> = Vec::new();
    if n < 10 {
        r.push((48 + n) as u8);
    } else if n < 100 {
        r.push((48 + n / 10) as u8);
        r.push((48 + n % 10) as u8);
    } else {
        r.push((48 + n / 100) as u8);
        r.push((48 + (n / 10) % 10) as u8);
        r.push((48 + n % 10) as u8);
    }
    proof {
        assert(r@ =~= decimal_tag(n as int));
    }
    r
}

fn unset_tag_bytes() -> (r: Vec<u8>)
    ensures
        r@ == unset_tag(),
{
    let mut r: Vec<u8> = Vec::new();
    r.push(85u8);
    r.push(78u8);
    r.push(83u8);
    r.push(69u8);
    r.push(84u8);
    r.push(95u8);
    r.push(73u8);
    r.push(78u8);
    r.push(84u8);
    r.push(69u8);
    r.push(71u8);
    r.push(69u8);
    r.push(82u8);
    proof {
        assert(r@ =~= unset_tag());
    }
    r
}

/// A price: a fixed-point number with 20 fractional bits.
#[derive(Debug, Clone, Copy, PartialEq, Eq)]
pub struct Currency {
    /// The raw bits; the value is `bits / 2^20`.
    pub bits: i64,
}

/// Which market data feed a request is served from.
#[derive(Debug, Clone, Copy, PartialEq, Eq)]
pub enum MarketDataType {
    Realtime,
    Frozen,
    Delayed,
    DelayedFrozen,
}

impl MarketDataType {
    /// Position in the tag list of `market_data_type_schema_v`.
    pub open spec fn index(self) -> int {
        match self {
            MarketDataType::Realtime => 0,
            MarketDataType::Frozen => 1,
            MarketDataType::Delayed => 2,
            MarketDataType::DelayedFrozen => 3,
        }
    }

    /// The variant as a decoded union value.
    pub open spec fn value(self) -> ValueV {
        ValueV::Variant(self.index(), Seq::empty())
    }

    /// The variant at position `k` of the tag list.
    pub fn from_index(k: usize) -> (r: MarketDataType)
        requires
            k < 4,
        ensures
            r.index() == k,
    {
        match k {
            0 => MarketDataType::Realtime,
            1 => MarketDataType::Frozen,
            2 => MarketDataType::Delayed,
            _ => MarketDataType::DelayedFrozen,
        }
    }
}

/// The schema of a market data type: tags `1` to `4`, with empty bodies.
pub open spec fn market_data_type_schema_v() -> SchemaV {
    SchemaV::Union(Seq::new(4, |k: int| VariantV { tag: decimal_tag(k + 1), body: Seq::empty() }))
}

/// One bar of historical prices.
#[derive(Debug, Clone, PartialEq)]
pub struct HistoricalBarData {
    /// The bar's time, as the gateway wrote it.
    pub date: String,
    pub open: Currency,
    pub high: Currency,
    pub low: Currency,
    pub close: Currency,
    pub volume: Option<i64>,
    pub wap: Option<Currency>,
    /// Only reported for trade bars.
    pub trade_count: Option<i32>,
}

/// An optional 64-bit integer as a decoded value.
pub open spec fn opt_i64_value(o: Option<i64>) -> ValueV {
    match o {
        Some(n) => ValueV::Present(Box::new(ValueV::Int(n as int))),
        None => ValueV::Absent,
    }
}

/// An optional 32-bit integer as a decoded value.
pub open spec fn opt_i32_value(o: Option<i32>) -> ValueV {
    match o {
        Some(n) => ValueV::Present(Box::new(ValueV::Int(n as int))),
        None => ValueV::Absent,
    }
}

/// An optional price as a decoded value.
pub open spec fn opt_currency_value(o: Option<Currency>) -> ValueV {
    match o {
        Some(c) => ValueV::Present(Box::new(ValueV::Decimal(c.bits))),
        None => ValueV::Absent,
    }
}

impl HistoricalBarData {
    /// The bar as a member of a historical data response.
    pub open spec fn value(&self) -> ValueV {
        ValueV::Record(
            seq![
                ValueV::Text(self.date@),
                ValueV::Decimal(self.open.bits),
                ValueV::Decimal(self.high.bits),
                ValueV::Decimal(self.low.bits),
                ValueV::Decimal(self.close.bits),
                opt_i64_value(self.volume),
                opt_currency_value(self.wap),
                opt_i32_value(self.trade_count),
            ],
        )
    }

    /// The bar as a historical data update carries it.
    pub open spec fn update_value(&self) -> ValueV {
        ValueV::Record(
            seq![
                ValueV::Int(
                    match self.trade_count {
                        Some(n) => n as int,
                        None => 0,
                    },
                ),
                ValueV::Text(self.date@),
                ValueV::Decimal(self.open.bits),
                ValueV::Decimal(self.close.bits),
                ValueV::Decimal(self.high.bits),
                ValueV::Decimal(self.low.bits),
                opt_currency_value(self.wap),
                opt_i64_value(self.volume),
            ],
        )
    }
}

/// A bar inside a historical data response.
pub open spec fn bar_schema_v() -> SchemaV {
    SchemaV::Record(
        seq![
            SchemaV::Text,
            SchemaV::Decimal,
            SchemaV::Decimal,
            SchemaV::Decimal,
            SchemaV::Decimal,
            SchemaV::Opt(Box::new(SchemaV::I64)),
            SchemaV::Opt(Box::new(SchemaV::Decimal)),
            SchemaV::Opt(Box::new(SchemaV::I32)),
        ],
    )
}

/// A bar inside a historical data update: trade count first, then the
/// prices in the order open, close, high, low.
pub open spec fn bar_update_schema_v() -> SchemaV {
    SchemaV::Record(
        seq![
            SchemaV::I32,
            SchemaV::Text,
            SchemaV::Decimal,
            SchemaV::Decimal,
            SchemaV::Decimal,
            SchemaV::Decimal,
            SchemaV::Opt(Box::new(SchemaV::Decimal)),
            SchemaV::Opt(Box::new(SchemaV::I64)),
        ],
    )
}

/// The views of a list of texts.
pub open spec fn texts_value(s: Seq<String>) -> Seq<ValueV> {
    Seq::new(s.len(), |i: int| ValueV::Text(s[i]@))
}

/// The views of a list of bars.
pub open spec fn bars_value(s: Seq<HistoricalBarData>) -> Seq<ValueV> {
    Seq::new(s.len(), |i: int| s[i].value())
}

/// Builds the schema of a bar inside a historical data response.
pub fn bar_schema() -> (r: Schema)
    ensures
        r@ == bar_schema_v(),
{
    let mut ss: Vec<Schema> = Vec::new();
    ss.push(Schema::Text);
    ss.push(Schema::Decimal);
    ss.push(Schema::Decimal);
    ss.push(Schema::Decimal);
    ss.push(Schema::Decimal);
    ss.push(Schema::Opt(Box::new(Schema::I64)));
    ss.push(Schema::Opt(Box::new(Schema::Decimal)));
    ss.push(Schema::Opt(Box::new(Schema::I32)));
    proof {
        lemma_record_schema_view(ss);
        reveal_with_fuel(Schema::view, 3);
        assert(schema_views(ss@) =~= bar_schema_v()->Record_0);
    }
    Schema::Record(ss)
}

/// Builds the schema of a bar inside a historical data update.
pub fn bar_update_schema() -> (r: Schema)
    ensures
        r@ == bar_update_schema_v(),
{
    let mut ss: Vec<Schema> = Vec::new();
    ss.push(Schema::I32);
    ss.push(Schema::Text);
    ss.push(Schema::Decimal);
    ss.push(Schema::Decimal);
    ss.push(Schema::Decimal);
    ss.push(Schema::Decimal);
    ss.push(Schema::Opt(Box::new(Schema::Decimal)));
    ss.push(Schema::Opt(Box::new(Schema::I64)));
    proof {
        lemma_record_schema_view(ss);
        reveal_with_fuel(Schema::view, 3);
        assert(schema_views(ss@) =~= bar_update_schema_v()->Record_0);
    }
    Schema::Record(ss)
}

/// Builds the schema of a tick kind.
pub fn tick_type_schema() -> (r: Schema)
    ensures
        r@ == tick_type_schema_v(),
{
    let mut vs: Vec<Variant> = Vec::new();
    let mut k: usize = 0;
    while k < 91
        invariant
            k <= 91,
            variant_views(vs@) =~= Seq::new(
                k as nat,
                |j: int| VariantV { tag: tick_tag(j), body: Seq::empty() },
            ),
        decreases 91 - k,
    {
        let tag = if k < 90 {
            decimal_tag_bytes(k as u32)
        } else {
            unset_tag_bytes()
        };
        let v = Variant { tag, body: Vec::new() };
        let ghost before = vs@;
        proof {
            lemma_variant_view(v);
            assert(v@.body =~= Seq::<SchemaV>::empty());
            assert(v@ == VariantV { tag: tick_tag(k as int), body: Seq::empty() });
        }
        vs.push(v);
        proof {
            assert(variant_views(vs@) =~= variant_views(before).push(v@));
        }
        k = k + 1;
    }
    proof {
        lemma_union_schema_view(vs);
    }
    Schema::Union(vs)
}

/// Builds the schema of a market data type.
pub fn market_data_type_schema() -> (r: Schema)
    ensures
        r@ == market_data_type_schema_v(),
{
    let mut vs: Vec<Variant> = Vec::new();
    let mut k: usize = 0;
    while k < 4
        invariant
            k <= 4,
            variant_views(vs@) =~= Seq::new(
                k as nat,
                |j: int| VariantV { tag: decimal_tag(j + 1), body: Seq::empty() },
            ),
        decreases 4 - k,
    {
        let v = Variant { tag: decimal_tag_bytes((k + 1) as u32), body: Vec::new() };
        let ghost before = vs@;
        proof {
            lemma_variant_view(v);
            assert(v@.body =~= Seq::<SchemaV>::empty());
            assert(v@ == VariantV { tag: decimal_tag(k + 1), body: Seq::empty() });
        }
        vs.push(v);
        proof {
            assert(variant_views(vs@) =~= variant_views(before).push(v@));
        }
        k = k + 1;
    }
    proof {
        lemma_union_schema_view(vs);
    }
    Schema::Union(vs)
}

/// Builds the schema of every incoming message.
pub fn incoming_schema() -> (r: Schema)
    ensures
        r@ == incoming_schema_v(),
{
    let mut vs: Vec<Variant> = Vec::new();
    let mut k: usize = 0;
    while k < INCOMING_KINDS
        invariant
            k <= INCOMING_KINDS,
            variant_views(vs@) =~= Seq::new(k as nat, |j: int| incoming_variant(j)),
        decreases INCOMING_KINDS - k,
    {
        let v = incoming_variant_at(k);
        let ghost before = vs@;
        vs.push(v);
        proof {
            assert(variant_views(vs@) =~= variant_views(before).push(v@));
        }
        k = k + 1;
    }
    proof {
        lemma_union_schema_view(vs);
    }
    Schema::Union(vs)
}

fn i32_of(v: &Value) -> (r: i32)
    requires
        conforms(v@, SchemaV::I32),
    ensures
        ValueV::Int(r as int) == v@,
{
    match v {
        Value::Int(n) => *n as i32,
        _ => 0,
    }
}

fn i64_of(v: &Value) -> (r: i64)
    requires
        conforms(v@, SchemaV::I64),
    ensures
        ValueV::Int(r as int) == v@,
{
    match v {
        Value::Int(n) => *n,
        _ => 0,
    }
}

fn bool_of(v: &Value) -> (r: bool)
    requires
        conforms(v@, SchemaV::Bool),
    ensures
        ValueV::Bool(r) == v@,
{
    match v {
        Value::Bool(b) => *b,
        _ => false,
    }
}

fn decimal_of(v: &Value) -> (r: Currency)
    requires
        conforms(v@, SchemaV::Decimal),
    ensures
        ValueV::Decimal(r.bits) == v@,
{
    match v {
        Value::Decimal(d) => Currency { bits: *d },
        _ => Currency { bits: 0 },
    }
}

fn text_of(v: &Value) -> (r: String)
    requires
        conforms(v@, SchemaV::Text),
    ensures
        ValueV::Text(r@) == v@,
{
    match v {
        Value::Text(s) => s.clone(),
        _ => String::new(),
    }
}

fn float_of(v: &Value) -> (r: String)
    requires
        conforms(v@, SchemaV::Float),
    ensures
        ValueV::Float(r@) == v@,
{
    match v {
        Value::Float(s) => s.clone(),
        _ => String::new(),
    }
}

fn opt_i64_of(v: &Value) -> (r: Option<i64>)
    requires
        conforms(v@, SchemaV::Opt(Box::new(SchemaV::I64))),
    ensures
        opt_i64_value(r) == v@,
{
    match v {
        Value::Present(b) => Some(i64_of(&**b)),
        _ => None,
    }
}

fn opt_i32_of(v: &Value) -> (r: Option<i32>)
    requires
        conforms(v@, SchemaV::Opt(Box::new(SchemaV::I32))),
    ensures
        opt_i32_value(r) == v@,
{
    match v {
        Value::Present(b) => Some(i32_of(&**b)),
        _ => None,
    }
}

fn opt_decimal_of(v: &Value) -> (r: Option<Currency>)
    requires
        conforms(v@, SchemaV::Opt(Box::new(SchemaV::Decimal))),
    ensures
        opt_currency_value(r) == v@,
{
    match v {
        Value::Present(b) => Some(decimal_of(&**b)),
        _ => None,
    }
}

fn tick_type_of(v: &Value) -> (r: TickType)
    requires
        conforms(v@, tick_type_schema_v()),
    ensures
        r.value() == v@,
{
    match v {
        Value::Variant(k, xs) => {
            proof {
                lemma_composite_views(*xs, *k);
                lemma_union_members(v@, tick_type_schema_v()->Union_0);
                assert(views(xs@) =~= Seq::<ValueV>::empty());
            }
            TickType::from_index(*k)
        },
        _ => TickType::BidSize,
    }
}

fn market_data_type_of(v: &Value) -> (r: MarketDataType)
    requires
        conforms(v@, market_data_type_schema_v()),
    ensures
        r.value() == v@,
{
    match v {
        Value::Variant(k, xs) => {
            proof {
                lemma_composite_views(*xs, *k);
                lemma_union_members(v@, market_data_type_schema_v()->Union_0);
                assert(views(xs@) =~= Seq::<ValueV>::empty());
            }
            MarketDataType::from_index(*k)
        },
        _ => MarketDataType::Realtime,
    }
}

fn texts_of(v: &Value) -> (r: Vec<String>)
    requires
        conforms(v@, SchemaV::List(Box::new(SchemaV::Text))),
    ensures
        ValueV::List(texts_value(r@)) == v@,
{
    match v {
        Value::List(xs) => {
            proof {
                lemma_composite_views(*xs, 0);
                lemma_list_members(v@, SchemaV::Text);
                assert forall|j: int| 0 <= j < xs@.len() implies conforms(#[trigger] xs@[j]@, SchemaV::Text) by {
                    assert(views(xs@)[j] == xs@[j]@);
                }
            }
            let mut out: Vec<String> = Vec::new();
            let mut i: usize = 0;
            while i < xs.len()
                invariant
                    i <= xs@.len(),
                    forall|j: int| 0 <= j < xs@.len() ==> conforms(#[trigger] xs@[j]@, SchemaV::Text),
                    texts_value(out@) =~= views(xs@).subrange(0, i as int),
                decreases xs@.len() - i,
            {
                assert(views(xs@)[i as int] == xs@[i as int]@);
                let t = text_of(&xs[i]);
                let ghost before = out@;
                out.push(t);
                assert(texts_value(out@) =~= texts_value(before).push(ValueV::Text(t@)));
                assert(views(xs@).subrange(0, i + 1) =~= views(xs@).subrange(0, i as int).push(views(xs@)[i as int]));
                i = i + 1;
            }
            proof {
                assert(views(xs@).subrange(0, xs@.len() as int) =~= views(xs@));
            }
            out
        },
        _ => Vec::new(),
    }
}

fn bar_of(v: &Value) -> (r: HistoricalBarData)
    requires
        conforms(v@, bar_schema_v()),
    ensures
        r.value() == v@,
{
    match v {
        Value::Record(xs) => {
            proof {
                lemma_composite_views(*xs, 0);
                lemma_record_members(v@, bar_schema_v()->Record_0);
                assert(views(xs@)[0] == xs@[0]@);
                assert(conforms(xs@[0]@, bar_schema_v()->Record_0[0]));
                assert(views(xs@)[1] == xs@[1]@);
                assert(conforms(xs@[1]@, bar_schema_v()->Record_0[1]));
                assert(views(xs@)[2] == xs@[2]@);
                assert(conforms(xs@[2]@, bar_schema_v()->Record_0[2]));
                assert(views(xs@)[3] == xs@[3]@);
                assert(conforms(xs@[3]@, bar_schema_v()->Record_0[3]));
                assert(views(xs@)[4] == xs@[4]@);
                assert(conforms(xs@[4]@, bar_schema_v()->Record_0[4]));
                assert(views(xs@)[5] == xs@[5]@);
                assert(conforms(xs@[5]@, bar_schema_v()->Record_0[5]));
                assert(views(xs@)[6] == xs@[6]@);
                assert(conforms(xs@[6]@, bar_schema_v()->Record_0[6]));
                assert(views(xs@)[7] == xs@[7]@);
                assert(conforms(xs@[7]@, bar_schema_v()->Record_0[7]));
            }
            let r = HistoricalBarData {
                date: text_of(&xs[0]),
                open: decimal_of(&xs[1]),
                high: decimal_of(&xs[2]),
                low: decimal_of(&xs[3]),
                close: decimal_of(&xs[4]),
                volume: opt_i64_of(&xs[5]),
                wap: opt_decimal_of(&xs[6]),
                trade_count: opt_i32_of(&xs[7]),
            };
            proof {
                assert(views(xs@) =~= r.value()->Record_0);
            }
            r
        },
        _ => HistoricalBarData {
            date: String::new(),
            open: Currency { bits: 0 },
            high: Currency { bits: 0 },
            low: Currency { bits: 0 },
            close: Currency { bits: 0 },
            volume: None,
            wap: None,
            trade_count: None,
        },
    }
}

/// The bar of a historical data update; its trade count is always present.
fn bar_update_of(v: &Value) -> (r: HistoricalBarData)
    requires
        conforms(v@, bar_update_schema_v()),
    ensures
        r.update_value() == v@,
        r.trade_count is Some,
{
    match v {
        Value::Record(xs) => {
            proof {
                lemma_composite_views(*xs, 0);
                lemma_record_members(v@, bar_update_schema_v()->Record_0);
                assert(views(xs@)[0] == xs@[0]@);
                assert(conforms(xs@[0]@, bar_update_schema_v()->Record_0[0]));
                assert(views(xs@)[1] == xs@[1]@);
                assert(conforms(xs@[1]@, bar_update_schema_v()->Record_0[1]));
                assert(views(xs@)[2] == xs@[2]@);
                assert(conforms(xs@[2]@, bar_update_schema_v()->Record_0[2]));
                assert(views(xs@)[3] == xs@[3]@);
                assert(conforms(xs@[3]@, bar_update_schema_v()->Record_0[3]));
                assert(views(xs@)[4] == xs@[4]@);
                assert(conforms(xs@[4]@, bar_update_schema_v()->Record_0[4]));
                assert(views(xs@)[5] == xs@[5]@);
                assert(conforms(xs@[5]@, bar_update_schema_v()->Record_0[5]));
                assert(views(xs@)[6] == xs@[6]@);
                assert(conforms(xs@[6]@, bar_update_schema_v()->Record_0[6]));
                assert(views(xs@)[7] == xs@[7]@);
                assert(conforms(xs@[7]@, bar_update_schema_v()->Record_0[7]));
            }
            let r = HistoricalBarData {
                trade_count: Some(i32_of(&xs[0])),
                date: text_of(&xs[1]),
                open: decimal_of(&xs[2]),
                close: decimal_of(&xs[3]),
                high: decimal_of(&xs[4]),
                low: decimal_of(&xs[5]),
                wap: opt_decimal_of(&xs[6]),
                volume: opt_i64_of(&xs[7]),
            };
            proof {
                assert(views(xs@) =~= r.update_value()->Record_0);
            }
            r
        },
        _ => HistoricalBarData {
            date: String::new(),
            open: Currency { bits: 0 },
            high: Currency { bits: 0 },
            low: Currency { bits: 0 },
            close: Currency { bits: 0 },
            volume: None,
            wap: None,
            trade_count: Some(0),
        },
    }
}

fn bars_of(v: &Value) -> (r: Vec<HistoricalBarData>)
    requires
        conforms(v@, SchemaV::List(Box::new(bar_schema_v()))),
    ensures
        ValueV::List(bars_value(r@)) == v@,
{
    match v {
        Value::List(xs) => {
            proof {
                lemma_composite_views(*xs, 0);
                lemma_list_members(v@, bar_schema_v());
                assert forall|j: int| 0 <= j < xs@.len() implies conforms(#[trigger] xs@[j]@, bar_schema_v()) by {
                    assert(views(xs@)[j] == xs@[j]@);
                }
            }
            let mut out: Vec<HistoricalBarData> = Vec::new();
            let mut i: usize = 0;
            while i < xs.len()
                invariant
                    i <= xs@.len(),
                    forall|j: int| 0 <= j < xs@.len() ==> conforms(#[trigger] xs@[j]@, bar_schema_v()),
                    bars_value(out@) =~= views(xs@).subrange(0, i as int),
                decreases xs@.len() - i,
            {
                assert(views(xs@)[i as int] == xs@[i as int]@);
                let b = bar_of(&xs[i]);
                let ghost before = out@;
                out.push(b);
                assert(bars_value(out@) =~= bars_value(before).push(b.value()));
                assert(views(xs@).subrange(0, i + 1) =~= views(xs@).subrange(0, i as int).push(views(xs@)[i as int]));
                i = i + 1;
            }
            proof {
                assert(views(xs@).subrange(0, xs@.len() as int) =~= views(xs@));
            }
            out
        },
        _ => Vec::new(),
    }
}

/// The contract part of an open order.
#[derive(Debug, Clone, PartialEq)]
pub struct OrderContract {
    pub con_id: i32,
    pub symbol: String,
    pub sec_type: String,
    pub last_trade_date_or_contract_month: String,
    pub strike: Currency,
    pub right: String,
    pub multiplier: String,
    pub exchange: String,
    pub currency: String,
    pub local_symbol: String,
    pub trading_class: String,
}

impl OrderContract {
    /// The contract as a decoded record.
    pub open spec fn value(&self) -> ValueV {
        ValueV::Record(
            seq![
                ValueV::Int(self.con_id as int),
                ValueV::Text(self.symbol@),
                ValueV::Text(self.sec_type@),
                ValueV::Text(self.last_trade_date_or_contract_month@),
                ValueV::Decimal(self.strike.bits),
                ValueV::Text(self.right@),
                ValueV::Text(self.multiplier@),
                ValueV::Text(self.exchange@),
                ValueV::Text(self.currency@),
                ValueV::Text(self.local_symbol@),
                ValueV::Text(self.trading_class@),
            ],
        )
    }
}

/// The contract part of an open order.
pub open spec fn order_contract_schema_v() -> SchemaV {
    SchemaV::Record(
        seq![
            SchemaV::I32,
            SchemaV::Text,
            SchemaV::Text,
            SchemaV::Text,
            SchemaV::Decimal,
            SchemaV::Text,
            SchemaV::Text,
            SchemaV::Text,
            SchemaV::Text,
            SchemaV::Text,
            SchemaV::Text,
        ],
    )
}

/// Builds the schema of the contract part of an open order.
pub fn order_contract_schema() -> (r: Schema)
    ensures
        r@ == order_contract_schema_v(),
{
    let mut ss: Vec<Schema> = Vec::new();
    ss.push(Schema::I32);
    ss.push(Schema::Text);
    ss.push(Schema::Text);
    ss.push(Schema::Text);
    ss.push(Schema::Decimal);
    ss.push(Schema::Text);
    ss.push(Schema::Text);
    ss.push(Schema::Text);
    ss.push(Schema::Text);
    ss.push(Schema::Text);
    ss.push(Schema::Text);
    proof {
        lemma_record_schema_view(ss);
        assert(schema_views(ss@) =~= order_contract_schema_v()->Record_0);
    }
    Schema::Record(ss)
}

/// Builds the schema of a list of text pairs.
pub fn pair_list_schema() -> (r: Schema)
    ensures
        r@ == SchemaV::List(Box::new(SchemaV::Record(seq![SchemaV::Text, SchemaV::Text]))),
{
    let mut ss: Vec<Schema> = Vec::new();
    ss.push(Schema::Text);
    ss.push(Schema::Text);
    proof {
        lemma_record_schema_view(ss);
        assert(schema_views(ss@) =~= seq![SchemaV::Text, SchemaV::Text]);
    }
    Schema::List(Box::new(Schema::Record(ss)))
}

/// Builds the schema of a histogram: pairs of a price and a count.
pub fn histogram_schema() -> (r: Schema)
    ensures
        r@ == SchemaV::List(Box::new(SchemaV::Record(seq![SchemaV::Float, SchemaV::I64]))),
{
    let mut ss: Vec<Schema> = Vec::new();
    ss.push(Schema::Float);
    ss.push(Schema::I64);
    proof {
        lemma_record_schema_view(ss);
        assert(schema_views(ss@) =~= seq![SchemaV::Float, SchemaV::I64]);
    }
    Schema::List(Box::new(Schema::Record(ss)))
}

/// The views of a list of text pairs.
pub open spec fn pairs_value(s: Seq<(String, String)>) -> Seq<ValueV> {
    Seq::new(s.len(), |i: int| ValueV::Record(seq![ValueV::Text(s[i].0@), ValueV::Text(s[i].1@)]))
}

/// The views of a histogram.
pub open spec fn histogram_value(s: Seq<(String, i64)>) -> Seq<ValueV> {
    Seq::new(s.len(), |i: int| ValueV::Record(seq![
        ValueV::Float(s[i].0@),
        ValueV::Int(s[i].1 as int),
    ]))
}

fn order_contract_of(v: &Value) -> (r: OrderContract)
    requires
        conforms(v@, order_contract_schema_v()),
    ensures
        r.value() == v@,
{
    match v {
        Value::Record(xs) => {
            proof {
                lemma_composite_views(*xs, 0);
                lemma_record_members(v@, order_contract_schema_v()->Record_0);
                assert forall|i: int| 0 <= i < xs@.len() implies conforms(
                    #[trigger] xs@[i]@,
                    order_contract_schema_v()->Record_0[i],
                ) by {
                    assert(views(xs@)[i] == xs@[i]@);
                }
            }
            let r = OrderContract {
                con_id: i32_of(&xs[0]),
                symbol: text_of(&xs[1]),
                sec_type: text_of(&xs[2]),
                last_trade_date_or_contract_month: text_of(&xs[3]),
                strike: decimal_of(&xs[4]),
                right: text_of(&xs[5]),
                multiplier: text_of(&xs[6]),
                exchange: text_of(&xs[7]),
                currency: text_of(&xs[8]),
                local_symbol: text_of(&xs[9]),
                trading_class: text_of(&xs[10]),
            };
            proof {
                assert(views(xs@) =~= r.value()->Record_0);
            }
            r
        },
        _ => OrderContract {
            con_id: 0,
            symbol: String::new(),
            sec_type: String::new(),
            last_trade_date_or_contract_month: String::new(),
            strike: Currency { bits: 0 },
            right: String::new(),
            multiplier: String::new(),
            exchange: String::new(),
            currency: String::new(),
            local_symbol: String::new(),
            trading_class: String::new(),
        },
    }
}

fn pair_of(v: &Value) -> (r: (String, String))
    requires
        conforms(v@, SchemaV::Record(seq![SchemaV::Text, SchemaV::Text])),
    ensures
        ValueV::Record(seq![ValueV::Text(r.0@), ValueV::Text(r.1@)]) == v@,
{
    match v {
        Value::Record(xs) => {
            proof {
                lemma_composite_views(*xs, 0);
                lemma_record_members(v@, seq![SchemaV::Text, SchemaV::Text]);
                assert(views(xs@)[0] == xs@[0]@);
                assert(views(xs@)[1] == xs@[1]@);
            }
            let r = (text_of(&xs[0]), text_of(&xs[1]));
            proof {
                assert(views(xs@) =~= seq![ValueV::Text(r.0@), ValueV::Text(r.1@)]);
            }
            r
        },
        _ => (String::new(), String::new()),
    }
}

fn histogram_entry_of(v: &Value) -> (r: (String, i64))
    requires
        conforms(v@, SchemaV::Record(seq![SchemaV::Float, SchemaV::I64])),
    ensures
        ValueV::Record(seq![ValueV::Float(r.0@), ValueV::Int(r.1 as int)]) == v@,
{
    match v {
        Value::Record(xs) => {
            proof {
                lemma_composite_views(*xs, 0);
                lemma_record_members(v@, seq![SchemaV::Float, SchemaV::I64]);
                assert(views(xs@)[0] == xs@[0]@);
                assert(views(xs@)[1] == xs@[1]@);
            }
            let r = (float_of(&xs[0]), i64_of(&xs[1]));
            proof {
                assert(views(xs@) =~= seq![ValueV::Float(r.0@), ValueV::Int(r.1 as int)]);
            }
            r
        },
        _ => (String::new(), 0),
    }
}

fn pairs_of(v: &Value) -> (r: Vec<(String, String)>)
    requires
        conforms(v@, SchemaV::List(Box::new(SchemaV::Record(seq![SchemaV::Text, SchemaV::Text])))),
    ensures
        ValueV::List(pairs_value(r@)) == v@,
{
    let ghost s = SchemaV::Record(seq![SchemaV::Text, SchemaV::Text]);
    match v {
        Value::List(xs) => {
            proof {
                lemma_composite_views(*xs, 0);
                lemma_list_members(v@, s);
                assert forall|j: int| 0 <= j < xs@.len() implies conforms(#[trigger] xs@[j]@, s) by {
                    assert(views(xs@)[j] == xs@[j]@);
                }
            }
            let mut out: Vec<(String, String)> = Vec::new();
            let mut i: usize = 0;
            while i < xs.len()
                invariant
                    i <= xs@.len(),
                    s == SchemaV::Record(seq![SchemaV::Text, SchemaV::Text]),
                    forall|j: int| 0 <= j < xs@.len() ==> conforms(#[trigger] xs@[j]@, s),
                    pairs_value(out@) =~= views(xs@).subrange(0, i as int),
                decreases xs@.len() - i,
            {
                assert(views(xs@)[i as int] == xs@[i as int]@);
                let p = pair_of(&xs[i]);
                let ghost before = out@;
                out.push(p);
                assert(pairs_value(out@) =~= pairs_value(before).push(
                    ValueV::Record(seq![ValueV::Text(p.0@), ValueV::Text(p.1@)]),
                ));
                assert(views(xs@).subrange(0, i + 1) =~= views(xs@).subrange(0, i as int).push(
                    views(xs@)[i as int],
                ));
                i = i + 1;
            }
            proof {
                assert(views(xs@).subrange(0, xs@.len() as int) =~= views(xs@));
            }
            out
        },
        _ => Vec::new(),
    }
}

fn histogram_of(v: &Value) -> (r: Vec<(String, i64)>)
    requires
        conforms(v@, SchemaV::List(Box::new(SchemaV::Record(seq![SchemaV::Float, SchemaV::I64])))),
    ensures
        ValueV::List(histogram_value(r@)) == v@,
{
    let ghost s = SchemaV::Record(seq![SchemaV::Float, SchemaV::I64]);
    match v {
        Value::List(xs) => {
            proof {
                lemma_composite_views(*xs, 0);
                lemma_list_members(v@, s);
                assert forall|j: int| 0 <= j < xs@.len() implies conforms(#[trigger] xs@[j]@, s) by {
                    assert(views(xs@)[j] == xs@[j]@);
                }
            }
            let mut out: Vec<(String, i64)> = Vec::new();
            let mut i: usize = 0;
            while i < xs.len()
                invariant
                    i <= xs@.len(),
                    s == SchemaV::Record(seq![SchemaV::Float, SchemaV::I64]),
                    forall|j: int| 0 <= j < xs@.len() ==> conforms(#[trigger] xs@[j]@, s),
                    histogram_value(out@) =~= views(xs@).subrange(0, i as int),
                decreases xs@.len() - i,
            {
                assert(views(xs@)[i as int] == xs@[i as int]@);
                let p = histogram_entry_of(&xs[i]);
                let ghost before = out@;
                out.push(p);
                assert(histogram_value(out@) =~= histogram_value(before).push(
                    ValueV::Record(seq![ValueV::Float(p.0@), ValueV::Int(p.1 as int)]),
                ));
                assert(views(xs@).subrange(0, i + 1) =~= views(xs@).subrange(0, i as int).push(
                    views(xs@)[i as int],
                ));
                i = i + 1;
            }
            proof {
                assert(views(xs@).subrange(0, xs@.len() as int) =~= views(xs@));
            }
            out
        },
        _ => Vec::new(),
    }
}

/// Kind of a market-data tick; the wire carries its numeric code, or `UNSET_INTEGER`.
#[derive(Debug, Clone, Copy, PartialEq, Eq)]
pub enum TickType {
    BidSize,
    Bid,
    Ask,
    AskSize,
    Last,
    LastSize,
    High,
    Low,
    Volume,
    Close,
    BidOptionComputation,
    AskOptionComputation,
    LastOptionComputation,
    ModelOption,
    Open,
    Low13Week,
    High13Week,
    Low26Week,
    High26Week,
    Low52Week,
    High52Week,
    AvgVolume,
    OpenInterest,
    OptionHistoricalVol,
    OptionImpliedVol,
    OptionBidExch,
    OptionAskExch,
    OptionCallOpenInterest,
    OptionPutOpenInterest,
    OptionCallVolume,
    OptionPutVolume,
    IndexFuturePremium,
    BidExch,
    AskExch,
    AuctionVolume,
    AuctionPrice,
    AuctionImbalance,
    MarkPrice,
    BidEfpComputation,
    AskEfpComputation,
    LastEfpComputation,
    OpenEfpComputation,
    HighEfpComputation,
    LowEfpComputation,
    CloseEfpComputation,
    LastTimestamp,
    Shortable,
    FundamentalRatios,
    RtVolume,
    Halted,
    BidYield,
    AskYield,
    LastYield,
    CustOptionComputation,
    TradeCount,
    TradeRate,
    VolumeRate,
    LastRthTrade,
    RtHistoricalVol,
    IbDividends,
    BondFactorMultiplier,
    RegulatoryImbalance,
    NewsTick,
    ShortTermVolume3Min,
    ShortTermVolume5Min,
    ShortTermVolume10Min,
    DelayedBid,
    DelayedAsk,
    DelayedLast,
    DelayedBidSize,
    DelayedAskSize,
    DelayedLastSize,
    DelayedHigh,
    DelayedLow,
    DelayedVolume,
    DelayedClose,
    DelayedOpen,
    RtTrdVolume,
    CreditmanMarkPrice,
    CreditmanSlowMarkPrice,
    DelayedBidOption,
    DelayedAskOption,
    DelayedLastOption,
    DelayedModelOption,
    LastExch,
    LastRegTime,
    FuturesOpenInterest,
    AvgOptVolume,
    DelayedLastTimestamp,
    ShortableShares,
    NotSet,
}

impl TickType {
    /// Position of the variant in the tag list of `tick_type_schema_v`.
    pub open spec fn index(self) -> int {
        match self {
            TickType::BidSize => 0,
            TickType::Bid => 1,
            TickType::Ask => 2,
            TickType::AskSize => 3,
            TickType::Last => 4,
            TickType::LastSize => 5,
            TickType::High => 6,
            TickType::Low => 7,
            TickType::Volume => 8,
            TickType::Close => 9,
            TickType::BidOptionComputation => 10,
            TickType::AskOptionComputation => 11,
            TickType::LastOptionComputation => 12,
            TickType::ModelOption => 13,
            TickType::Open => 14,
            TickType::Low13Week => 15,
            TickType::High13Week => 16,
            TickType::Low26Week => 17,
            TickType::High26Week => 18,
            TickType::Low52Week => 19,
            TickType::High52Week => 20,
            TickType::AvgVolume => 21,
            TickType::OpenInterest => 22,
            TickType::OptionHistoricalVol => 23,
            TickType::OptionImpliedVol => 24,
            TickType::OptionBidExch => 25,
            TickType::OptionAskExch => 26,
            TickType::OptionCallOpenInterest => 27,
            TickType::OptionPutOpenInterest => 28,
            TickType::OptionCallVolume => 29,
            TickType::OptionPutVolume => 30,
            TickType::IndexFuturePremium => 31,
            TickType::BidExch => 32,
            TickType::AskExch => 33,
            TickType::AuctionVolume => 34,
            TickType::AuctionPrice => 35,
            TickType::AuctionImbalance => 36,
            TickType::MarkPrice => 37,
            TickType::BidEfpComputation => 38,
            TickType::AskEfpComputation => 39,
            TickType::LastEfpComputation => 40,
            TickType::OpenEfpComputation => 41,
            TickType::HighEfpComputation => 42,
            TickType::LowEfpComputation => 43,
            TickType::CloseEfpComputation => 44,
            TickType::LastTimestamp => 45,
            TickType::Shortable => 46,
            TickType::FundamentalRatios => 47,
            TickType::RtVolume => 48,
            TickType::Halted => 49,
            TickType::BidYield => 50,
            TickType::AskYield => 51,
            TickType::LastYield => 52,
            TickType::CustOptionComputation => 53,
            TickType::TradeCount => 54,
            TickType::TradeRate => 55,
            TickType::VolumeRate => 56,
            TickType::LastRthTrade => 57,
            TickType::RtHistoricalVol => 58,
            TickType::IbDividends => 59,
            TickType::BondFactorMultiplier => 60,
            TickType::RegulatoryImbalance => 61,
            TickType::NewsTick => 62,
            TickType::ShortTermVolume3Min => 63,
            TickType::ShortTermVolume5Min => 64,
            TickType::ShortTermVolume10Min => 65,
            TickType::DelayedBid => 66,
            TickType::DelayedAsk => 67,
            TickType::DelayedLast => 68,
            TickType::DelayedBidSize => 69,
            TickType::DelayedAskSize => 70,
            TickType::DelayedLastSize => 71,
            TickType::DelayedHigh => 72,
            TickType::DelayedLow => 73,
            TickType::DelayedVolume => 74,
            TickType::DelayedClose => 75,
            TickType::DelayedOpen => 76,
            TickType::RtTrdVolume => 77,
            TickType::CreditmanMarkPrice => 78,
            TickType::CreditmanSlowMarkPrice => 79,
            TickType::DelayedBidOption => 80,
            TickType::DelayedAskOption => 81,
            TickType::DelayedLastOption => 82,
            TickType::DelayedModelOption => 83,
            TickType::LastExch => 84,
            TickType::LastRegTime => 85,
            TickType::FuturesOpenInterest => 86,
            TickType::AvgOptVolume => 87,
            TickType::DelayedLastTimestamp => 88,
            TickType::ShortableShares => 89,
            TickType::NotSet => 90,
        }
    }

    /// The variant as a decoded union value.
    pub open spec fn value(self) -> ValueV {
        ValueV::Variant(self.index(), Seq::empty())
    }

    /// The variant at position `k` of the tag list.
    pub fn from_index(k: usize) -> (r: TickType)
        requires
            k < 91,
        ensures
            r.index() == k,
    {
        match k {
            0 => TickType::BidSize,
            1 => TickType::Bid,
            2 => TickType::Ask,
            3 => TickType::AskSize,
            4 => TickType::Last,
            5 => TickType::LastSize,
            6 => TickType::High,
            7 => TickType::Low,
            8 => TickType::Volume,
            9 => TickType::Close,
            10 => TickType::BidOptionComputation,
            11 => TickType::AskOptionComputation,
            12 => TickType::LastOptionComputation,
            13 => TickType::ModelOption,
            14 => TickType::Open,
            15 => TickType::Low13Week,
            16 => TickType::High13Week,
            17 => TickType::Low26Week,
            18 => TickType::High26Week,
            19 => TickType::Low52Week,
            20 => TickType::High52Week,
            21 => TickType::AvgVolume,
            22 => TickType::OpenInterest,
            23 => TickType::OptionHistoricalVol,
            24 => TickType::OptionImpliedVol,
            25 => TickType::OptionBidExch,
            26 => TickType::OptionAskExch,
            27 => TickType::OptionCallOpenInterest,
            28 => TickType::OptionPutOpenInterest,
            29 => TickType::OptionCallVolume,
            30 => TickType::OptionPutVolume,
            31 => TickType::IndexFuturePremium,
            32 => TickType::BidExch,
            33 => TickType::AskExch,
            34 => TickType::AuctionVolume,
            35 => TickType::AuctionPrice,
            36 => TickType::AuctionImbalance,
            37 => TickType::MarkPrice,
            38 => TickType::BidEfpComputation,
            39 => TickType::AskEfpComputation,
            40 => TickType::LastEfpComputation,
            41 => TickType::OpenEfpComputation,
            42 => TickType::HighEfpComputation,
            43 => TickType::LowEfpComputation,
            44 => TickType::CloseEfpComputation,
            45 => TickType::LastTimestamp,
            46 => TickType::Shortable,
            47 => TickType::FundamentalRatios,
            48 => TickType::RtVolume,
            49 => TickType::Halted,
            50 => TickType::BidYield,
            51 => TickType::AskYield,
            52 => TickType::LastYield,
            53 => TickType::CustOptionComputation,
            54 => TickType::TradeCount,
            55 => TickType::TradeRate,
            56 => TickType::VolumeRate,
            57 => TickType::LastRthTrade,
            58 => TickType::RtHistoricalVol,
            59 => TickType::IbDividends,
            60 => TickType::BondFactorMultiplier,
            61 => TickType::RegulatoryImbalance,
            62 => TickType::NewsTick,
            63 => TickType::ShortTermVolume3Min,
            64 => TickType::ShortTermVolume5Min,
            65 => TickType::ShortTermVolume10Min,
            66 => TickType::DelayedBid,
            67 => TickType::DelayedAsk,
            68 => TickType::DelayedLast,
            69 => TickType::DelayedBidSize,
            70 => TickType::DelayedAskSize,
            71 => TickType::DelayedLastSize,
            72 => TickType::DelayedHigh,
            73 => TickType::DelayedLow,
            74 => TickType::DelayedVolume,
            75 => TickType::DelayedClose,
            76 => TickType::DelayedOpen,
            77 => TickType::RtTrdVolume,
            78 => TickType::CreditmanMarkPrice,
            79 => TickType::CreditmanSlowMarkPrice,
            80 => TickType::DelayedBidOption,
            81 => TickType::DelayedAskOption,
            82 => TickType::DelayedLastOption,
            83 => TickType::DelayedModelOption,
            84 => TickType::LastExch,
            85 => TickType::LastRegTime,
            86 => TickType::FuturesOpenInterest,
            87 => TickType::AvgOptVolume,
            88 => TickType::DelayedLastTimestamp,
            89 => TickType::ShortableShares,
            _ => TickType::NotSet,
        }
    }
}

/// Tag of the tick kind at position `k`: its decimal code, or `UNSET_INTEGER` last.
pub open spec fn tick_tag(k: int) -> Seq<u8> {
    if k < 90 {
        decimal_tag(k)
    } else {
        unset_tag()
    }
}

/// The schema of a tick kind: a union of tags with empty bodies.
pub open spec fn tick_type_schema_v() -> SchemaV {
    SchemaV::Union(Seq::new(91, |k: int| VariantV { tag: tick_tag(k), body: Seq::empty() }))
}

/// A message from the gateway.
#[derive(Debug, PartialEq)]
pub enum TWSIncommingMessageImpl {
    TickPrice {
        msg_version: i32,
        req_id: i32,
        tick_type: TickType,
        price: Currency,
        size: i32,
        attrib: i32,
    },
    TickSize {
        msg_version: i32,
        req_id: i32,
        tick_type: TickType,
        size: i32,
    },
    OrderStatus {
        id: i32,
        status: String,
        filled_amount: String,
        remaining_amount: String,
        avg_fill_price: Currency,
        perm_id: i32,
        parent_id: i32,
        last_fill_price: Currency,
        client_id: i32,
        why_held: String,
        market_cap_price: Currency,
    },
    Error {
        msg_version: i32,
        req_id: i32,
        code: i32,
        msg: String,
    },
    OpenOrder {
        order_id: i32,
        contract: OrderContract,
    },
    AccountValue {
        msg_version: i32,
        key: String,
        value: String,
        currency: String,
        account_name: String,
    },
    PortfolioValue,
    AccountUpdateTime,
    NextValidId {
        msg_version: i32,
        order_id: i32,
    },
    ContractData {
        msg_version: i32,
        req_id: i32,
        symbol: String,
        sec_type: String,
        last_trade_date_or_contract_month: String,
        strike: Currency,
        right: String,
        exchange: String,
        currency: String,
        local_symbol: String,
        market_name: String,
        trading_class: String,
        con_id: i32,
        min_tick: Currency,
        md_size_multiplier: i32,
        multiplier: String,
        order_types: String,
        valid_exchanges: String,
        price_magnifier: i32,
        under_con_id: i32,
        long_name: String,
        primary_exchange: String,
        contract_month: String,
        industry: String,
        category: String,
        subcategory: String,
        time_zone_id: String,
        trading_hours: String,
        liquid_hours: String,
        ev_rule: String,
        ev_multiplier: String,
        sec_id_list: Vec<(String, String)>,
        agg_group: i32,
        under_symbol: String,
        under_sec_type: String,
        market_rule_ids: String,
        real_expiration_date: String,
    },
    ExecutionData,
    MarketDepth,
    MarketDepthL2,
    NewsBulletins,
    ManagedAccounts {
        msg_version: i32,
        account_list: String,
    },
    ReceiveFA,
    HistoricalData {
        req_id: i32,
        start_date: String,
        end_date: String,
        bars: Vec<HistoricalBarData>,
    },
    BondContractData,
    ScannerParameters,
    ScannerData,
    TickOptionComputation {
        msg_version: i32,
        req_id: i32,
        tick_type: TickType,
        implied_vol: String,
        delta: String,
        price: String,
        present_value_dividend: String,
        gamma: String,
        vega: String,
        theta: String,
        underlying_price: String,
    },
    TickGeneric {
        msg_version: i32,
        req_id: i32,
        tick_type: TickType,
        value: String,
    },
    TickString {
        msg_version: i32,
        req_id: i32,
        tick_type: TickType,
        value: String,
    },
    TickEFP {
        req_id: i32,
        tick_type: TickType,
        basis_points: String,
        formatted_basis_points: String,
        implied_future: String,
        hold_days: i32,
        future_last_trade_date: String,
        dividend_impact: String,
        dividends_to_last_trade_date: String,
    },
    CurrentTime,
    RealTimeBars,
    FundamentalData,
    ContractDataEnd,
    OpenOrderEnd,
    AccountDownloadEnd,
    ExecutionDataEnd,
    DeltaNeutralValidation,
    TickSnapshotEnd,
    MarketDataType {
        msg_version: i32,
        req_id: i32,
        data_type: MarketDataType,
    },
    CommissionsReport {
        msg_version: i32,
        exec_id: String,
        commission: String,
        currency: String,
        realized_pnl: String,
        yield_: String,
        yield_redemption_date: i32,
    },
    Position,
    PositionEnd,
    AccountSummary,
    AccountSummaryEnd,
    VerifyMessageApi,
    VerifyCompleted,
    DisplayGroupList,
    DisplayGroupUpdated,
    VerifyAndAuthMessageApi,
    VerifyAndAuthCompleted,
    PositionMulti,
    PositionMultiEnd,
    AccountUpdateMulti,
    AccountUpdateMultiEnd,
    SecurityDefinitionOptionParameter {
        req_id: i32,
        exchange: String,
        underlying_con_id: i32,
        trading_class: String,
        multiplier: String,
        expirations: Vec<String>,
        strikes: Vec<String>,
    },
    SecurityDefinitionOptionParameterEnd {
        req_id: i32,
    },
    SoftDollarTier,
    FamilyCodes,
    SymbolSamples,
    MktDepthExchanges,
    TickReqParams {
        req_id: i32,
        min_tick: String,
        bbo_exchange: String,
        snapshot_permssion: bool,
    },
    SmartComponents,
    NewsArticle,
    TickNews,
    NewsProviders,
    HistoricalNews,
    HistoricalNewsEnd,
    HeadTimestamp,
    HistogramData {
        req_id: i32,
        data: Vec<(String, i64)>,
    },
    HistoricalDataUpdate {
        req_id: i32,
        bar: HistoricalBarData,
    },
    RerouteMktDataReq,
    RerouteMktDepthReq,
    MarketRule,
    PnL,
    PnLSingle,
    HistoricalTick,
    HistoricalTickBidAsk,
    HistoricalTickLast,
    TickByTick,
    OrderBound,
    CompletedOrder,
    CompletedOrdersEnd,
}

/// Number of message kinds in the incoming catalog.
pub const INCOMING_KINDS: usize = 77;

/// The incoming catalog's alternative at position `k`: its tag and members.
pub open spec fn incoming_variant(k: int) -> VariantV {
    if k == 0 {
        VariantV { tag: decimal_tag(1), body: seq![
            SchemaV::I32,
            SchemaV::I32,
            tick_type_schema_v(),
            SchemaV::Decimal,
            SchemaV::I32,
            SchemaV::I32,
        ] }
    } else if k == 1 {
        VariantV { tag: decimal_tag(2), body: seq![
            SchemaV::I32,
            SchemaV::I32,
            tick_type_schema_v(),
            SchemaV::I32,
        ] }
    } else if k == 2 {
        VariantV { tag: decimal_tag(3), body: seq![
            SchemaV::I32,
            SchemaV::Text,
            SchemaV::Float,
            SchemaV::Float,
            SchemaV::Decimal,
            SchemaV::I32,
            SchemaV::I32,
            SchemaV::Decimal,
            SchemaV::I32,
            SchemaV::Text,
            SchemaV::Decimal,
        ] }
    } else if k == 3 {
        VariantV { tag: decimal_tag(4), body: seq![
            SchemaV::I32,
            SchemaV::I32,
            SchemaV::I32,
            SchemaV::Text,
        ] }
    } else if k == 4 {
        VariantV { tag: decimal_tag(5), body: seq![SchemaV::I32, order_contract_schema_v()] }
    } else if k == 5 {
        VariantV { tag: decimal_tag(6), body: seq![
            SchemaV::I32,
            SchemaV::Text,
            SchemaV::Text,
            SchemaV::Text,
            SchemaV::Text,
        ] }
    } else if k == 6 {
        VariantV { tag: decimal_tag(7), body: Seq::empty() }
    } else if k == 7 {
        VariantV { tag: decimal_tag(8), body: Seq::empty() }
    } else if k == 8 {
        VariantV { tag: decimal_tag(9), body: seq![SchemaV::I32, SchemaV::I32] }
    } else if k == 9 {
        VariantV { tag: decimal_tag(10), body: seq![
            SchemaV::I32,
            SchemaV::I32,
            SchemaV::Text,
            SchemaV::Text,
            SchemaV::Text,
            SchemaV::Decimal,
            SchemaV::Text,
            SchemaV::Text,
            SchemaV::Text,
            SchemaV::Text,
            SchemaV::Text,
            SchemaV::Text,
            SchemaV::I32,
            SchemaV::Decimal,
            SchemaV::I32,
            SchemaV::Text,
            SchemaV::Text,
            SchemaV::Text,
            SchemaV::I32,
            SchemaV::I32,
            SchemaV::Text,
            SchemaV::Text,
            SchemaV::Text,
            SchemaV::Text,
            SchemaV::Text,
            SchemaV::Text,
            SchemaV::Text,
            SchemaV::Text,
            SchemaV::Text,
            SchemaV::Text,
            SchemaV::Text,
            SchemaV::List(Box::new(SchemaV::Record(seq![SchemaV::Text, SchemaV::Text]))),
            SchemaV::I32,
            SchemaV::Text,
            SchemaV::Text,
            SchemaV::Text,
            SchemaV::Text,
        ] }
    } else if k == 10 {
        VariantV { tag: decimal_tag(11), body: Seq::empty() }
    } else if k == 11 {
        VariantV { tag: decimal_tag(12), body: Seq::empty() }
    } else if k == 12 {
        VariantV { tag: decimal_tag(13), body: Seq::empty() }
    } else if k == 13 {
        VariantV { tag: decimal_tag(14), body: Seq::empty() }
    } else if k == 14 {
        VariantV { tag: decimal_tag(15), body: seq![SchemaV::I32, SchemaV::Text] }
    } else if k == 15 {
        VariantV { tag: decimal_tag(16), body: Seq::empty() }
    } else if k == 16 {
        VariantV { tag: decimal_tag(17), body: seq![
            SchemaV::I32,
            SchemaV::Text,
            SchemaV::Text,
            SchemaV::List(Box::new(bar_schema_v())),
        ] }
    } else if k == 17 {
        VariantV { tag: decimal_tag(18), body: Seq::empty() }
    } else if k == 18 {
        VariantV { tag: decimal_tag(19), body: Seq::empty() }
    } else if k == 19 {
        VariantV { tag: decimal_tag(20), body: Seq::empty() }
    } else if k == 20 {
        VariantV { tag: decimal_tag(21), body: seq![
            SchemaV::I32,
            SchemaV::I32,
            tick_type_schema_v(),
            SchemaV::Float,
            SchemaV::Float,
            SchemaV::Float,
            SchemaV::Float,
            SchemaV::Float,
            SchemaV::Float,
            SchemaV::Float,
            SchemaV::Float,
        ] }
    } else if k == 21 {
        VariantV { tag: decimal_tag(45), body: seq![
            SchemaV::I32,
            SchemaV::I32,
            tick_type_schema_v(),
            SchemaV::Float,
        ] }
    } else if k == 22 {
        VariantV { tag: decimal_tag(46), body: seq![
            SchemaV::I32,
            SchemaV::I32,
            tick_type_schema_v(),
            SchemaV::Text,
        ] }
    } else if k == 23 {
        VariantV { tag: decimal_tag(47), body: seq![
            SchemaV::I32,
            tick_type_schema_v(),
            SchemaV::Float,
            SchemaV::Text,
            SchemaV::Float,
            SchemaV::I32,
            SchemaV::Text,
            SchemaV::Float,
            SchemaV::Float,
        ] }
    } else if k == 24 {
        VariantV { tag: decimal_tag(49), body: Seq::empty() }
    } else if k == 25 {
        VariantV { tag: decimal_tag(50), body: Seq::empty() }
    } else if k == 26 {
        VariantV { tag: decimal_tag(51), body: Seq::empty() }
    } else if k == 27 {
        VariantV { tag: decimal_tag(52), body: Seq::empty() }
    } else if k == 28 {
        VariantV { tag: decimal_tag(53), body: Seq::empty() }
    } else if k == 29 {
        VariantV { tag: decimal_tag(54), body: Seq::empty() }
    } else if k == 30 {
        VariantV { tag: decimal_tag(55), body: Seq::empty() }
    } else if k == 31 {
        VariantV { tag: decimal_tag(56), body: Seq::empty() }
    } else if k == 32 {
        VariantV { tag: decimal_tag(57), body: Seq::empty() }
    } else if k == 33 {
        VariantV { tag: decimal_tag(58), body: seq![
            SchemaV::I32,
            SchemaV::I32,
            market_data_type_schema_v(),
        ] }
    } else if k == 34 {
        VariantV { tag: decimal_tag(59), body: seq![
            SchemaV::I32,
            SchemaV::Text,
            SchemaV::Float,
            SchemaV::Text,
            SchemaV::Float,
            SchemaV::Float,
            SchemaV::I32,
        ] }
    } else if k == 35 {
        VariantV { tag: decimal_tag(61), body: Seq::empty() }
    } else if k == 36 {
        VariantV { tag: decimal_tag(62), body: Seq::empty() }
    } else if k == 37 {
        VariantV { tag: decimal_tag(63), body: Seq::empty() }
    } else if k == 38 {
        VariantV { tag: decimal_tag(64), body: Seq::empty() }
    } else if k == 39 {
        VariantV { tag: decimal_tag(65), body: Seq::empty() }
    } else if k == 40 {
        VariantV { tag: decimal_tag(66), body: Seq::empty() }
    } else if k == 41 {
        VariantV { tag: decimal_tag(67), body: Seq::empty() }
    } else if k == 42 {
        VariantV { tag: decimal_tag(68), body: Seq::empty() }
    } else if k == 43 {
        VariantV { tag: decimal_tag(69), body: Seq::empty() }
    } else if k == 44 {
        VariantV { tag: decimal_tag(70), body: Seq::empty() }
    } else if k == 45 {
        VariantV { tag: decimal_tag(71), body: Seq::empty() }
    } else if k == 46 {
        VariantV { tag: decimal_tag(72), body: Seq::empty() }
    } else if k == 47 {
        VariantV { tag: decimal_tag(73), body: Seq::empty() }
    } else if k == 48 {
        VariantV { tag: decimal_tag(74), body: Seq::empty() }
    } else if k == 49 {
        VariantV { tag: decimal_tag(75), body: seq![
            SchemaV::I32,
            SchemaV::Text,
            SchemaV::I32,
            SchemaV::Text,
            SchemaV::Text,
            SchemaV::List(Box::new(SchemaV::Text)),
            SchemaV::List(Box::new(SchemaV::Text)),
        ] }
    } else if k == 50 {
        VariantV { tag: decimal_tag(76), body: seq![SchemaV::I32] }
    } else if k == 51 {
        VariantV { tag: decimal_tag(77), body: Seq::empty() }
    } else if k == 52 {
        VariantV { tag: decimal_tag(78), body: Seq::empty() }
    } else if k == 53 {
        VariantV { tag: decimal_tag(79), body: Seq::empty() }
    } else if k == 54 {
        VariantV { tag: decimal_tag(80), body: Seq::empty() }
    } else if k == 55 {
        VariantV { tag: decimal_tag(81), body: seq![
            SchemaV::I32,
            SchemaV::Float,
            SchemaV::Text,
            SchemaV::Bool,
        ] }
    } else if k == 56 {
        VariantV { tag: decimal_tag(82), body: Seq::empty() }
    } else if k == 57 {
        VariantV { tag: decimal_tag(83), body: Seq::empty() }
    } else if k == 58 {
        VariantV { tag: decimal_tag(84), body: Seq::empty() }
    } else if k == 59 {
        VariantV { tag: decimal_tag(85), body: Seq::empty() }
    } else if k == 60 {
        VariantV { tag: decimal_tag(86), body: Seq::empty() }
    } else if k == 61 {
        VariantV { tag: decimal_tag(87), body: Seq::empty() }
    } else if k == 62 {
        VariantV { tag: decimal_tag(88), body: Seq::empty() }
    } else if k == 63 {
        VariantV { tag: decimal_tag(89), body: seq![
            SchemaV::I32,
            SchemaV::List(Box::new(SchemaV::Record(seq![SchemaV::Float, SchemaV::I64]))),
        ] }
    } else if k == 64 {
        VariantV { tag: decimal_tag(90), body: seq![SchemaV::I32, bar_update_schema_v()] }
    } else if k == 65 {
        VariantV { tag: decimal_tag(91), body: Seq::empty() }
    } else if k == 66 {
        VariantV { tag: decimal_tag(92), body: Seq::empty() }
    } else if k == 67 {
        VariantV { tag: decimal_tag(93), body: Seq::empty() }
    } else if k == 68 {
        VariantV { tag: decimal_tag(94), body: Seq::empty() }
    } else if k == 69 {
        VariantV { tag: decimal_tag(95), body: Seq::empty() }
    } else if k == 70 {
        VariantV { tag: decimal_tag(96), body: Seq::empty() }
    } else if k == 71 {
        VariantV { tag: decimal_tag(97), body: Seq::empty() }
    } else if k == 72 {
        VariantV { tag: decimal_tag(98), body: Seq::empty() }
    } else if k == 73 {
        VariantV { tag: decimal_tag(99), body: Seq::empty() }
    } else if k == 74 {
        VariantV { tag: decimal_tag(100), body: Seq::empty() }
    } else if k == 75 {
        VariantV { tag: decimal_tag(101), body: Seq::empty() }
    } else if k == 76 {
        VariantV { tag: decimal_tag(102), body: Seq::empty() }
    } else {
        VariantV { tag: Seq::empty(), body: Seq::empty() }
    }
}

/// The schema of every incoming message: a union over the catalog.
pub open spec fn incoming_schema_v() -> SchemaV {
    SchemaV::Union(Seq::new(INCOMING_KINDS as nat, |k: int| incoming_variant(k)))
}

/// Builds the catalog's alternative at position `k`.
fn incoming_variant_at(k: usize) -> (r: Variant)
    requires
        k < INCOMING_KINDS,
    ensures
        r@ == incoming_variant(k as int),
{
    let mut body: Vec<Schema> = Vec::new();
    let tag: u32;
    if k == 0 {
        tag = 1;
        body.push(Schema::I32);
        body.push(Schema::I32);
        body.push(tick_type_schema());
        body.push(Schema::Decimal);
        body.push(Schema::I32);
        body.push(Schema::I32);
    } else if k == 1 {
        tag = 2;
        body.push(Schema::I32);
        body.push(Schema::I32);
        body.push(tick_type_schema());
        body.push(Schema::I32);
    } else if k == 2 {
        tag = 3;
        body.push(Schema::I32);
        body.push(Schema::Text);
        body.push(Schema::Float);
        body.push(Schema::Float);
        body.push(Schema::Decimal);
        body.push(Schema::I32);
        body.push(Schema::I32);
        body.push(Schema::Decimal);
        body.push(Schema::I32);
        body.push(Schema::Text);
        body.push(Schema::Decimal);
    } else if k == 3 {
        tag = 4;
        body.push(Schema::I32);
        body.push(Schema::I32);
        body.push(Schema::I32);
        body.push(Schema::Text);
    } else if k == 4 {
        tag = 5;
        body.push(Schema::I32);
        body.push(order_contract_schema());
    } else if k == 5 {
        tag = 6;
        body.push(Schema::I32);
        body.push(Schema::Text);
        body.push(Schema::Text);
        body.push(Schema::Text);
        body.push(Schema::Text);
    } else if k == 6 {
        tag = 7;
    } else if k == 7 {
        tag = 8;
    } else if k == 8 {
        tag = 9;
        body.push(Schema::I32);
        body.push(Schema::I32);
    } else if k == 9 {
        tag = 10;
        body.push(Schema::I32);
        body.push(Schema::I32);
        body.push(Schema::Text);
        body.push(Schema::Text);
        body.push(Schema::Text);
        body.push(Schema::Decimal);
        body.push(Schema::Text);
        body.push(Schema::Text);
        body.push(Schema::Text);
        body.push(Schema::Text);
        body.push(Schema::Text);
        body.push(Schema::Text);
        body.push(Schema::I32);
        body.push(Schema::Decimal);
        body.push(Schema::I32);
        body.push(Schema::Text);
        body.push(Schema::Text);
        body.push(Schema::Text);
        body.push(Schema::I32);
        body.push(Schema::I32);
        body.push(Schema::Text);
        body.push(Schema::Text);
        body.push(Schema::Text);
        body.push(Schema::Text);
        body.push(Schema::Text);
        body.push(Schema::Text);
        body.push(Schema::Text);
        body.push(Schema::Text);
        body.push(Schema::Text);
        body.push(Schema::Text);
        body.push(Schema::Text);
        body.push(pair_list_schema());
        body.push(Schema::I32);
        body.push(Schema::Text);
        body.push(Schema::Text);
        body.push(Schema::Text);
        body.push(Schema::Text);
    } else if k == 10 {
        tag = 11;
    } else if k == 11 {
        tag = 12;
    } else if k == 12 {
        tag = 13;
    } else if k == 13 {
        tag = 14;
    } else if k == 14 {
        tag = 15;
        body.push(Schema::I32);
        body.push(Schema::Text);
    } else if k == 15 {
        tag = 16;
    } else if k == 16 {
        tag = 17;
        body.push(Schema::I32);
        body.push(Schema::Text);
        body.push(Schema::Text);
        body.push(Schema::List(Box::new(bar_schema())));
    } else if k == 17 {
        tag = 18;
    } else if k == 18 {
        tag = 19;
    } else if k == 19 {
        tag = 20;
    } else if k == 20 {
        tag = 21;
        body.push(Schema::I32);
        body.push(Schema::I32);
        body.push(tick_type_schema());
        body.push(Schema::Float);
        body.push(Schema::Float);
        body.push(Schema::Float);
        body.push(Schema::Float);
        body.push(Schema::Float);
        body.push(Schema::Float);
        body.push(Schema::Float);
        body.push(Schema::Float);
    } else if k == 21 {
        tag = 45;
        body.push(Schema::I32);
        body.push(Schema::I32);
        body.push(tick_type_schema());
        body.push(Schema::Float);
    } else if k == 22 {
        tag = 46;
        body.push(Schema::I32);
        body.push(Schema::I32);
        body.push(tick_type_schema());
        body.push(Schema::Text);
    } else if k == 23 {
        tag = 47;
        body.push(Schema::I32);
        body.push(tick_type_schema());
        body.push(Schema::Float);
        body.push(Schema::Text);
        body.push(Schema::Float);
        body.push(Schema::I32);
        body.push(Schema::Text);
        body.push(Schema::Float);
        body.push(Schema::Float);
    } else if k == 24 {
        tag = 49;
    } else if k == 25 {
        tag = 50;
    } else if k == 26 {
        tag = 51;
    } else if k == 27 {
        tag = 52;
    } else if k == 28 {
        tag = 53;
    } else if k == 29 {
        tag = 54;
    } else if k == 30 {
        tag = 55;
    } else if k == 31 {
        tag = 56;
    } else if k == 32 {
        tag = 57;
    } else if k == 33 {
        tag = 58;
        body.push(Schema::I32);
        body.push(Schema::I32);
        body.push(market_data_type_schema());
    } else if k == 34 {
        tag = 59;
        body.push(Schema::I32);
        body.push(Schema::Text);
        body.push(Schema::Float);
        body.push(Schema::Text);
        body.push(Schema::Float);
        body.push(Schema::Float);
        body.push(Schema::I32);
    } else if k == 35 {
        tag = 61;
    } else if k == 36 {
        tag = 62;
    } else if k == 37 {
        tag = 63;
    } else if k == 38 {
        tag = 64;
    } else if k == 39 {
        tag = 65;
    } else if k == 40 {
        tag = 66;
    } else if k == 41 {
        tag = 67;
    } else if k == 42 {
        tag = 68;
    } else if k == 43 {
        tag = 69;
    } else if k == 44 {
        tag = 70;
    } else if k == 45 {
        tag = 71;
    } else if k == 46 {
        tag = 72;
    } else if k == 47 {
        tag = 73;
    } else if k == 48 {
        tag = 74;
    } else if k == 49 {
        tag = 75;
        body.push(Schema::I32);
        body.push(Schema::Text);
        body.push(Schema::I32);
        body.push(Schema::Text);
        body.push(Schema::Text);
        body.push(Schema::List(Box::new(Schema::Text)));
        body.push(Schema::List(Box::new(Schema::Text)));
    } else if k == 50 {
        tag = 76;
        body.push(Schema::I32);
    } else if k == 51 {
        tag = 77;
    } else if k == 52 {
        tag = 78;
    } else if k == 53 {
        tag = 79;
    } else if k == 54 {
        tag = 80;
    } else if k == 55 {
        tag = 81;
        body.push(Schema::I32);
        body.push(Schema::Float);
        body.push(Schema::Text);
        body.push(Schema::Bool);
    } else if k == 56 {
        tag = 82;
    } else if k == 57 {
        tag = 83;
    } else if k == 58 {
        tag = 84;
    } else if k == 59 {
        tag = 85;
    } else if k == 60 {
        tag = 86;
    } else if k == 61 {
        tag = 87;
    } else if k == 62 {
        tag = 88;
    } else if k == 63 {
        tag = 89;
        body.push(Schema::I32);
        body.push(histogram_schema());
    } else if k == 64 {
        tag = 90;
        body.push(Schema::I32);
        body.push(bar_update_schema());
    } else if k == 65 {
        tag = 91;
    } else if k == 66 {
        tag = 92;
    } else if k == 67 {
        tag = 93;
    } else if k == 68 {
        tag = 94;
    } else if k == 69 {
        tag = 95;
    } else if k == 70 {
        tag = 96;
    } else if k == 71 {
        tag = 97;
    } else if k == 72 {
        tag = 98;
    } else if k == 73 {
        tag = 99;
    } else if k == 74 {
        tag = 100;
    } else if k == 75 {
        tag = 101;
    } else if k == 76 {
        tag = 102;
    } else {
        tag = 0;
    }
    let r = Variant { tag: decimal_tag_bytes(tag), body };
    proof {
        lemma_variant_view(r);
        reveal_with_fuel(Schema::view, 3);
        assert(r@.body =~= incoming_variant(k as int).body);
    }
    r
}

impl TWSIncommingMessageImpl {
    /// The message as the decoded union value it comes from.
    pub open spec fn value(&self) -> ValueV {
        match self {
            TWSIncommingMessageImpl::TickPrice {
                msg_version,
                req_id,
                tick_type,
                price,
                size,
                attrib,
            } => ValueV::Variant(0, seq![
                ValueV::Int(*msg_version as int),
                ValueV::Int(*req_id as int),
                tick_type.value(),
                ValueV::Decimal(price.bits),
                ValueV::Int(*size as int),
                ValueV::Int(*attrib as int),
            ]),
            TWSIncommingMessageImpl::TickSize {
                msg_version,
                req_id,
                tick_type,
                size,
            } => ValueV::Variant(1, seq![
                ValueV::Int(*msg_version as int),
                ValueV::Int(*req_id as int),
                tick_type.value(),
                ValueV::Int(*size as int),
            ]),
            TWSIncommingMessageImpl::OrderStatus {
                id,
                status,
                filled_amount,
                remaining_amount,
                avg_fill_price,
                perm_id,
                parent_id,
                last_fill_price,
                client_id,
                why_held,
                market_cap_price,
            } => ValueV::Variant(2, seq![
                ValueV::Int(*id as int),
                ValueV::Text(status@),
                ValueV::Float(filled_amount@),
                ValueV::Float(remaining_amount@),
                ValueV::Decimal(avg_fill_price.bits),
                ValueV::Int(*perm_id as int),
                ValueV::Int(*parent_id as int),
                ValueV::Decimal(last_fill_price.bits),
                ValueV::Int(*client_id as int),
                ValueV::Text(why_held@),
                ValueV::Decimal(market_cap_price.bits),
            ]),
            TWSIncommingMessageImpl::Error {
                msg_version,
                req_id,
                code,
                msg,
            } => ValueV::Variant(3, seq![
                ValueV::Int(*msg_version as int),
                ValueV::Int(*req_id as int),
                ValueV::Int(*code as int),
                ValueV::Text(msg@),
            ]),
            TWSIncommingMessageImpl::OpenOrder { order_id, contract } => ValueV::Variant(4, seq![
                ValueV::Int(*order_id as int),
                contract.value(),
            ]),
            TWSIncommingMessageImpl::AccountValue {
                msg_version,
                key,
                value,
                currency,
                account_name,
            } => ValueV::Variant(5, seq![
                ValueV::Int(*msg_version as int),
                ValueV::Text(key@),
                ValueV::Text(value@),
                ValueV::Text(currency@),
                ValueV::Text(account_name@),
            ]),
            TWSIncommingMessageImpl::PortfolioValue => ValueV::Variant(6, Seq::empty()),
            TWSIncommingMessageImpl::AccountUpdateTime => ValueV::Variant(7, Seq::empty()),
            TWSIncommingMessageImpl::NextValidId {
                msg_version,
                order_id,
            } => ValueV::Variant(8, seq![
                ValueV::Int(*msg_version as int),
                ValueV::Int(*order_id as int),
            ]),
            TWSIncommingMessageImpl::ContractData {
                msg_version,
                req_id,
                symbol,
                sec_type,
                last_trade_date_or_contract_month,
                strike,
                right,
                exchange,
                currency,
                local_symbol,
                market_name,
                trading_class,
                con_id,
                min_tick,
                md_size_multiplier,
                multiplier,
                order_types,
                valid_exchanges,
                price_magnifier,
                under_con_id,
                long_name,
                primary_exchange,
                contract_month,
                industry,
                category,
                subcategory,
                time_zone_id,
                trading_hours,
                liquid_hours,
                ev_rule,
                ev_multiplier,
                sec_id_list,
                agg_group,
                under_symbol,
                under_sec_type,
                market_rule_ids,
                real_expiration_date,
            } => ValueV::Variant(9, seq![
                ValueV::Int(*msg_version as int),
                ValueV::Int(*req_id as int),
                ValueV::Text(symbol@),
                ValueV::Text(sec_type@),
                ValueV::Text(last_trade_date_or_contract_month@),
                ValueV::Decimal(strike.bits),
                ValueV::Text(right@),
                ValueV::Text(exchange@),
                ValueV::Text(currency@),
                ValueV::Text(local_symbol@),
                ValueV::Text(market_name@),
                ValueV::Text(trading_class@),
                ValueV::Int(*con_id as int),
                ValueV::Decimal(min_tick.bits),
                ValueV::Int(*md_size_multiplier as int),
                ValueV::Text(multiplier@),
                ValueV::Text(order_types@),
                ValueV::Text(valid_exchanges@),
                ValueV::Int(*price_magnifier as int),
                ValueV::Int(*under_con_id as int),
                ValueV::Text(long_name@),
                ValueV::Text(primary_exchange@),
                ValueV::Text(contract_month@),
                ValueV::Text(industry@),
                ValueV::Text(category@),
                ValueV::Text(subcategory@),
                ValueV::Text(time_zone_id@),
                ValueV::Text(trading_hours@),
                ValueV::Text(liquid_hours@),
                ValueV::Text(ev_rule@),
                ValueV::Text(ev_multiplier@),
                ValueV::List(pairs_value(sec_id_list@)),
                ValueV::Int(*agg_group as int),
                ValueV::Text(under_symbol@),
                ValueV::Text(under_sec_type@),
                ValueV::Text(market_rule_ids@),
                ValueV::Text(real_expiration_date@),
            ]),
            TWSIncommingMessageImpl::ExecutionData => ValueV::Variant(10, Seq::empty()),
            TWSIncommingMessageImpl::MarketDepth => ValueV::Variant(11, Seq::empty()),
            TWSIncommingMessageImpl::MarketDepthL2 => ValueV::Variant(12, Seq::empty()),
            TWSIncommingMessageImpl::NewsBulletins => ValueV::Variant(13, Seq::empty()),
            TWSIncommingMessageImpl::ManagedAccounts {
                msg_version,
                account_list,
            } => ValueV::Variant(14, seq![
                ValueV::Int(*msg_version as int),
                ValueV::Text(account_list@),
            ]),
            TWSIncommingMessageImpl::ReceiveFA => ValueV::Variant(15, Seq::empty()),
            TWSIncommingMessageImpl::HistoricalData {
                req_id,
                start_date,
                end_date,
                bars,
            } => ValueV::Variant(16, seq![
                ValueV::Int(*req_id as int),
                ValueV::Text(start_date@),
                ValueV::Text(end_date@),
                ValueV::List(bars_value(bars@)),
            ]),
            TWSIncommingMessageImpl::BondContractData => ValueV::Variant(17, Seq::empty()),
            TWSIncommingMessageImpl::ScannerParameters => ValueV::Variant(18, Seq::empty()),
            TWSIncommingMessageImpl::ScannerData => ValueV::Variant(19, Seq::empty()),
            TWSIncommingMessageImpl::TickOptionComputation {
                msg_version,
                req_id,
                tick_type,
                implied_vol,
                delta,
                price,
                present_value_dividend,
                gamma,
                vega,
                theta,
                underlying_price,
            } => ValueV::Variant(20, seq![
                ValueV::Int(*msg_version as int),
                ValueV::Int(*req_id as int),
                tick_type.value(),
                ValueV::Float(implied_vol@),
                ValueV::Float(delta@),
                ValueV::Float(price@),
                ValueV::Float(present_value_dividend@),
                ValueV::Float(gamma@),
                ValueV::Float(vega@),
                ValueV::Float(theta@),
                ValueV::Float(underlying_price@),
            ]),
            TWSIncommingMessageImpl::TickGeneric {
                msg_version,
                req_id,
                tick_type,
                value,
            } => ValueV::Variant(21, seq![
                ValueV::Int(*msg_version as int),
                ValueV::Int(*req_id as int),
                tick_type.value(),
                ValueV::Float(value@),
            ]),
            TWSIncommingMessageImpl::TickString {
                msg_version,
                req_id,
                tick_type,
                value,
            } => ValueV::Variant(22, seq![
                ValueV::Int(*msg_version as int),
                ValueV::Int(*req_id as int),
                tick_type.value(),
                ValueV::Text(value@),
            ]),
            TWSIncommingMessageImpl::TickEFP {
                req_id,
                tick_type,
                basis_points,
                formatted_basis_points,
                implied_future,
                hold_days,
                future_last_trade_date,
                dividend_impact,
                dividends_to_last_trade_date,
            } => ValueV::Variant(23, seq![
                ValueV::Int(*req_id as int),
                tick_type.value(),
                ValueV::Float(basis_points@),
                ValueV::Text(formatted_basis_points@),
                ValueV::Float(implied_future@),
                ValueV::Int(*hold_days as int),
                ValueV::Text(future_last_trade_date@),
                ValueV::Float(dividend_impact@),
                ValueV::Float(dividends_to_last_trade_date@),
            ]),
            TWSIncommingMessageImpl::CurrentTime => ValueV::Variant(24, Seq::empty()),
            TWSIncommingMessageImpl::RealTimeBars => ValueV::Variant(25, Seq::empty()),
            TWSIncommingMessageImpl::FundamentalData => ValueV::Variant(26, Seq::empty()),
            TWSIncommingMessageImpl::ContractDataEnd => ValueV::Variant(27, Seq::empty()),
            TWSIncommingMessageImpl::OpenOrderEnd => ValueV::Variant(28, Seq::empty()),
            TWSIncommingMessageImpl::AccountDownloadEnd => ValueV::Variant(29, Seq::empty()),
            TWSIncommingMessageImpl::ExecutionDataEnd => ValueV::Variant(30, Seq::empty()),
            TWSIncommingMessageImpl::DeltaNeutralValidation => ValueV::Variant(31, Seq::empty()),
            TWSIncommingMessageImpl::TickSnapshotEnd => ValueV::Variant(32, Seq::empty()),
            TWSIncommingMessageImpl::MarketDataType {
                msg_version,
                req_id,
                data_type,
            } => ValueV::Variant(33, seq![
                ValueV::Int(*msg_version as int),
                ValueV::Int(*req_id as int),
                data_type.value(),
            ]),
            TWSIncommingMessageImpl::CommissionsReport {
                msg_version,
                exec_id,
                commission,
                currency,
                realized_pnl,
                yield_,
                yield_redemption_date,
            } => ValueV::Variant(34, seq![
                ValueV::Int(*msg_version as int),
                ValueV::Text(exec_id@),
                ValueV::Float(commission@),
                ValueV::Text(currency@),
                ValueV::Float(realized_pnl@),
                ValueV::Float(yield_@),
                ValueV::Int(*yield_redemption_date as int),
            ]),
            TWSIncommingMessageImpl::Position => ValueV::Variant(35, Seq::empty()),
            TWSIncommingMessageImpl::PositionEnd => ValueV::Variant(36, Seq::empty()),
            TWSIncommingMessageImpl::AccountSummary => ValueV::Variant(37, Seq::empty()),
            TWSIncommingMessageImpl::AccountSummaryEnd => ValueV::Variant(38, Seq::empty()),
            TWSIncommingMessageImpl::VerifyMessageApi => ValueV::Variant(39, Seq::empty()),
            TWSIncommingMessageImpl::VerifyCompleted => ValueV::Variant(40, Seq::empty()),
            TWSIncommingMessageImpl::DisplayGroupList => ValueV::Variant(41, Seq::empty()),
            TWSIncommingMessageImpl::DisplayGroupUpdated => ValueV::Variant(42, Seq::empty()),
            TWSIncommingMessageImpl::VerifyAndAuthMessageApi => ValueV::Variant(43, Seq::empty()),
            TWSIncommingMessageImpl::VerifyAndAuthCompleted => ValueV::Variant(44, Seq::empty()),
            TWSIncommingMessageImpl::PositionMulti => ValueV::Variant(45, Seq::empty()),
            TWSIncommingMessageImpl::PositionMultiEnd => ValueV::Variant(46, Seq::empty()),
            TWSIncommingMessageImpl::AccountUpdateMulti => ValueV::Variant(47, Seq::empty()),
            TWSIncommingMessageImpl::AccountUpdateMultiEnd => ValueV::Variant(48, Seq::empty()),
            TWSIncommingMessageImpl::SecurityDefinitionOptionParameter {
                req_id,
                exchange,
                underlying_con_id,
                trading_class,
                multiplier,
                expirations,
                strikes,
            } => ValueV::Variant(49, seq![
                ValueV::Int(*req_id as int),
                ValueV::Text(exchange@),
                ValueV::Int(*underlying_con_id as int),
                ValueV::Text(trading_class@),
                ValueV::Text(multiplier@),
                ValueV::List(texts_value(expirations@)),
                ValueV::List(texts_value(strikes@)),
            ]),
            TWSIncommingMessageImpl::SecurityDefinitionOptionParameterEnd {
                req_id,
            } => ValueV::Variant(50, seq![ValueV::Int(*req_id as int)]),
            TWSIncommingMessageImpl::SoftDollarTier => ValueV::Variant(51, Seq::empty()),
            TWSIncommingMessageImpl::FamilyCodes => ValueV::Variant(52, Seq::empty()),
            TWSIncommingMessageImpl::SymbolSamples => ValueV::Variant(53, Seq::empty()),
            TWSIncommingMessageImpl::MktDepthExchanges => ValueV::Variant(54, Seq::empty()),
            TWSIncommingMessageImpl::TickReqParams {
                req_id,
                min_tick,
                bbo_exchange,
                snapshot_permssion,
            } => ValueV::Variant(55, seq![
                ValueV::Int(*req_id as int),
                ValueV::Float(min_tick@),
                ValueV::Text(bbo_exchange@),
                ValueV::Bool(*snapshot_permssion),
            ]),
            TWSIncommingMessageImpl::SmartComponents => ValueV::Variant(56, Seq::empty()),
            TWSIncommingMessageImpl::NewsArticle => ValueV::Variant(57, Seq::empty()),
            TWSIncommingMessageImpl::TickNews => ValueV::Variant(58, Seq::empty()),
            TWSIncommingMessageImpl::NewsProviders => ValueV::Variant(59, Seq::empty()),
            TWSIncommingMessageImpl::HistoricalNews => ValueV::Variant(60, Seq::empty()),
            TWSIncommingMessageImpl::HistoricalNewsEnd => ValueV::Variant(61, Seq::empty()),
            TWSIncommingMessageImpl::HeadTimestamp => ValueV::Variant(62, Seq::empty()),
            TWSIncommingMessageImpl::HistogramData { req_id, data } => ValueV::Variant(63, seq![
                ValueV::Int(*req_id as int),
                ValueV::List(histogram_value(data@)),
            ]),
            TWSIncommingMessageImpl::HistoricalDataUpdate {
                req_id,
                bar,
            } => ValueV::Variant(64, seq![
                ValueV::Int(*req_id as int),
                bar.update_value(),
            ]),
            TWSIncommingMessageImpl::RerouteMktDataReq => ValueV::Variant(65, Seq::empty()),
            TWSIncommingMessageImpl::RerouteMktDepthReq => ValueV::Variant(66, Seq::empty()),
            TWSIncommingMessageImpl::MarketRule => ValueV::Variant(67, Seq::empty()),
            TWSIncommingMessageImpl::PnL => ValueV::Variant(68, Seq::empty()),
            TWSIncommingMessageImpl::PnLSingle => ValueV::Variant(69, Seq::empty()),
            TWSIncommingMessageImpl::HistoricalTick => ValueV::Variant(70, Seq::empty()),
            TWSIncommingMessageImpl::HistoricalTickBidAsk => ValueV::Variant(71, Seq::empty()),
            TWSIncommingMessageImpl::HistoricalTickLast => ValueV::Variant(72, Seq::empty()),
            TWSIncommingMessageImpl::TickByTick => ValueV::Variant(73, Seq::empty()),
            TWSIncommingMessageImpl::OrderBound => ValueV::Variant(74, Seq::empty()),
            TWSIncommingMessageImpl::CompletedOrder => ValueV::Variant(75, Seq::empty()),
            TWSIncommingMessageImpl::CompletedOrdersEnd => ValueV::Variant(76, Seq::empty()),
        }
    }

    /// The correlation identifier, for the kinds that carry one.
    pub open spec fn req_id_spec(&self) -> Option<i32> {
        match self {
            TWSIncommingMessageImpl::TickPrice { req_id, .. } => Some(*req_id),
            TWSIncommingMessageImpl::TickSize { req_id, .. } => Some(*req_id),
            TWSIncommingMessageImpl::Error { req_id, .. } => Some(*req_id),
            TWSIncommingMessageImpl::ContractData { req_id, .. } => Some(*req_id),
            TWSIncommingMessageImpl::HistoricalData { req_id, .. } => Some(*req_id),
            TWSIncommingMessageImpl::TickOptionComputation { req_id, .. } => Some(*req_id),
            TWSIncommingMessageImpl::TickGeneric { req_id, .. } => Some(*req_id),
            TWSIncommingMessageImpl::TickString { req_id, .. } => Some(*req_id),
            TWSIncommingMessageImpl::TickEFP { req_id, .. } => Some(*req_id),
            TWSIncommingMessageImpl::MarketDataType { req_id, .. } => Some(*req_id),
            TWSIncommingMessageImpl::SecurityDefinitionOptionParameter {
                req_id,
                ..
            } => Some(*req_id),
            TWSIncommingMessageImpl::SecurityDefinitionOptionParameterEnd {
                req_id,
                ..
            } => Some(*req_id),
            TWSIncommingMessageImpl::TickReqParams { req_id, .. } => Some(*req_id),
            TWSIncommingMessageImpl::HistogramData { req_id, .. } => Some(*req_id),
            TWSIncommingMessageImpl::HistoricalDataUpdate { req_id, .. } => Some(*req_id),
            _ => None,
        }
    }

    /// The correlation identifier, for the kinds that carry one.
    pub fn get_req_id(&self) -> (r: Option<i32>)
        ensures
            r == self.req_id_spec(),
    {
        match self {
            TWSIncommingMessageImpl::TickPrice { req_id, .. } => Some(*req_id),
            TWSIncommingMessageImpl::TickSize { req_id, .. } => Some(*req_id),
            TWSIncommingMessageImpl::Error { req_id, .. } => Some(*req_id),
            TWSIncommingMessageImpl::ContractData { req_id, .. } => Some(*req_id),
            TWSIncommingMessageImpl::HistoricalData { req_id, .. } => Some(*req_id),
            TWSIncommingMessageImpl::TickOptionComputation { req_id, .. } => Some(*req_id),
            TWSIncommingMessageImpl::TickGeneric { req_id, .. } => Some(*req_id),
            TWSIncommingMessageImpl::TickString { req_id, .. } => Some(*req_id),
            TWSIncommingMessageImpl::TickEFP { req_id, .. } => Some(*req_id),
            TWSIncommingMessageImpl::MarketDataType { req_id, .. } => Some(*req_id),
            TWSIncommingMessageImpl::SecurityDefinitionOptionParameter {
                req_id,
                ..
            } => Some(*req_id),
            TWSIncommingMessageImpl::SecurityDefinitionOptionParameterEnd {
                req_id,
                ..
            } => Some(*req_id),
            TWSIncommingMessageImpl::TickReqParams { req_id, .. } => Some(*req_id),
            TWSIncommingMessageImpl::HistogramData { req_id, .. } => Some(*req_id),
            TWSIncommingMessageImpl::HistoricalDataUpdate { req_id, .. } => Some(*req_id),
            _ => None,
        }
    }

    /// The message that a value decoded with the incoming schema stands for.
    #[verifier::spinoff_prover]
    #[verifier::rlimit(100)]
    pub fn from_value(v: &Value) -> (r: TWSIncommingMessageImpl)
        requires
            conforms(v@, incoming_schema_v()),
        ensures
            r.value() == v@,
    {
        let (k, xs) = match v {
            Value::Variant(k, xs) => (*k, xs),
            _ => {
                return TWSIncommingMessageImpl::CompletedOrdersEnd;
            },
        };
        proof {
            lemma_composite_views(*xs, k);
            lemma_union_members(v@, incoming_schema_v()->Union_0);
            assert(incoming_schema_v()->Union_0[k as int] == incoming_variant(k as int));
        }
        if k == 0 {
            assert forall|i: int| 0 <= i < xs@.len() implies conforms(#[trigger] xs@[i]@, incoming_variant(0).body[i]) by {
                assert(views(xs@)[i] == xs@[i]@);
            }
            Self::from_members_0(xs)
        } else if k == 1 {
            assert forall|i: int| 0 <= i < xs@.len() implies conforms(#[trigger] xs@[i]@, incoming_variant(1).body[i]) by {
                assert(views(xs@)[i] == xs@[i]@);
            }
            Self::from_members_1(xs)
        } else if k == 2 {
            assert forall|i: int| 0 <= i < xs@.len() implies conforms(#[trigger] xs@[i]@, incoming_variant(2).body[i]) by {
                assert(views(xs@)[i] == xs@[i]@);
            }
            Self::from_members_2(xs)
        } else if k == 3 {
            assert forall|i: int| 0 <= i < xs@.len() implies conforms(#[trigger] xs@[i]@, incoming_variant(3).body[i]) by {
                assert(views(xs@)[i] == xs@[i]@);
            }
            Self::from_members_3(xs)
        } else if k == 4 {
            assert forall|i: int| 0 <= i < xs@.len() implies conforms(#[trigger] xs@[i]@, incoming_variant(4).body[i]) by {
                assert(views(xs@)[i] == xs@[i]@);
            }
            Self::from_members_4(xs)
        } else if k == 5 {
            assert forall|i: int| 0 <= i < xs@.len() implies conforms(#[trigger] xs@[i]@, incoming_variant(5).body[i]) by {
                assert(views(xs@)[i] == xs@[i]@);
            }
            Self::from_members_5(xs)
        } else if k == 6 {
            assert(views(xs@) =~= Seq::<ValueV>::empty());
            TWSIncommingMessageImpl::PortfolioValue
        } else if k == 7 {
            assert(views(xs@) =~= Seq::<ValueV>::empty());
            TWSIncommingMessageImpl::AccountUpdateTime
        } else if k == 8 {
            assert forall|i: int| 0 <= i < xs@.len() implies conforms(#[trigger] xs@[i]@, incoming_variant(8).body[i]) by {
                assert(views(xs@)[i] == xs@[i]@);
            }
            Self::from_members_8(xs)
        } else if k == 9 {
            assert forall|i: int| 0 <= i < xs@.len() implies conforms(#[trigger] xs@[i]@, incoming_variant(9).body[i]) by {
                assert(views(xs@)[i] == xs@[i]@);
            }
            Self::from_members_9(xs)
        } else if k == 10 {
            assert(views(xs@) =~= Seq::<ValueV>::empty());
            TWSIncommingMessageImpl::ExecutionData
        } else if k == 11 {
            assert(views(xs@) =~= Seq::<ValueV>::empty());
            TWSIncommingMessageImpl::MarketDepth
        } else if k == 12 {
            assert(views(xs@) =~= Seq::<ValueV>::empty());
            TWSIncommingMessageImpl::MarketDepthL2
        } else if k == 13 {
            assert(views(xs@) =~= Seq::<ValueV>::empty());
            TWSIncommingMessageImpl::NewsBulletins
        } else if k == 14 {
            assert forall|i: int| 0 <= i < xs@.len() implies conforms(#[trigger] xs@[i]@, incoming_variant(14).body[i]) by {
                assert(views(xs@)[i] == xs@[i]@);
            }
            Self::from_members_14(xs)
        } else if k == 15 {
            assert(views(xs@) =~= Seq::<ValueV>::empty());
            TWSIncommingMessageImpl::ReceiveFA
        } else if k == 16 {
            assert forall|i: int| 0 <= i < xs@.len() implies conforms(#[trigger] xs@[i]@, incoming_variant(16).body[i]) by {
                assert(views(xs@)[i] == xs@[i]@);
            }
            Self::from_members_16(xs)
        } else if k == 17 {
            assert(views(xs@) =~= Seq::<ValueV>::empty());
            TWSIncommingMessageImpl::BondContractData
        } else if k == 18 {
            assert(views(xs@) =~= Seq::<ValueV>::empty());
            TWSIncommingMessageImpl::ScannerParameters
        } else if k == 19 {
            assert(views(xs@) =~= Seq::<ValueV>::empty());
            TWSIncommingMessageImpl::ScannerData
        } else if k == 20 {
            assert forall|i: int| 0 <= i < xs@.len() implies conforms(#[trigger] xs@[i]@, incoming_variant(20).body[i]) by {
                assert(views(xs@)[i] == xs@[i]@);
            }
            Self::from_members_20(xs)
        } else if k == 21 {
            assert forall|i: int| 0 <= i < xs@.len() implies conforms(#[trigger] xs@[i]@, incoming_variant(21).body[i]) by {
                assert(views(xs@)[i] == xs@[i]@);
            }
            Self::from_members_21(xs)
        } else if k == 22 {
            assert forall|i: int| 0 <= i < xs@.len() implies conforms(#[trigger] xs@[i]@, incoming_variant(22).body[i]) by {
                assert(views(xs@)[i] == xs@[i]@);
            }
            Self::from_members_22(xs)
        } else if k == 23 {
            assert forall|i: int| 0 <= i < xs@.len() implies conforms(#[trigger] xs@[i]@, incoming_variant(23).body[i]) by {
                assert(views(xs@)[i] == xs@[i]@);
            }
            Self::from_members_23(xs)
        } else if k == 24 {
            assert(views(xs@) =~= Seq::<ValueV>::empty());
            TWSIncommingMessageImpl::CurrentTime
        } else if k == 25 {
            assert(views(xs@) =~= Seq::<ValueV>::empty());
            TWSIncommingMessageImpl::RealTimeBars
        } else if k == 26 {
            assert(views(xs@) =~= Seq::<ValueV>::empty());
            TWSIncommingMessageImpl::FundamentalData
        } else if k == 27 {
            assert(views(xs@) =~= Seq::<ValueV>::empty());
            TWSIncommingMessageImpl::ContractDataEnd
        } else if k == 28 {
            assert(views(xs@) =~= Seq::<ValueV>::empty());
            TWSIncommingMessageImpl::OpenOrderEnd
        } else if k == 29 {
            assert(views(xs@) =~= Seq::<ValueV>::empty());
            TWSIncommingMessageImpl::AccountDownloadEnd
        } else if k == 30 {
            assert(views(xs@) =~= Seq::<ValueV>::empty());
            TWSIncommingMessageImpl::ExecutionDataEnd
        } else if k == 31 {
            assert(views(xs@) =~= Seq::<ValueV>::empty());
            TWSIncommingMessageImpl::DeltaNeutralValidation
        } else if k == 32 {
            assert(views(xs@) =~= Seq::<ValueV>::empty());
            TWSIncommingMessageImpl::TickSnapshotEnd
        } else if k == 33 {
            assert forall|i: int| 0 <= i < xs@.len() implies conforms(#[trigger] xs@[i]@, incoming_variant(33).body[i]) by {
                assert(views(xs@)[i] == xs@[i]@);
            }
            Self::from_members_33(xs)
        } else if k == 34 {
            assert forall|i: int| 0 <= i < xs@.len() implies conforms(#[trigger] xs@[i]@, incoming_variant(34).body[i]) by {
                assert(views(xs@)[i] == xs@[i]@);
            }
            Self::from_members_34(xs)
        } else if k == 35 {
            assert(views(xs@) =~= Seq::<ValueV>::empty());
            TWSIncommingMessageImpl::Position
        } else if k == 36 {
            assert(views(xs@) =~= Seq::<ValueV>::empty());
            TWSIncommingMessageImpl::PositionEnd
        } else if k == 37 {
            assert(views(xs@) =~= Seq::<ValueV>::empty());
            TWSIncommingMessageImpl::AccountSummary
        } else if k == 38 {
            assert(views(xs@) =~= Seq::<ValueV>::empty());
            TWSIncommingMessageImpl::AccountSummaryEnd
        } else if k == 39 {
            assert(views(xs@) =~= Seq::<ValueV>::empty());
            TWSIncommingMessageImpl::VerifyMessageApi
        } else if k == 40 {
            assert(views(xs@) =~= Seq::<ValueV>::empty());
            TWSIncommingMessageImpl::VerifyCompleted
        } else if k == 41 {
            assert(views(xs@) =~= Seq::<ValueV>::empty());
            TWSIncommingMessageImpl::DisplayGroupList
        } else if k == 42 {
            assert(views(xs@) =~= Seq::<ValueV>::empty());
            TWSIncommingMessageImpl::DisplayGroupUpdated
        } else if k == 43 {
            assert(views(xs@) =~= Seq::<ValueV>::empty());
            TWSIncommingMessageImpl::VerifyAndAuthMessageApi
        } else if k == 44 {
            assert(views(xs@) =~= Seq::<ValueV>::empty());
            TWSIncommingMessageImpl::VerifyAndAuthCompleted
        } else if k == 45 {
            assert(views(xs@) =~= Seq::<ValueV>::empty());
            TWSIncommingMessageImpl::PositionMulti
        } else if k == 46 {
            assert(views(xs@) =~= Seq::<ValueV>::empty());
            TWSIncommingMessageImpl::PositionMultiEnd
        } else if k == 47 {
            assert(views(xs@) =~= Seq::<ValueV>::empty());
            TWSIncommingMessageImpl::AccountUpdateMulti
        } else if k == 48 {
            assert(views(xs@) =~= Seq::<ValueV>::empty());
            TWSIncommingMessageImpl::AccountUpdateMultiEnd
        } else if k == 49 {
            assert forall|i: int| 0 <= i < xs@.len() implies conforms(#[trigger] xs@[i]@, incoming_variant(49).body[i]) by {
                assert(views(xs@)[i] == xs@[i]@);
            }
            Self::from_members_49(xs)
        } else if k == 50 {
            assert forall|i: int| 0 <= i < xs@.len() implies conforms(#[trigger] xs@[i]@, incoming_variant(50).body[i]) by {
                assert(views(xs@)[i] == xs@[i]@);
            }
            Self::from_members_50(xs)
        } else if k == 51 {
            assert(views(xs@) =~= Seq::<ValueV>::empty());
            TWSIncommingMessageImpl::SoftDollarTier
        } else if k == 52 {
            assert(views(xs@) =~= Seq::<ValueV>::empty());
            TWSIncommingMessageImpl::FamilyCodes
        } else if k == 53 {
            assert(views(xs@) =~= Seq::<ValueV>::empty());
            TWSIncommingMessageImpl::SymbolSamples
        } else if k == 54 {
            assert(views(xs@) =~= Seq::<ValueV>::empty());
            TWSIncommingMessageImpl::MktDepthExchanges
        } else if k == 55 {
            assert forall|i: int| 0 <= i < xs@.len() implies conforms(#[trigger] xs@[i]@, incoming_variant(55).body[i]) by {
                assert(views(xs@)[i] == xs@[i]@);
            }
            Self::from_members_55(xs)
        } else if k == 56 {
            assert(views(xs@) =~= Seq::<ValueV>::empty());
            TWSIncommingMessageImpl::SmartComponents
        } else if k == 57 {
            assert(views(xs@) =~= Seq::<ValueV>::empty());
            TWSIncommingMessageImpl::NewsArticle
        } else if k == 58 {
            assert(views(xs@) =~= Seq::<ValueV>::empty());
            TWSIncommingMessageImpl::TickNews
        } else if k == 59 {
            assert(views(xs@) =~= Seq::<ValueV>::empty());
            TWSIncommingMessageImpl::NewsProviders
        } else if k == 60 {
            assert(views(xs@) =~= Seq::<ValueV>::empty());
            TWSIncommingMessageImpl::HistoricalNews
        } else if k == 61 {
            assert(views(xs@) =~= Seq::<ValueV>::empty());
            TWSIncommingMessageImpl::HistoricalNewsEnd
        } else if k == 62 {
            assert(views(xs@) =~= Seq::<ValueV>::empty());
            TWSIncommingMessageImpl::HeadTimestamp
        } else if k == 63 {
            assert forall|i: int| 0 <= i < xs@.len() implies conforms(#[trigger] xs@[i]@, incoming_variant(63).body[i]) by {
                assert(views(xs@)[i] == xs@[i]@);
            }
            Self::from_members_63(xs)
        } else if k == 64 {
            assert forall|i: int| 0 <= i < xs@.len() implies conforms(#[trigger] xs@[i]@, incoming_variant(64).body[i]) by {
                assert(views(xs@)[i] == xs@[i]@);
            }
            Self::from_members_64(xs)
        } else if k == 65 {
            assert(views(xs@) =~= Seq::<ValueV>::empty());
            TWSIncommingMessageImpl::RerouteMktDataReq
        } else if k == 66 {
            assert(views(xs@) =~= Seq::<ValueV>::empty());
            TWSIncommingMessageImpl::RerouteMktDepthReq
        } else if k == 67 {
            assert(views(xs@) =~= Seq::<ValueV>::empty());
            TWSIncommingMessageImpl::MarketRule
        } else if k == 68 {
            assert(views(xs@) =~= Seq::<ValueV>::empty());
            TWSIncommingMessageImpl::PnL
        } else if k == 69 {
            assert(views(xs@) =~= Seq::<ValueV>::empty());
            TWSIncommingMessageImpl::PnLSingle
        } else if k == 70 {
            assert(views(xs@) =~= Seq::<ValueV>::empty());
            TWSIncommingMessageImpl::HistoricalTick
        } else if k == 71 {
            assert(views(xs@) =~= Seq::<ValueV>::empty());
            TWSIncommingMessageImpl::HistoricalTickBidAsk
        } else if k == 72 {
            assert(views(xs@) =~= Seq::<ValueV>::empty());
            TWSIncommingMessageImpl::HistoricalTickLast
        } else if k == 73 {
            assert(views(xs@) =~= Seq::<ValueV>::empty());
            TWSIncommingMessageImpl::TickByTick
        } else if k == 74 {
            assert(views(xs@) =~= Seq::<ValueV>::empty());
            TWSIncommingMessageImpl::OrderBound
        } else if k == 75 {
            assert(views(xs@) =~= Seq::<ValueV>::empty());
            TWSIncommingMessageImpl::CompletedOrder
        } else if k == 76 {
            assert(views(xs@) =~= Seq::<ValueV>::empty());
            TWSIncommingMessageImpl::CompletedOrdersEnd
        } else {
            TWSIncommingMessageImpl::CompletedOrdersEnd
        }
    }

    fn from_members_0(xs: &Vec<Value>) -> (r: TWSIncommingMessageImpl)
        requires
            xs@.len() == incoming_variant(0).body.len(),
            forall|i: int| 0 <= i < xs@.len() ==> conforms(#[trigger] xs@[i]@, incoming_variant(0).body[i]),
        ensures
            r.value() == ValueV::Variant(0, views(xs@)),
    {
        let msg_version = i32_of(&xs[0]);
        let req_id = i32_of(&xs[1]);
        let tick_type = tick_type_of(&xs[2]);
        let price = decimal_of(&xs[3]);
        let size = i32_of(&xs[4]);
        let attrib = i32_of(&xs[5]);
        let r = TWSIncommingMessageImpl::TickPrice {
            msg_version,
            req_id,
            tick_type,
            price,
            size,
            attrib,
        };
        proof {
            assert(views(xs@) =~= seq![
                ValueV::Int(msg_version as int),
                ValueV::Int(req_id as int),
                tick_type.value(),
                ValueV::Decimal(price.bits),
                ValueV::Int(size as int),
                ValueV::Int(attrib as int),
            ]);
        }
        r
    }

    fn from_members_1(xs: &Vec<Value>) -> (r: TWSIncommingMessageImpl)
        requires
            xs@.len() == incoming_variant(1).body.len(),
            forall|i: int| 0 <= i < xs@.len() ==> conforms(#[trigger] xs@[i]@, incoming_variant(1).body[i]),
        ensures
            r.value() == ValueV::Variant(1, views(xs@)),
    {
        let msg_version = i32_of(&xs[0]);
        let req_id = i32_of(&xs[1]);
        let tick_type = tick_type_of(&xs[2]);
        let size = i32_of(&xs[3]);
        let r = TWSIncommingMessageImpl::TickSize { msg_version, req_id, tick_type, size };
        proof {
            assert(views(xs@) =~= seq![
                ValueV::Int(msg_version as int),
                ValueV::Int(req_id as int),
                tick_type.value(),
                ValueV::Int(size as int),
            ]);
        }
        r
    }

    fn from_members_2(xs: &Vec<Value>) -> (r: TWSIncommingMessageImpl)
        requires
            xs@.len() == incoming_variant(2).body.len(),
            forall|i: int| 0 <= i < xs@.len() ==> conforms(#[trigger] xs@[i]@, incoming_variant(2).body[i]),
        ensures
            r.value() == ValueV::Variant(2, views(xs@)),
    {
        let id = i32_of(&xs[0]);
        let status = text_of(&xs[1]);
        let filled_amount = float_of(&xs[2]);
        let remaining_amount = float_of(&xs[3]);
        let avg_fill_price = decimal_of(&xs[4]);
        let perm_id = i32_of(&xs[5]);
        let parent_id = i32_of(&xs[6]);
        let last_fill_price = decimal_of(&xs[7]);
        let client_id = i32_of(&xs[8]);
        let why_held = text_of(&xs[9]);
        let market_cap_price = decimal_of(&xs[10]);
        let r = TWSIncommingMessageImpl::OrderStatus {
            id,
            status,
            filled_amount,
            remaining_amount,
            avg_fill_price,
            perm_id,
            parent_id,
            last_fill_price,
            client_id,
            why_held,
            market_cap_price,
        };
        proof {
            assert(views(xs@) =~= seq![
                ValueV::Int(id as int),
                ValueV::Text(status@),
                ValueV::Float(filled_amount@),
                ValueV::Float(remaining_amount@),
                ValueV::Decimal(avg_fill_price.bits),
                ValueV::Int(perm_id as int),
                ValueV::Int(parent_id as int),
                ValueV::Decimal(last_fill_price.bits),
                ValueV::Int(client_id as int),
                ValueV::Text(why_held@),
                ValueV::Decimal(market_cap_price.bits),
            ]);
        }
        r
    }

    fn from_members_3(xs: &Vec<Value>) -> (r: TWSIncommingMessageImpl)
        requires
            xs@.len() == incoming_variant(3).body.len(),
            forall|i: int| 0 <= i < xs@.len() ==> conforms(#[trigger] xs@[i]@, incoming_variant(3).body[i]),
        ensures
            r.value() == ValueV::Variant(3, views(xs@)),
    {
        let msg_version = i32_of(&xs[0]);
        let req_id = i32_of(&xs[1]);
        let code = i32_of(&xs[2]);
        let msg = text_of(&xs[3]);
        let r = TWSIncommingMessageImpl::Error { msg_version, req_id, code, msg };
        proof {
            assert(views(xs@) =~= seq![
                ValueV::Int(msg_version as int),
                ValueV::Int(req_id as int),
                ValueV::Int(code as int),
                ValueV::Text(msg@),
            ]);
        }
        r
    }

    fn from_members_4(xs: &Vec<Value>) -> (r: TWSIncommingMessageImpl)
        requires
            xs@.len() == incoming_variant(4).body.len(),
            forall|i: int| 0 <= i < xs@.len() ==> conforms(#[trigger] xs@[i]@, incoming_variant(4).body[i]),
        ensures
            r.value() == ValueV::Variant(4, views(xs@)),
    {
        let order_id = i32_of(&xs[0]);
        let contract = order_contract_of(&xs[1]);
        let r = TWSIncommingMessageImpl::OpenOrder { order_id, contract };
        proof {
            assert(views(xs@) =~= seq![ValueV::Int(order_id as int), contract.value()]);
        }
        r
    }

    fn from_members_5(xs: &Vec<Value>) -> (r: TWSIncommingMessageImpl)
        requires
            xs@.len() == incoming_variant(5).body.len(),
            forall|i: int| 0 <= i < xs@.len() ==> conforms(#[trigger] xs@[i]@, incoming_variant(5).body[i]),
        ensures
            r.value() == ValueV::Variant(5, views(xs@)),
    {
        let msg_version = i32_of(&xs[0]);
        let key = text_of(&xs[1]);
        let value = text_of(&xs[2]);
        let currency = text_of(&xs[3]);
        let account_name = text_of(&xs[4]);
        let r = TWSIncommingMessageImpl::AccountValue {
            msg_version,
            key,
            value,
            currency,
            account_name,
        };
        proof {
            assert(views(xs@) =~= seq![
                ValueV::Int(msg_version as int),
                ValueV::Text(key@),
                ValueV::Text(value@),
                ValueV::Text(currency@),
                ValueV::Text(account_name@),
            ]);
        }
        r
    }

    fn from_members_8(xs: &Vec<Value>) -> (r: TWSIncommingMessageImpl)
        requires
            xs@.len() == incoming_variant(8).body.len(),
            forall|i: int| 0 <= i < xs@.len() ==> conforms(#[trigger] xs@[i]@, incoming_variant(8).body[i]),
        ensures
            r.value() == ValueV::Variant(8, views(xs@)),
    {
        let msg_version = i32_of(&xs[0]);
        let order_id = i32_of(&xs[1]);
        let r = TWSIncommingMessageImpl::NextValidId { msg_version, order_id };
        proof {
            assert(views(xs@) =~= seq![
                ValueV::Int(msg_version as int),
                ValueV::Int(order_id as int),
            ]);
        }
        r
    }

    #[verifier::rlimit(80)]
    fn from_members_9(xs: &Vec<Value>) -> (r: TWSIncommingMessageImpl)
        requires
            xs@.len() == incoming_variant(9).body.len(),
            forall|i: int| 0 <= i < xs@.len() ==> conforms(#[trigger] xs@[i]@, incoming_variant(9).body[i]),
        ensures
            r.value() == ValueV::Variant(9, views(xs@)),
    {
        let msg_version = i32_of(&xs[0]);
        let req_id = i32_of(&xs[1]);
        let symbol = text_of(&xs[2]);
        let sec_type = text_of(&xs[3]);
        let last_trade_date_or_contract_month = text_of(&xs[4]);
        let strike = decimal_of(&xs[5]);
        let right = text_of(&xs[6]);
        let exchange = text_of(&xs[7]);
        let currency = text_of(&xs[8]);
        let local_symbol = text_of(&xs[9]);
        let market_name = text_of(&xs[10]);
        let trading_class = text_of(&xs[11]);
        let con_id = i32_of(&xs[12]);
        let min_tick = decimal_of(&xs[13]);
        let md_size_multiplier = i32_of(&xs[14]);
        let multiplier = text_of(&xs[15]);
        let order_types = text_of(&xs[16]);
        let valid_exchanges = text_of(&xs[17]);
        let price_magnifier = i32_of(&xs[18]);
        let under_con_id = i32_of(&xs[19]);
        let long_name = text_of(&xs[20]);
        let primary_exchange = text_of(&xs[21]);
        let contract_month = text_of(&xs[22]);
        let industry = text_of(&xs[23]);
        let category = text_of(&xs[24]);
        let subcategory = text_of(&xs[25]);
        let time_zone_id = text_of(&xs[26]);
        let trading_hours = text_of(&xs[27]);
        let liquid_hours = text_of(&xs[28]);
        let ev_rule = text_of(&xs[29]);
        let ev_multiplier = text_of(&xs[30]);
        let sec_id_list = pairs_of(&xs[31]);
        let agg_group = i32_of(&xs[32]);
        let under_symbol = text_of(&xs[33]);
        let under_sec_type = text_of(&xs[34]);
        let market_rule_ids = text_of(&xs[35]);
        let real_expiration_date = text_of(&xs[36]);
        let r = TWSIncommingMessageImpl::ContractData {
            msg_version,
            req_id,
            symbol,
            sec_type,
            last_trade_date_or_contract_month,
            strike,
            right,
            exchange,
            currency,
            local_symbol,
            market_name,
            trading_class,
            con_id,
            min_tick,
            md_size_multiplier,
            multiplier,
            order_types,
            valid_exchanges,
            price_magnifier,
            under_con_id,
            long_name,
            primary_exchange,
            contract_month,
            industry,
            category,
            subcategory,
            time_zone_id,
            trading_hours,
            liquid_hours,
            ev_rule,
            ev_multiplier,
            sec_id_list,
            agg_group,
            under_symbol,
            under_sec_type,
            market_rule_ids,
            real_expiration_date,
        };
        proof {
            assert(views(xs@) =~= seq![
                ValueV::Int(msg_version as int),
                ValueV::Int(req_id as int),
                ValueV::Text(symbol@),
                ValueV::Text(sec_type@),
                ValueV::Text(last_trade_date_or_contract_month@),
                ValueV::Decimal(strike.bits),
                ValueV::Text(right@),
                ValueV::Text(exchange@),
                ValueV::Text(currency@),
                ValueV::Text(local_symbol@),
                ValueV::Text(market_name@),
                ValueV::Text(trading_class@),
                ValueV::Int(con_id as int),
                ValueV::Decimal(min_tick.bits),
                ValueV::Int(md_size_multiplier as int),
                ValueV::Text(multiplier@),
                ValueV::Text(order_types@),
                ValueV::Text(valid_exchanges@),
                ValueV::Int(price_magnifier as int),
                ValueV::Int(under_con_id as int),
                ValueV::Text(long_name@),
                ValueV::Text(primary_exchange@),
                ValueV::Text(contract_month@),
                ValueV::Text(industry@),
                ValueV::Text(category@),
                ValueV::Text(subcategory@),
                ValueV::Text(time_zone_id@),
                ValueV::Text(trading_hours@),
                ValueV::Text(liquid_hours@),
                ValueV::Text(ev_rule@),
                ValueV::Text(ev_multiplier@),
                ValueV::List(pairs_value(sec_id_list@)),
                ValueV::Int(agg_group as int),
                ValueV::Text(under_symbol@),
                ValueV::Text(under_sec_type@),
                ValueV::Text(market_rule_ids@),
                ValueV::Text(real_expiration_date@),
            ]);
        }
        r
    }

    fn from_members_14(xs: &Vec<Value>) -> (r: TWSIncommingMessageImpl)
        requires
            xs@.len() == incoming_variant(14).body.len(),
            forall|i: int| 0 <= i < xs@.len() ==> conforms(#[trigger] xs@[i]@, incoming_variant(14).body[i]),
        ensures
            r.value() == ValueV::Variant(14, views(xs@)),
    {
        let msg_version = i32_of(&xs[0]);
        let account_list = text_of(&xs[1]);
        let r = TWSIncommingMessageImpl::ManagedAccounts { msg_version, account_list };
        proof {
            assert(views(xs@) =~= seq![
                ValueV::Int(msg_version as int),
                ValueV::Text(account_list@),
            ]);
        }
        r
    }

    fn from_members_16(xs: &Vec<Value>) -> (r: TWSIncommingMessageImpl)
        requires
            xs@.len() == incoming_variant(16).body.len(),
            forall|i: int| 0 <= i < xs@.len() ==> conforms(#[trigger] xs@[i]@, incoming_variant(16).body[i]),
        ensures
            r.value() == ValueV::Variant(16, views(xs@)),
    {
        let req_id = i32_of(&xs[0]);
        let start_date = text_of(&xs[1]);
        let end_date = text_of(&xs[2]);
        let bars = bars_of(&xs[3]);
        let r = TWSIncommingMessageImpl::HistoricalData { req_id, start_date, end_date, bars };
        proof {
            assert(views(xs@) =~= seq![
                ValueV::Int(req_id as int),
                ValueV::Text(start_date@),
                ValueV::Text(end_date@),
                ValueV::List(bars_value(bars@)),
            ]);
        }
        r
    }

    fn from_members_20(xs: &Vec<Value>) -> (r: TWSIncommingMessageImpl)
        requires
            xs@.len() == incoming_variant(20).body.len(),
            forall|i: int| 0 <= i < xs@.len() ==> conforms(#[trigger] xs@[i]@, incoming_variant(20).body[i]),
        ensures
            r.value() == ValueV::Variant(20, views(xs@)),
    {
        let msg_version = i32_of(&xs[0]);
        let req_id = i32_of(&xs[1]);
        let tick_type = tick_type_of(&xs[2]);
        let implied_vol = float_of(&xs[3]);
        let delta = float_of(&xs[4]);
        let price = float_of(&xs[5]);
        let present_value_dividend = float_of(&xs[6]);
        let gamma = float_of(&xs[7]);
        let vega = float_of(&xs[8]);
        let theta = float_of(&xs[9]);
        let underlying_price = float_of(&xs[10]);
        let r = TWSIncommingMessageImpl::TickOptionComputation {
            msg_version,
            req_id,
            tick_type,
            implied_vol,
            delta,
            price,
            present_value_dividend,
            gamma,
            vega,
            theta,
            underlying_price,
        };
        proof {
            assert(views(xs@) =~= seq![
                ValueV::Int(msg_version as int),
                ValueV::Int(req_id as int),
                tick_type.value(),
                ValueV::Float(implied_vol@),
                ValueV::Float(delta@),
                ValueV::Float(price@),
                ValueV::Float(present_value_dividend@),
                ValueV::Float(gamma@),
                ValueV::Float(vega@),
                ValueV::Float(theta@),
                ValueV::Float(underlying_price@),
            ]);
        }
        r
    }

    fn from_members_21(xs: &Vec<Value>) -> (r: TWSIncommingMessageImpl)
        requires
            xs@.len() == incoming_variant(21).body.len(),
            forall|i: int| 0 <= i < xs@.len() ==> conforms(#[trigger] xs@[i]@, incoming_variant(21).body[i]),
        ensures
            r.value() == ValueV::Variant(21, views(xs@)),
    {
        let msg_version = i32_of(&xs[0]);
        let req_id = i32_of(&xs[1]);
        let tick_type = tick_type_of(&xs[2]);
        let value = float_of(&xs[3]);
        let r = TWSIncommingMessageImpl::TickGeneric { msg_version, req_id, tick_type, value };
        proof {
            assert(views(xs@) =~= seq![
                ValueV::Int(msg_version as int),
                ValueV::Int(req_id as int),
                tick_type.value(),
                ValueV::Float(value@),
            ]);
        }
        r
    }

    fn from_members_22(xs: &Vec<Value>) -> (r: TWSIncommingMessageImpl)
        requires
            xs@.len() == incoming_variant(22).body.len(),
            forall|i: int| 0 <= i < xs@.len() ==> conforms(#[trigger] xs@[i]@, incoming_variant(22).body[i]),
        ensures
            r.value() == ValueV::Variant(22, views(xs@)),
    {
        let msg_version = i32_of(&xs[0]);
        let req_id = i32_of(&xs[1]);
        let tick_type = tick_type_of(&xs[2]);
        let value = text_of(&xs[3]);
        let r = TWSIncommingMessageImpl::TickString { msg_version, req_id, tick_type, value };
        proof {
            assert(views(xs@) =~= seq![
                ValueV::Int(msg_version as int),
                ValueV::Int(req_id as int),
                tick_type.value(),
                ValueV::Text(value@),
            ]);
        }
        r
    }

    fn from_members_23(xs: &Vec<Value>) -> (r: TWSIncommingMessageImpl)
        requires
            xs@.len() == incoming_variant(23).body.len(),
            forall|i: int| 0 <= i < xs@.len() ==> conforms(#[trigger] xs@[i]@, incoming_variant(23).body[i]),
        ensures
            r.value() == ValueV::Variant(23, views(xs@)),
    {
        let req_id = i32_of(&xs[0]);
        let tick_type = tick_type_of(&xs[1]);
        let basis_points = float_of(&xs[2]);
        let formatted_basis_points = text_of(&xs[3]);
        let implied_future = float_of(&xs[4]);
        let hold_days = i32_of(&xs[5]);
        let future_last_trade_date = text_of(&xs[6]);
        let dividend_impact = float_of(&xs[7]);
        let dividends_to_last_trade_date = float_of(&xs[8]);
        let r = TWSIncommingMessageImpl::TickEFP {
            req_id,
            tick_type,
            basis_points,
            formatted_basis_points,
            implied_future,
            hold_days,
            future_last_trade_date,
            dividend_impact,
            dividends_to_last_trade_date,
        };
        proof {
            assert(views(xs@) =~= seq![
                ValueV::Int(req_id as int),
                tick_type.value(),
                ValueV::Float(basis_points@),
                ValueV::Text(formatted_basis_points@),
                ValueV::Float(implied_future@),
                ValueV::Int(hold_days as int),
                ValueV::Text(future_last_trade_date@),
                ValueV::Float(dividend_impact@),
                ValueV::Float(dividends_to_last_trade_date@),
            ]);
        }
        r
    }

    fn from_members_33(xs: &Vec<Value>) -> (r: TWSIncommingMessageImpl)
        requires
            xs@.len() == incoming_variant(33).body.len(),
            forall|i: int| 0 <= i < xs@.len() ==> conforms(#[trigger] xs@[i]@, incoming_variant(33).body[i]),
        ensures
            r.value() == ValueV::Variant(33, views(xs@)),
    {
        let msg_version = i32_of(&xs[0]);
        let req_id = i32_of(&xs[1]);
        let data_type = market_data_type_of(&xs[2]);
        let r = TWSIncommingMessageImpl::MarketDataType { msg_version, req_id, data_type };
        proof {
            assert(views(xs@) =~= seq![
                ValueV::Int(msg_version as int),
                ValueV::Int(req_id as int),
                data_type.value(),
            ]);
        }
        r
    }

    fn from_members_34(xs: &Vec<Value>) -> (r: TWSIncommingMessageImpl)
        requires
            xs@.len() == incoming_variant(34).body.len(),
            forall|i: int| 0 <= i < xs@.len() ==> conforms(#[trigger] xs@[i]@, incoming_variant(34).body[i]),
        ensures
            r.value() == ValueV::Variant(34, views(xs@)),
    {
        let msg_version = i32_of(&xs[0]);
        let exec_id = text_of(&xs[1]);
        let commission = float_of(&xs[2]);
        let currency = text_of(&xs[3]);
        let realized_pnl = float_of(&xs[4]);
        let yield_ = float_of(&xs[5]);
        let yield_redemption_date = i32_of(&xs[6]);
        let r = TWSIncommingMessageImpl::CommissionsReport {
            msg_version,
            exec_id,
            commission,
            currency,
            realized_pnl,
            yield_,
            yield_redemption_date,
        };
        proof {
            assert(views(xs@) =~= seq![
                ValueV::Int(msg_version as int),
                ValueV::Text(exec_id@),
                ValueV::Float(commission@),
                ValueV::Text(currency@),
                ValueV::Float(realized_pnl@),
                ValueV::Float(yield_@),
                ValueV::Int(yield_redemption_date as int),
            ]);
        }
        r
    }

    fn from_members_49(xs: &Vec<Value>) -> (r: TWSIncommingMessageImpl)
        requires
            xs@.len() == incoming_variant(49).body.len(),
            forall|i: int| 0 <= i < xs@.len() ==> conforms(#[trigger] xs@[i]@, incoming_variant(49).body[i]),
        ensures
            r.value() == ValueV::Variant(49, views(xs@)),
    {
        let req_id = i32_of(&xs[0]);
        let exchange = text_of(&xs[1]);
        let underlying_con_id = i32_of(&xs[2]);
        let trading_class = text_of(&xs[3]);
        let multiplier = text_of(&xs[4]);
        let expirations = texts_of(&xs[5]);
        let strikes = texts_of(&xs[6]);
        let r = TWSIncommingMessageImpl::SecurityDefinitionOptionParameter {
            req_id,
            exchange,
            underlying_con_id,
            trading_class,
            multiplier,
            expirations,
            strikes,
        };
        proof {
            assert(views(xs@) =~= seq![
                ValueV::Int(req_id as int),
                ValueV::Text(exchange@),
                ValueV::Int(underlying_con_id as int),
                ValueV::Text(trading_class@),
                ValueV::Text(multiplier@),
                ValueV::List(texts_value(expirations@)),
                ValueV::List(texts_value(strikes@)),
            ]);
        }
        r
    }

    fn from_members_50(xs: &Vec<Value>) -> (r: TWSIncommingMessageImpl)
        requires
            xs@.len() == incoming_variant(50).body.len(),
            forall|i: int| 0 <= i < xs@.len() ==> conforms(#[trigger] xs@[i]@, incoming_variant(50).body[i]),
        ensures
            r.value() == ValueV::Variant(50, views(xs@)),
    {
        let req_id = i32_of(&xs[0]);
        let r = TWSIncommingMessageImpl::SecurityDefinitionOptionParameterEnd { req_id };
        proof {
            assert(views(xs@) =~= seq![ValueV::Int(req_id as int)]);
        }
        r
    }

    fn from_members_55(xs: &Vec<Value>) -> (r: TWSIncommingMessageImpl)
        requires
            xs@.len() == incoming_variant(55).body.len(),
            forall|i: int| 0 <= i < xs@.len() ==> conforms(#[trigger] xs@[i]@, incoming_variant(55).body[i]),
        ensures
            r.value() == ValueV::Variant(55, views(xs@)),
    {
        let req_id = i32_of(&xs[0]);
        let min_tick = float_of(&xs[1]);
        let bbo_exchange = text_of(&xs[2]);
        let snapshot_permssion = bool_of(&xs[3]);
        let r = TWSIncommingMessageImpl::TickReqParams {
            req_id,
            min_tick,
            bbo_exchange,
            snapshot_permssion,
        };
        proof {
            assert(views(xs@) =~= seq![
                ValueV::Int(req_id as int),
                ValueV::Float(min_tick@),
                ValueV::Text(bbo_exchange@),
                ValueV::Bool(snapshot_permssion),
            ]);
        }
        r
    }

    fn from_members_63(xs: &Vec<Value>) -> (r: TWSIncommingMessageImpl)
        requires
            xs@.len() == incoming_variant(63).body.len(),
            forall|i: int| 0 <= i < xs@.len() ==> conforms(#[trigger] xs@[i]@, incoming_variant(63).body[i]),
        ensures
            r.value() == ValueV::Variant(63, views(xs@)),
    {
        let req_id = i32_of(&xs[0]);
        let data = histogram_of(&xs[1]);
        let r = TWSIncommingMessageImpl::HistogramData { req_id, data };
        proof {
            assert(views(xs@) =~= seq![
                ValueV::Int(req_id as int),
                ValueV::List(histogram_value(data@)),
            ]);
        }
        r
    }

    fn from_members_64(xs: &Vec<Value>) -> (r: TWSIncommingMessageImpl)
        requires
            xs@.len() == incoming_variant(64).body.len(),
            forall|i: int| 0 <= i < xs@.len() ==> conforms(#[trigger] xs@[i]@, incoming_variant(64).body[i]),
        ensures
            r.value() == ValueV::Variant(64, views(xs@)),
    {
        let req_id = i32_of(&xs[0]);
        let bar = bar_update_of(&xs[1]);
        let r = TWSIncommingMessageImpl::HistoricalDataUpdate { req_id, bar };
        proof {
            assert(views(xs@) =~= seq![ValueV::Int(req_id as int), bar.update_value()]);
        }
        r
    }

}

proof fn lemma_no_tag_matches(vs: Seq<VariantV>, k: int, f: Seq<Seq<u8>>, i: int)
    requires
        forall|j: int| 0 <= j < vs.len() ==> #[trigger] vs[j].tag != f[i],
    ensures
        decode_union(vs, k, f, i) == Err::<(ValueV, int), DecodeError>(
            DecodeError::UnknownVariant { index: i as usize },
        ),
    decreases vs.len(),
{
    if vs.len() > 0 {
        assert(vs[0].tag != f[i]);
        assert forall|j: int| 0 <= j < vs.drop_first().len() implies #[trigger] vs.drop_first()[j].tag
            != f[i] by {
            assert(vs.drop_first()[j] == vs[j + 1]);
        }
        lemma_no_tag_matches(vs.drop_first(), k + 1, f, i);
    }
}

/// A frame whose tag names no kind of the catalog fails to decode with
/// `UnknownVariant` at its first field, and a ready connection skips such a
/// frame and stays ready for the next one.
pub proof fn lemma_unknown_tag(f: Seq<Seq<u8>>)
    requires
        f.len() > 0,
        forall|k: int| 0 <= k < INCOMING_KINDS ==> #[trigger] incoming_variant(k).tag != f[0],
    ensures
        decode_value(incoming_schema_v(), f, 0) == Err::<(ValueV, int), DecodeError>(
            DecodeError::UnknownVariant { index: 0 },
        ),
        conn_step(ConnState::Ready, ConnEvent::DecodeFailed) == (
            ConnState::Ready,
            ConnAction::SkipFrame,
        ),
{
    let vs = incoming_schema_v()->Union_0;
    assert forall|j: int| 0 <= j < vs.len() implies #[trigger] vs[j].tag != f[0] by {
        assert(vs[j] == incoming_variant(j));
    }
    lemma_no_tag_matches(vs, 0, f, 0);
}

/// A decoded message together with the fields it was decoded from.
#[derive(Debug)]
pub struct TWSIncommingMessage {
    data: DecodedMessage,
    msg: TWSIncommingMessageImpl,
    unread: usize,
}

impl TWSIncommingMessage {
    /// The fields the message was decoded from.
    pub closed spec fn raw(&self) -> Seq<Seq<u8>> {
        fields_view(self.data@)
    }

    /// The decoded message.
    pub closed spec fn message(&self) -> TWSIncommingMessageImpl {
        self.msg
    }

    /// How many trailing fields the schema left unread.
    pub closed spec fn unread_spec(&self) -> int {
        self.unread as int
    }

    /// The decoded message.
    pub fn get_msg(&self) -> (r: &TWSIncommingMessageImpl)
        ensures
            *r == self.message(),
    {
        &self.msg
    }

    /// The fields the message was decoded from.
    pub fn fields(&self) -> (r: &DecodedMessage)
        ensures
            fields_view(r@) == self.raw(),
    {
        &self.data
    }

    /// How many trailing fields the schema left unread; more than none hints
    /// that the peer speaks a newer version of the message.
    pub fn unread_fields(&self) -> (r: usize)
        ensures
            r == self.unread_spec(),
    {
        self.unread
    }

    /// Decodes a frame's fields with the incoming schema.
    pub fn from_decoded_message(data: DecodedMessage) -> (r: Result<
        TWSIncommingMessage,
        DecodeError,
    >)
        ensures
            match decode_value(incoming_schema_v(), fields_view(data@), 0) {
                Ok((v, j)) => r is Ok && r->Ok_0.message().value() == v && r->Ok_0.raw()
                    == fields_view(data@) && r->Ok_0.unread_spec() == fields_view(data@).len() - j,
                Err(e) => r == Err::<TWSIncommingMessage, DecodeError>(e),
            },
    {
        let schema = incoming_schema();
        let mut de = Deserializer::from_msg(&data);
        let v = match de.decode(&schema) {
            Ok(v) => v,
            Err(e) => {
                return Err(e);
            },
        };
        let unread = de.remaining();
        proof {
            lemma_value_conforms(schema@, fields_view(data@), 0);
        }
        let msg = TWSIncommingMessageImpl::from_value(&v);
        Ok(TWSIncommingMessage { data, msg, unread })
    }
}

} // verus!
