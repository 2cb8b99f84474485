//! Outgoing requests: each is a tag followed by its members, one field each.
use vstd::prelude::*;
use vstd::string::StringExecFns;
use vstd::utf8::encode_utf8;
use crate::buffers::{bytes_from_vec, bytes_view, fields_view};
use crate::codec::DecodedMessage;

verus! {

/// The decimal digits of `n`.
pub open spec fn nat_text(n: nat) -> Seq<u8>
    decreases n,
{
    if n < 10 {
        seq![(48 + n) as u8]
    } else {
        nat_text(n / 10) + seq![(48 + n % 10) as u8]
    }
}

/// The decimal numeral of `n`, with a leading `-` when negative.
pub open spec fn int_text(n: int) -> Seq<u8> {
    if n < 0 {
        seq![45u8] + nat_text((-n) as nat)
    } else {
        nat_text(n as nat)
    }
}

/// A member of an outgoing request.
#[derive(Debug, Clone)]
pub enum OutField {
    /// An integer, written in decimal.
    Int(i64),
    /// Text, written as its UTF-8 bytes.
    Text(String),
    /// A flag, written `1` or `0`.
    Flag(bool),
}

/// The bytes of one outgoing member.
pub open spec fn out_field_bytes(f: OutField) -> Seq<u8> {
    match f {
        OutField::Int(n) => int_text(n as int),
        OutField::Text(s) => encode_utf8(s@),
        OutField::Flag(b) => if b {
            seq![49u8]
        } else {
            seq![48u8]
        },
    }
}

/// The bytes of each outgoing member.
pub open spec fn out_fields_bytes(fs: Seq<OutField>) -> Seq<Seq<u8>> {
    fs.map_values(|f: OutField| out_field_bytes(f))
}

fn push_nat_text(dst: &mut Vec<u8>, n: u64)
    ensures
        final(dst)@ == old(dst)@ + nat_text(n as nat),
    decreases n,
{
    if n >= 10 {
        push_nat_text(dst, n / 10);
    }
    dst.push((48 + n % 10) as u8);
    proof {
        assert(final(dst)@ =~= old(dst)@ + nat_text(n as nat)) by {
            if n >= 10 {
                assert(nat_text(n as nat) == nat_text((n / 10) as nat) + seq![(48 + n % 10) as u8]);
            }
        }
    }
}

/// Appends the bytes of `src`.
pub(crate) fn push_slice(dst: &mut Vec<u8>, src: &[u8])
    ensures
        final(dst)@ == old(dst)@ + src@,
{
    let mut i: usize = 0;
    while i < src.len()
        invariant
            i <= src@.len(),
            dst@ == old(dst)@ + src@.subrange(0, i as int),
        decreases src@.len() - i,
    {
        dst.push(src[i]);
        proof {
            assert(src@.subrange(0, i + 1) =~= src@.subrange(0, i as int).push(src@[i as int]));
        }
        i = i + 1;
    }
    proof {
        assert(src@.subrange(0, src@.len() as int) =~= src@);
    }
}

proof fn lemma_out_push(s: Seq<OutField>, f: OutField)
    ensures
        out_fields_bytes(s.push(f)) == out_fields_bytes(s).push(out_field_bytes(f)),
{
    assert(out_fields_bytes(s.push(f)) =~= out_fields_bytes(s).push(out_field_bytes(f)));
}

/// The bytes of one outgoing member.
pub fn out_field_to_bytes(f: &OutField) -> (r: Vec<u8>)
    ensures
        r@ == out_field_bytes(*f),
{
    let mut r: Vec<u8> = Vec::new();
    match f {
        OutField::Int(n) => {
            if *n < 0 {
                r.push(45u8);
                let m = (0i128 - *n as i128) as u64;
                push_nat_text(&mut r, m);
            } else {
                push_nat_text(&mut r, *n as u64);
            }
        },
        OutField::Text(s) => {
            push_slice(&mut r, s.as_str().as_bytes());
        },
        OutField::Flag(b) => {
            r.push(if *b {
                49u8
            } else {
                48u8
            });
        },
    }
    proof {
        assert(r@ =~= out_field_bytes(*f));
    }
    r
}

/// The fields carrying `fs`, one per member.
pub fn encode_out_fields(fs: &Vec<OutField>) -> (r: DecodedMessage)
    ensures
        fields_view(r@) == out_fields_bytes(fs@),
{
    let mut r: Vec<bytes::Bytes> = Vec::new();
    let mut i: usize = 0;
    while i < fs.len()
        invariant
            i <= fs@.len(),
            fields_view(r@) =~= out_fields_bytes(fs@.subrange(0, i as int)),
        decreases fs@.len() - i,
    {
        let b = bytes_from_vec(out_field_to_bytes(&fs[i]));
        let ghost before = r@;
        r.push(b);
        proof {
            assert(fields_view(r@) =~= fields_view(before).push(bytes_view(b)));
            assert(fs@.subrange(0, i + 1) =~= fs@.subrange(0, i as int).push(fs@[i as int]));
        }
        i = i + 1;
    }
    proof {
        assert(fs@.subrange(0, fs@.len() as int) =~= fs@);
    }
    r
}

/// A tradable instrument, as requests describe it.
#[derive(Debug, Clone, Default)]
pub struct Contract {
    pub con_id: i32,
    pub symbol: String,
    pub sec_type: String,
    pub last_trade_date_or_contract_month: String,
    /// The strike price, as decimal text.
    pub strike: String,
    pub right: String,
    pub multiplier: String,
    pub exchange: String,
    pub primary_exchange: String,
    pub currency: String,
    pub local_symbol: String,
    pub trading_class: String,
    pub include_expired: bool,
    pub sec_id_type: String,
    pub sec_id: String,
}

/// What historical data to return.
#[derive(Debug, Clone, Copy, PartialEq, Eq)]
pub enum HistoricalDataType {
    Trades,
    Midpoint,
    Bid,
    Ask,
    BidAsk,
    HistoricalVolatility,
    OptionImpliedVolatility,
    FeeRate,
    RebateRate,
}

impl HistoricalDataType {
    /// The name a request carries.
    pub open spec fn name_spec(self) -> Seq<char> {
        match self {
            HistoricalDataType::Trades => "TRADES"@,
            HistoricalDataType::Midpoint => "MIDPOINT"@,
            HistoricalDataType::Bid => "BID"@,
            HistoricalDataType::Ask => "ASK"@,
            HistoricalDataType::BidAsk => "BID_ASK"@,
            HistoricalDataType::HistoricalVolatility => "HISTORICAL_VOLATILITY"@,
            HistoricalDataType::OptionImpliedVolatility => "OPTION_IMPLIED_VOLATILITY"@,
            HistoricalDataType::FeeRate => "FEE_RATE"@,
            HistoricalDataType::RebateRate => "REBATE_RATE"@,
        }
    }

    /// The name a request carries.
    pub fn name(&self) -> (r: &'static str)
        ensures
            r@ == self.name_spec(),
    {
        match self {
            HistoricalDataType::Trades => "TRADES",
            HistoricalDataType::Midpoint => "MIDPOINT",
            HistoricalDataType::Bid => "BID",
            HistoricalDataType::Ask => "ASK",
            HistoricalDataType::BidAsk => "BID_ASK",
            HistoricalDataType::HistoricalVolatility => "HISTORICAL_VOLATILITY",
            HistoricalDataType::OptionImpliedVolatility => "OPTION_IMPLIED_VOLATILITY",
            HistoricalDataType::FeeRate => "FEE_RATE",
            HistoricalDataType::RebateRate => "REBATE_RATE",
        }
    }
}

/// Bar sizes of historical data.
#[derive(Debug, Clone, Copy, PartialEq, Eq)]
pub enum HistoricalBarSize {
    OneSecond,
    FiveSeconds,
    TenSeconds,
    FifteenSeconds,
    ThirtySeconds,
    OneMinute,
    TwoMinutes,
    ThreeMinutes,
    FiveMinutes,
    TenMinutes,
    FifteenMinutes,
}

impl HistoricalBarSize {
    /// The bar size as a request writes it.
    pub open spec fn name_spec(self) -> Seq<char> {
        match self {
            HistoricalBarSize::OneSecond => "1 sec"@,
            HistoricalBarSize::FiveSeconds => "5 secs"@,
            HistoricalBarSize::TenSeconds => "10 secs"@,
            HistoricalBarSize::FifteenSeconds => "15 secs"@,
            HistoricalBarSize::ThirtySeconds => "30 secs"@,
            HistoricalBarSize::OneMinute => "1 min"@,
            HistoricalBarSize::TwoMinutes => "2 mins"@,
            HistoricalBarSize::ThreeMinutes => "3 mins"@,
            HistoricalBarSize::FiveMinutes => "5 mins"@,
            HistoricalBarSize::TenMinutes => "10 mins"@,
            HistoricalBarSize::FifteenMinutes => "15 mins"@,
        }
    }

    /// The bar size as a request writes it.
    pub fn name(&self) -> (r: &'static str)
        ensures
            r@ == self.name_spec(),
    {
        match self {
            HistoricalBarSize::OneSecond => "1 sec",
            HistoricalBarSize::FiveSeconds => "5 secs",
            HistoricalBarSize::TenSeconds => "10 secs",
            HistoricalBarSize::FifteenSeconds => "15 secs",
            HistoricalBarSize::ThirtySeconds => "30 secs",
            HistoricalBarSize::OneMinute => "1 min",
            HistoricalBarSize::TwoMinutes => "2 mins",
            HistoricalBarSize::ThreeMinutes => "3 mins",
            HistoricalBarSize::FiveMinutes => "5 mins",
            HistoricalBarSize::TenMinutes => "10 mins",
            HistoricalBarSize::FifteenMinutes => "15 mins",
        }
    }
}

/// Status of an order.
#[derive(Debug, Clone, Copy, PartialEq, Eq)]
pub enum InnerOrderStatus {
    Submitted,
    Cancelled,
}

impl InnerOrderStatus {
    /// The status as the gateway names it.
    pub open spec fn name_spec(self) -> Seq<char> {
        match self {
            InnerOrderStatus::Submitted => "Submitted"@,
            InnerOrderStatus::Cancelled => "Cancelled"@,
        }
    }

    /// The status as the gateway names it.
    pub fn name(&self) -> (r: &'static str)
        ensures
            r@ == self.name_spec(),
    {
        match self {
            InnerOrderStatus::Submitted => "Submitted",
            InnerOrderStatus::Cancelled => "Cancelled",
        }
    }
}

/// A bar size that historical data requests accept.
pub trait ValidBarSize {
    /// The bar size as a request writes it.
    spec fn name_spec() -> Seq<char>;

    /// The bar size as a request writes it.
    fn name() -> (r: &'static str)
        ensures
            r@ == Self::name_spec(),
    ;
}

/// Bars of `N` secs.
#[derive(Debug)]
pub struct Seconds<const N: u8>;

/// Bars of `N` mins.
#[derive(Debug)]
pub struct Minutes<const N: u8>;

/// Bars of `N` hours.
#[derive(Debug)]
pub struct Hours<const N: u8>;

/// Bars of `N` days.
#[derive(Debug)]
pub struct Day<const N: u8>;

/// Bars of `N` weeks.
#[derive(Debug)]
pub struct Week<const N: u8>;

/// Bars of `N` months.
#[derive(Debug)]
pub struct Month<const N: u8>;

impl ValidBarSize for Seconds<1> {
    open spec fn name_spec() -> Seq<char> {
        "1 sec"@
    }

    fn name() -> (r: &'static str) {
        "1 sec"
    }
}

impl ValidBarSize for Seconds<5> {
    open spec fn name_spec() -> Seq<char> {
        "5 secs"@
    }

    fn name() -> (r: &'static str) {
        "5 secs"
    }
}

impl ValidBarSize for Seconds<10> {
    open spec fn name_spec() -> Seq<char> {
        "10 secs"@
    }

    fn name() -> (r: &'static str) {
        "10 secs"
    }
}

impl ValidBarSize for Seconds<15> {
    open spec fn name_spec() -> Seq<char> {
        "15 secs"@
    }

    fn name() -> (r: &'static str) {
        "15 secs"
    }
}

impl ValidBarSize for Seconds<30> {
    open spec fn name_spec() -> Seq<char> {
        "30 secs"@
    }

    fn name() -> (r: &'static str) {
        "30 secs"
    }
}

impl ValidBarSize for Minutes<1> {
    open spec fn name_spec() -> Seq<char> {
        "1 min"@
    }

    fn name() -> (r: &'static str) {
        "1 min"
    }
}

impl ValidBarSize for Minutes<2> {
    open spec fn name_spec() -> Seq<char> {
        "2 mins"@
    }

    fn name() -> (r: &'static str) {
        "2 mins"
    }
}

impl ValidBarSize for Minutes<3> {
    open spec fn name_spec() -> Seq<char> {
        "3 mins"@
    }

    fn name() -> (r: &'static str) {
        "3 mins"
    }
}

impl ValidBarSize for Minutes<5> {
    open spec fn name_spec() -> Seq<char> {
        "5 mins"@
    }

    fn name() -> (r: &'static str) {
        "5 mins"
    }
}

impl ValidBarSize for Minutes<10> {
    open spec fn name_spec() -> Seq<char> {
        "10 mins"@
    }

    fn name() -> (r: &'static str) {
        "10 mins"
    }
}

impl ValidBarSize for Minutes<15> {
    open spec fn name_spec() -> Seq<char> {
        "15 mins"@
    }

    fn name() -> (r: &'static str) {
        "15 mins"
    }
}

impl ValidBarSize for Minutes<20> {
    open spec fn name_spec() -> Seq<char> {
        "20 mins"@
    }

    fn name() -> (r: &'static str) {
        "20 mins"
    }
}

impl ValidBarSize for Minutes<30> {
    open spec fn name_spec() -> Seq<char> {
        "30 mins"@
    }

    fn name() -> (r: &'static str) {
        "30 mins"
    }
}

impl ValidBarSize for Hours<1> {
    open spec fn name_spec() -> Seq<char> {
        "1 hour"@
    }

    fn name() -> (r: &'static str) {
        "1 hour"
    }
}

impl ValidBarSize for Hours<2> {
    open spec fn name_spec() -> Seq<char> {
        "2 hours"@
    }

    fn name() -> (r: &'static str) {
        "2 hours"
    }
}

impl ValidBarSize for Hours<3> {
    open spec fn name_spec() -> Seq<char> {
        "3 hours"@
    }

    fn name() -> (r: &'static str) {
        "3 hours"
    }
}

impl ValidBarSize for Hours<4> {
    open spec fn name_spec() -> Seq<char> {
        "4 hours"@
    }

    fn name() -> (r: &'static str) {
        "4 hours"
    }
}

impl ValidBarSize for Hours<8> {
    open spec fn name_spec() -> Seq<char> {
        "8 hours"@
    }

    fn name() -> (r: &'static str) {
        "8 hours"
    }
}

impl ValidBarSize for Day<1> {
    open spec fn name_spec() -> Seq<char> {
        "1 day"@
    }

    fn name() -> (r: &'static str) {
        "1 day"
    }
}

impl ValidBarSize for Week<1> {
    open spec fn name_spec() -> Seq<char> {
        "1 week"@
    }

    fn name() -> (r: &'static str) {
        "1 week"
    }
}

impl ValidBarSize for Month<1> {
    open spec fn name_spec() -> Seq<char> {
        "1 month"@
    }

    fn name() -> (r: &'static str) {
        "1 month"
    }
}

/// A request to the gateway.
#[derive(Debug, Clone)]
pub enum TWSOutgoingMessage {
    RequestMarketData {
        version: i32,
        req_id: i32,
        contract: Contract,
    },
    CancelMarketData {
        version: i32,
        req_id: i32,
    },
    RequestContractData {
        version: i32,
        req_id: i32,
        contract: Contract,
    },
    RequestHistoricalData {
        req_id: i32,
        contract: Contract,
        end_date_time: String,
        bar_size: String,
        duration: String,
        use_regular_trading_hours: bool,
        what_to_show: HistoricalDataType,
        format_date: i32,
        keep_up_to_date: bool,
    },
    StartApi {
        version: i32,
        client_id: i32,
        optional_capabilities: String,
    },
    RequestSecurityDefinitionOptionalParameters {
        req_id: i32,
        underlying: String,
        exchange: String,
        underlying_sec_type: String,
        underlying_con_id: i32,
    },
    RequestHistogramData {
        req_id: i32,
        contract: Contract,
        use_regular_trading_hours: bool,
        period: String,
    },
}

impl TWSOutgoingMessage {
    /// The tag of the request kind.
    pub open spec fn tag(&self) -> int {
        match self {
            TWSOutgoingMessage::RequestMarketData { .. } => 1,
            TWSOutgoingMessage::CancelMarketData { .. } => 2,
            TWSOutgoingMessage::RequestContractData { .. } => 9,
            TWSOutgoingMessage::RequestHistoricalData { .. } => 20,
            TWSOutgoingMessage::StartApi { .. } => 71,
            TWSOutgoingMessage::RequestSecurityDefinitionOptionalParameters { .. } => 78,
            TWSOutgoingMessage::RequestHistogramData { .. } => 88,
        }
    }

    /// The fields that carry the request: its tag, then its members.
    pub open spec fn fields_spec(&self) -> Seq<Seq<u8>> {
        match self {
            TWSOutgoingMessage::RequestMarketData {
                version,
                req_id,
                contract,
            } => seq![nat_text(1)] + seq![int_text((*version) as int), int_text((*req_id) as int), int_text((contract.con_id as i64) as int), encode_utf8(contract.symbol@), encode_utf8(contract.sec_type@), encode_utf8(contract.last_trade_date_or_contract_month@), encode_utf8(contract.strike@), encode_utf8(contract.right@), encode_utf8(contract.multiplier@), encode_utf8(contract.exchange@), encode_utf8(contract.primary_exchange@), encode_utf8(contract.currency@), encode_utf8(contract.local_symbol@), encode_utf8(contract.trading_class@), encode_utf8("0"@), encode_utf8(""@), encode_utf8("0"@), encode_utf8("0"@), encode_utf8(""@), encode_utf8(""@)],
            TWSOutgoingMessage::CancelMarketData {
                version,
                req_id,
            } => seq![nat_text(2)] + seq![int_text((*version) as int), int_text((*req_id) as int)],
            TWSOutgoingMessage::RequestContractData {
                version,
                req_id,
                contract,
            } => seq![nat_text(9)] + seq![int_text((*version) as int), int_text((*req_id) as int), int_text((contract.con_id as i64) as int), encode_utf8(contract.symbol@), encode_utf8(contract.sec_type@), encode_utf8(contract.last_trade_date_or_contract_month@), encode_utf8(contract.strike@), encode_utf8(contract.right@), encode_utf8(contract.multiplier@), encode_utf8(contract.exchange@), encode_utf8(contract.primary_exchange@), encode_utf8(contract.currency@), encode_utf8(contract.local_symbol@), encode_utf8(contract.trading_class@), if contract.include_expired { seq![49u8] } else { seq![48u8] }, encode_utf8(contract.sec_id_type@), encode_utf8(contract.sec_id@)],
            TWSOutgoingMessage::RequestHistoricalData {
                req_id,
                contract,
                end_date_time,
                bar_size,
                duration,
                use_regular_trading_hours,
                what_to_show,
                format_date,
                keep_up_to_date,
            } => seq![nat_text(20)] + seq![int_text((*req_id) as int), int_text((contract.con_id as i64) as int), encode_utf8(contract.symbol@), encode_utf8(contract.sec_type@), encode_utf8(contract.last_trade_date_or_contract_month@), encode_utf8(contract.strike@), encode_utf8(contract.right@), encode_utf8(contract.multiplier@), encode_utf8(contract.exchange@), encode_utf8(contract.primary_exchange@), encode_utf8(contract.currency@), encode_utf8(contract.local_symbol@), encode_utf8(contract.trading_class@), if contract.include_expired { seq![49u8] } else { seq![48u8] }, encode_utf8(end_date_time@), encode_utf8(bar_size@), encode_utf8(duration@), if *use_regular_trading_hours { seq![49u8] } else { seq![48u8] }, encode_utf8(what_to_show.name_spec()), int_text((*format_date) as int), if *keep_up_to_date { seq![49u8] } else { seq![48u8] }, encode_utf8(""@)],
            TWSOutgoingMessage::StartApi {
                version,
                client_id,
                optional_capabilities,
            } => seq![nat_text(71)] + seq![int_text((*version) as int), int_text((*client_id) as int), encode_utf8(optional_capabilities@), encode_utf8(""@)],
            TWSOutgoingMessage::RequestSecurityDefinitionOptionalParameters {
                req_id,
                underlying,
                exchange,
                underlying_sec_type,
                underlying_con_id,
            } => seq![nat_text(78)] + seq![int_text((*req_id) as int), encode_utf8(underlying@), encode_utf8(exchange@), encode_utf8(underlying_sec_type@), int_text((*underlying_con_id) as int)],
            TWSOutgoingMessage::RequestHistogramData {
                req_id,
                contract,
                use_regular_trading_hours,
                period,
            } => seq![nat_text(88)] + seq![int_text((*req_id) as int), int_text((contract.con_id as i64) as int), encode_utf8(contract.symbol@), encode_utf8(contract.sec_type@), encode_utf8(contract.last_trade_date_or_contract_month@), encode_utf8(contract.strike@), encode_utf8(contract.right@), encode_utf8(contract.multiplier@), encode_utf8(contract.exchange@), encode_utf8(contract.primary_exchange@), encode_utf8(contract.currency@), encode_utf8(contract.local_symbol@), encode_utf8(contract.trading_class@), if contract.include_expired { seq![49u8] } else { seq![48u8] }, if *use_regular_trading_hours { seq![49u8] } else { seq![48u8] }, encode_utf8(period@)],
        }
    }

    /// The members of the request, tag first.
    fn members(&self) -> (r: Vec<OutField>)
        ensures
            out_fields_bytes(r@) == self.fields_spec(),
    {
        match self {
            TWSOutgoingMessage::RequestMarketData { .. } => self.members_1(),
            TWSOutgoingMessage::CancelMarketData { .. } => self.members_2(),
            TWSOutgoingMessage::RequestContractData { .. } => self.members_9(),
            TWSOutgoingMessage::RequestHistoricalData { .. } => self.members_20(),
            TWSOutgoingMessage::StartApi { .. } => self.members_71(),
            TWSOutgoingMessage::RequestSecurityDefinitionOptionalParameters {
                ..
            } => self.members_78(),
            TWSOutgoingMessage::RequestHistogramData { .. } => self.members_88(),
        }
    }

    fn members_1(&self) -> (r: Vec<OutField>)
        requires
            self is RequestMarketData,
        ensures
            out_fields_bytes(r@) == self.fields_spec(),
    {
        let mut r: Vec<OutField> = Vec::new();
        match self {
            TWSOutgoingMessage::RequestMarketData { version, req_id, contract } => {
                r.push(OutField::Int(1));
                let ghost mut acc: Seq<Seq<u8>> = seq![nat_text(1)];
                proof { assert(out_fields_bytes(r@) =~= acc); }
                let ghost before = r@;
                r.push(OutField::Int((*version) as i64));
                proof {
                    lemma_out_push(before, r@.last());
                    assert(r@ == before.push(r@.last()));
                    acc = acc.push(int_text((*version) as int));
                }
                let ghost before = r@;
                r.push(OutField::Int((*req_id) as i64));
                proof {
                    lemma_out_push(before, r@.last());
                    assert(r@ == before.push(r@.last()));
                    acc = acc.push(int_text((*req_id) as int));
                }
                let ghost before = r@;
                r.push(OutField::Int((contract.con_id as i64) as i64));
                proof {
                    lemma_out_push(before, r@.last());
                    assert(r@ == before.push(r@.last()));
                    acc = acc.push(int_text((contract.con_id as i64) as int));
                }
                let ghost before = r@;
                r.push(OutField::Text(contract.symbol.clone()));
                proof {
                    lemma_out_push(before, r@.last());
                    assert(r@ == before.push(r@.last()));
                    acc = acc.push(encode_utf8(contract.symbol@));
                }
                let ghost before = r@;
                r.push(OutField::Text(contract.sec_type.clone()));
                proof {
                    lemma_out_push(before, r@.last());
                    assert(r@ == before.push(r@.last()));
                    acc = acc.push(encode_utf8(contract.sec_type@));
                }
                let ghost before = r@;
                r.push(OutField::Text(contract.last_trade_date_or_contract_month.clone()));
                proof {
                    lemma_out_push(before, r@.last());
                    assert(r@ == before.push(r@.last()));
                    acc = acc.push(encode_utf8(contract.last_trade_date_or_contract_month@));
                }
                let ghost before = r@;
                r.push(OutField::Text(contract.strike.clone()));
                proof {
                    lemma_out_push(before, r@.last());
                    assert(r@ == before.push(r@.last()));
                    acc = acc.push(encode_utf8(contract.strike@));
                }
                let ghost before = r@;
                r.push(OutField::Text(contract.right.clone()));
                proof {
                    lemma_out_push(before, r@.last());
                    assert(r@ == before.push(r@.last()));
                    acc = acc.push(encode_utf8(contract.right@));
                }
                let ghost before = r@;
                r.push(OutField::Text(contract.multiplier.clone()));
                proof {
                    lemma_out_push(before, r@.last());
                    assert(r@ == before.push(r@.last()));
                    acc = acc.push(encode_utf8(contract.multiplier@));
                }
                let ghost before = r@;
                r.push(OutField::Text(contract.exchange.clone()));
                proof {
                    lemma_out_push(before, r@.last());
                    assert(r@ == before.push(r@.last()));
                    acc = acc.push(encode_utf8(contract.exchange@));
                }
                let ghost before = r@;
                r.push(OutField::Text(contract.primary_exchange.clone()));
                proof {
                    lemma_out_push(before, r@.last());
                    assert(r@ == before.push(r@.last()));
                    acc = acc.push(encode_utf8(contract.primary_exchange@));
                }
                let ghost before = r@;
                r.push(OutField::Text(contract.currency.clone()));
                proof {
                    lemma_out_push(before, r@.last());
                    assert(r@ == before.push(r@.last()));
                    acc = acc.push(encode_utf8(contract.currency@));
                }
                let ghost before = r@;
                r.push(OutField::Text(contract.local_symbol.clone()));
                proof {
                    lemma_out_push(before, r@.last());
                    assert(r@ == before.push(r@.last()));
                    acc = acc.push(encode_utf8(contract.local_symbol@));
                }
                let ghost before = r@;
                r.push(OutField::Text(contract.trading_class.clone()));
                proof {
                    lemma_out_push(before, r@.last());
                    assert(r@ == before.push(r@.last()));
                    acc = acc.push(encode_utf8(contract.trading_class@));
                }
                let ghost before = r@;
                r.push(OutField::Text(String::from_str("0")));
                proof {
                    lemma_out_push(before, r@.last());
                    assert(r@ == before.push(r@.last()));
                    acc = acc.push(encode_utf8("0"@));
                }
                let ghost before = r@;
                r.push(OutField::Text(String::from_str("")));
                proof {
                    lemma_out_push(before, r@.last());
                    assert(r@ == before.push(r@.last()));
                    acc = acc.push(encode_utf8(""@));
                }
                let ghost before = r@;
                r.push(OutField::Text(String::from_str("0")));
                proof {
                    lemma_out_push(before, r@.last());
                    assert(r@ == before.push(r@.last()));
                    acc = acc.push(encode_utf8("0"@));
                }
                let ghost before = r@;
                r.push(OutField::Text(String::from_str("0")));
                proof {
                    lemma_out_push(before, r@.last());
                    assert(r@ == before.push(r@.last()));
                    acc = acc.push(encode_utf8("0"@));
                }
                let ghost before = r@;
                r.push(OutField::Text(String::from_str("")));
                proof {
                    lemma_out_push(before, r@.last());
                    assert(r@ == before.push(r@.last()));
                    acc = acc.push(encode_utf8(""@));
                }
                let ghost before = r@;
                r.push(OutField::Text(String::from_str("")));
                proof {
                    lemma_out_push(before, r@.last());
                    assert(r@ == before.push(r@.last()));
                    acc = acc.push(encode_utf8(""@));
                }
                proof {
                    assert(acc =~= seq![nat_text(1)] + seq![int_text((*version) as int), int_text((*req_id) as int), int_text((contract.con_id as i64) as int), encode_utf8(contract.symbol@), encode_utf8(contract.sec_type@), encode_utf8(contract.last_trade_date_or_contract_month@), encode_utf8(contract.strike@), encode_utf8(contract.right@), encode_utf8(contract.multiplier@), encode_utf8(contract.exchange@), encode_utf8(contract.primary_exchange@), encode_utf8(contract.currency@), encode_utf8(contract.local_symbol@), encode_utf8(contract.trading_class@), encode_utf8("0"@), encode_utf8(""@), encode_utf8("0"@), encode_utf8("0"@), encode_utf8(""@), encode_utf8(""@)]);
                }
            },
            _ => {},
        }
        r
    }

    fn members_2(&self) -> (r: Vec<OutField>)
        requires
            self is CancelMarketData,
        ensures
            out_fields_bytes(r@) == self.fields_spec(),
    {
        let mut r: Vec<OutField> = Vec::new();
        match self {
            TWSOutgoingMessage::CancelMarketData { version, req_id } => {
                r.push(OutField::Int(2));
                let ghost mut acc: Seq<Seq<u8>> = seq![nat_text(2)];
                proof { assert(out_fields_bytes(r@) =~= acc); }
                let ghost before = r@;
                r.push(OutField::Int((*version) as i64));
                proof {
                    lemma_out_push(before, r@.last());
                    assert(r@ == before.push(r@.last()));
                    acc = acc.push(int_text((*version) as int));
                }
                let ghost before = r@;
                r.push(OutField::Int((*req_id) as i64));
                proof {
                    lemma_out_push(before, r@.last());
                    assert(r@ == before.push(r@.last()));
                    acc = acc.push(int_text((*req_id) as int));
                }
                proof {
                    assert(acc =~= seq![nat_text(2)] + seq![int_text((*version) as int), int_text((*req_id) as int)]);
                }
            },
            _ => {},
        }
        r
    }

    fn members_9(&self) -> (r: Vec<OutField>)
        requires
            self is RequestContractData,
        ensures
            out_fields_bytes(r@) == self.fields_spec(),
    {
        let mut r: Vec<OutField> = Vec::new();
        match self {
            TWSOutgoingMessage::RequestContractData { version, req_id, contract } => {
                r.push(OutField::Int(9));
                let ghost mut acc: Seq<Seq<u8>> = seq![nat_text(9)];
                proof { assert(out_fields_bytes(r@) =~= acc); }
                let ghost before = r@;
                r.push(OutField::Int((*version) as i64));
                proof {
                    lemma_out_push(before, r@.last());
                    assert(r@ == before.push(r@.last()));
                    acc = acc.push(int_text((*version) as int));
                }
                let ghost before = r@;
                r.push(OutField::Int((*req_id) as i64));
                proof {
                    lemma_out_push(before, r@.last());
                    assert(r@ == before.push(r@.last()));
                    acc = acc.push(int_text((*req_id) as int));
                }
                let ghost before = r@;
                r.push(OutField::Int((contract.con_id as i64) as i64));
                proof {
                    lemma_out_push(before, r@.last());
                    assert(r@ == before.push(r@.last()));
                    acc = acc.push(int_text((contract.con_id as i64) as int));
                }
                let ghost before = r@;
                r.push(OutField::Text(contract.symbol.clone()));
                proof {
                    lemma_out_push(before, r@.last());
                    assert(r@ == before.push(r@.last()));
                    acc = acc.push(encode_utf8(contract.symbol@));
                }
                let ghost before = r@;
                r.push(OutField::Text(contract.sec_type.clone()));
                proof {
                    lemma_out_push(before, r@.last());
                    assert(r@ == before.push(r@.last()));
                    acc = acc.push(encode_utf8(contract.sec_type@));
                }
                let ghost before = r@;
                r.push(OutField::Text(contract.last_trade_date_or_contract_month.clone()));
                proof {
                    lemma_out_push(before, r@.last());
                    assert(r@ == before.push(r@.last()));
                    acc = acc.push(encode_utf8(contract.last_trade_date_or_contract_month@));
                }
                let ghost before = r@;
                r.push(OutField::Text(contract.strike.clone()));
                proof {
                    lemma_out_push(before, r@.last());
                    assert(r@ == before.push(r@.last()));
                    acc = acc.push(encode_utf8(contract.strike@));
                }
                let ghost before = r@;
                r.push(OutField::Text(contract.right.clone()));
                proof {
                    lemma_out_push(before, r@.last());
                    assert(r@ == before.push(r@.last()));
                    acc = acc.push(encode_utf8(contract.right@));
                }
                let ghost before = r@;
                r.push(OutField::Text(contract.multiplier.clone()));
                proof {
                    lemma_out_push(before, r@.last());
                    assert(r@ == before.push(r@.last()));
                    acc = acc.push(encode_utf8(contract.multiplier@));
                }
                let ghost before = r@;
                r.push(OutField::Text(contract.exchange.clone()));
                proof {
                    lemma_out_push(before, r@.last());
                    assert(r@ == before.push(r@.last()));
                    acc = acc.push(encode_utf8(contract.exchange@));
                }
                let ghost before = r@;
                r.push(OutField::Text(contract.primary_exchange.clone()));
                proof {
                    lemma_out_push(before, r@.last());
                    assert(r@ == before.push(r@.last()));
                    acc = acc.push(encode_utf8(contract.primary_exchange@));
                }
                let ghost before = r@;
                r.push(OutField::Text(contract.currency.clone()));
                proof {
                    lemma_out_push(before, r@.last());
                    assert(r@ == before.push(r@.last()));
                    acc = acc.push(encode_utf8(contract.currency@));
                }
                let ghost before = r@;
                r.push(OutField::Text(contract.local_symbol.clone()));
                proof {
                    lemma_out_push(before, r@.last());
                    assert(r@ == before.push(r@.last()));
                    acc = acc.push(encode_utf8(contract.local_symbol@));
                }
                let ghost before = r@;
                r.push(OutField::Text(contract.trading_class.clone()));
                proof {
                    lemma_out_push(before, r@.last());
                    assert(r@ == before.push(r@.last()));
                    acc = acc.push(encode_utf8(contract.trading_class@));
                }
                let ghost before = r@;
                r.push(OutField::Flag(contract.include_expired));
                proof {
                    lemma_out_push(before, r@.last());
                    assert(r@ == before.push(r@.last()));
                    acc = acc.push(if contract.include_expired { seq![49u8] } else { seq![48u8] });
                }
                let ghost before = r@;
                r.push(OutField::Text(contract.sec_id_type.clone()));
                proof {
                    lemma_out_push(before, r@.last());
                    assert(r@ == before.push(r@.last()));
                    acc = acc.push(encode_utf8(contract.sec_id_type@));
                }
                let ghost before = r@;
                r.push(OutField::Text(contract.sec_id.clone()));
                proof {
                    lemma_out_push(before, r@.last());
                    assert(r@ == before.push(r@.last()));
                    acc = acc.push(encode_utf8(contract.sec_id@));
                }
                proof {
                    assert(acc =~= seq![nat_text(9)] + seq![int_text((*version) as int), int_text((*req_id) as int), int_text((contract.con_id as i64) as int), encode_utf8(contract.symbol@), encode_utf8(contract.sec_type@), encode_utf8(contract.last_trade_date_or_contract_month@), encode_utf8(contract.strike@), encode_utf8(contract.right@), encode_utf8(contract.multiplier@), encode_utf8(contract.exchange@), encode_utf8(contract.primary_exchange@), encode_utf8(contract.currency@), encode_utf8(contract.local_symbol@), encode_utf8(contract.trading_class@), if contract.include_expired { seq![49u8] } else { seq![48u8] }, encode_utf8(contract.sec_id_type@), encode_utf8(contract.sec_id@)]);
                }
            },
            _ => {},
        }
        r
    }

    #[verifier::rlimit(60)]
    fn members_20(&self) -> (r: Vec<OutField>)
        requires
            self is RequestHistoricalData,
        ensures
            out_fields_bytes(r@) == self.fields_spec(),
    {
        let mut r: Vec<OutField> = Vec::new();
        match self {
            TWSOutgoingMessage::RequestHistoricalData {
                req_id,
                contract,
                end_date_time,
                bar_size,
                duration,
                use_regular_trading_hours,
                what_to_show,
                format_date,
                keep_up_to_date,
            } => {
                r.push(OutField::Int(20));
                let ghost mut acc: Seq<Seq<u8>> = seq![nat_text(20)];
                proof { assert(out_fields_bytes(r@) =~= acc); }
                let ghost before = r@;
                r.push(OutField::Int((*req_id) as i64));
                proof {
                    lemma_out_push(before, r@.last());
                    assert(r@ == before.push(r@.last()));
                    acc = acc.push(int_text((*req_id) as int));
                }
                let ghost before = r@;
                r.push(OutField::Int((contract.con_id as i64) as i64));
                proof {
                    lemma_out_push(before, r@.last());
                    assert(r@ == before.push(r@.last()));
                    acc = acc.push(int_text((contract.con_id as i64) as int));
                }
                let ghost before = r@;
                r.push(OutField::Text(contract.symbol.clone()));
                proof {
                    lemma_out_push(before, r@.last());
                    assert(r@ == before.push(r@.last()));
                    acc = acc.push(encode_utf8(contract.symbol@));
                }
                let ghost before = r@;
                r.push(OutField::Text(contract.sec_type.clone()));
                proof {
                    lemma_out_push(before, r@.last());
                    assert(r@ == before.push(r@.last()));
                    acc = acc.push(encode_utf8(contract.sec_type@));
                }
                let ghost before = r@;
                r.push(OutField::Text(contract.last_trade_date_or_contract_month.clone()));
                proof {
                    lemma_out_push(before, r@.last());
                    assert(r@ == before.push(r@.last()));
                    acc = acc.push(encode_utf8(contract.last_trade_date_or_contract_month@));
                }
                let ghost before = r@;
                r.push(OutField::Text(contract.strike.clone()));
                proof {
                    lemma_out_push(before, r@.last());
                    assert(r@ == before.push(r@.last()));
                    acc = acc.push(encode_utf8(contract.strike@));
                }
                let ghost before = r@;
                r.push(OutField::Text(contract.right.clone()));
                proof {
                    lemma_out_push(before, r@.last());
                    assert(r@ == before.push(r@.last()));
                    acc = acc.push(encode_utf8(contract.right@));
                }
                let ghost before = r@;
                r.push(OutField::Text(contract.multiplier.clone()));
                proof {
                    lemma_out_push(before, r@.last());
                    assert(r@ == before.push(r@.last()));
                    acc = acc.push(encode_utf8(contract.multiplier@));
                }
                let ghost before = r@;
                r.push(OutField::Text(contract.exchange.clone()));
                proof {
                    lemma_out_push(before, r@.last());
                    assert(r@ == before.push(r@.last()));
                    acc = acc.push(encode_utf8(contract.exchange@));
                }
                let ghost before = r@;
                r.push(OutField::Text(contract.primary_exchange.clone()));
                proof {
                    lemma_out_push(before, r@.last());
                    assert(r@ == before.push(r@.last()));
                    acc = acc.push(encode_utf8(contract.primary_exchange@));
                }
                let ghost before = r@;
                r.push(OutField::Text(contract.currency.clone()));
                proof {
                    lemma_out_push(before, r@.last());
                    assert(r@ == before.push(r@.last()));
                    acc = acc.push(encode_utf8(contract.currency@));
                }
                let ghost before = r@;
                r.push(OutField::Text(contract.local_symbol.clone()));
                proof {
                    lemma_out_push(before, r@.last());
                    assert(r@ == before.push(r@.last()));
                    acc = acc.push(encode_utf8(contract.local_symbol@));
                }
                let ghost before = r@;
                r.push(OutField::Text(contract.trading_class.clone()));
                proof {
                    lemma_out_push(before, r@.last());
                    assert(r@ == before.push(r@.last()));
                    acc = acc.push(encode_utf8(contract.trading_class@));
                }
                let ghost before = r@;
                r.push(OutField::Flag(contract.include_expired));
                proof {
                    lemma_out_push(before, r@.last());
                    assert(r@ == before.push(r@.last()));
                    acc = acc.push(if contract.include_expired { seq![49u8] } else { seq![48u8] });
                }
                let ghost before = r@;
                r.push(OutField::Text(end_date_time.clone()));
                proof {
                    lemma_out_push(before, r@.last());
                    assert(r@ == before.push(r@.last()));
                    acc = acc.push(encode_utf8(end_date_time@));
                }
                let ghost before = r@;
                r.push(OutField::Text(bar_size.clone()));
                proof {
                    lemma_out_push(before, r@.last());
                    assert(r@ == before.push(r@.last()));
                    acc = acc.push(encode_utf8(bar_size@));
                }
                let ghost before = r@;
                r.push(OutField::Text(duration.clone()));
                proof {
                    lemma_out_push(before, r@.last());
                    assert(r@ == before.push(r@.last()));
                    acc = acc.push(encode_utf8(duration@));
                }
                let ghost before = r@;
                r.push(OutField::Flag(*use_regular_trading_hours));
                proof {
                    lemma_out_push(before, r@.last());
                    assert(r@ == before.push(r@.last()));
                    acc = acc.push(if *use_regular_trading_hours { seq![49u8] } else { seq![48u8] });
                }
                let ghost before = r@;
                r.push(OutField::Text(String::from_str(what_to_show.name())));
                proof {
                    lemma_out_push(before, r@.last());
                    assert(r@ == before.push(r@.last()));
                    acc = acc.push(encode_utf8(what_to_show.name_spec()));
                }
                let ghost before = r@;
                r.push(OutField::Int((*format_date) as i64));
                proof {
                    lemma_out_push(before, r@.last());
                    assert(r@ == before.push(r@.last()));
                    acc = acc.push(int_text((*format_date) as int));
                }
                let ghost before = r@;
                r.push(OutField::Flag(*keep_up_to_date));
                proof {
                    lemma_out_push(before, r@.last());
                    assert(r@ == before.push(r@.last()));
                    acc = acc.push(if *keep_up_to_date { seq![49u8] } else { seq![48u8] });
                }
                let ghost before = r@;
                r.push(OutField::Text(String::from_str("")));
                proof {
                    lemma_out_push(before, r@.last());
                    assert(r@ == before.push(r@.last()));
                    acc = acc.push(encode_utf8(""@));
                }
                proof {
                    assert(acc =~= seq![nat_text(20)] + seq![int_text((*req_id) as int), int_text((contract.con_id as i64) as int), encode_utf8(contract.symbol@), encode_utf8(contract.sec_type@), encode_utf8(contract.last_trade_date_or_contract_month@), encode_utf8(contract.strike@), encode_utf8(contract.right@), encode_utf8(contract.multiplier@), encode_utf8(contract.exchange@), encode_utf8(contract.primary_exchange@), encode_utf8(contract.currency@), encode_utf8(contract.local_symbol@), encode_utf8(contract.trading_class@), if contract.include_expired { seq![49u8] } else { seq![48u8] }, encode_utf8(end_date_time@), encode_utf8(bar_size@), encode_utf8(duration@), if *use_regular_trading_hours { seq![49u8] } else { seq![48u8] }, encode_utf8(what_to_show.name_spec()), int_text((*format_date) as int), if *keep_up_to_date { seq![49u8] } else { seq![48u8] }, encode_utf8(""@)]);
                }
            },
            _ => {},
        }
        r
    }

    fn members_71(&self) -> (r: Vec<OutField>)
        requires
            self is StartApi,
        ensures
            out_fields_bytes(r@) == self.fields_spec(),
    {
        let mut r: Vec<OutField> = Vec::new();
        match self {
            TWSOutgoingMessage::StartApi { version, client_id, optional_capabilities } => {
                r.push(OutField::Int(71));
                let ghost mut acc: Seq<Seq<u8>> = seq![nat_text(71)];
                proof { assert(out_fields_bytes(r@) =~= acc); }
                let ghost before = r@;
                r.push(OutField::Int((*version) as i64));
                proof {
                    lemma_out_push(before, r@.last());
                    assert(r@ == before.push(r@.last()));
                    acc = acc.push(int_text((*version) as int));
                }
                let ghost before = r@;
                r.push(OutField::Int((*client_id) as i64));
                proof {
                    lemma_out_push(before, r@.last());
                    assert(r@ == before.push(r@.last()));
                    acc = acc.push(int_text((*client_id) as int));
                }
                let ghost before = r@;
                r.push(OutField::Text(optional_capabilities.clone()));
                proof {
                    lemma_out_push(before, r@.last());
                    assert(r@ == before.push(r@.last()));
                    acc = acc.push(encode_utf8(optional_capabilities@));
                }
                let ghost before = r@;
                r.push(OutField::Text(String::from_str("")));
                proof {
                    lemma_out_push(before, r@.last());
                    assert(r@ == before.push(r@.last()));
                    acc = acc.push(encode_utf8(""@));
                }
                proof {
                    assert(acc =~= seq![nat_text(71)] + seq![int_text((*version) as int), int_text((*client_id) as int), encode_utf8(optional_capabilities@), encode_utf8(""@)]);
                }
            },
            _ => {},
        }
        r
    }

    fn members_78(&self) -> (r: Vec<OutField>)
        requires
            self is RequestSecurityDefinitionOptionalParameters,
        ensures
            out_fields_bytes(r@) == self.fields_spec(),
    {
        let mut r: Vec<OutField> = Vec::new();
        match self {
            TWSOutgoingMessage::RequestSecurityDefinitionOptionalParameters {
                req_id,
                underlying,
                exchange,
                underlying_sec_type,
                underlying_con_id,
            } => {
                r.push(OutField::Int(78));
                let ghost mut acc: Seq<Seq<u8>> = seq![nat_text(78)];
                proof { assert(out_fields_bytes(r@) =~= acc); }
                let ghost before = r@;
                r.push(OutField::Int((*req_id) as i64));
                proof {
                    lemma_out_push(before, r@.last());
                    assert(r@ == before.push(r@.last()));
                    acc = acc.push(int_text((*req_id) as int));
                }
                let ghost before = r@;
                r.push(OutField::Text(underlying.clone()));
                proof {
                    lemma_out_push(before, r@.last());
                    assert(r@ == before.push(r@.last()));
                    acc = acc.push(encode_utf8(underlying@));
                }
                let ghost before = r@;
                r.push(OutField::Text(exchange.clone()));
                proof {
                    lemma_out_push(before, r@.last());
                    assert(r@ == before.push(r@.last()));
                    acc = acc.push(encode_utf8(exchange@));
                }
                let ghost before = r@;
                r.push(OutField::Text(underlying_sec_type.clone()));
                proof {
                    lemma_out_push(before, r@.last());
                    assert(r@ == before.push(r@.last()));
                    acc = acc.push(encode_utf8(underlying_sec_type@));
                }
                let ghost before = r@;
                r.push(OutField::Int((*underlying_con_id) as i64));
                proof {
                    lemma_out_push(before, r@.last());
                    assert(r@ == before.push(r@.last()));
                    acc = acc.push(int_text((*underlying_con_id) as int));
                }
                proof {
                    assert(acc =~= seq![nat_text(78)] + seq![int_text((*req_id) as int), encode_utf8(underlying@), encode_utf8(exchange@), encode_utf8(underlying_sec_type@), int_text((*underlying_con_id) as int)]);
                }
            },
            _ => {},
        }
        r
    }

    fn members_88(&self) -> (r: Vec<OutField>)
        requires
            self is RequestHistogramData,
        ensures
            out_fields_bytes(r@) == self.fields_spec(),
    {
        let mut r: Vec<OutField> = Vec::new();
        match self {
            TWSOutgoingMessage::RequestHistogramData {
                req_id,
                contract,
                use_regular_trading_hours,
                period,
            } => {
                r.push(OutField::Int(88));
                let ghost mut acc: Seq<Seq<u8>> = seq![nat_text(88)];
                proof { assert(out_fields_bytes(r@) =~= acc); }
                let ghost before = r@;
                r.push(OutField::Int((*req_id) as i64));
                proof {
                    lemma_out_push(before, r@.last());
                    assert(r@ == before.push(r@.last()));
                    acc = acc.push(int_text((*req_id) as int));
                }
                let ghost before = r@;
                r.push(OutField::Int((contract.con_id as i64) as i64));
                proof {
                    lemma_out_push(before, r@.last());
                    assert(r@ == before.push(r@.last()));
                    acc = acc.push(int_text((contract.con_id as i64) as int));
                }
                let ghost before = r@;
                r.push(OutField::Text(contract.symbol.clone()));
                proof {
                    lemma_out_push(before, r@.last());
                    assert(r@ == before.push(r@.last()));
                    acc = acc.push(encode_utf8(contract.symbol@));
                }
                let ghost before = r@;
                r.push(OutField::Text(contract.sec_type.clone()));
                proof {
                    lemma_out_push(before, r@.last());
                    assert(r@ == before.push(r@.last()));
                    acc = acc.push(encode_utf8(contract.sec_type@));
                }
                let ghost before = r@;
                r.push(OutField::Text(contract.last_trade_date_or_contract_month.clone()));
                proof {
                    lemma_out_push(before, r@.last());
                    assert(r@ == before.push(r@.last()));
                    acc = acc.push(encode_utf8(contract.last_trade_date_or_contract_month@));
                }
                let ghost before = r@;
                r.push(OutField::Text(contract.strike.clone()));
                proof {
                    lemma_out_push(before, r@.last());
                    assert(r@ == before.push(r@.last()));
                    acc = acc.push(encode_utf8(contract.strike@));
                }
                let ghost before = r@;
                r.push(OutField::Text(contract.right.clone()));
                proof {
                    lemma_out_push(before, r@.last());
                    assert(r@ == before.push(r@.last()));
                    acc = acc.push(encode_utf8(contract.right@));
                }
                let ghost before = r@;
                r.push(OutField::Text(contract.multiplier.clone()));
                proof {
                    lemma_out_push(before, r@.last());
                    assert(r@ == before.push(r@.last()));
                    acc = acc.push(encode_utf8(contract.multiplier@));
                }
                let ghost before = r@;
                r.push(OutField::Text(contract.exchange.clone()));
                proof {
                    lemma_out_push(before, r@.last());
                    assert(r@ == before.push(r@.last()));
                    acc = acc.push(encode_utf8(contract.exchange@));
                }
                let ghost before = r@;
                r.push(OutField::Text(contract.primary_exchange.clone()));
                proof {
                    lemma_out_push(before, r@.last());
                    assert(r@ == before.push(r@.last()));
                    acc = acc.push(encode_utf8(contract.primary_exchange@));
                }
                let ghost before = r@;
                r.push(OutField::Text(contract.currency.clone()));
                proof {
                    lemma_out_push(before, r@.last());
                    assert(r@ == before.push(r@.last()));
                    acc = acc.push(encode_utf8(contract.currency@));
                }
                let ghost before = r@;
                r.push(OutField::Text(contract.local_symbol.clone()));
                proof {
                    lemma_out_push(before, r@.last());
                    assert(r@ == before.push(r@.last()));
                    acc = acc.push(encode_utf8(contract.local_symbol@));
                }
                let ghost before = r@;
                r.push(OutField::Text(contract.trading_class.clone()));
                proof {
                    lemma_out_push(before, r@.last());
                    assert(r@ == before.push(r@.last()));
                    acc = acc.push(encode_utf8(contract.trading_class@));
                }
                let ghost before = r@;
                r.push(OutField::Flag(contract.include_expired));
                proof {
                    lemma_out_push(before, r@.last());
                    assert(r@ == before.push(r@.last()));
                    acc = acc.push(if contract.include_expired { seq![49u8] } else { seq![48u8] });
                }
                let ghost before = r@;
                r.push(OutField::Flag(*use_regular_trading_hours));
                proof {
                    lemma_out_push(before, r@.last());
                    assert(r@ == before.push(r@.last()));
                    acc = acc.push(if *use_regular_trading_hours { seq![49u8] } else { seq![48u8] });
                }
                let ghost before = r@;
                r.push(OutField::Text(period.clone()));
                proof {
                    lemma_out_push(before, r@.last());
                    assert(r@ == before.push(r@.last()));
                    acc = acc.push(encode_utf8(period@));
                }
                proof {
                    assert(acc =~= seq![nat_text(88)] + seq![int_text((*req_id) as int), int_text((contract.con_id as i64) as int), encode_utf8(contract.symbol@), encode_utf8(contract.sec_type@), encode_utf8(contract.last_trade_date_or_contract_month@), encode_utf8(contract.strike@), encode_utf8(contract.right@), encode_utf8(contract.multiplier@), encode_utf8(contract.exchange@), encode_utf8(contract.primary_exchange@), encode_utf8(contract.currency@), encode_utf8(contract.local_symbol@), encode_utf8(contract.trading_class@), if contract.include_expired { seq![49u8] } else { seq![48u8] }, if *use_regular_trading_hours { seq![49u8] } else { seq![48u8] }, encode_utf8(period@)]);
                }
            },
            _ => {},
        }
        r
    }

    /// The fields that carry the request.
    pub fn to_fields(&self) -> (r: DecodedMessage)
        ensures
            fields_view(r@) == self.fields_spec(),
    {
        let m = self.members();
        encode_out_fields(&m)
    }
}

} // verus!
