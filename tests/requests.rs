use bytes::Bytes;
use gargoyle::requests::{
    encode_out_fields, Contract, Day, HistoricalBarSize, HistoricalDataType, Hours,
    InnerOrderStatus, Minutes, Month, OutField, Seconds, TWSOutgoingMessage, ValidBarSize, Week,
};

fn texts(fields: &[&str]) -> Vec<Bytes> {
    fields.iter().map(|s| Bytes::from(s.to_string())).collect()
}

fn contract() -> Contract {
    Contract {
        symbol: "TSLA".to_string(),
        sec_type: "OPT".to_string(),
        last_trade_date_or_contract_month: "20210618".to_string(),
        strike: "610".to_string(),
        right: "C".to_string(),
        multiplier: "100".to_string(),
        exchange: "SMART".to_string(),
        currency: "USD".to_string(),
        ..Contract::default()
    }
}

#[test]
fn members_are_written_as_text() {
    let fs = vec![
        OutField::Int(-2147483648),
        OutField::Int(0),
        OutField::Int(1234567),
        OutField::Text("é".to_string()),
        OutField::Flag(true),
        OutField::Flag(false),
    ];
    assert_eq!(
        encode_out_fields(&fs),
        texts(&["-2147483648", "0", "1234567", "é", "1", "0"])
    );
}

#[test]
fn cancel_and_option_parameter_requests() {
    let m = TWSOutgoingMessage::CancelMarketData { version: 2, req_id: 12 };
    assert_eq!(m.to_fields(), texts(&["2", "2", "12"]));
    let m = TWSOutgoingMessage::RequestSecurityDefinitionOptionalParameters {
        req_id: 3,
        underlying: "TSLA".to_string(),
        exchange: "".to_string(),
        underlying_sec_type: "STK".to_string(),
        underlying_con_id: 76792991,
    };
    assert_eq!(m.to_fields(), texts(&["78", "3", "TSLA", "", "STK", "76792991"]));
}

#[test]
fn market_data_request_layout() {
    let m = TWSOutgoingMessage::RequestMarketData { version: 11, req_id: 5, contract: contract() };
    assert_eq!(
        m.to_fields(),
        texts(&[
            "1", "11", "5", "0", "TSLA", "OPT", "20210618", "610", "C", "100", "SMART", "", "USD",
            "", "", "0", "", "0", "0", "", ""
        ])
    );
}

#[test]
fn historical_request_layout() {
    let m = TWSOutgoingMessage::RequestHistoricalData {
        req_id: 1,
        contract: contract(),
        end_date_time: "".to_string(),
        bar_size: <Seconds<30> as ValidBarSize>::name().to_string(),
        duration: "10 D".to_string(),
        use_regular_trading_hours: true,
        what_to_show: HistoricalDataType::Trades,
        format_date: 1,
        keep_up_to_date: true,
    };
    let f = m.to_fields();
    assert_eq!(f.len(), 23);
    assert_eq!(f[0], Bytes::from("20"));
    assert_eq!(f[14], Bytes::from("0"));
    assert_eq!(f[16], Bytes::from("30 secs"));
    assert_eq!(f[19], Bytes::from("TRADES"));
    assert_eq!(f[22], Bytes::new());
}

#[test]
fn bar_size_names() {
    assert_eq!(<Seconds<1> as ValidBarSize>::name(), "1 sec");
    assert_eq!(<Minutes<20> as ValidBarSize>::name(), "20 mins");
    assert_eq!(<Hours<8> as ValidBarSize>::name(), "8 hours");
    assert_eq!(<Day<1> as ValidBarSize>::name(), "1 day");
    assert_eq!(<Week<1> as ValidBarSize>::name(), "1 week");
    assert_eq!(<Month<1> as ValidBarSize>::name(), "1 month");
    assert_eq!(HistoricalBarSize::FifteenMinutes.name(), "15 mins");
    assert_eq!(HistoricalDataType::OptionImpliedVolatility.name(), "OPTION_IMPLIED_VOLATILITY");
    assert_eq!(InnerOrderStatus::Cancelled.name(), "Cancelled");
}
