use bytes::{BufMut, Bytes, BytesMut};
use gargoyle::codec::TWSCodec;
use gargoyle::de::DecodeError;
use gargoyle::messages::{
    Currency, HistoricalBarData, MarketDataType, TWSIncommingMessage, TWSIncommingMessageImpl,
    TickType,
};
use std::str::FromStr;

fn msg(fields: &[&str]) -> Vec<Bytes> {
    fields.iter().map(|s| Bytes::from(s.to_string())).collect()
}

fn dec(s: &str) -> Currency {
    Currency { bits: fixed::types::I44F20::from_str(s).unwrap().to_bits() }
}

#[test]
fn can_deser_managed_account() {
    let m = TWSIncommingMessage::from_decoded_message(msg(&["15", "1", "DU3113049"])).unwrap();
    assert_eq!(
        &TWSIncommingMessageImpl::ManagedAccounts {
            msg_version: 1,
            account_list: "DU3113049".to_string()
        },
        m.get_msg()
    );
}

#[test]
fn can_deser_historical_dat_update() {
    let fields = msg(&[
        "90",
        "0",
        "-1",
        "20210419  15:56:15",
        "10.30",
        "10.20",
        "10.35",
        "10.00",
        "-1.0",
        "-1",
    ]);
    let m = TWSIncommingMessage::from_decoded_message(fields).unwrap();
    assert_eq!(
        &TWSIncommingMessageImpl::HistoricalDataUpdate {
            req_id: 0,
            bar: HistoricalBarData {
                date: "20210419  15:56:15".to_string(),
                open: dec("10.30"),
                high: dec("10.35"),
                low: dec("10.0"),
                close: dec("10.20"),
                wap: Some(dec("-1.0")),
                volume: Some(-1),
                trade_count: Some(-1)
            }
        },
        m.get_msg()
    );
}

#[test]
fn can_transmute() {
    let bytes = msg(&["15", "1", "DU3113049"]);
    let res = TWSIncommingMessage::from_decoded_message(bytes.clone()).unwrap();
    assert_eq!(
        &TWSIncommingMessageImpl::ManagedAccounts {
            msg_version: 1,
            account_list: "DU3113049".to_string()
        },
        res.get_msg()
    );
    assert_eq!(res.fields(), &bytes);
    assert_eq!(res.unread_fields(), 0);
}

#[test]
fn tick_messages_carry_their_request() {
    let m = TWSIncommingMessage::from_decoded_message(msg(&["1", "6", "42", "1", "101.25", "3", "0"]))
        .unwrap();
    assert_eq!(
        m.get_msg(),
        &TWSIncommingMessageImpl::TickPrice {
            msg_version: 6,
            req_id: 42,
            tick_type: TickType::Bid,
            price: dec("101.25"),
            size: 3,
            attrib: 0
        }
    );
    assert_eq!(m.get_msg().get_req_id(), Some(42));
    let m = TWSIncommingMessage::from_decoded_message(msg(&["2", "6", "7", "UNSET_INTEGER", "5"]))
        .unwrap();
    assert_eq!(
        m.get_msg(),
        &TWSIncommingMessageImpl::TickSize { msg_version: 6, req_id: 7, tick_type: TickType::NotSet, size: 5 }
    );
    let m = TWSIncommingMessage::from_decoded_message(msg(&["58", "1", "9", "3"])).unwrap();
    assert_eq!(
        m.get_msg(),
        &TWSIncommingMessageImpl::MarketDataType { msg_version: 1, req_id: 9, data_type: MarketDataType::Delayed }
    );
    assert_eq!(m.get_msg().get_req_id(), Some(9));
}

#[test]
fn connection_level_messages_have_no_request() {
    let m = TWSIncommingMessage::from_decoded_message(msg(&["9", "1", "1000"])).unwrap();
    assert_eq!(m.get_msg(), &TWSIncommingMessageImpl::NextValidId { msg_version: 1, order_id: 1000 });
    assert_eq!(m.get_msg().get_req_id(), None);
    let m = TWSIncommingMessage::from_decoded_message(msg(&["52", "1", "17"])).unwrap();
    assert_eq!(m.get_msg(), &TWSIncommingMessageImpl::ContractDataEnd);
    assert_eq!(m.unread_fields(), 2);
}

#[test]
fn historical_data_lists_bars() {
    let m = TWSIncommingMessage::from_decoded_message(msg(&[
        "17", "3", "20210101", "20210102", "2", "20210101 10:00:00", "1.5", "2", "1", "1.75", "100",
        "", "", "20210101 10:00:30", "1.75", "1.75", "1.75", "1.75", "", "1.7", "4",
    ]))
    .unwrap();
    let bar1 = HistoricalBarData {
        date: "20210101 10:00:00".to_string(),
        open: dec("1.5"),
        high: dec("2"),
        low: dec("1"),
        close: dec("1.75"),
        volume: Some(100),
        wap: None,
        trade_count: None,
    };
    let bar2 = HistoricalBarData {
        date: "20210101 10:00:30".to_string(),
        open: dec("1.75"),
        high: dec("1.75"),
        low: dec("1.75"),
        close: dec("1.75"),
        volume: None,
        wap: Some(dec("1.7")),
        trade_count: Some(4),
    };
    assert_eq!(
        m.get_msg(),
        &TWSIncommingMessageImpl::HistoricalData {
            req_id: 3,
            start_date: "20210101".to_string(),
            end_date: "20210102".to_string(),
            bars: vec![bar1, bar2]
        }
    );
}

#[test]
fn option_parameters_list_texts() {
    let m = TWSIncommingMessage::from_decoded_message(msg(&[
        "75", "4", "SMART", "76792991", "TSLA", "100", "2", "20210423", "20210430", "1", "750",
    ]))
    .unwrap();
    assert_eq!(
        m.get_msg(),
        &TWSIncommingMessageImpl::SecurityDefinitionOptionParameter {
            req_id: 4,
            exchange: "SMART".to_string(),
            underlying_con_id: 76792991,
            trading_class: "TSLA".to_string(),
            multiplier: "100".to_string(),
            expirations: vec!["20210423".to_string(), "20210430".to_string()],
            strikes: vec!["750".to_string()]
        }
    );
}

#[test]
fn unknown_tag_fails_and_next_frame_decodes() {
    let mut c = TWSCodec::new();
    let mut buf = BytesMut::new();
    for payload in [&b"999\x001\x00x"[..], &b"15\x001\x00DU3113049"[..]] {
        buf.put_u32(payload.len() as u32);
        buf.put(payload);
    }
    let first = c.decode(&mut buf).unwrap().unwrap();
    assert!(matches!(
        TWSIncommingMessage::from_decoded_message(first),
        Err(DecodeError::UnknownVariant { index: 0 })
    ));
    let second = c.decode(&mut buf).unwrap().unwrap();
    let m = TWSIncommingMessage::from_decoded_message(second).unwrap();
    assert_eq!(
        m.get_msg(),
        &TWSIncommingMessageImpl::ManagedAccounts { msg_version: 1, account_list: "DU3113049".to_string() }
    );
}

#[test]
fn truncated_and_malformed_messages() {
    assert!(matches!(
        TWSIncommingMessage::from_decoded_message(msg(&["4", "2", "5"])),
        Err(DecodeError::Eof)
    ));
    assert!(matches!(
        TWSIncommingMessage::from_decoded_message(msg(&["4", "2", "five", "200", "x"])),
        Err(DecodeError::Malformed { index: 2 })
    ));
    assert!(matches!(
        TWSIncommingMessage::from_decoded_message(Vec::new()),
        Err(DecodeError::Eof)
    ));
}

#[test]
fn histogram_and_order_status_decode() {
    let m = TWSIncommingMessage::from_decoded_message(msg(&["89", "3", "2", "1.5", "10", "2.5", "20"]))
        .unwrap();
    assert_eq!(
        m.get_msg(),
        &TWSIncommingMessageImpl::HistogramData {
            req_id: 3,
            data: vec![("1.5".to_string(), 10), ("2.5".to_string(), 20)]
        }
    );
    assert_eq!(m.get_msg().get_req_id(), Some(3));
    let m = TWSIncommingMessage::from_decoded_message(msg(&[
        "3", "12", "Submitted", "0", "100", "0", "7", "0", "0", "1", "", "0",
    ]))
    .unwrap();
    assert_eq!(
        m.get_msg(),
        &TWSIncommingMessageImpl::OrderStatus {
            id: 12,
            status: "Submitted".to_string(),
            filled_amount: "0".to_string(),
            remaining_amount: "100".to_string(),
            avg_fill_price: dec("0"),
            perm_id: 7,
            parent_id: 0,
            last_fill_price: dec("0"),
            client_id: 1,
            why_held: "".to_string(),
            market_cap_price: dec("0")
        }
    );
    assert_eq!(m.get_msg().get_req_id(), None);
}
