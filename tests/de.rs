use bytes::Bytes;
use gargoyle::de::{bytes_eq, DecodeError, Deserializer, Schema, Value, Variant};
use gargoyle::text::parse_i64_text;

fn fields_of(fields: &[&str]) -> Vec<Bytes> {
    fields.iter().map(|s| Bytes::from(s.to_string())).collect()
}

fn text(s: &str) -> Value {
    Value::Text(s.to_string())
}

fn variant(tag: &str, body: Vec<Schema>) -> Variant {
    Variant { tag: tag.as_bytes().to_vec(), body }
}

#[test]
fn can_deser_struct_lifetime() {
    let msg = fields_of(&["1", "foobar"]);
    let mut de = Deserializer::from_msg(&msg);
    let int = de.parse_i32().unwrap();
    let s: &str = de.get_utf8_str().unwrap();
    assert_eq!((1, "foobar"), (int, s));
    let mut de = Deserializer::from_msg(&msg);
    assert_eq!(
        de.decode(&Schema::Record(vec![Schema::I32, Schema::Text])),
        Ok(Value::Record(vec![Value::Int(1), text("foobar")]))
    );
}

#[test]
fn can_deser_bytes() {
    let msg = fields_of(&["1", "foobar"]);
    let mut de = Deserializer::from_msg(&msg);
    assert_eq!(
        de.decode(&Schema::Record(vec![Schema::I32, Schema::Bytes])),
        Ok(Value::Record(vec![Value::Int(1), Value::Bytes(Bytes::from("foobar"))]))
    );
}

#[test]
fn can_deser_bytestring() {
    let msg = fields_of(&["1", "foobar"]);
    let mut de = Deserializer::from_msg(&msg);
    assert_eq!(
        de.decode(&Schema::Record(vec![Schema::I32, Schema::Text])),
        Ok(Value::Record(vec![Value::Int(1), text("foobar")]))
    );
}

#[test]
fn can_deser_nested_struct() {
    let msg = fields_of(&["1", "foobar"]);
    let mut de = Deserializer::from_msg(&msg);
    let schema = Schema::Record(vec![Schema::I32, Schema::Record(vec![Schema::Text])]);
    assert_eq!(
        de.decode(&schema),
        Ok(Value::Record(vec![Value::Int(1), Value::Record(vec![text("foobar")])]))
    );
}

#[test]
fn can_deser_tuple() {
    let msg = fields_of(&["1", "foobar"]);
    let mut de = Deserializer::from_msg(&msg);
    assert_eq!(
        de.decode(&Schema::Record(vec![Schema::I32, Schema::Text])),
        Ok(Value::Record(vec![Value::Int(1), text("foobar")]))
    );
}

fn two_variants() -> Vec<Variant> {
    vec![
        variant("1", vec![Schema::I32, Schema::Text]),
        variant("2", vec![Schema::Text, Schema::I32]),
    ]
}

#[test]
fn can_deser_enum() {
    let msg = fields_of(&["1", "1", "foobar"]);
    let mut de = Deserializer::from_msg(&msg);
    assert_eq!(
        de.decode(&Schema::Union(two_variants())),
        Ok(Value::Variant(0, vec![Value::Int(1), text("foobar")]))
    );
}

#[test]
fn can_deser_empty_enum() {
    let msg = fields_of(&["3"]);
    let mut de = Deserializer::from_msg(&msg);
    let mut vs = two_variants();
    vs.push(variant("3", vec![]));
    assert_eq!(de.decode(&Schema::Union(vs)), Ok(Value::Variant(2, vec![])));
}

#[test]
fn can_deser_option_some() {
    let msg = fields_of(&["1", "foobar"]);
    let mut de = Deserializer::from_msg(&msg);
    let schema = Schema::Record(vec![Schema::I32, Schema::Opt(Box::new(Schema::Text))]);
    assert_eq!(
        de.decode(&schema),
        Ok(Value::Record(vec![Value::Int(1), Value::Present(Box::new(text("foobar")))]))
    );
}

#[test]
fn can_deser_option_none() {
    let msg = fields_of(&["1", ""]);
    let mut de = Deserializer::from_msg(&msg);
    let schema = Schema::Record(vec![Schema::I32, Schema::Opt(Box::new(Schema::Text))]);
    assert_eq!(de.decode(&schema), Ok(Value::Record(vec![Value::Int(1), Value::Absent])));
}

#[test]
fn can_deser_vec() {
    let msg = fields_of(&["2", "1", "2"]);
    let mut de = Deserializer::from_msg(&msg);
    let schema = Schema::Record(vec![Schema::List(Box::new(Schema::Text))]);
    assert_eq!(
        de.decode(&schema),
        Ok(Value::Record(vec![Value::List(vec![text("1"), text("2")])]))
    );
}

#[test]
fn can_deser_vec_of_tup() {
    let msg = fields_of(&["1", "1", "2"]);
    let mut de = Deserializer::from_msg(&msg);
    let schema = Schema::Record(vec![Schema::List(Box::new(Schema::Record(vec![
        Schema::Text,
        Schema::Text,
    ])))]);
    assert_eq!(
        de.decode(&schema),
        Ok(Value::Record(vec![Value::List(vec![Value::Record(vec![text("1"), text("2")])])]))
    );
}

#[test]
fn cannot_deser_too_short_vec() {
    let msg = fields_of(&["2", "1"]);
    let mut de = Deserializer::from_msg(&msg);
    let schema = Schema::Record(vec![Schema::List(Box::new(Schema::Text))]);
    assert_eq!(Err(DecodeError::Eof), de.decode(&schema));
}

#[test]
fn cannot_deser_missing_tup_field() {
    let msg = fields_of(&["1"]);
    let mut de = Deserializer::from_msg(&msg);
    assert_eq!(Err(DecodeError::Eof), de.decode(&Schema::Record(vec![Schema::I32, Schema::Text])));
}

#[test]
fn absent_optional_in_the_middle_keeps_alignment() {
    let msg = fields_of(&["", "7", "x"]);
    let mut de = Deserializer::from_msg(&msg);
    let schema = Schema::Record(vec![Schema::Opt(Box::new(Schema::I32)), Schema::I32, Schema::Text]);
    assert_eq!(
        de.decode(&schema),
        Ok(Value::Record(vec![Value::Absent, Value::Int(7), text("x")]))
    );
    assert_eq!(de.remaining(), 0);
    let msg2 = fields_of(&["5", "7", "x"]);
    let mut de = Deserializer::from_msg(&msg2);
    assert_eq!(
        de.decode(&schema),
        Ok(Value::Record(vec![Value::Present(Box::new(Value::Int(5))), Value::Int(7), text("x")]))
    );
}

#[test]
fn optional_at_end_of_frame_is_absent() {
    let msg = fields_of(&["1"]);
    let mut de = Deserializer::from_msg(&msg);
    let schema = Schema::Record(vec![Schema::I32, Schema::Opt(Box::new(Schema::I64))]);
    assert_eq!(de.decode(&schema), Ok(Value::Record(vec![Value::Int(1), Value::Absent])));
}

#[test]
fn integers_parse_with_sign_and_empty_is_zero() {
    let msg = fields_of(&["", "-2147483648", "+12", "2147483648", "1x", "-"]);
    let mut de = Deserializer::from_msg(&msg);
    assert_eq!(de.parse_i32(), Ok(0));
    assert_eq!(de.index(), 1);
    assert_eq!(de.parse_i32(), Ok(-2147483648));
    assert_eq!(de.parse_i32(), Ok(12));
    assert_eq!(de.parse_i32(), Err(DecodeError::Malformed { index: 3 }));
    assert_eq!(de.index(), 3);
    assert_eq!(de.parse_i64(), Ok(2147483648));
    assert_eq!(de.parse_i64(), Err(DecodeError::Malformed { index: 4 }));
    de.advance();
    assert_eq!(de.parse_i64(), Err(DecodeError::Malformed { index: 5 }));
    de.advance();
    assert_eq!(de.parse_i64(), Err(DecodeError::Eof));
}

#[test]
fn integer_text_limits() {
    assert_eq!(parse_i64_text(b"9223372036854775807"), Some(i64::MAX));
    assert_eq!(parse_i64_text(b"-9223372036854775808"), Some(i64::MIN));
    assert_eq!(parse_i64_text(b"9223372036854775808"), None);
    assert_eq!(parse_i64_text(b"000000000000000000000000000042"), Some(42));
    assert_eq!(parse_i64_text(b"99999999999999999999999999999999999999999"), None);
    assert_eq!(parse_i64_text(b""), None);
    assert_eq!(parse_i64_text(b" 1"), None);
}

#[test]
fn flags_follow_the_zero_is_true_convention() {
    let msg = fields_of(&["0", "1", "", "x"]);
    let mut de = Deserializer::from_msg(&msg);
    assert_eq!(de.parse_bool(), Ok(true));
    assert_eq!(de.parse_bool(), Ok(false));
    assert_eq!(de.parse_bool(), Ok(false));
    assert_eq!(de.parse_bool(), Err(DecodeError::Malformed { index: 3 }));
}

#[test]
fn decimals_are_fixed_point_bits() {
    let msg = fields_of(&["10.5", "", "-1.0", "abc"]);
    let mut de = Deserializer::from_msg(&msg);
    assert_eq!(de.decode(&Schema::Decimal), Ok(Value::Decimal(21 << 19)));
    assert_eq!(de.decode(&Schema::Decimal), Ok(Value::Decimal(0)));
    assert_eq!(de.decode(&Schema::Decimal), Ok(Value::Decimal(-(1 << 20))));
    assert_eq!(de.decode(&Schema::Decimal), Err(DecodeError::Malformed { index: 3 }));
}

#[test]
fn invalid_utf8_is_malformed_and_bytes_pass_through() {
    let msg = vec![Bytes::from(vec![0xffu8, 0xfe]), Bytes::from("é")];
    let mut de = Deserializer::from_msg(&msg);
    assert!(de.current_is_empty() == false);
    assert_eq!(de.peek_utf8_str(), Err(DecodeError::Malformed { index: 0 }));
    assert_eq!(de.take_bytes(), Ok(Bytes::from(vec![0xffu8, 0xfe])));
    assert_eq!(de.get_utf8_str(), Ok("é"));
    assert!(de.current_is_empty());
    assert_eq!(de.take_bytes(), Err(DecodeError::Eof));
}

#[test]
fn unknown_tag_and_negative_count() {
    let msg = fields_of(&["9", "1"]);
    let mut de = Deserializer::from_msg(&msg);
    assert_eq!(
        de.decode(&Schema::Union(two_variants())),
        Err(DecodeError::UnknownVariant { index: 0 })
    );
    let msg2 = fields_of(&["01", "1", "x"]);
    let mut de = Deserializer::from_msg(&msg2);
    assert_eq!(
        de.decode(&Schema::Union(two_variants())),
        Err(DecodeError::UnknownVariant { index: 0 })
    );
    let msg3 = fields_of(&["-1"]);
    let mut de = Deserializer::from_msg(&msg3);
    assert_eq!(
        de.decode(&Schema::List(Box::new(Schema::Text))),
        Err(DecodeError::Malformed { index: 0 })
    );
}

#[test]
fn byte_equality() {
    assert!(bytes_eq(b"151", b"151"));
    assert!(!bytes_eq(b"151", b"15"));
    assert!(!bytes_eq(b"151", b"152"));
}
