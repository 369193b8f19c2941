//! Value-cell conversion behaviour: round trips, narrowing boundaries,
//! null visibility, and each failure condition.

use oracle::{Error, HostValue, IntervalDS, IntervalYM, Object, ObjectType, OracleType, SqlValue,
    Timestamp};

fn cell(t: OracleType) -> SqlValue {
    SqlValue::from_oratype(&t).unwrap()
}

#[test]
fn int_round_trip_native() {
    let mut c = cell(OracleType::Int64);
    c.set_i64(-12345).unwrap();
    assert_eq!(c.as_i64().unwrap(), -12345);
    assert_eq!(c.as_string().unwrap(), "-12345");
}

#[test]
fn int_round_trip_numeric_text() {
    let mut c = cell(OracleType::Number(10, 0));
    c.set_i64(987654321).unwrap();
    assert_eq!(c.as_i64().unwrap(), 987654321);
    assert_eq!(c.as_string().unwrap(), "987654321");
}

#[test]
fn uint_round_trip_all_encodings() {
    let mut c = cell(OracleType::UInt64);
    c.set_u64(u64::MAX).unwrap();
    assert_eq!(c.as_u64().unwrap(), u64::MAX);
    let mut t = cell(OracleType::Number(20, 0));
    t.set_u64(u64::MAX).unwrap();
    assert_eq!(t.as_u64().unwrap(), u64::MAX);
    assert_eq!(t.as_string().unwrap(), "18446744073709551615");
}

#[test]
fn string_round_trip() {
    let mut c = cell(OracleType::Varchar2(40));
    c.set_string("hello world").unwrap();
    assert_eq!(c.as_string().unwrap(), "hello world");
}

#[test]
fn numeric_text_format_checked() {
    let mut c = cell(OracleType::Number(10, 2));
    c.set_string("-12.34").unwrap();
    assert_eq!(c.as_string().unwrap(), "-12.34");
    c.set_string("1.5e3").unwrap();
    assert_eq!(c.as_string().unwrap(), "1.5e3");
    assert!(matches!(c.set_string("12x"), Err(Error::ParseError(_))));
    assert!(matches!(c.set_string("1.2.3"), Err(Error::ParseError(_))));
    // The refused text leaves the previous value in place.
    assert_eq!(c.as_string().unwrap(), "1.5e3");
}

#[test]
fn bytes_round_trip_and_hex() {
    let mut c = cell(OracleType::Raw(16));
    c.set_bytes(&vec![0xDE, 0xAD, 0xBE, 0xEF]).unwrap();
    assert_eq!(c.as_bytes().unwrap(), vec![0xDE, 0xAD, 0xBE, 0xEF]);
    assert_eq!(c.as_string().unwrap(), "DEADBEEF");
    c.set_string("c0ffee").unwrap();
    assert_eq!(c.as_bytes().unwrap(), vec![0xC0, 0xFF, 0xEE]);
    assert_eq!(c.as_string().unwrap(), "C0FFEE");
    assert!(matches!(c.set_string("abc"), Err(Error::ParseError(_))));
    assert!(matches!(c.set_string("zz"), Err(Error::ParseError(_))));
}

#[test]
fn timestamp_round_trip_and_text() {
    let mut c = cell(OracleType::Timestamp(9));
    let ts = Timestamp::new(2012, 3, 4, 5, 6, 7, 123456789);
    c.set_timestamp(&ts).unwrap();
    assert_eq!(c.as_timestamp().unwrap(), ts);
    assert_eq!(c.as_string().unwrap(), "2012-03-04 05:06:07.123456789");
    let with_zone = ts.and_tz_offset(8, 45);
    c.set_timestamp(&with_zone).unwrap();
    assert_eq!(c.as_string().unwrap(), "2012-03-04 05:06:07.123456789 +08:45");
    let negative_zone = ts.and_tz_offset(-8, -45);
    c.set_timestamp(&negative_zone).unwrap();
    assert_eq!(c.as_string().unwrap(), "2012-03-04 05:06:07.123456789 -08:45");
    let date_only = Timestamp::new(2012, 3, 4, 0, 0, 0, 0).and_precision(0);
    c.set_timestamp(&date_only).unwrap();
    assert_eq!(c.as_string().unwrap(), "2012-03-04 00:00:00");
}

#[test]
fn timestamp_parsed_from_text() {
    let mut c = cell(OracleType::Timestamp(9));
    c.set_string("2012-03-04 05:06:07.123").unwrap();
    let ts = c.as_timestamp().unwrap();
    assert_eq!(ts.year, 2012);
    assert_eq!(ts.month, 3);
    assert_eq!(ts.day, 4);
    assert_eq!(ts.hour, 5);
    assert_eq!(ts.minute, 6);
    assert_eq!(ts.second, 7);
    assert_eq!(ts.nanosecond, 123000000);
    assert_eq!(ts.precision, 3);
    assert!(!ts.with_tz);
    c.set_string("2012-03-04 05:06:07 +08:45").unwrap();
    let zoned = c.as_timestamp().unwrap();
    assert_eq!(zoned.tz_hour_offset, 8);
    assert_eq!(zoned.tz_minute_offset, 45);
    assert!(zoned.with_tz);
    assert!(matches!(c.set_string("2012-13-04 05:06:07"), Err(Error::ParseError(_))));
}

#[test]
fn interval_ds_round_trip_and_text() {
    let mut c = cell(OracleType::IntervalDS(9, 9));
    let it = IntervalDS::new(1, 2, 3, 4, 123456789);
    c.set_interval_ds(&it).unwrap();
    assert_eq!(c.as_interval_ds().unwrap(), it);
    assert_eq!(c.as_string().unwrap(), "+000000001 02:03:04.123456789");
    let negative = IntervalDS::new(-1, -2, -3, -4, -123456789);
    c.set_interval_ds(&negative).unwrap();
    assert_eq!(c.as_string().unwrap(), "-000000001 02:03:04.123456789");
    c.set_string("+000000005 01:02:03.5").unwrap();
    let parsed = c.as_interval_ds().unwrap();
    assert_eq!(parsed.days, 5);
    assert_eq!(parsed.nanoseconds, 500000000);
}

#[test]
fn interval_ym_round_trip_and_text() {
    let mut c = cell(OracleType::IntervalYM(9));
    let it = IntervalYM::new(1, 2);
    c.set_interval_ym(&it).unwrap();
    assert_eq!(c.as_interval_ym().unwrap(), it);
    assert_eq!(c.as_string().unwrap(), "+000000001-02");
    let negative = IntervalYM::new(-123456789, -2);
    c.set_interval_ym(&negative).unwrap();
    assert_eq!(c.as_string().unwrap(), "-123456789-02");
    c.set_string("-000000003-11").unwrap();
    let parsed = c.as_interval_ym().unwrap();
    assert_eq!(parsed.years, -3);
    assert_eq!(parsed.months, -11);
}

#[test]
fn bool_round_trip() {
    let mut c = cell(OracleType::Boolean);
    c.set_bool(&true).unwrap();
    assert_eq!(c.as_bool().unwrap(), true);
    c.set_bool(&false).unwrap();
    assert_eq!(c.as_bool().unwrap(), false);
}

#[test]
fn object_round_trip_and_kind_check() {
    let ot = ObjectType::new(String::from("POINT"), false);
    let mut c = cell(OracleType::Object(ot.clone()));
    let obj = Object { objtype: ot.clone(), id: 42 };
    c.set_object(&obj).unwrap();
    let back = c.as_object().unwrap();
    assert_eq!(back.id, 42);
    assert_eq!(back.objtype.name, "POINT");
    // A plain object never reads back as a collection.
    assert!(matches!(c.as_collection(), Err(Error::InvalidTypeConversion(_, _))));
}

#[test]
fn narrowing_boundaries() {
    let mut c = cell(OracleType::UInt64);
    c.set_u64(i64::MAX as u64).unwrap();
    assert_eq!(c.as_i64().unwrap(), i64::MAX);
    c.set_u64(i64::MAX as u64 + 1).unwrap();
    assert!(matches!(c.as_i64(), Err(Error::Overflow(_, _))));

    let mut s = cell(OracleType::Int64);
    s.set_i64(0).unwrap();
    assert_eq!(s.as_u64().unwrap(), 0);
    s.set_i64(-1).unwrap();
    assert!(matches!(s.as_u64(), Err(Error::Overflow(_, _))));
}

#[test]
fn overflow_error_names_the_value() {
    let mut c = cell(OracleType::UInt64);
    c.set_u64(u64::MAX).unwrap();
    match c.as_i64() {
        Err(Error::Overflow(v, t)) => {
            assert_eq!(v, "18446744073709551615");
            assert_eq!(t, "i64");
        }
        other => panic!("expected an overflow, got {:?}", other),
    }
}

#[test]
fn null_visibility() {
    let mut c = cell(OracleType::Int64);
    c.set_null().unwrap();
    assert_eq!(c.is_null().unwrap(), true);
    assert!(matches!(c.as_i64(), Err(Error::NullValue)));
    c.set_i64(7).unwrap();
    assert_eq!(c.is_null().unwrap(), false);
    assert_eq!(c.as_i64().unwrap(), 7);
    c.set_null().unwrap();
    assert_eq!(c.is_null().unwrap(), true);
}

#[test]
fn uninitialized_cell_refuses_access() {
    let mut c = SqlValue::new();
    assert!(matches!(c.as_i64(), Err(Error::UninitializedBindValue)));
    assert!(matches!(c.as_string(), Err(Error::UninitializedBindValue)));
    assert!(matches!(c.set_i64(1), Err(Error::UninitializedBindValue)));
    assert!(matches!(c.is_null(), Err(Error::UninitializedBindValue)));
    assert!(matches!(c.oracle_type(), Err(Error::UninitializedBindValue)));
}

#[test]
fn invalid_conversions_name_both_types() {
    let mut c = cell(OracleType::Boolean);
    assert!(matches!(c.as_i64(), Err(Error::InvalidTypeConversion(_, _))));
    assert!(matches!(c.set_string("x"), Err(Error::InvalidTypeConversion(_, _))));
    match c.as_i64() {
        Err(Error::InvalidTypeConversion(from, to)) => {
            assert_eq!(from, "BOOLEAN");
            assert_eq!(to, "i64");
        }
        other => panic!("expected a conversion refusal, got {:?}", other),
    }
}

#[test]
fn setter_refusal_names_host_type_first() {
    let mut c = cell(OracleType::Boolean);
    match c.set_string("x") {
        Err(Error::InvalidTypeConversion(from, to)) => {
            assert_eq!(from, "&str");
            assert_eq!(to, "BOOLEAN");
        }
        other => panic!("expected a conversion refusal, got {:?}", other),
    }
    let mut d = cell(OracleType::Date);
    match d.set_bytes(&vec![1u8]) {
        Err(Error::InvalidTypeConversion(from, to)) => {
            assert_eq!(from, "Vec<u8>");
            assert_eq!(to, "DATE");
        }
        other => panic!("expected a conversion refusal, got {:?}", other),
    }
}

#[test]
fn unsupported_type_is_reported() {
    assert!(matches!(
        SqlValue::from_oratype(&OracleType::BFILE),
        Err(Error::NotSupported(_))
    ));
}

#[test]
fn text_parses_to_integers() {
    let mut c = cell(OracleType::Varchar2(30));
    c.set_string("-42").unwrap();
    assert_eq!(c.as_i64().unwrap(), -42);
    c.set_string("+42").unwrap();
    assert_eq!(c.as_u64().unwrap(), 42);
    c.set_string("not a number").unwrap();
    assert!(matches!(c.as_i64(), Err(Error::ParseError(_))));
    c.set_string("9223372036854775808").unwrap();
    assert!(matches!(c.as_i64(), Err(Error::ParseError(_))));
    c.set_string("9223372036854775807").unwrap();
    assert_eq!(c.as_i64().unwrap(), i64::MAX);
}

#[test]
fn float_bits_pass_through() {
    let mut c = cell(OracleType::BinaryFloat);
    c.set_float_bits(0x40490FDB).unwrap();
    assert_eq!(c.get_float_bits().unwrap(), 0x40490FDB);
    // Conversions on floating-point cells are outside the library.
    assert!(matches!(c.as_i64(), Err(Error::InvalidTypeConversion(_, _))));
    assert!(matches!(c.as_string(), Err(Error::InvalidTypeConversion(_, _))));
    let mut d = cell(OracleType::BinaryDouble);
    d.set_double_bits(0x400921FB54442D18).unwrap();
    assert_eq!(d.get_double_bits().unwrap(), 0x400921FB54442D18);
}

#[test]
fn typed_null_binds_through_host_value() {
    let null = HostValue::Null(OracleType::Varchar2(60));
    match null {
        HostValue::Null(ref t) => assert!(matches!(t, OracleType::Varchar2(60))),
        _ => unreachable!(),
    }
}
