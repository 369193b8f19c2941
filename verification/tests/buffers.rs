//! Buffer allocation and reuse, and large-object streaming.

use oracle::{ObjectType, OracleType, SqlValue};

#[test]
fn init_handle_reuses_identical_request() {
    let mut c = SqlValue::new();
    assert_eq!(c.init_handle(&OracleType::Varchar2(10), 1).unwrap(), true);
    // The identical type and capacity reuse the buffer.
    assert_eq!(c.init_handle(&OracleType::Varchar2(10), 1).unwrap(), false);
    // A shorter string fits the existing buffer.
    assert_eq!(c.init_handle(&OracleType::Varchar2(5), 1).unwrap(), false);
    // A longer string forces a fresh buffer.
    assert_eq!(c.init_handle(&OracleType::Varchar2(11), 1).unwrap(), true);
}

#[test]
fn init_handle_reallocates_on_capacity_change() {
    let mut c = SqlValue::new();
    assert_eq!(c.init_handle(&OracleType::Int64, 4).unwrap(), true);
    assert_eq!(c.init_handle(&OracleType::Int64, 4).unwrap(), false);
    assert_eq!(c.init_handle(&OracleType::Int64, 5).unwrap(), true);
}

#[test]
fn init_handle_reallocates_on_type_code_change() {
    let mut c = SqlValue::new();
    assert_eq!(c.init_handle(&OracleType::Varchar2(10), 1).unwrap(), true);
    assert_eq!(c.init_handle(&OracleType::Char(10), 1).unwrap(), true);
    assert_eq!(c.init_handle(&OracleType::Number(10, 0), 1).unwrap(), true);
    // Numeric parameters outside the character family never force a fresh
    // buffer while the code is unchanged.
    assert_eq!(c.init_handle(&OracleType::Number(5, 2), 1).unwrap(), false);
}

#[test]
fn init_handle_object_family_compares_types() {
    let point = ObjectType::new(String::from("POINT"), false);
    let line = ObjectType::new(String::from("LINE"), false);
    let mut c = SqlValue::new();
    assert_eq!(c.init_handle(&OracleType::Object(point.clone()), 1).unwrap(), true);
    assert_eq!(c.init_handle(&OracleType::Object(point.clone()), 1).unwrap(), false);
    assert_eq!(c.init_handle(&OracleType::Object(line), 1).unwrap(), true);
}

#[test]
fn fresh_buffer_starts_null() {
    let mut c = SqlValue::new();
    c.init_handle(&OracleType::Int64, 1).unwrap();
    assert_eq!(c.is_null().unwrap(), true);
    c.set_i64(3).unwrap();
    assert_eq!(c.is_null().unwrap(), false);
    // Reuse keeps the stored value; reallocation resets it to null.
    c.init_handle(&OracleType::Int64, 1).unwrap();
    assert_eq!(c.as_i64().unwrap(), 3);
    c.init_handle(&OracleType::Int64, 2).unwrap();
    assert_eq!(c.is_null().unwrap(), true);
}

#[test]
fn clob_streams_large_payloads_exactly() {
    // Several multiples of the 8192-unit read window, not aligned to it.
    let mut payload = String::new();
    let mut i = 0usize;
    while payload.len() < 3 * 8192 + 1234 {
        payload.push(char::from(b'a' + (i % 26) as u8));
        i += 1;
    }
    let mut c = SqlValue::from_oratype(&OracleType::CLOB).unwrap();
    c.set_string(&payload).unwrap();
    assert_eq!(c.as_string().unwrap(), payload);
    assert_eq!(c.is_null().unwrap(), false);
}

#[test]
fn clob_round_trips_at_window_boundary() {
    let exact: String = "x".repeat(2 * 8192);
    let mut c = SqlValue::from_oratype(&OracleType::CLOB).unwrap();
    c.set_string(&exact).unwrap();
    assert_eq!(c.as_string().unwrap(), exact);
    let empty = String::new();
    c.set_string(&empty).unwrap();
    assert_eq!(c.as_string().unwrap(), "");
}

#[test]
fn blob_streams_hex_exactly() {
    let mut payload: Vec<u8> = Vec::new();
    let mut i = 0usize;
    while payload.len() < 2 * 8192 + 77 {
        payload.push((i % 251) as u8);
        i += 1;
    }
    let mut c = SqlValue::from_oratype(&OracleType::BLOB).unwrap();
    c.set_bytes(&payload).unwrap();
    let hex = c.as_string().unwrap();
    assert_eq!(hex.len(), 2 * payload.len());
    // Writing the hexadecimal text back reconstructs the bytes.
    let mut d = SqlValue::from_oratype(&OracleType::Raw(20000)).unwrap();
    d.set_string(&hex).unwrap();
    assert_eq!(d.as_bytes().unwrap(), payload);
}

#[test]
fn clob_accepts_integer_reads() {
    let mut c = SqlValue::from_oratype(&OracleType::CLOB).unwrap();
    c.set_string("12345").unwrap();
    assert_eq!(c.as_i64().unwrap(), 12345);
}
