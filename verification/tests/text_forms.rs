//! Text renderings: type names, statement kinds, column descriptions, and
//! the canonical date-time forms.

use oracle::{ColumnInfo, Error, IntervalDS, IntervalYM, OracleType, SqlValue, Statement,
    StatementType, Timestamp};

#[test]
fn type_names_render_with_parameters() {
    assert_eq!(OracleType::Varchar2(60).name_text(), "VARCHAR2(60)");
    assert_eq!(OracleType::Number(4, 0).name_text(), "NUMBER(4)");
    assert_eq!(OracleType::Number(7, 2).name_text(), "NUMBER(7,2)");
    assert_eq!(OracleType::Number(0, 0).name_text(), "NUMBER");
    assert_eq!(OracleType::Date.name_text(), "DATE");
    assert_eq!(OracleType::Timestamp(9).name_text(), "TIMESTAMP(9)");
    assert_eq!(OracleType::TimestampTZ(6).name_text(), "TIMESTAMP(6) WITH TIME ZONE");
    assert_eq!(OracleType::IntervalDS(2, 6).name_text(), "INTERVAL DAY(2) TO SECOND(6)");
    assert_eq!(OracleType::IntervalYM(9).name_text(), "INTERVAL YEAR(9) TO MONTH");
    assert_eq!(OracleType::Raw(16).name_text(), "RAW(16)");
    assert_eq!(OracleType::BinaryFloat.name_text(), "BINARY_FLOAT");
    assert_eq!(OracleType::Boolean.name_text(), "BOOLEAN");
}

#[test]
fn statement_kinds_render() {
    assert_eq!(StatementType::Select.name_text(), "select");
    assert_eq!(StatementType::Begin.name_text(), "PL/SQL(begin)");
    assert_eq!(StatementType::Declare.name_text(), "PL/SQL(declare)");
    assert_eq!(StatementType::Other(3).name_text(), "other(3)");
}

#[test]
fn column_and_cell_descriptions() {
    let not_null = ColumnInfo::new(String::from("EMPNO"), OracleType::Number(4, 0), false);
    assert_eq!(not_null.description(), "EMPNO NUMBER(4) NOT NULL");
    let nullable = ColumnInfo::new(String::from("ENAME"), OracleType::Varchar2(10), true);
    assert_eq!(nullable.description(), "ENAME VARCHAR2(10)");

    let cell = SqlValue::from_oratype(&OracleType::Varchar2(60)).unwrap();
    assert_eq!(cell.description(), "SqlValue(VARCHAR2(60))");
    assert_eq!(SqlValue::new().description(), "SqlValue(uninitialized)");
}

#[test]
fn interval_ds_renders_the_canonical_literals() {
    let mut c = SqlValue::from_oratype(&OracleType::IntervalDS(9, 9)).unwrap();
    c.set_interval_ds(&IntervalDS::new(1, 2, 3, 4, 0)).unwrap();
    assert_eq!(c.as_string().unwrap(), "+000000001 02:03:04.000000000");
    c.set_interval_ds(&IntervalDS::new(123456789, 2, 3, 4, 123456789)).unwrap();
    assert_eq!(c.as_string().unwrap(), "+123456789 02:03:04.123456789");
    c.set_interval_ds(&IntervalDS::new(-123456789, -2, -3, -4, -123456789)).unwrap();
    assert_eq!(c.as_string().unwrap(), "-123456789 02:03:04.123456789");
    c.set_interval_ds(&IntervalDS::new(999999999, 23, 59, 59, 999999999)).unwrap();
    assert_eq!(c.as_string().unwrap(), "+999999999 23:59:59.999999999");
}

#[test]
fn interval_ym_renders_the_canonical_literals() {
    let mut c = SqlValue::from_oratype(&OracleType::IntervalYM(9)).unwrap();
    c.set_interval_ym(&IntervalYM::new(1, 2)).unwrap();
    assert_eq!(c.as_string().unwrap(), "+000000001-02");
    c.set_interval_ym(&IntervalYM::new(123456789, 2)).unwrap();
    assert_eq!(c.as_string().unwrap(), "+123456789-02");
    c.set_interval_ym(&IntervalYM::new(-1, -2)).unwrap();
    assert_eq!(c.as_string().unwrap(), "-000000001-02");
}

#[test]
fn timestamp_precision_controls_the_fraction() {
    let ts = Timestamp::new(2012, 3, 4, 5, 6, 7, 123456789);
    let mut c = SqlValue::from_oratype(&OracleType::Timestamp(9)).unwrap();
    c.set_timestamp(&ts.and_precision(6)).unwrap();
    assert_eq!(c.as_string().unwrap(), "2012-03-04 05:06:07.123456");
    c.set_timestamp(&ts.and_precision(3)).unwrap();
    assert_eq!(c.as_string().unwrap(), "2012-03-04 05:06:07.123");
    c.set_timestamp(&ts.and_precision(0)).unwrap();
    assert_eq!(c.as_string().unwrap(), "2012-03-04 05:06:07");
}

#[test]
fn date_only_text_parses_to_midnight() {
    let mut c = SqlValue::from_oratype(&OracleType::Date).unwrap();
    c.set_string("2012-03-04").unwrap();
    let ts = c.as_timestamp().unwrap();
    assert_eq!((ts.year, ts.month, ts.day), (2012, 3, 4));
    assert_eq!((ts.hour, ts.minute, ts.second, ts.nanosecond), (0, 0, 0, 0));
}

#[test]
fn min_signed_value_round_trips_in_text() {
    let mut c = SqlValue::from_oratype(&OracleType::Number(20, 0)).unwrap();
    c.set_i64(i64::MIN).unwrap();
    assert_eq!(c.as_string().unwrap(), "-9223372036854775808");
    assert_eq!(c.as_i64().unwrap(), i64::MIN);
}

#[test]
fn unsupported_column_type_refuses_execution() {
    let outcome = oracle::ExecOutcome {
        fetch_array_size: 100,
        columns: vec![ColumnInfo::new(String::from("F"), OracleType::BFILE, true)],
    };
    let mut st = Statement::prepare("select f from t");
    assert!(matches!(st.execute(&Vec::new(), &outcome), Err(Error::NotSupported(_))));
}
