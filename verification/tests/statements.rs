//! The statement lifecycle: preparation, the bind directory, execution
//! against a reported outcome, and row fetch.

use oracle::{ColumnInfo, DataSlot, Error, ExecOutcome, HostValue, NativeValue, OracleType,
    Statement, StatementType};

fn no_columns() -> ExecOutcome {
    ExecOutcome { fetch_array_size: 100, columns: Vec::new() }
}

#[test]
fn statement_kinds_by_first_word() {
    assert_eq!(Statement::prepare("select * from t").statement_type(), StatementType::Select);
    assert_eq!(Statement::prepare("  WITH x AS (select 1) select * from x").statement_type(),
        StatementType::Select);
    assert_eq!(Statement::prepare("insert into t values (1)").statement_type(),
        StatementType::Insert);
    assert_eq!(Statement::prepare("UPDATE t SET a = 1").statement_type(), StatementType::Update);
    assert_eq!(Statement::prepare("delete from t").statement_type(), StatementType::Delete);
    assert_eq!(Statement::prepare("merge into t using d on (1=1)").statement_type(),
        StatementType::Merge);
    assert_eq!(Statement::prepare("create table t (a number)").statement_type(),
        StatementType::Create);
    assert_eq!(Statement::prepare("alter table t add b number").statement_type(),
        StatementType::Alter);
    assert_eq!(Statement::prepare("drop table t").statement_type(), StatementType::Drop);
    assert_eq!(Statement::prepare("begin null; end;").statement_type(), StatementType::Begin);
    assert_eq!(Statement::prepare("declare x number; begin null; end;").statement_type(),
        StatementType::Declare);
    assert_eq!(Statement::prepare("commit").statement_type(), StatementType::Other(0));
}

#[test]
fn returning_clause_detected() {
    let st = Statement::prepare("insert into t (a) values (:1) returning id into :2");
    assert!(st.is_returning());
    let plain = Statement::prepare("insert into t (a) values (:1)");
    assert!(!plain.is_returning());
    // A query never carries a returning clause, whatever its text holds.
    let query = Statement::prepare("select returning from t");
    assert!(!query.is_returning());
    // The word inside a longer name does not count.
    let fake = Statement::prepare("insert into returnings values (:1)");
    assert!(!fake.is_returning());
}

#[test]
fn bind_count_counts_markers_for_sql_and_names_for_plsql() {
    let query = Statement::prepare("select :v1, :v2, :v1 from dual");
    assert_eq!(query.bind_count(), 3);
    assert_eq!(query.bind_names().len(), 2);
    assert_eq!(query.bind_names()[0], "V1");
    assert_eq!(query.bind_names()[1], "V2");

    let block = Statement::prepare("begin :v1 := :v1 || :v2; end;");
    assert_eq!(block.bind_count(), 2);
    assert_eq!(block.bind_names().len(), 2);
    assert_eq!(block.bind_names()[0], "V1");
    assert_eq!(block.bind_names()[1], "V2");
}

#[test]
fn markers_in_literals_and_comments_do_not_count() {
    let st = Statement::prepare(
        "select ':x', \":y\" -- :z\n, /* :w */ :a from t",
    );
    assert_eq!(st.bind_count(), 1);
    assert_eq!(st.bind_names()[0], "A");
}

#[test]
fn bind_names_resolve_case_insensitively() {
    let mut st = Statement::prepare("begin :val1 := :val2; end;");
    st.bind("val1", &HostValue::Int(41)).unwrap();
    let cell = st.bind_value("VAL1").unwrap();
    assert_eq!(cell.as_i64().unwrap(), 41);
    // The same slot under a third spelling.
    let again = st.bind_value("Val1").unwrap();
    assert_eq!(again.as_i64().unwrap(), 41);
    // The other slot stays independent.
    st.bind("VAL2", &HostValue::Int(2)).unwrap();
    assert_eq!(st.bind_value("val2").unwrap().as_i64().unwrap(), 2);
    assert_eq!(st.bind_value(1usize).unwrap().as_i64().unwrap(), 41);
}

#[test]
fn bad_bind_references_are_refused() {
    let mut st = Statement::prepare("select :a from t where b = :b");
    assert!(matches!(st.bind(0usize, &HostValue::Int(1)), Err(Error::InvalidBindIndex(0))));
    assert!(matches!(st.bind(3usize, &HostValue::Int(1)), Err(Error::InvalidBindIndex(3))));
    assert!(matches!(st.bind("missing", &HostValue::Int(1)), Err(Error::InvalidBindName(_))));
}

#[test]
fn bind_buffer_reuse_across_executions() {
    let mut st = Statement::prepare("insert into t values (:1)");
    let reply = no_columns();
    st.execute(&vec![HostValue::Text(String::from("abc"))], &reply).unwrap();
    assert_eq!(st.bind_value(1usize).unwrap().as_string().unwrap(), "abc");
    // The common case: a repeated execution with the same parameter type
    // writes into the same buffer.
    st.execute(&vec![HostValue::Text(String::from("xy"))], &reply).unwrap();
    assert_eq!(st.bind_value(1usize).unwrap().as_string().unwrap(), "xy");
    // Type drift re-shapes the slot.
    st.execute(&vec![HostValue::Int(5)], &reply).unwrap();
    assert_eq!(st.bind_value(1usize).unwrap().as_i64().unwrap(), 5);
}

#[test]
fn typed_null_bind_reads_back_null() {
    let mut st = Statement::prepare("insert into t values (:1)");
    st.bind(1usize, &HostValue::Null(OracleType::Varchar2(60))).unwrap();
    let cell = st.bind_value(1usize).unwrap();
    assert_eq!(cell.is_null().unwrap(), true);
}

fn int_row(vals: &[i64]) -> Vec<DataSlot> {
    vals.iter().map(|v| DataSlot { is_null: false, value: NativeValue::Int64(*v) }).collect()
}

fn one_int_column_outcome() -> ExecOutcome {
    ExecOutcome {
        fetch_array_size: 100,
        columns: vec![ColumnInfo::new(String::from("N"), OracleType::Number(4, 0), true)],
    }
}

#[test]
fn fetch_returns_rows_then_no_more_data() {
    let mut st = Statement::prepare("select n from t");
    st.execute(&Vec::new(), &one_int_column_outcome()).unwrap();
    st.deliver_rows(vec![int_row(&[10]), int_row(&[20]), int_row(&[30])], true).unwrap();
    let r1 = st.fetch().unwrap();
    assert_eq!(r1.get(0usize).unwrap().as_i64().unwrap(), 10);
    let r2 = st.fetch().unwrap();
    assert_eq!(r2.get(0usize).unwrap().as_i64().unwrap(), 20);
    let r3 = st.fetch().unwrap();
    assert_eq!(r3.get(0usize).unwrap().as_i64().unwrap(), 30);
    assert!(matches!(st.fetch(), Err(Error::NoMoreData)));
    // Exhaustion is terminal: every further call reports the same.
    assert!(matches!(st.fetch(), Err(Error::NoMoreData)));
    assert!(matches!(st.fetch(), Err(Error::NoMoreData)));
}

#[test]
fn fetch_spans_several_deliveries() {
    let mut st = Statement::prepare("select n from t");
    st.execute(&Vec::new(), &one_int_column_outcome()).unwrap();
    st.deliver_rows(vec![int_row(&[1])], false).unwrap();
    assert_eq!(st.fetch().unwrap().get(0usize).unwrap().as_i64().unwrap(), 1);
    // The buffer is exhausted but the server has more: the session owes
    // another round trip before the next fetch.
    assert!(matches!(st.fetch(), Err(Error::InternalError(_))));
    st.deliver_rows(vec![int_row(&[2])], true).unwrap();
    assert_eq!(st.fetch().unwrap().get(0usize).unwrap().as_i64().unwrap(), 2);
    assert!(matches!(st.fetch(), Err(Error::NoMoreData)));
}

#[test]
fn integer_precision_column_reads_back_exact() {
    // A numeric column with precision four and scale zero is buffered as a
    // 64-bit integer and reads back exactly.
    let mut st = Statement::prepare("select n from t");
    st.execute(&Vec::new(), &one_int_column_outcome()).unwrap();
    st.deliver_rows(vec![int_row(&[9999])], true).unwrap();
    let row = st.fetch().unwrap();
    let cell = row.get(0usize).unwrap();
    assert_eq!(cell.as_i64().unwrap(), 9999);
    // The reported metadata keeps the declared type.
    assert!(matches!(st.column_info()[0].oracle_type(), OracleType::Number(4, 0)));
}

#[test]
fn scaled_numeric_column_reads_back_through_text() {
    let outcome = ExecOutcome {
        fetch_array_size: 100,
        columns: vec![ColumnInfo::new(String::from("AMOUNT"), OracleType::Number(7, 2), true)],
    };
    let mut st = Statement::prepare("select amount from t");
    st.execute(&Vec::new(), &outcome).unwrap();
    let row = vec![DataSlot {
        is_null: false,
        value: NativeValue::Text("12.34".chars().collect()),
    }];
    st.deliver_rows(vec![row], true).unwrap();
    let fetched = st.fetch().unwrap();
    let cell = fetched.get(0usize).unwrap();
    assert_eq!(cell.as_string().unwrap(), "12.34");
}

#[test]
fn columns_are_addressable_by_name() {
    let outcome = ExecOutcome {
        fetch_array_size: 100,
        columns: vec![
            ColumnInfo::new(String::from("ID"), OracleType::Int64, false),
            ColumnInfo::new(String::from("NAME"), OracleType::Varchar2(30), true),
        ],
    };
    let mut st = Statement::prepare("select id, name from t");
    st.execute(&Vec::new(), &outcome).unwrap();
    assert_eq!(st.column_count(), 2);
    assert_eq!(st.column_names(), vec![String::from("ID"), String::from("NAME")]);
    let row = vec![
        DataSlot { is_null: false, value: NativeValue::Int64(7) },
        DataSlot { is_null: false, value: NativeValue::Text("kim".chars().collect()) },
    ];
    st.deliver_rows(vec![row], true).unwrap();
    let fetched = st.fetch().unwrap();
    assert_eq!(fetched.get("id").unwrap().as_i64().unwrap(), 7);
    assert_eq!(fetched.get("NAME").unwrap().as_string().unwrap(), "kim");
    assert!(matches!(fetched.get("missing"), Err(Error::InvalidColumnName(_))));
    assert!(matches!(fetched.get(2usize), Err(Error::InvalidColumnIndex(2))));
}

#[test]
fn execute_named_binds_by_name() {
    let mut st = Statement::prepare("begin :out := :a + :b; end;");
    assert_eq!(st.bind_count(), 3);
    st.execute_named(
        &vec![
            (String::from("a"), HostValue::Int(2)),
            (String::from("B"), HostValue::Int(3)),
            (String::from("out"), HostValue::Null(OracleType::Int64)),
        ],
        &no_columns(),
    )
    .unwrap();
    assert_eq!(st.bind_value("A").unwrap().as_i64().unwrap(), 2);
    assert_eq!(st.bind_value("b").unwrap().as_i64().unwrap(), 3);
    assert_eq!(st.bind_value("OUT").unwrap().is_null().unwrap(), true);
}

#[test]
fn delivery_requires_an_executed_query() {
    let mut st = Statement::prepare("select n from t");
    assert!(matches!(st.deliver_rows(vec![int_row(&[1])], true), Err(Error::InternalError(_))));
    assert!(matches!(st.fetch(), Err(Error::InternalError(_))));
    let mut dml = Statement::prepare("insert into t values (1)");
    dml.execute(&Vec::new(), &no_columns()).unwrap();
    assert!(matches!(dml.fetch(), Err(Error::InternalError(_))));
}

#[test]
fn delivery_checks_the_row_shape() {
    let mut st = Statement::prepare("select n from t");
    st.execute(&Vec::new(), &one_int_column_outcome()).unwrap();
    // Wrong width.
    assert!(matches!(st.deliver_rows(vec![int_row(&[1, 2])], true), Err(Error::InternalError(_))));
    // Wrong encoding for the column.
    let bad = vec![DataSlot { is_null: false, value: NativeValue::Boolean(true) }];
    assert!(matches!(st.deliver_rows(vec![bad], true), Err(Error::InternalError(_))));
}

#[test]
fn null_column_values_read_back_null() {
    let mut st = Statement::prepare("select n from t");
    st.execute(&Vec::new(), &one_int_column_outcome()).unwrap();
    let row = vec![DataSlot { is_null: true, value: NativeValue::Int64(0) }];
    st.deliver_rows(vec![row], true).unwrap();
    let fetched = st.fetch().unwrap();
    let cell = fetched.get(0usize).unwrap();
    assert_eq!(cell.is_null().unwrap(), true);
    assert!(matches!(cell.as_i64(), Err(Error::NullValue)));
}

#[test]
fn fetch_cycles_through_the_buffer_slots() {
    // More rows than the column buffers hold per round trip: the row
    // offset wraps around and every row still reads back in order.
    let mut st = Statement::prepare("select n from t");
    st.execute(&Vec::new(), &one_int_column_outcome()).unwrap();
    let mut rows = Vec::new();
    for v in 0..250i64 {
        rows.push(int_row(&[v]));
    }
    st.deliver_rows(rows, true).unwrap();
    for v in 0..250i64 {
        let row = st.fetch().unwrap();
        assert_eq!(row.get(0usize).unwrap().as_i64().unwrap(), v);
    }
    assert!(matches!(st.fetch(), Err(Error::NoMoreData)));
}

#[test]
fn bind_names_fold_latin1_letters() {
    // The folded unique names keep accented letters upper-cased, and
    // resolution stays case-insensitive beyond ASCII.
    let mut st = Statement::prepare("BEGIN :val1 := :val2 || :val1 || :a\u{e0}\u{e1}\u{e2}\u{e3}\u{e4}\u{e5}; END;");
    assert_eq!(st.bind_count(), 3);
    assert_eq!(st.bind_names().len(), 3);
    assert_eq!(st.bind_names()[0], "VAL1");
    assert_eq!(st.bind_names()[1], "VAL2");
    assert_eq!(st.bind_names()[2], "A\u{c0}\u{c1}\u{c2}\u{c3}\u{c4}\u{c5}");
    st.bind("a\u{e0}\u{e1}\u{e2}\u{e3}\u{e4}\u{e5}", &HostValue::Int(7)).unwrap();
    let cell = st.bind_value("A\u{c0}\u{c1}\u{c2}\u{c3}\u{c4}\u{c5}").unwrap();
    assert_eq!(cell.as_i64().unwrap(), 7);
}

#[test]
fn float_bits_bind_through_host_values() {
    let mut st = Statement::prepare("insert into t values (:1, :2)");
    st.bind(1usize, &HostValue::FloatBits(0x40490FDB)).unwrap();
    st.bind(2usize, &HostValue::DoubleBits(0x400921FB54442D18)).unwrap();
    assert_eq!(st.bind_value(1usize).unwrap().get_float_bits().unwrap(), 0x40490FDB);
    assert_eq!(st.bind_value(2usize).unwrap().get_double_bits().unwrap(), 0x400921FB54442D18);
}

#[test]
fn unsupported_null_type_is_a_runtime_error() {
    let mut st = Statement::prepare("insert into t values (:1)");
    assert!(matches!(
        st.bind(1usize, &HostValue::Null(OracleType::BFILE)),
        Err(Error::NotSupported(_))
    ));
    // The slot is untouched and stays bindable.
    st.bind(1usize, &HostValue::Int(1)).unwrap();
    assert_eq!(st.bind_value(1usize).unwrap().as_i64().unwrap(), 1);
}

#[test]
fn column_capacity_follows_the_reported_size() {
    // A two-row buffer: the slots cycle while the rows keep their order.
    let outcome = ExecOutcome {
        fetch_array_size: 2,
        columns: vec![ColumnInfo::new(String::from("N"), OracleType::Number(4, 0), true)],
    };
    let mut st = Statement::prepare("select n from t");
    st.execute(&Vec::new(), &outcome).unwrap();
    st.deliver_rows(vec![int_row(&[1]), int_row(&[2]), int_row(&[3]), int_row(&[4]), int_row(&[5])], true)
        .unwrap();
    for v in 1..=5i64 {
        assert_eq!(st.fetch().unwrap().get(0usize).unwrap().as_i64().unwrap(), v);
    }
    assert!(matches!(st.fetch(), Err(Error::NoMoreData)));
}

#[test]
fn query_without_buffer_capacity_is_refused() {
    let outcome = ExecOutcome {
        fetch_array_size: 0,
        columns: vec![ColumnInfo::new(String::from("N"), OracleType::Number(4, 0), true)],
    };
    let mut st = Statement::prepare("select n from t");
    assert!(matches!(st.execute(&Vec::new(), &outcome), Err(Error::InternalError(_))));
    // A statement that is no query ignores the capacity.
    let mut dml = Statement::prepare("insert into t values (1)");
    dml.execute(&Vec::new(), &ExecOutcome { fetch_array_size: 0, columns: Vec::new() }).unwrap();
}

#[test]
fn statement_kind_names_render_from_prepared_text() {
    assert_eq!(Statement::prepare("select 1 from dual").statement_type().name_text(), "select");
}

#[test]
fn maximal_interval_binds() {
    // The boundary value exactly at the day-to-second maximum is accepted.
    let mut st = Statement::prepare("begin :out := :1; end;");
    let top = oracle::IntervalDS::new(999999999, 23, 59, 59, 999999999);
    st.bind(1usize, &HostValue::IntervalDS(top)).unwrap();
    assert_eq!(st.bind_value(1usize).unwrap().as_interval_ds().unwrap(), top);
    let bottom = oracle::IntervalDS::new(-999999999, -23, -59, -59, -999999999);
    st.bind(1usize, &HostValue::IntervalDS(bottom)).unwrap();
    assert_eq!(st.bind_value(1usize).unwrap().as_interval_ds().unwrap(), bottom);
}

#[test]
fn close_marks_the_statement() {
    let mut st = Statement::prepare("select 1 from dual");
    st.close().unwrap();
}
