//! The statement engine: preparation with client-side bind-marker
//! resolution, bind-slot allocation and reuse, execution against a
//! server-reported outcome, query-column metadata, and row-by-row fetch.

use vstd::prelude::*;

use crate::datetime::{ids_wf, iym_wf, ts_wf, IntervalDS, IntervalYM, Timestamp};
use crate::error::Error;
use crate::sqltext::{spec_find_name, spec_first_word, spec_markers, spec_unique_upper};
use crate::text::{spec_upper, str_to_chars, upper_chars};
use crate::types::{spec_catalog, OracleType, MAX_INT64_PRECISION};
use crate::value::{
    cell_like, cell_shape_eq, cell_wf, cur, fresh_buffer, value_fits, Collection, DataSlot,
    NativeValue, Object, SqlValue, ValueModel,
};

verus! {

use vstd::string::StringExecFns;
use vstd::string::StrSliceExecFns;

/// The kind of a prepared statement, classified from its first word.
#[derive(Debug, Clone, Copy, PartialEq, Eq, Structural)]
pub enum StatementType {
    /// A query.
    Select,
    /// An `INSERT` statement.
    Insert,
    /// An `UPDATE` statement.
    Update,
    /// A `DELETE` statement.
    Delete,
    /// A `MERGE` statement.
    Merge,
    /// A `CREATE` statement.
    Create,
    /// An `ALTER` statement.
    Alter,
    /// A `DROP` statement.
    Drop,
    /// A procedural block without a declare part.
    Begin,
    /// A procedural block with a declare part.
    Declare,
    /// Anything else, with a driver code this crate leaves zero.
    Other(u32),
}

/// The text form of a statement kind, as a statement listing shows it.
pub open spec fn spec_stmt_kind_name(t: StatementType) -> Seq<char> {
    match t {
        StatementType::Select => "select"@,
        StatementType::Insert => "insert"@,
        StatementType::Update => "update"@,
        StatementType::Delete => "delete"@,
        StatementType::Merge => "merge"@,
        StatementType::Create => "create"@,
        StatementType::Alter => "alter"@,
        StatementType::Drop => "drop"@,
        StatementType::Begin => "PL/SQL(begin)"@,
        StatementType::Declare => "PL/SQL(declare)"@,
        StatementType::Other(n) => "other"@ + seq!['('] + crate::text::spec_dec_digits(n as nat)
            + seq![')'],
    }
}

impl StatementType {
    /// The kind's text form ([`spec_stmt_kind_name`]).
    pub fn name_text(&self) -> (r: String)
        ensures
            r@ == spec_stmt_kind_name(*self),
    {
        match self {
            StatementType::Select => String::from_str("select"),
            StatementType::Insert => String::from_str("insert"),
            StatementType::Update => String::from_str("update"),
            StatementType::Delete => String::from_str("delete"),
            StatementType::Merge => String::from_str("merge"),
            StatementType::Create => String::from_str("create"),
            StatementType::Alter => String::from_str("alter"),
            StatementType::Drop => String::from_str("drop"),
            StatementType::Begin => String::from_str("PL/SQL(begin)"),
            StatementType::Declare => String::from_str("PL/SQL(declare)"),
            StatementType::Other(n) => {
                let mut v = str_to_chars("other");
                v.push('(');
                let digits = crate::text::format_u64(*n as u64);
                crate::types::append_chars(&mut v, &digits);
                v.push(')');
                proof {
                    assert(v@ =~= spec_stmt_kind_name(*self));
                }
                crate::text::chars_to_string(&v)
            },
        }
    }
}

/// Whether the statement kind is a procedural block, whose repeated bind
/// markers of one name unify into one slot.
pub open spec fn is_plsql(t: StatementType) -> bool {
    t == StatementType::Begin || t == StatementType::Declare
}

/// Whether the statement kind can carry a returning clause.
pub open spec fn is_dml(t: StatementType) -> bool {
    t == StatementType::Insert || t == StatementType::Update || t == StatementType::Delete || t
        == StatementType::Merge
}

/// The statement kind the first word announces.
pub open spec fn spec_classify(s: Seq<char>) -> StatementType {
    let w = spec_first_word(s);
    if w == "SELECT"@ || w == "WITH"@ {
        StatementType::Select
    } else if w == "INSERT"@ {
        StatementType::Insert
    } else if w == "UPDATE"@ {
        StatementType::Update
    } else if w == "DELETE"@ {
        StatementType::Delete
    } else if w == "MERGE"@ {
        StatementType::Merge
    } else if w == "CREATE"@ {
        StatementType::Create
    } else if w == "ALTER"@ {
        StatementType::Alter
    } else if w == "DROP"@ {
        StatementType::Drop
    } else if w == "BEGIN"@ {
        StatementType::Begin
    } else if w == "DECLARE"@ {
        StatementType::Declare
    } else {
        StatementType::Other(0)
    }
}

/// Whether the case-folded text holds `w` as a whole word: present, and not
/// flanked by name characters.
pub open spec fn spec_has_word(s: Seq<char>, w: Seq<char>) -> bool {
    exists|k: int|
        #![trigger s.subrange(k, k + w.len())]
        0 <= k && k + w.len() <= s.len() && s.subrange(k, k + w.len()) == w && (k == 0
            || !crate::sqltext::is_ident_char(s[k - 1])) && (k + w.len() == s.len()
            || !crate::sqltext::is_ident_char(s[k + w.len()]))
}

/// Whether the statement carries a returning clause: a data-changing kind
/// whose folded text holds the word `RETURNING`.
pub open spec fn spec_is_returning(s: Seq<char>) -> bool {
    is_dml(spec_classify(s)) && spec_has_word(spec_upper(s), "RETURNING"@)
}

/// Decides whether the folded text holds `w` as a whole word.
fn has_word(s: &Vec<char>, w: &Vec<char>) -> (r: bool)
    requires
        w@.len() >= 1,
    ensures
        r == spec_has_word(s@, w@),
{
    if s.len() < w.len() {
        proof {
            assert forall|k: int|
                #![trigger s@.subrange(k, k + w@.len())]
                !(0 <= k && k + w@.len() <= s@.len() && s@.subrange(k, k + w@.len()) == w@ && (k
                    == 0 || !crate::sqltext::is_ident_char(s@[k - 1])) && (k + w@.len() == s@.len()
                    || !crate::sqltext::is_ident_char(s@[k + w@.len()]))) by {}
        }
        return false;
    }
    let mut k: usize = 0;
    let last = s.len() - w.len();
    while k <= last
        invariant
            w@.len() >= 1,
            last == s@.len() - w@.len(),
            k <= last + 1,
            forall|j: int|
                #![trigger s@.subrange(j, j + w@.len())]
                0 <= j < k ==> !(s@.subrange(j, j + w@.len()) == w@ && (j == 0
                    || !crate::sqltext::is_ident_char(s@[j - 1])) && (j + w@.len() == s@.len()
                    || !crate::sqltext::is_ident_char(s@[j + w@.len()]))),
        decreases s@.len() - k,
    {
        let slen = s.len();
        proof {
            assert(k + w@.len() <= slen);
        }
        let piece = crate::text::sub_chars(s, k, k + w.len());
        let mut boundary_ok = true;
        if k > 0 {
            if crate::sqltext::ident_char(s[k - 1]) {
                boundary_ok = false;
            }
        }
        if k + w.len() < s.len() {
            if crate::sqltext::ident_char(s[k + w.len()]) {
                boundary_ok = false;
            }
        }
        if boundary_ok && crate::sqltext::chars_eq(&piece, w) {
            return true;
        }
        k = k + 1;
    }
    proof {
        assert forall|j: int|
            #![trigger s@.subrange(j, j + w@.len())]
            !(0 <= j && j + w@.len() <= s@.len() && s@.subrange(j, j + w@.len()) == w@ && (j == 0
                || !crate::sqltext::is_ident_char(s@[j - 1])) && (j + w@.len() == s@.len()
                || !crate::sqltext::is_ident_char(s@[j + w@.len()]))) by {
            if 0 <= j && j + w@.len() <= s@.len() {
                assert(j < k);
            }
        }
    }
    false
}

/// One query column's description: its name, logical type, and whether it
/// may be null. Discovered once per execution, immutable thereafter.
#[derive(Debug)]
pub struct ColumnInfo {
    pub name: String,
    pub oracle_type: OracleType,
    pub nullable: bool,
}

impl Clone for ColumnInfo {
    fn clone(&self) -> (r: Self)
        ensures
            r == *self,
    {
        ColumnInfo {
            name: self.name.clone(),
            oracle_type: self.oracle_type.clone(),
            nullable: self.nullable,
        }
    }
}

impl ColumnInfo {
    /// Builds a column description.
    pub fn new(name: String, oracle_type: OracleType, nullable: bool) -> (r: ColumnInfo)
        ensures
            r == (ColumnInfo { name, oracle_type, nullable }),
    {
        ColumnInfo { name, oracle_type, nullable }
    }

    /// The column's name.
    pub fn name(&self) -> (r: &String)
        ensures
            r == &self.name,
    {
        &self.name
    }

    /// The column's logical type.
    pub fn oracle_type(&self) -> (r: &OracleType)
        ensures
            r == &self.oracle_type,
    {
        &self.oracle_type
    }

    /// Whether the column may be null.
    pub fn nullable(&self) -> (r: bool)
        ensures
            r == self.nullable,
    {
        self.nullable
    }

    /// The column's text form: its name and declared type, and `NOT NULL`
    /// where it may not be null.
    pub fn description(&self) -> (r: String)
        ensures
            r@ == self.name@ + seq![' '] + crate::types::spec_type_name(self.oracle_type) + (
            if self.nullable {
                Seq::<char>::empty()
            } else {
                " NOT NULL"@
            }),
    {
        let mut v = str_to_chars(self.name.as_str());
        v.push(' ');
        let tname = self.oracle_type.name_text();
        let tchars = str_to_chars(tname.as_str());
        crate::types::append_chars(&mut v, &tchars);
        if !self.nullable {
            let tail = str_to_chars(" NOT NULL");
            crate::types::append_chars(&mut v, &tail);
            proof {
                assert(v@ =~= self.name@ + seq![' '] + crate::types::spec_type_name(
                    self.oracle_type,
                ) + " NOT NULL"@);
            }
        } else {
            proof {
                assert(v@ =~= self.name@ + seq![' '] + crate::types::spec_type_name(
                    self.oracle_type,
                ));
                assert(v@ =~= self.name@ + seq![' '] + crate::types::spec_type_name(
                    self.oracle_type,
                ) + Seq::<char>::empty());
            }
        }
        crate::text::chars_to_string(&v)
    }
}

/// The fetch-relevant type a query column is buffered under: a numeric
/// column with scale zero and a precision strictly between zero and
/// [`MAX_INT64_PRECISION`] is buffered as a 64-bit integer instead of
/// numeric text, to spare the text conversion for integer-valued columns.
pub open spec fn spec_effective_type(t: OracleType) -> OracleType {
    match t {
        OracleType::Number(p, s) => if s == 0 && 0 < p && p < MAX_INT64_PRECISION {
            OracleType::Int64
        } else {
            t
        },
        _ => t,
    }
}

/// Computes [`spec_effective_type`].
pub fn effective_column_type(t: &OracleType) -> (r: OracleType)
    ensures
        r == spec_effective_type(*t),
{
    match t {
        OracleType::Number(p, s) => {
            if *s == 0 && 0 < *p && *p < MAX_INT64_PRECISION {
                OracleType::Int64
            } else {
                t.clone()
            }
        },
        _ => t.clone(),
    }
}

/// A fetched row: a view over the column descriptions and one value cell
/// per column, positioned at the fetched slot.
#[derive(Debug)]
pub struct Row {
    pub column_info: Vec<ColumnInfo>,
    pub column_values: Vec<SqlValue>,
}

/// Well-formedness of a row: one cell per column, each well formed.
pub open spec fn row_wf(r: Row) -> bool {
    &&& r.column_values@.len() == r.column_info@.len()
    &&& forall|i: int| 0 <= i < r.column_values@.len() ==> cell_wf(#[trigger] r.column_values@[i])
}

/// What a server hands back for one execution: the rows buffered per round
/// trip, and — for a query — the column descriptions.
#[derive(Debug)]
pub struct ExecOutcome {
    pub fetch_array_size: u32,
    pub columns: Vec<ColumnInfo>,
}

/// A prepared statement: the bind directory gathered from the text, the
/// bind value cells, and — once a query executes — the column metadata and
/// column cells with the rows delivered for them.
#[derive(Debug)]
pub struct Statement {
    /// Whether the prepared handle is still open.
    pub is_open: bool,
    /// The statement's kind.
    pub statement_type: StatementType,
    /// Whether the statement carries a returning clause.
    pub is_returning: bool,
    /// The slot count: every marker for plain statements, unique names for
    /// procedural blocks.
    pub bind_count: usize,
    /// The unique case-folded bind names, in first-occurrence order.
    pub bind_names: Vec<String>,
    /// One value cell per bind slot.
    pub bind_values: Vec<SqlValue>,
    /// The query columns of the current execution.
    pub row: Row,
    /// The rows the server buffers per round trip, as it reported.
    pub fetch_array_size: u32,
    /// Whether an execution has happened.
    pub executed: bool,
    /// Rows delivered by the server and not yet fetched.
    pub pending: Vec<Vec<DataSlot>>,
    /// The next delivered row to hand out.
    pub pending_next: usize,
    /// Whether the server has announced the end of the rows.
    pub delivery_done: bool,
    /// The buffer slot the next fetched row lands in.
    pub next_slot: u32,
}

/// Whether a delivered row fits the statement's column buffers: one slot
/// per column, each value a well-formed inhabitant of its column's
/// encoding.
pub open spec fn row_data_fits(r: Seq<DataSlot>, st: Statement) -> bool {
    &&& r.len() == st.row.column_values@.len()
    &&& forall|j: int|
        0 <= j < r.len() ==> value_fits(
            (#[trigger] r[j]).value@,
            st.row.column_values@[j].native_type,
        )
}

/// Well-formedness of a statement.
pub open spec fn stmt_wf(st: Statement) -> bool {
    &&& st.bind_values@.len() == st.bind_count
    &&& st.bind_names@.len() <= st.bind_count
    &&& forall|i: int| 0 <= i < st.bind_values@.len() ==> cell_wf(#[trigger] st.bind_values@[i])
    &&& row_wf(st.row)
    &&& forall|i: int|
        0 <= i < st.row.column_values@.len() ==> (#[trigger] st.row.column_values@[i]).has_handle
            && st.row.column_values@[i].array_size == st.fetch_array_size
    &&& forall|k: int| 0 <= k < st.pending@.len() ==> row_data_fits((#[trigger] st.pending@[k])@, st)
    &&& st.pending_next <= st.pending@.len()
    &&& (st.row.column_values@.len() > 0 ==> st.fetch_array_size >= 1 && st.next_slot
        < st.fetch_array_size)
    &&& (st.row.column_values@.len() == 0 ==> st.next_slot == 0)
    &&& (!(st.statement_type is Select) ==> st.row.column_values@.len() == 0
        && st.row.column_info@.len() == 0)
}

/// The statement's name directory, by content.
pub open spec fn stmt_names(st: Statement) -> Seq<Seq<char>> {
    st.bind_names@.map_values(|n: String| n@)
}

/// A reference that resolves to a bind slot: a 1-based position, or a name
/// compared without regard to case.
pub trait BindIndex {
    /// The slot the reference resolves to in the statement, if any.
    spec fn resolved(&self, st: &Statement) -> Option<int>;

    /// The error an unresolvable reference reports.
    spec fn resolve_err(&self, e: Error) -> bool;

    /// Resolves the reference. Fails exactly when the reference resolves to
    /// no slot, with the reference's own error; nothing is mutated either
    /// way.
    fn idx(&self, stmt: &Statement) -> (r: Result<usize, Error>)
        requires
            stmt_wf(*stmt),
        ensures
            match self.resolved(stmt) {
                Some(p) => r matches Ok(q) && q as int == p && 0 <= p
                    < stmt.bind_values@.len(),
                None => r matches Err(e) && self.resolve_err(e),
            },
    ;
}

impl BindIndex for usize {
    /// A 1-based position: valid exactly within `1..=bind_count`.
    open spec fn resolved(&self, st: &Statement) -> Option<int> {
        if 1 <= *self && *self <= st.bind_count {
            Some(*self - 1)
        } else {
            None
        }
    }

    /// An out-of-range position reports itself.
    open spec fn resolve_err(&self, e: Error) -> bool {
        e == Error::InvalidBindIndex(*self)
    }

    fn idx(&self, stmt: &Statement) -> (r: Result<usize, Error>) {
        let num = stmt.bind_count;
        if 0 < num && 0 < *self && *self <= num {
            Ok(*self - 1)
        } else {
            Err(Error::InvalidBindIndex(*self))
        }
    }
}

impl BindIndex for &str {
    /// A name: the first slot whose name equals the case-folded query.
    open spec fn resolved(&self, st: &Statement) -> Option<int> {
        spec_find_name(stmt_names(*st), spec_upper(self@), 0)
    }

    /// An unknown name reports itself, as given.
    open spec fn resolve_err(&self, e: Error) -> bool {
        e matches Error::InvalidBindName(n) && n@ == self@
    }

    fn idx(&self, stmt: &Statement) -> (r: Result<usize, Error>) {
        let chars = str_to_chars(self);
        let folded = upper_chars(&chars);
        let q = crate::text::chars_to_string(&folded);
        let mut i: usize = 0;
        while i < stmt.bind_names.len()
            invariant
                i <= stmt.bind_names@.len(),
                q@ == spec_upper(self@),
                spec_find_name(stmt_names(*stmt), q@, 0) == spec_find_name(
                    stmt_names(*stmt),
                    q@,
                    i as int,
                ),
                stmt_wf(*stmt),
            decreases stmt.bind_names@.len() - i,
        {
            if stmt.bind_names[i].eq(&q) {
                proof {
                    assert(stmt_names(*stmt)[i as int] == q@);
                }
                return Ok(i);
            }
            proof {
                assert(stmt_names(*stmt)[i as int] != q@);
            }
            i = i + 1;
        }
        Err(Error::InvalidBindName((*self).to_owned()))
    }
}

/// A reference that resolves to a query column: a 0-based position, or a
/// column name compared without regard to case.
pub trait ColumnIndex {
    /// The column the reference resolves to, if any.
    spec fn col_resolved(&self, infos: Seq<ColumnInfo>) -> Option<int>;

    /// The error an unresolvable reference reports.
    spec fn col_resolve_err(&self, e: Error) -> bool;

    /// Resolves the reference. Fails exactly when the reference resolves to
    /// no column, with the reference's own error.
    fn idx(&self, column_info: &Vec<ColumnInfo>) -> (r: Result<usize, Error>)
        ensures
            match self.col_resolved(column_info@) {
                Some(p) => r matches Ok(q) && q as int == p && 0 <= p < column_info@.len(),
                None => r matches Err(e) && self.col_resolve_err(e),
            },
    ;
}

impl ColumnIndex for usize {
    /// A 0-based position: valid exactly below the column count.
    open spec fn col_resolved(&self, infos: Seq<ColumnInfo>) -> Option<int> {
        if *self < infos.len() {
            Some(*self as int)
        } else {
            None
        }
    }

    /// An out-of-range position reports itself.
    open spec fn col_resolve_err(&self, e: Error) -> bool {
        e == Error::InvalidColumnIndex(*self)
    }

    fn idx(&self, column_info: &Vec<ColumnInfo>) -> (r: Result<usize, Error>) {
        if *self < column_info.len() {
            Ok(*self)
        } else {
            Err(Error::InvalidColumnIndex(*self))
        }
    }
}

/// The first column whose case-folded name equals the case-folded query.
pub open spec fn spec_find_col(infos: Seq<ColumnInfo>, q: Seq<char>, i: int) -> Option<int>
    decreases infos.len() - i,
{
    if i < 0 || i >= infos.len() {
        None
    } else if spec_upper(infos[i].name@) == q {
        Some(i)
    } else {
        spec_find_col(infos, q, i + 1)
    }
}

impl ColumnIndex for &str {
    open spec fn col_resolved(&self, infos: Seq<ColumnInfo>) -> Option<int> {
        spec_find_col(infos, spec_upper(self@), 0)
    }

    /// An unknown name reports itself, as given.
    open spec fn col_resolve_err(&self, e: Error) -> bool {
        e matches Error::InvalidColumnName(n) && n@ == self@
    }

    fn idx(&self, column_info: &Vec<ColumnInfo>) -> (r: Result<usize, Error>) {
        let chars = str_to_chars(self);
        let folded = upper_chars(&chars);
        let mut i: usize = 0;
        while i < column_info.len()
            invariant
                i <= column_info@.len(),
                folded@ == spec_upper(self@),
                spec_find_col(column_info@, folded@, 0) == spec_find_col(
                    column_info@,
                    folded@,
                    i as int,
                ),
            decreases column_info@.len() - i,
        {
            let name_chars = str_to_chars(column_info[i].name.as_str());
            let name_folded = upper_chars(&name_chars);
            if crate::sqltext::chars_eq(&name_folded, &folded) {
                return Ok(i);
            }
            i = i + 1;
        }
        Err(Error::InvalidColumnName((*self).to_owned()))
    }
}

impl Row {
    /// The cell of the addressed column, as a copy positioned at the
    /// fetched slot. Fails exactly when the reference resolves to no
    /// column.
    pub fn get<I: ColumnIndex>(&self, colidx: I) -> (r: Result<SqlValue, Error>)
        requires
            row_wf(*self),
        ensures
            match colidx.col_resolved(self.column_info@) {
                Some(p) => r matches Ok(c) && cell_like(self.column_values@[p], c) && cell_wf(c),
                None => r matches Err(e) && colidx.col_resolve_err(e),
            },
    {
        let pos = colidx.idx(&self.column_info)?;
        Ok(self.column_values[pos].clone())
    }

    /// The row's value cells.
    pub fn columns(&self) -> (r: &Vec<SqlValue>)
        ensures
            r == &self.column_values,
    {
        &self.column_values
    }
}

impl Clone for Row {
    fn clone(&self) -> (r: Self)
        ensures
            r.column_info@.len() == self.column_info@.len(),
            forall|i: int|
                0 <= i < self.column_info@.len() ==> #[trigger] r.column_info@[i]
                    == self.column_info@[i],
            r.column_values@.len() == self.column_values@.len(),
            forall|i: int|
                0 <= i < self.column_values@.len() ==> cell_like(
                    #[trigger] self.column_values@[i],
                    r.column_values@[i],
                ),
            row_wf(*self) ==> row_wf(r),
    {
        let mut infos: Vec<ColumnInfo> = Vec::new();
        let mut i: usize = 0;
        while i < self.column_info.len()
            invariant
                i <= self.column_info@.len(),
                infos@.len() == i as int,
                forall|j: int|
                    0 <= j < i ==> #[trigger] infos@[j] == self.column_info@[j],
            decreases self.column_info@.len() - i,
        {
            let ci = self.column_info[i].clone();
            infos.push(ci);
            i = i + 1;
        }
        let mut cells: Vec<SqlValue> = Vec::new();
        let mut j: usize = 0;
        while j < self.column_values.len()
            invariant
                j <= self.column_values@.len(),
                cells@.len() == j as int,
                forall|k: int|
                    0 <= k < j ==> cell_like(#[trigger] self.column_values@[k], cells@[k]) && (
                    cell_wf(self.column_values@[k]) ==> cell_wf(cells@[k])),
            decreases self.column_values@.len() - j,
        {
            let c = self.column_values[j].clone();
            cells.push(c);
            j = j + 1;
        }
        proof {
            if row_wf(*self) {
                assert forall|t: int| 0 <= t < cells@.len() implies cell_wf(
                    #[trigger] cells@[t],
                ) by {
                    assert(cell_like(self.column_values@[t], cells@[t]));
                    assert(cell_wf(self.column_values@[t]));
                }
            }
        }
        Row { column_info: infos, column_values: cells }
    }
}

// ---------------------------------------------------------------------------
// Host values
// ---------------------------------------------------------------------------

/// One host value to bind: the closed set of typed inputs, or a typed null.
/// Floating-point parameters travel as bit patterns; the arithmetic that
/// produces or consumes them is outside this crate.
#[derive(Debug)]
pub enum HostValue {
    /// A null of the given logical type.
    Null(OracleType),
    Int(i64),
    UInt(u64),
    /// A 32-bit floating-point value, by its bit pattern.
    FloatBits(u32),
    /// A 64-bit floating-point value, by its bit pattern.
    DoubleBits(u64),
    Text(String),
    Bytes(Vec<u8>),
    Timestamp(Timestamp),
    IntervalDS(IntervalDS),
    IntervalYM(IntervalYM),
    Bool(bool),
    Object(Object),
    Collection(Collection),
}

/// Validity of a host value: date-time values well formed, text and byte
/// payloads within the catalog's size field.
pub open spec fn hv_wf(h: HostValue) -> bool {
    match h {
        HostValue::Text(s) => s@.len() <= u32::MAX,
        HostValue::Bytes(b) => b@.len() <= u32::MAX,
        HostValue::Timestamp(t) => ts_wf(t),
        HostValue::IntervalDS(t) => ids_wf(t),
        HostValue::IntervalYM(t) => iym_wf(t),
        _ => true,
    }
}

/// The logical type a host value declares for its bind slot.
pub open spec fn hv_oratype(h: HostValue) -> OracleType {
    match h {
        HostValue::Null(t) => t,
        HostValue::Int(_) => OracleType::Int64,
        HostValue::UInt(_) => OracleType::UInt64,
        HostValue::FloatBits(_) => OracleType::BinaryFloat,
        HostValue::DoubleBits(_) => OracleType::BinaryDouble,
        HostValue::Text(s) => OracleType::Varchar2(s@.len() as u32),
        HostValue::Bytes(b) => OracleType::Raw(b@.len() as u32),
        HostValue::Timestamp(_) => OracleType::TimestampTZ(9),
        HostValue::IntervalDS(_) => OracleType::IntervalDS(9, 9),
        HostValue::IntervalYM(_) => OracleType::IntervalYM(9),
        HostValue::Bool(_) => OracleType::Boolean,
        HostValue::Object(o) => OracleType::Object(o.objtype),
        HostValue::Collection(o) => OracleType::Object(o.objtype),
    }
}

impl HostValue {
    /// The logical type this value binds under.
    pub fn oratype(&self) -> (r: OracleType)
        requires
            hv_wf(*self),
        ensures
            r == hv_oratype(*self),
    {
        match self {
            HostValue::Null(t) => t.clone(),
            HostValue::Int(_) => OracleType::Int64,
            HostValue::UInt(_) => OracleType::UInt64,
            HostValue::FloatBits(_) => OracleType::BinaryFloat,
            HostValue::DoubleBits(_) => OracleType::BinaryDouble,
            HostValue::Text(s) => OracleType::Varchar2(s.as_str().unicode_len() as u32),
            HostValue::Bytes(b) => OracleType::Raw(b.len() as u32),
            HostValue::Timestamp(_) => OracleType::TimestampTZ(9),
            HostValue::IntervalDS(_) => OracleType::IntervalDS(9, 9),
            HostValue::IntervalYM(_) => OracleType::IntervalYM(9),
            HostValue::Bool(_) => OracleType::Boolean,
            HostValue::Object(o) => OracleType::Object(o.objtype.clone()),
            HostValue::Collection(o) => OracleType::Object(o.objtype.clone()),
        }
    }
}

/// What a bind slot's cell holds after a host value was written into it:
/// the value in the encoding its declared type maps to, or — for a typed
/// null — the null flag.
pub open spec fn cell_holds(c: SqlValue, h: HostValue) -> bool {
    match h {
        HostValue::Null(_) => cur(c).is_null,
        HostValue::Int(v) => !cur(c).is_null && cur(c).value@ == ValueModel::Int64(v),
        HostValue::UInt(v) => !cur(c).is_null && cur(c).value@ == ValueModel::UInt64(v),
        HostValue::FloatBits(b) => !cur(c).is_null && cur(c).value@ == ValueModel::FloatBits(b),
        HostValue::DoubleBits(b) => !cur(c).is_null && cur(c).value@ == ValueModel::DoubleBits(b),
        HostValue::Text(s) => !cur(c).is_null && cur(c).value@ == ValueModel::Text(s@),
        HostValue::Bytes(b) => !cur(c).is_null && cur(c).value@ == ValueModel::Raw(b@),
        HostValue::Timestamp(t) => !cur(c).is_null && cur(c).value@ == ValueModel::Timestamp(t),
        HostValue::IntervalDS(t) => !cur(c).is_null && cur(c).value@ == ValueModel::IntervalDS(t),
        HostValue::IntervalYM(t) => !cur(c).is_null && cur(c).value@ == ValueModel::IntervalYM(t),
        HostValue::Bool(b) => !cur(c).is_null && cur(c).value@ == ValueModel::Boolean(b),
        HostValue::Object(o) => !cur(c).is_null && cur(c).value@ == ValueModel::Object(
            o.objtype@,
            o.id,
        ),
        HostValue::Collection(o) => !cur(c).is_null && cur(c).value@ == ValueModel::Object(
            o.objtype@,
            o.id,
        ),
    }
}

/// Within the catalog, the driver type code of a non-object type fixes its
/// native encoding.
pub proof fn lemma_code_determines_encoding(t1: OracleType, t2: OracleType)
    requires
        spec_catalog(t1) is Some,
        spec_catalog(t2) is Some,
        (spec_catalog(t1)->0).0 == (spec_catalog(t2)->0).0,
        (spec_catalog(t1)->0).0 != crate::types::TypeCode::Object,
    ensures
        crate::types::same_encoding((spec_catalog(t1)->0).1, (spec_catalog(t2)->0).1),
{
}

// ---------------------------------------------------------------------------
// The statement engine
// ---------------------------------------------------------------------------

/// Every statement field but the bind cells equal across an operation.
pub open spec fn same_but_binds(a: Statement, b: Statement) -> bool {
    &&& b.is_open == a.is_open
    &&& b.statement_type == a.statement_type
    &&& b.is_returning == a.is_returning
    &&& b.bind_count == a.bind_count
    &&& b.bind_names@ == a.bind_names@
    &&& b.bind_values@.len() == a.bind_values@.len()
    &&& b.row == a.row
    &&& b.fetch_array_size == a.fetch_array_size
    &&& b.executed == a.executed
    &&& b.pending@ == a.pending@
    &&& b.pending_next == a.pending_next
    &&& b.delivery_done == a.delivery_done
    &&& b.next_slot == a.next_slot
}

impl Statement {
    /// Prepares a statement: classifies it by its first word, gathers its
    /// bind directory from the markers in the text, and notes a returning
    /// clause. For a plain statement every marker takes a slot of its own;
    /// for a procedural block repeated names unify into one slot.
    pub fn prepare(sql: &str) -> (st: Statement)
        ensures
            stmt_wf(st),
            st.is_open,
            !st.executed,
            st.statement_type == spec_classify(sql@),
            st.is_returning == spec_is_returning(sql@),
            stmt_names(st) == spec_unique_upper(spec_markers(sql@)),
            st.bind_count == if is_plsql(spec_classify(sql@)) {
                spec_unique_upper(spec_markers(sql@)).len()
            } else {
                spec_markers(sql@).len()
            },
            st.row.column_info@.len() == 0,
            st.row.column_values@.len() == 0,
            forall|i: int|
                0 <= i < st.bind_values@.len() ==> (#[trigger] st.bind_values@[i]).oratype is None,
    {
        let chars = str_to_chars(sql);
        let markers = crate::sqltext::scan_markers(&chars);
        let unique = crate::sqltext::unique_upper(&markers);
        let word = crate::sqltext::first_word(&chars);
        let statement_type = classify_word(&word);
        let folded = upper_chars(&chars);
        let returning_word = str_to_chars("RETURNING");
        proof {
            reveal_strlit("RETURNING");
        }
        let has_ret = has_word(&folded, &returning_word);
        let is_returning = match statement_type {
            StatementType::Insert | StatementType::Update | StatementType::Delete
                | StatementType::Merge => has_ret,
            _ => false,
        };
        let bind_count: usize = match statement_type {
            StatementType::Begin | StatementType::Declare => unique.len(),
            _ => markers.len(),
        };
        let mut bind_names: Vec<String> = Vec::new();
        let mut i: usize = 0;
        while i < unique.len()
            invariant
                i <= unique@.len(),
                bind_names@.len() == i as int,
                forall|j: int|
                    0 <= j < i ==> (#[trigger] bind_names@[j])@ == unique@[j]@,
            decreases unique@.len() - i,
        {
            let name = crate::text::chars_to_string(&unique[i]);
            bind_names.push(name);
            i = i + 1;
        }
        let mut bind_values: Vec<SqlValue> = Vec::new();
        let mut j: usize = 0;
        while j < bind_count
            invariant
                j <= bind_count,
                bind_values@.len() == j as int,
                forall|k: int|
                    0 <= k < j ==> cell_wf(#[trigger] bind_values@[k]) && bind_values@[k].oratype
                        is None,
            decreases bind_count - j,
        {
            bind_values.push(SqlValue::new());
            j = j + 1;
        }
        let st = Statement {
            is_open: true,
            statement_type,
            is_returning,
            bind_count,
            bind_names,
            bind_values,
            row: Row { column_info: Vec::new(), column_values: Vec::new() },
            fetch_array_size: 0,
            executed: false,
            pending: Vec::new(),
            pending_next: 0,
            delivery_done: false,
            next_slot: 0,
        };
        proof {
            crate::sqltext::lemma_unique_upper_len(crate::sqltext::names_view(markers@));
            assert(stmt_names(st) =~= crate::sqltext::names_view(unique@));
        }
        st
    }

    /// Closes the statement: the prepared handle is released once; no
    /// operation may follow.
    pub fn close(&mut self) -> (r: Result<(), Error>)
        requires
            stmt_wf(*old(self)),
            old(self).is_open,
        ensures
            stmt_wf(*final(self)),
            r == Ok::<(), Error>(()),
            !final(self).is_open,
    {
        self.is_open = false;
        Ok(())
    }

    /// Sets a bind value: resolves the slot, reconciles the slot's buffer
    /// with the value's declared type (allocating or reusing it), and
    /// writes the value in. Succeeds exactly when the reference resolves
    /// and the value's declared type is in the catalog; an unresolvable
    /// position or name fails with its own error before any buffer
    /// mutation, and a type outside the catalog leaves the cells unchanged.
    pub fn bind<I: BindIndex>(&mut self, bindidx: I, value: &HostValue) -> (r: Result<(), Error>)
        requires
            stmt_wf(*old(self)),
            hv_wf(*value),
            old(self).is_open,
        ensures
            stmt_wf(*final(self)),
            same_but_binds(*old(self), *final(self)),
            r is Ok <==> (bindidx.resolved(old(self)) is Some && spec_catalog(
                hv_oratype(*value),
            ) is Some),
            bindidx.resolved(old(self)) is None ==> (r matches Err(e) && bindidx.resolve_err(e))
                && final(self).bind_values@ == old(self).bind_values@,
            (bindidx.resolved(old(self)) is Some && spec_catalog(hv_oratype(*value)) is None) ==> (
            r matches Err(Error::NotSupported(_))) && final(self).bind_values@ == old(
                self,
            ).bind_values@,
            bindidx.resolved(old(self)) matches Some(p) ==> (forall|i: int|
                0 <= i < old(self).bind_values@.len() && i != p
                    ==> #[trigger] final(self).bind_values@[i] == old(self).bind_values@[i]),
            r is Ok ==> (bindidx.resolved(old(self)) matches Some(p) && cell_holds(
                final(self).bind_values@[p],
                *value,
            )),
    {
        let pos = match bindidx.idx(self) {
            Ok(p) => p,
            Err(e) => {
                return Err(e);
            },
        };
        let oratype = value.oratype();
        // Reconcile the slot's buffer with the value's declared type. A
        // fresh buffer is attached to the statement handle under this
        // position or name; the attachment is the native capability's
        // bookkeeping, the buffer stays the cell's.
        match self.bind_values[pos].init_handle(&oratype, 1) {
            Ok(_) => {},
            Err(e) => {
                proof {
                    assert(final(self).bind_values@ =~= old(self).bind_values@);
                }
                return Err(e);
            },
        }
        proof {
            let t = hv_oratype(*value);
            let pre = old(self).bind_values@[pos as int];
            let c = self.bind_values@[pos as int];
            if crate::value::spec_reusable(pre, t, 1) {
                if (spec_catalog(pre.oratype->0)->0).0 != crate::types::TypeCode::Object {
                    lemma_code_determines_encoding(pre.oratype->0, t);
                }
                assert(crate::types::same_encoding(c.native_type, (spec_catalog(t)->0).1));
            } else {
                assert(c.native_type == (spec_catalog(t)->0).1);
            }
            assert(c.oratype is Some);
        }
        let res = match value {
            HostValue::Null(_) => self.bind_values[pos].set_null(),
            HostValue::Int(v) => self.bind_values[pos].set_i64(*v),
            HostValue::UInt(v) => self.bind_values[pos].set_u64(*v),
            HostValue::FloatBits(b) => self.bind_values[pos].set_float_bits(*b),
            HostValue::DoubleBits(b) => self.bind_values[pos].set_double_bits(*b),
            HostValue::Text(s) => self.bind_values[pos].set_string(s.as_str()),
            HostValue::Bytes(b) => self.bind_values[pos].set_bytes(b),
            HostValue::Timestamp(t) => self.bind_values[pos].set_timestamp(t),
            HostValue::IntervalDS(t) => self.bind_values[pos].set_interval_ds(t),
            HostValue::IntervalYM(t) => self.bind_values[pos].set_interval_ym(t),
            HostValue::Bool(b) => self.bind_values[pos].set_bool(b),
            HostValue::Object(o) => self.bind_values[pos].set_object(o),
            HostValue::Collection(o) => self.bind_values[pos].set_collection(o),
        };
        res
    }

    /// Reads a bind slot's cell back, as a copy. The position is 1-based;
    /// a name is compared without regard to case.
    pub fn bind_value<I: BindIndex>(&self, bindidx: I) -> (r: Result<SqlValue, Error>)
        requires
            stmt_wf(*self),
        ensures
            match bindidx.resolved(self) {
                Some(p) => r matches Ok(c) && cell_like(self.bind_values@[p], c) && cell_wf(c),
                None => r matches Err(e) && bindidx.resolve_err(e),
            },
    {
        let pos = bindidx.idx(self)?;
        Ok(self.bind_values[pos].clone())
    }

    /// Binds values by position — the first parameter to the first slot and
    /// so on — then executes against the given outcome. Succeeds exactly
    /// when every parameter has a slot and a catalog-supported type and,
    /// for a query, every reported column's fetch-relevant type is
    /// supported; a failure propagates the first failing step's error, and
    /// no execution is attempted after a failed bind.
    pub fn execute(&mut self, params: &Vec<HostValue>, reply: &ExecOutcome) -> (r: Result<
        (),
        Error,
    >)
        requires
            stmt_wf(*old(self)),
            old(self).is_open,
            forall|i: int| 0 <= i < params@.len() ==> hv_wf(#[trigger] params@[i]),
        ensures
            stmt_wf(*final(self)),
            final(self).statement_type == old(self).statement_type,
            final(self).bind_count == old(self).bind_count,
            final(self).is_open,
            r is Ok <==> (params@.len() <= old(self).bind_count && (forall|i: int|
                0 <= i < params@.len() ==> spec_catalog(
                    hv_oratype(#[trigger] params@[i]),
                ) is Some) && (old(self).statement_type is Select ==> reply.fetch_array_size >= 1
                && (forall|i: int|
                0 <= i < reply.columns@.len() ==> spec_catalog(
                    spec_effective_type((#[trigger] reply.columns@[i]).oracle_type),
                ) is Some))),
            r is Err ==> final(self).executed == old(self).executed
                && final(self).row == old(self).row
                && final(self).pending@ == old(self).pending@
                && final(self).pending_next == old(self).pending_next
                && final(self).delivery_done == old(self).delivery_done
                && final(self).fetch_array_size == old(self).fetch_array_size
                && final(self).next_slot == old(self).next_slot,
            r is Ok ==> final(self).executed && final(self).fetch_array_size
                == reply.fetch_array_size,
            r is Ok ==> params@.len() <= old(self).bind_count && (forall|i: int|
                0 <= i < params@.len() ==> cell_holds(
                    final(self).bind_values@[i],
                    #[trigger] params@[i],
                )),
            r is Ok && old(self).statement_type is Select ==> final(self).row.column_info@
                == reply.columns@ && (forall|i: int|
                0 <= i < reply.columns@.len() ==> fresh_buffer(
                    #[trigger] final(self).row.column_values@[i],
                    spec_effective_type(reply.columns@[i].oracle_type),
                    reply.fetch_array_size,
                )),
    {
        let mut i: usize = 0;
        while i < params.len()
            invariant
                stmt_wf(*self),
                self.is_open,
                self.statement_type == old(self).statement_type,
                self.bind_count == old(self).bind_count,
                self.bind_values@.len() == self.bind_count,
                self.executed == old(self).executed,
                self.row == old(self).row,
                self.pending@ == old(self).pending@,
                self.pending_next == old(self).pending_next,
                self.delivery_done == old(self).delivery_done,
                self.fetch_array_size == old(self).fetch_array_size,
                self.next_slot == old(self).next_slot,
                i <= params@.len(),
                i <= self.bind_count,
                forall|k: int| 0 <= k < params@.len() ==> hv_wf(#[trigger] params@[k]),
                forall|k: int|
                    0 <= k < i ==> cell_holds(self.bind_values@[k], #[trigger] params@[k]),
                forall|k: int|
                    0 <= k < i ==> spec_catalog(hv_oratype(#[trigger] params@[k])) is Some,
            decreases params@.len() - i,
        {
            match self.bind(i + 1, &params[i]) {
                Ok(()) => {},
                Err(e) => {
                    return Err(e);
                },
            }
            i = i + 1;
        }
        self.execute_with(reply)
    }

    /// Binds values by name — each name resolved without regard to case, a
    /// repeated name writing its slot again — then executes against the
    /// given outcome. Succeeds exactly when every name resolves and every
    /// value's type is catalog-supported and, for a query, every reported
    /// column's fetch-relevant type is supported; a failure propagates the
    /// first failing step's error, and no execution is attempted after a
    /// failed bind.
    pub fn execute_named(&mut self, params: &Vec<(String, HostValue)>, reply: &ExecOutcome) -> (r:
        Result<(), Error>)
        requires
            stmt_wf(*old(self)),
            old(self).is_open,
            forall|i: int| 0 <= i < params@.len() ==> hv_wf((#[trigger] params@[i]).1),
        ensures
            stmt_wf(*final(self)),
            final(self).statement_type == old(self).statement_type,
            final(self).bind_count == old(self).bind_count,
            final(self).is_open,
            r is Ok <==> ((forall|i: int|
                0 <= i < params@.len() ==> spec_find_name(
                    stmt_names(*old(self)),
                    spec_upper((#[trigger] params@[i]).0@),
                    0,
                ) is Some && spec_catalog(hv_oratype(params@[i].1)) is Some) && (old(
                self,
            ).statement_type is Select ==> reply.fetch_array_size >= 1 && (forall|i: int|
                0 <= i < reply.columns@.len() ==> spec_catalog(
                    spec_effective_type((#[trigger] reply.columns@[i]).oracle_type),
                ) is Some))),
            r is Err ==> final(self).executed == old(self).executed
                && final(self).row == old(self).row
                && final(self).pending@ == old(self).pending@
                && final(self).pending_next == old(self).pending_next
                && final(self).delivery_done == old(self).delivery_done
                && final(self).fetch_array_size == old(self).fetch_array_size
                && final(self).next_slot == old(self).next_slot,
            r is Ok ==> final(self).executed && final(self).fetch_array_size
                == reply.fetch_array_size,
            r is Ok && old(self).statement_type is Select ==> final(self).row.column_info@
                == reply.columns@ && (forall|i: int|
                0 <= i < reply.columns@.len() ==> fresh_buffer(
                    #[trigger] final(self).row.column_values@[i],
                    spec_effective_type(reply.columns@[i].oracle_type),
                    reply.fetch_array_size,
                )),
    {
        let mut i: usize = 0;
        while i < params.len()
            invariant
                stmt_wf(*self),
                self.is_open,
                self.statement_type == old(self).statement_type,
                self.bind_count == old(self).bind_count,
                self.bind_names@ == old(self).bind_names@,
                self.executed == old(self).executed,
                self.row == old(self).row,
                self.pending@ == old(self).pending@,
                self.pending_next == old(self).pending_next,
                self.delivery_done == old(self).delivery_done,
                self.fetch_array_size == old(self).fetch_array_size,
                self.next_slot == old(self).next_slot,
                i <= params@.len(),
                forall|k: int| 0 <= k < params@.len() ==> hv_wf((#[trigger] params@[k]).1),
                forall|k: int|
                    0 <= k < i ==> spec_find_name(
                        stmt_names(*old(self)),
                        spec_upper((#[trigger] params@[k]).0@),
                        0,
                    ) is Some && spec_catalog(hv_oratype(params@[k].1)) is Some,
            decreases params@.len() - i,
        {
            let name: &String = &params[i].0;
            match self.bind(name.as_str(), &params[i].1) {
                Ok(()) => {},
                Err(e) => {
                    return Err(e);
                },
            }
            i = i + 1;
        }
        self.execute_with(reply)
    }

    /// Executes the statement against the outcome the server reported: for
    /// a query, rebuilds the column metadata and one freshly allocated
    /// column cell per column, each buffered for the reported count of rows
    /// per round trip under its column's fetch-relevant type
    /// ([`spec_effective_type`]); for anything else, marks the statement
    /// executed. Fails exactly when a query reports no buffer capacity or a
    /// column whose fetch-relevant type is outside the catalog.
    pub fn execute_with(&mut self, reply: &ExecOutcome) -> (r: Result<(), Error>)
        requires
            stmt_wf(*old(self)),
            old(self).is_open,
        ensures
            stmt_wf(*final(self)),
            final(self).statement_type == old(self).statement_type,
            final(self).is_returning == old(self).is_returning,
            final(self).bind_count == old(self).bind_count,
            final(self).bind_names@ == old(self).bind_names@,
            final(self).bind_values@ == old(self).bind_values@,
            final(self).is_open,
            r is Ok <==> (old(self).statement_type is Select ==> reply.fetch_array_size >= 1
                && (forall|i: int|
                0 <= i < reply.columns@.len() ==> spec_catalog(
                    spec_effective_type((#[trigger] reply.columns@[i]).oracle_type),
                ) is Some)),
            r is Err ==> *final(self) == *old(self),
            (old(self).statement_type is Select && reply.fetch_array_size == 0) ==> (r matches Err(
                Error::InternalError(_),
            )),
            (r is Err && reply.fetch_array_size >= 1) ==> (r matches Err(Error::NotSupported(_))),
            r is Ok ==> final(self).executed && final(self).fetch_array_size
                == reply.fetch_array_size,
            r is Ok && old(self).statement_type is Select ==> {
                &&& final(self).row.column_info@ == reply.columns@
                &&& final(self).row.column_values@.len() == reply.columns@.len()
                &&& (forall|i: int|
                    0 <= i < reply.columns@.len() ==> fresh_buffer(
                        #[trigger] final(self).row.column_values@[i],
                        spec_effective_type(reply.columns@[i].oracle_type),
                        reply.fetch_array_size,
                    ))
                &&& final(self).pending@.len() == 0
                &&& final(self).pending_next == 0
                &&& !final(self).delivery_done
                &&& final(self).next_slot == 0
            },
            r is Ok && !(old(self).statement_type is Select) ==> final(self).row
                == old(self).row,
    {
        let is_select = match self.statement_type {
            StatementType::Select => true,
            _ => false,
        };
        if !is_select {
            self.executed = true;
            self.fetch_array_size = reply.fetch_array_size;
            return Ok(());
        }
        if reply.fetch_array_size == 0 {
            return Err(Error::InternalError(String::from_str("no buffer capacity")));
        }
        // Build the fresh column cells first; nothing is mutated until
        // every column's type is known to be supported.
        let mut cells: Vec<SqlValue> = Vec::new();
        let mut infos: Vec<ColumnInfo> = Vec::new();
        let mut i: usize = 0;
        while i < reply.columns.len()
            invariant
                *self == *old(self),
                stmt_wf(*self),
                old(self).is_open,
                old(self).statement_type is Select,
                i <= reply.columns@.len(),
                cells@.len() == i as int,
                infos@.len() == i as int,
                forall|j: int|
                    0 <= j < i ==> spec_catalog(
                        spec_effective_type((#[trigger] reply.columns@[j]).oracle_type),
                    ) is Some,
                forall|j: int| 0 <= j < i ==> #[trigger] infos@[j] == reply.columns@[j],
                reply.fetch_array_size >= 1,
                forall|j: int|
                    0 <= j < i ==> fresh_buffer(
                        #[trigger] cells@[j],
                        spec_effective_type(reply.columns@[j].oracle_type),
                        reply.fetch_array_size,
                    ) && cell_wf(cells@[j]),
            decreases reply.columns@.len() - i,
        {
            let info = reply.columns[i].clone();
            let eff = effective_column_type(&info.oracle_type);
            let mut cell = SqlValue::new();
            match cell.init_handle(&eff, reply.fetch_array_size) {
                Ok(_) => {},
                Err(e) => {
                    return Err(e);
                },
            }
            infos.push(info);
            cells.push(cell);
            i = i + 1;
        }
        self.row = Row { column_info: infos, column_values: cells };
        self.pending = Vec::new();
        self.pending_next = 0;
        self.delivery_done = false;
        self.next_slot = 0;
        self.executed = true;
        self.fetch_array_size = reply.fetch_array_size;
        proof {
            assert(final(self).row.column_info@ =~= reply.columns@);
        }
        Ok(())
    }

    /// Hands the statement the rows of one fetch round trip, with whether
    /// they are the last. Accepted exactly when a query has executed and
    /// every row fits the column buffers, slot for slot.
    pub fn deliver_rows(&mut self, rows: Vec<Vec<DataSlot>>, done: bool) -> (r: Result<(), Error>)
        requires
            stmt_wf(*old(self)),
            old(self).is_open,
        ensures
            stmt_wf(*final(self)),
            r is Ok <==> (old(self).executed && old(self).statement_type is Select && forall|k: int|
                0 <= k < rows@.len() ==> row_data_fits((#[trigger] rows@[k])@, *old(self))),
            r is Err ==> *final(self) == *old(self) && r->Err_0 matches Error::InternalError(_),
            r is Ok ==> {
                &&& same_rows_but_pending(*old(self), *final(self))
                &&& final(self).pending@ == old(self).pending@ + rows@
                &&& final(self).delivery_done == done
            },
    {
        let is_select = match self.statement_type {
            StatementType::Select => true,
            _ => false,
        };
        if !self.executed || !is_select {
            return Err(Error::InternalError(String::from_str("no executed query")));
        }
        // Validate every row against the column buffers before taking any.
        let mut k: usize = 0;
        while k < rows.len()
            invariant
                k <= rows@.len(),
                stmt_wf(*self),
                forall|j: int| 0 <= j < k ==> row_data_fits((#[trigger] rows@[j])@, *self),
            decreases rows@.len() - k,
        {
            if !self.row_fits(&rows[k]) {
                return Err(Error::InternalError(String::from_str("row shape mismatch")));
            }
            k = k + 1;
        }
        let mut rows = rows;
        let ghost pre_pending = self.pending@;
        let ghost added = rows@;
        self.pending.append(&mut rows);
        self.delivery_done = done;
        proof {
            assert forall|j: int| 0 <= j < final(self).pending@.len() implies row_data_fits(
                (#[trigger] final(self).pending@[j])@,
                *final(self),
            ) by {
                if j < pre_pending.len() {
                    assert(final(self).pending@[j] == pre_pending[j]);
                    assert(row_data_fits(pre_pending[j]@, *old(self)));
                } else {
                    assert(final(self).pending@[j] == added[j - pre_pending.len()]);
                }
            }
        }
        Ok(())
    }

    /// Whether one delivered row fits the column buffers.
    fn row_fits(&self, row: &Vec<DataSlot>) -> (r: bool)
        requires
            stmt_wf(*self),
        ensures
            r == row_data_fits(row@, *self),
    {
        if row.len() != self.row.column_values.len() {
            return false;
        }
        let mut j: usize = 0;
        while j < row.len()
            invariant
                j <= row@.len(),
                row@.len() == self.row.column_values@.len(),
                stmt_wf(*self),
                forall|i: int|
                    0 <= i < j ==> value_fits(
                        (#[trigger] row@[i]).value@,
                        self.row.column_values@[i].native_type,
                    ),
            decreases row@.len() - j,
        {
            if !crate::value::value_fits_cell(&row[j].value, &self.row.column_values[j]) {
                return false;
            }
            j = j + 1;
        }
        true
    }

    /// Fetches the next row: repositions every column cell at the next
    /// buffer slot, filled with the delivered row, and hands back a view.
    /// When the delivered rows are exhausted and the server has announced
    /// their end, every call reports [`Error::NoMoreData`] and changes
    /// nothing — an iteration terminator, not a fault.
    pub fn fetch(&mut self) -> (r: Result<Row, Error>)
        requires
            stmt_wf(*old(self)),
            old(self).is_open,
        ensures
            stmt_wf(*final(self)),
            !(old(self).executed && old(self).statement_type is Select) ==> (r matches Err(
                Error::InternalError(_),
            )) && *final(self) == *old(self),
            old(self).executed && old(self).statement_type is Select ==> {
                if old(self).pending_next < old(self).pending@.len() {
                    &&& r is Ok
                    &&& final(self).pending_next == old(self).pending_next + 1
                    &&& final(self).pending@ == old(self).pending@
                    &&& final(self).row.column_info@ == old(self).row.column_info@
                    &&& final(self).row.column_values@.len() == old(self).row.column_values@.len()
                    &&& row_wf(r->Ok_0)
                    &&& r->Ok_0.column_info@ == old(self).row.column_info@
                    &&& r->Ok_0.column_values@.len() == old(self).row.column_values@.len()
                    &&& (forall|j: int|
                        0 <= j < r->Ok_0.column_values@.len() ==> cell_shape_eq(
                            old(self).row.column_values@[j],
                            #[trigger] final(self).row.column_values@[j],
                        ) && cell_like(
                            final(self).row.column_values@[j],
                            r->Ok_0.column_values@[j],
                        ) && cell_shape_eq(
                            old(self).row.column_values@[j],
                            r->Ok_0.column_values@[j],
                        ))
                    &&& (forall|j: int|
                        0 <= j < r->Ok_0.column_values@.len() ==> cur(
                            #[trigger] r->Ok_0.column_values@[j],
                        ).is_null == old(self).pending@[old(self).pending_next as int]@[j].is_null
                            && cur(r->Ok_0.column_values@[j]).value@ == old(self).pending@[old(
                            self,
                        ).pending_next as int]@[j].value@)
                } else if old(self).delivery_done {
                    r == Err::<Row, Error>(Error::NoMoreData) && *final(self) == *old(self)
                } else {
                    (r matches Err(Error::InternalError(_))) && *final(self) == *old(self)
                }
            },
    {
        let is_select = match self.statement_type {
            StatementType::Select => true,
            _ => false,
        };
        if !self.executed || !is_select {
            return Err(Error::InternalError(String::from_str("no executed query")));
        }
        if self.pending_next >= self.pending.len() {
            if self.delivery_done {
                return Err(Error::NoMoreData);
            }
            return Err(Error::InternalError(String::from_str("no delivered row")));
        }
        let slot = self.next_slot;
        let ncols = self.row.column_values.len();
        let mut j: usize = 0;
        while j < ncols
            invariant
                j <= ncols,
                self.is_open == old(self).is_open,
                self.statement_type == old(self).statement_type,
                self.is_returning == old(self).is_returning,
                self.bind_count == old(self).bind_count,
                self.bind_names@ == old(self).bind_names@,
                self.bind_values@ == old(self).bind_values@,
                self.executed == old(self).executed,
                self.fetch_array_size == old(self).fetch_array_size,
                self.pending@ == old(self).pending@,
                self.pending_next == old(self).pending_next,
                self.delivery_done == old(self).delivery_done,
                self.next_slot == old(self).next_slot,
                slot == old(self).next_slot,
                ncols == self.row.column_values@.len(),
                self.row.column_info@ == old(self).row.column_info@,
                old(self).pending_next < old(self).pending@.len(),
                stmt_wf(*old(self)),
                self.row.column_values@.len() == old(self).row.column_values@.len(),
                forall|i: int|
                    0 <= i < ncols ==> cell_wf(#[trigger] self.row.column_values@[i])
                        && cell_shape_eq(
                        old(self).row.column_values@[i],
                        self.row.column_values@[i],
                    ) && self.row.column_values@[i].array_size == self.fetch_array_size,
                forall|i: int|
                    0 <= i < j ==> cur(#[trigger] self.row.column_values@[i]).is_null == old(
                        self,
                    ).pending@[old(self).pending_next as int]@[i].is_null && cur(
                        self.row.column_values@[i],
                    ).value@ == old(self).pending@[old(self).pending_next as int]@[i].value@,
            decreases ncols - j,
    {
            proof {
                assert(row_data_fits(
                    old(self).pending@[old(self).pending_next as int]@,
                    *old(self),
                ));
            }
            let src = self.pending[self.pending_next][j].clone();
            self.row.column_values[j].load_slot(slot, src.is_null, src.value);
            j = j + 1;
        }
        self.pending_next = self.pending_next + 1;
        if ncols > 0 {
            self.next_slot = (self.next_slot + 1) % self.fetch_array_size;
        }
        let out = self.row.clone();
        proof {
            assert forall|i: int| 0 <= i < final(self).pending@.len() implies row_data_fits(
                (#[trigger] final(self).pending@[i])@,
                *final(self),
            ) by {
                assert(row_data_fits(old(self).pending@[i]@, *old(self)));
            }
        }
        Ok(out)
    }

    /// The slot count: every marker for plain statements, unique names for
    /// procedural blocks.
    pub fn bind_count(&self) -> (r: usize)
        ensures
            r == self.bind_count,
    {
        self.bind_count
    }

    /// The unique case-folded bind names, in first-occurrence order.
    pub fn bind_names(&self) -> (r: &Vec<String>)
        ensures
            r == &self.bind_names,
    {
        &self.bind_names
    }

    /// The column count of the current execution; zero for anything but a
    /// query.
    pub fn column_count(&self) -> (r: usize)
        ensures
            r == self.row.column_info@.len(),
    {
        self.row.column_info.len()
    }

    /// The column names of the current execution.
    pub fn column_names(&self) -> (r: Vec<String>)
        ensures
            r@.len() == self.row.column_info@.len(),
            forall|i: int|
                0 <= i < r@.len() ==> (#[trigger] r@[i])@ == self.row.column_info@[i].name@,
    {
        let mut out: Vec<String> = Vec::new();
        let mut i: usize = 0;
        while i < self.row.column_info.len()
            invariant
                i <= self.row.column_info@.len(),
                out@.len() == i as int,
                forall|j: int|
                    0 <= j < i ==> (#[trigger] out@[j])@ == self.row.column_info@[j].name@,
            decreases self.row.column_info@.len() - i,
        {
            let n = self.row.column_info[i].name.clone();
            out.push(n);
            i = i + 1;
        }
        out
    }

    /// The column descriptions of the current execution.
    pub fn column_info(&self) -> (r: &Vec<ColumnInfo>)
        ensures
            r == &self.row.column_info,
    {
        &self.row.column_info
    }

    /// The statement's kind.
    pub fn statement_type(&self) -> (r: StatementType)
        ensures
            r == self.statement_type,
    {
        self.statement_type
    }

    /// Whether the statement carries a returning clause.
    pub fn is_returning(&self) -> (r: bool)
        ensures
            r == self.is_returning,
    {
        self.is_returning
    }
}

/// Every statement field but the pending rows and the delivery flag equal.
pub open spec fn same_rows_but_pending(a: Statement, b: Statement) -> bool {
    &&& b.is_open == a.is_open
    &&& b.statement_type == a.statement_type
    &&& b.is_returning == a.is_returning
    &&& b.bind_count == a.bind_count
    &&& b.bind_names@ == a.bind_names@
    &&& b.bind_values@ == a.bind_values@
    &&& b.row == a.row
    &&& b.fetch_array_size == a.fetch_array_size
    &&& b.executed == a.executed
    &&& b.pending_next == a.pending_next
    &&& b.next_slot == a.next_slot
}

/// Classifies a case-folded first word.
fn classify_word(w: &Vec<char>) -> (r: StatementType)
    ensures
        forall|s: Seq<char>| spec_first_word(s) == w@ ==> r == spec_classify(s),
{
    let select_w = str_to_chars("SELECT");
    let with_w = str_to_chars("WITH");
    let insert_w = str_to_chars("INSERT");
    let update_w = str_to_chars("UPDATE");
    let delete_w = str_to_chars("DELETE");
    let merge_w = str_to_chars("MERGE");
    let create_w = str_to_chars("CREATE");
    let alter_w = str_to_chars("ALTER");
    let drop_w = str_to_chars("DROP");
    let begin_w = str_to_chars("BEGIN");
    let declare_w = str_to_chars("DECLARE");
    if crate::sqltext::chars_eq(w, &select_w) || crate::sqltext::chars_eq(w, &with_w) {
        StatementType::Select
    } else if crate::sqltext::chars_eq(w, &insert_w) {
        StatementType::Insert
    } else if crate::sqltext::chars_eq(w, &update_w) {
        StatementType::Update
    } else if crate::sqltext::chars_eq(w, &delete_w) {
        StatementType::Delete
    } else if crate::sqltext::chars_eq(w, &merge_w) {
        StatementType::Merge
    } else if crate::sqltext::chars_eq(w, &create_w) {
        StatementType::Create
    } else if crate::sqltext::chars_eq(w, &alter_w) {
        StatementType::Alter
    } else if crate::sqltext::chars_eq(w, &drop_w) {
        StatementType::Drop
    } else if crate::sqltext::chars_eq(w, &begin_w) {
        StatementType::Begin
    } else if crate::sqltext::chars_eq(w, &declare_w) {
        StatementType::Declare
    } else {
        StatementType::Other(0)
    }
}

// ---------------------------------------------------------------------------
// Bind directory laws
// ---------------------------------------------------------------------------

/// The slot counts of one text under the two statement families: a
/// procedural block's count — the unique names — never exceeds a plain
/// statement's count — every marker; they agree exactly when no marker
/// name repeats (up to case).
pub proof fn lemma_bind_count_families(s: Seq<char>)
    ensures
        spec_unique_upper(spec_markers(s)).len() <= spec_markers(s).len(),
{
    crate::sqltext::lemma_unique_upper_len(spec_markers(s));
}

} // verus!
