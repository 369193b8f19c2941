//! The type catalog: the closed set of logical database types, the closed
//! set of native buffer encodings, and the total mapping from the first to
//! the second.

use vstd::prelude::*;

use crate::error::Error;
use crate::text::{chars_to_string, format_u64, push_char};

verus! {

use vstd::string::StringExecFns;

/// The largest decimal precision of a scale-zero numeric column that is
/// still certain to fit a 64-bit signed integer.
pub const MAX_INT64_PRECISION: u8 = 18;

/// A description of an object (or collection) type, the minimum needed to
/// read and write an object-typed value.
#[derive(Debug)]
pub struct ObjectType {
    /// The type's name.
    pub name: String,
    /// Whether the type is a collection rather than a plain object.
    pub is_collection: bool,
}

/// The mathematical content of an [`ObjectType`].
pub ghost struct ObjectTypeModel {
    pub name: Seq<char>,
    pub is_collection: bool,
}

impl View for ObjectType {
    type V = ObjectTypeModel;

    open spec fn view(&self) -> ObjectTypeModel {
        ObjectTypeModel { name: self.name@, is_collection: self.is_collection }
    }
}

impl Clone for ObjectType {
    fn clone(&self) -> (r: Self)
        ensures
            r == *self,
    {
        ObjectType { name: self.name.clone(), is_collection: self.is_collection }
    }
}

impl ObjectType {
    /// Builds an object type description.
    pub fn new(name: String, is_collection: bool) -> (r: ObjectType)
        ensures
            r@.name == name@,
            r@.is_collection == is_collection,
    {
        ObjectType { name, is_collection }
    }

    /// Whether the two descriptions name the same type.
    pub fn same_as(&self, other: &ObjectType) -> (r: bool)
        ensures
            r == (self@ == other@),
    {
        let names_equal = self.name == other.name;
        let r = names_equal && self.is_collection == other.is_collection;
        proof {
            if r {
                assert(self@ == other@);
            }
        }
        r
    }
}

/// The logical database types the catalog knows, with their parameters.
#[derive(Debug)]
pub enum OracleType {
    /// `VARCHAR2(size)`.
    Varchar2(u32),
    /// `NVARCHAR2(size)`.
    Nvarchar2(u32),
    /// `CHAR(size)`.
    Char(u32),
    /// `NCHAR(size)`.
    NChar(u32),
    /// `ROWID`.
    Rowid,
    /// `RAW(size)`.
    Raw(u32),
    /// `BINARY_FLOAT`.
    BinaryFloat,
    /// `BINARY_DOUBLE`.
    BinaryDouble,
    /// `NUMBER(precision, scale)`.
    Number(u8, i8),
    /// `DATE`.
    Date,
    /// `TIMESTAMP(fractional second precision)`.
    Timestamp(u8),
    /// `TIMESTAMP(...) WITH TIME ZONE`.
    TimestampTZ(u8),
    /// `TIMESTAMP(...) WITH LOCAL TIME ZONE`.
    TimestampLTZ(u8),
    /// `INTERVAL DAY(leading precision) TO SECOND(fractional precision)`.
    IntervalDS(u8, u8),
    /// `INTERVAL YEAR(leading precision) TO MONTH`.
    IntervalYM(u8),
    /// `CLOB`.
    CLOB,
    /// `NCLOB`.
    NCLOB,
    /// `BLOB`.
    BLOB,
    /// `BFILE`.
    BFILE,
    /// `LONG`.
    Long,
    /// `LONG RAW`.
    LongRaw,
    /// A 64-bit signed integer column definition.
    Int64,
    /// A 64-bit unsigned integer column definition.
    UInt64,
    /// `BOOLEAN`, PL/SQL only.
    Boolean,
    /// An object or collection type.
    Object(ObjectType),
}

impl Clone for OracleType {
    fn clone(&self) -> (r: Self)
        ensures
            r == *self,
    {
        match self {
            OracleType::Varchar2(n) => OracleType::Varchar2(*n),
            OracleType::Nvarchar2(n) => OracleType::Nvarchar2(*n),
            OracleType::Char(n) => OracleType::Char(*n),
            OracleType::NChar(n) => OracleType::NChar(*n),
            OracleType::Rowid => OracleType::Rowid,
            OracleType::Raw(n) => OracleType::Raw(*n),
            OracleType::BinaryFloat => OracleType::BinaryFloat,
            OracleType::BinaryDouble => OracleType::BinaryDouble,
            OracleType::Number(p, s) => OracleType::Number(*p, *s),
            OracleType::Date => OracleType::Date,
            OracleType::Timestamp(p) => OracleType::Timestamp(*p),
            OracleType::TimestampTZ(p) => OracleType::TimestampTZ(*p),
            OracleType::TimestampLTZ(p) => OracleType::TimestampLTZ(*p),
            OracleType::IntervalDS(l, f) => OracleType::IntervalDS(*l, *f),
            OracleType::IntervalYM(l) => OracleType::IntervalYM(*l),
            OracleType::CLOB => OracleType::CLOB,
            OracleType::NCLOB => OracleType::NCLOB,
            OracleType::BLOB => OracleType::BLOB,
            OracleType::BFILE => OracleType::BFILE,
            OracleType::Long => OracleType::Long,
            OracleType::LongRaw => OracleType::LongRaw,
            OracleType::Int64 => OracleType::Int64,
            OracleType::UInt64 => OracleType::UInt64,
            OracleType::Boolean => OracleType::Boolean,
            OracleType::Object(t) => OracleType::Object(t.clone()),
        }
    }
}

/// The driver-level type code of a logical type; two logical types with the
/// same code share buffer layout.
#[derive(Debug, Clone, Copy, PartialEq, Eq, Structural)]
pub enum TypeCode {
    Varchar,
    Nvarchar,
    Char,
    Nchar,
    Rowid,
    Raw,
    NativeFloat,
    NativeDouble,
    NativeInt,
    NativeUint,
    Number,
    Date,
    Timestamp,
    TimestampTz,
    TimestampLtz,
    IntervalDs,
    IntervalYm,
    Clob,
    Nclob,
    Blob,
    Long,
    LongRaw,
    Boolean,
    Object,
}

/// The in-memory representations a value-cell buffer may hold. Every
/// logical type maps to exactly one of these.
#[derive(Debug)]
pub enum NativeType {
    /// A 64-bit signed integer.
    Int64,
    /// A 64-bit unsigned integer.
    UInt64,
    /// A 32-bit floating-point value, held by its bit pattern.
    Float,
    /// A 64-bit floating-point value, held by its bit pattern.
    Double,
    /// Character text.
    Char,
    /// Numeric text.
    Number,
    /// Raw bytes.
    Raw,
    /// A date-time value.
    Timestamp,
    /// A day-to-second interval.
    IntervalDS,
    /// A year-to-month interval.
    IntervalYM,
    /// A character large object.
    CLOB,
    /// A binary large object.
    BLOB,
    /// A boolean, PL/SQL only.
    Boolean,
    /// An object or collection of the named type.
    Object(ObjectType),
}

impl Clone for NativeType {
    fn clone(&self) -> (r: Self)
        ensures
            r == *self,
    {
        match self {
            NativeType::Int64 => NativeType::Int64,
            NativeType::UInt64 => NativeType::UInt64,
            NativeType::Float => NativeType::Float,
            NativeType::Double => NativeType::Double,
            NativeType::Char => NativeType::Char,
            NativeType::Number => NativeType::Number,
            NativeType::Raw => NativeType::Raw,
            NativeType::Timestamp => NativeType::Timestamp,
            NativeType::IntervalDS => NativeType::IntervalDS,
            NativeType::IntervalYM => NativeType::IntervalYM,
            NativeType::CLOB => NativeType::CLOB,
            NativeType::BLOB => NativeType::BLOB,
            NativeType::Boolean => NativeType::Boolean,
            NativeType::Object(t) => NativeType::Object(t.clone()),
        }
    }
}

/// Whether two native encodings are the same, comparing object types by
/// their content.
pub open spec fn same_encoding(a: NativeType, b: NativeType) -> bool {
    match (a, b) {
        (NativeType::Int64, NativeType::Int64) => true,
        (NativeType::UInt64, NativeType::UInt64) => true,
        (NativeType::Float, NativeType::Float) => true,
        (NativeType::Double, NativeType::Double) => true,
        (NativeType::Char, NativeType::Char) => true,
        (NativeType::Number, NativeType::Number) => true,
        (NativeType::Raw, NativeType::Raw) => true,
        (NativeType::Timestamp, NativeType::Timestamp) => true,
        (NativeType::IntervalDS, NativeType::IntervalDS) => true,
        (NativeType::IntervalYM, NativeType::IntervalYM) => true,
        (NativeType::CLOB, NativeType::CLOB) => true,
        (NativeType::BLOB, NativeType::BLOB) => true,
        (NativeType::Boolean, NativeType::Boolean) => true,
        (NativeType::Object(x), NativeType::Object(y)) => x@ == y@,
        _ => false,
    }
}

impl NativeType {
    /// Decides [`same_encoding`].
    pub fn encoding_matches(&self, other: &NativeType) -> (r: bool)
        ensures
            r == same_encoding(*self, *other),
    {
        match (self, other) {
            (NativeType::Int64, NativeType::Int64) => true,
            (NativeType::UInt64, NativeType::UInt64) => true,
            (NativeType::Float, NativeType::Float) => true,
            (NativeType::Double, NativeType::Double) => true,
            (NativeType::Char, NativeType::Char) => true,
            (NativeType::Number, NativeType::Number) => true,
            (NativeType::Raw, NativeType::Raw) => true,
            (NativeType::Timestamp, NativeType::Timestamp) => true,
            (NativeType::IntervalDS, NativeType::IntervalDS) => true,
            (NativeType::IntervalYM, NativeType::IntervalYM) => true,
            (NativeType::CLOB, NativeType::CLOB) => true,
            (NativeType::BLOB, NativeType::BLOB) => true,
            (NativeType::Boolean, NativeType::Boolean) => true,
            (NativeType::Object(x), NativeType::Object(y)) => x.same_as(y),
            _ => false,
        }
    }
}

/// The catalog entry of a logical type: driver type code, native encoding,
/// buffer element size, and whether that size counts bytes. `None` for the
/// one family the catalog does not support.
pub open spec fn spec_catalog(t: OracleType) -> Option<(TypeCode, NativeType, u32, bool)> {
    match t {
        OracleType::Varchar2(n) => Some((TypeCode::Varchar, NativeType::Char, n, false)),
        OracleType::Nvarchar2(n) => Some((TypeCode::Nvarchar, NativeType::Char, n, false)),
        OracleType::Char(n) => Some((TypeCode::Char, NativeType::Char, n, false)),
        OracleType::NChar(n) => Some((TypeCode::Nchar, NativeType::Char, n, false)),
        OracleType::Rowid => Some((TypeCode::Rowid, NativeType::Char, 0, false)),
        OracleType::Raw(n) => Some((TypeCode::Raw, NativeType::Raw, n, true)),
        OracleType::BinaryFloat => Some((TypeCode::NativeFloat, NativeType::Float, 0, false)),
        OracleType::BinaryDouble => Some((TypeCode::NativeDouble, NativeType::Double, 0, false)),
        OracleType::Number(_, _) => Some((TypeCode::Number, NativeType::Number, 1, false)),
        OracleType::Date => Some((TypeCode::Date, NativeType::Timestamp, 0, false)),
        OracleType::Timestamp(_) => Some((TypeCode::Timestamp, NativeType::Timestamp, 0, false)),
        OracleType::TimestampTZ(_) => Some(
            (TypeCode::TimestampTz, NativeType::Timestamp, 0, false),
        ),
        OracleType::TimestampLTZ(_) => Some(
            (TypeCode::TimestampLtz, NativeType::Timestamp, 0, false),
        ),
        OracleType::IntervalDS(_, _) => Some(
            (TypeCode::IntervalDs, NativeType::IntervalDS, 0, false),
        ),
        OracleType::IntervalYM(_) => Some((TypeCode::IntervalYm, NativeType::IntervalYM, 0, false)),
        OracleType::CLOB => Some((TypeCode::Clob, NativeType::CLOB, 0, false)),
        OracleType::NCLOB => Some((TypeCode::Nclob, NativeType::CLOB, 0, false)),
        OracleType::BLOB => Some((TypeCode::Blob, NativeType::BLOB, 0, false)),
        OracleType::BFILE => None,
        OracleType::Long => Some((TypeCode::Long, NativeType::Char, 0, false)),
        OracleType::LongRaw => Some((TypeCode::LongRaw, NativeType::Raw, 0, false)),
        OracleType::Int64 => Some((TypeCode::NativeInt, NativeType::Int64, 0, false)),
        OracleType::UInt64 => Some((TypeCode::NativeUint, NativeType::UInt64, 0, false)),
        OracleType::Boolean => Some((TypeCode::Boolean, NativeType::Boolean, 0, false)),
        OracleType::Object(ot) => Some((TypeCode::Object, NativeType::Object(ot), 0, false)),
    }
}

/// The declaration-style name of a logical type, as error reports and
/// column descriptions show it: the keyword, with its parameters in
/// parentheses.
pub open spec fn spec_type_name(t: OracleType) -> Seq<char> {
    match t {
        OracleType::Varchar2(n) => spec_sized_name("VARCHAR2"@, n as nat),
        OracleType::Nvarchar2(n) => spec_sized_name("NVARCHAR2"@, n as nat),
        OracleType::Char(n) => spec_sized_name("CHAR"@, n as nat),
        OracleType::NChar(n) => spec_sized_name("NCHAR"@, n as nat),
        OracleType::Rowid => "ROWID"@,
        OracleType::Raw(n) => spec_sized_name("RAW"@, n as nat),
        OracleType::BinaryFloat => "BINARY_FLOAT"@,
        OracleType::BinaryDouble => "BINARY_DOUBLE"@,
        OracleType::Number(p, s) => if p == 0 {
            "NUMBER"@
        } else if s == 0 {
            spec_sized_name("NUMBER"@, p as nat)
        } else {
            "NUMBER"@ + seq!['('] + crate::text::spec_dec_digits(p as nat) + seq![',']
                + crate::text::spec_dec_int(s as int) + seq![')']
        },
        OracleType::Date => "DATE"@,
        OracleType::Timestamp(p) => spec_sized_name("TIMESTAMP"@, p as nat),
        OracleType::TimestampTZ(p) => spec_sized_name("TIMESTAMP"@, p as nat) + " WITH TIME ZONE"@,
        OracleType::TimestampLTZ(p) => spec_sized_name("TIMESTAMP"@, p as nat)
            + " WITH LOCAL TIME ZONE"@,
        OracleType::IntervalDS(l, f) => spec_sized_name("INTERVAL DAY"@, l as nat)
            + " TO SECOND"@ + seq!['('] + crate::text::spec_dec_digits(f as nat) + seq![')'],
        OracleType::IntervalYM(l) => spec_sized_name("INTERVAL YEAR"@, l as nat) + " TO MONTH"@,
        OracleType::CLOB => "CLOB"@,
        OracleType::NCLOB => "NCLOB"@,
        OracleType::BLOB => "BLOB"@,
        OracleType::BFILE => "BFILE"@,
        OracleType::Long => "LONG"@,
        OracleType::LongRaw => "LONG RAW"@,
        OracleType::Int64 => "INT64"@,
        OracleType::UInt64 => "UINT64"@,
        OracleType::Boolean => "BOOLEAN"@,
        OracleType::Object(ot) => ot.name@,
    }
}

/// A keyword with one parenthesized decimal parameter.
pub open spec fn spec_sized_name(name: Seq<char>, n: nat) -> Seq<char> {
    name + seq!['('] + crate::text::spec_dec_digits(n) + seq![')']
}

/// The character and raw family, whose buffer reuse compares sizes.
pub open spec fn is_size_family(c: TypeCode) -> bool {
    c == TypeCode::Varchar || c == TypeCode::Nvarchar || c == TypeCode::Char || c == TypeCode::Nchar
        || c == TypeCode::Raw
}

impl OracleType {
    /// The catalog lookup: driver type code, native encoding, element size
    /// and size unit for this logical type. Fails with [`Error::NotSupported`]
    /// exactly on the types the catalog does not support.
    pub fn var_create_param(&self) -> (r: Result<(TypeCode, NativeType, u32, bool), Error>)
        ensures
            r is Ok <==> spec_catalog(*self) is Some,
            r is Ok ==> Some(r->Ok_0) == spec_catalog(*self),
            r is Err ==> r->Err_0 matches Error::NotSupported(_),
    {
        match self {
            OracleType::Varchar2(n) => Ok((TypeCode::Varchar, NativeType::Char, *n, false)),
            OracleType::Nvarchar2(n) => Ok((TypeCode::Nvarchar, NativeType::Char, *n, false)),
            OracleType::Char(n) => Ok((TypeCode::Char, NativeType::Char, *n, false)),
            OracleType::NChar(n) => Ok((TypeCode::Nchar, NativeType::Char, *n, false)),
            OracleType::Rowid => Ok((TypeCode::Rowid, NativeType::Char, 0, false)),
            OracleType::Raw(n) => Ok((TypeCode::Raw, NativeType::Raw, *n, true)),
            OracleType::BinaryFloat => Ok((TypeCode::NativeFloat, NativeType::Float, 0, false)),
            OracleType::BinaryDouble => Ok((TypeCode::NativeDouble, NativeType::Double, 0, false)),
            OracleType::Number(_, _) => Ok((TypeCode::Number, NativeType::Number, 1, false)),
            OracleType::Date => Ok((TypeCode::Date, NativeType::Timestamp, 0, false)),
            OracleType::Timestamp(_) => Ok((TypeCode::Timestamp, NativeType::Timestamp, 0, false)),
            OracleType::TimestampTZ(_) => Ok(
                (TypeCode::TimestampTz, NativeType::Timestamp, 0, false),
            ),
            OracleType::TimestampLTZ(_) => Ok(
                (TypeCode::TimestampLtz, NativeType::Timestamp, 0, false),
            ),
            OracleType::IntervalDS(_, _) => Ok(
                (TypeCode::IntervalDs, NativeType::IntervalDS, 0, false),
            ),
            OracleType::IntervalYM(_) => Ok(
                (TypeCode::IntervalYm, NativeType::IntervalYM, 0, false),
            ),
            OracleType::CLOB => Ok((TypeCode::Clob, NativeType::CLOB, 0, false)),
            OracleType::NCLOB => Ok((TypeCode::Nclob, NativeType::CLOB, 0, false)),
            OracleType::BLOB => Ok((TypeCode::Blob, NativeType::BLOB, 0, false)),
            OracleType::BFILE => Err(Error::NotSupported(self.name_text())),
            OracleType::Long => Ok((TypeCode::Long, NativeType::Char, 0, false)),
            OracleType::LongRaw => Ok((TypeCode::LongRaw, NativeType::Raw, 0, false)),
            OracleType::Int64 => Ok((TypeCode::NativeInt, NativeType::Int64, 0, false)),
            OracleType::UInt64 => Ok((TypeCode::NativeUint, NativeType::UInt64, 0, false)),
            OracleType::Boolean => Ok((TypeCode::Boolean, NativeType::Boolean, 0, false)),
            OracleType::Object(ot) => Ok((TypeCode::Object, NativeType::Object(ot.clone()), 0, false)),
        }
    }

    /// The type's declaration-style name, used in error reports and column
    /// descriptions, such as `VARCHAR2(60)` or `NUMBER(7,2)`
    /// ([`spec_type_name`]).
    pub fn name_text(&self) -> (r: String)
        ensures
            r@ == spec_type_name(*self),
    {
        match self {
            OracleType::Varchar2(n) => sized_name("VARCHAR2", *n),
            OracleType::Nvarchar2(n) => sized_name("NVARCHAR2", *n),
            OracleType::Char(n) => sized_name("CHAR", *n),
            OracleType::NChar(n) => sized_name("NCHAR", *n),
            OracleType::Rowid => String::from_str("ROWID"),
            OracleType::Raw(n) => sized_name("RAW", *n),
            OracleType::BinaryFloat => String::from_str("BINARY_FLOAT"),
            OracleType::BinaryDouble => String::from_str("BINARY_DOUBLE"),
            OracleType::Number(p, s) => {
                if *p == 0 {
                    String::from_str("NUMBER")
                } else if *s == 0 {
                    sized_name("NUMBER", *p as u32)
                } else {
                    let mut v = crate::text::str_to_chars("NUMBER");
                    v.push('(');
                    let digits = format_u64(*p as u64);
                    append_chars(&mut v, &digits);
                    v.push(',');
                    let sdig = crate::text::format_i64(*s as i64);
                    append_chars(&mut v, &sdig);
                    v.push(')');
                    proof {
                        assert(v@ =~= spec_type_name(*self));
                    }
                    chars_to_string(&v)
                }
            },
            OracleType::Date => String::from_str("DATE"),
            OracleType::Timestamp(p) => sized_name("TIMESTAMP", *p as u32),
            OracleType::TimestampTZ(p) => {
                let base = sized_name("TIMESTAMP", *p as u32);
                let mut v = crate::text::str_to_chars(base.as_str());
                let tail = crate::text::str_to_chars(" WITH TIME ZONE");
                append_chars(&mut v, &tail);
                proof {
                    assert(v@ =~= spec_type_name(*self));
                }
                chars_to_string(&v)
            },
            OracleType::TimestampLTZ(p) => {
                let base = sized_name("TIMESTAMP", *p as u32);
                let mut v = crate::text::str_to_chars(base.as_str());
                let tail = crate::text::str_to_chars(" WITH LOCAL TIME ZONE");
                append_chars(&mut v, &tail);
                proof {
                    assert(v@ =~= spec_type_name(*self));
                }
                chars_to_string(&v)
            },
            OracleType::IntervalDS(l, f) => {
                let base = sized_name("INTERVAL DAY", *l as u32);
                let mut v = crate::text::str_to_chars(base.as_str());
                let mid = crate::text::str_to_chars(" TO SECOND");
                append_chars(&mut v, &mid);
                v.push('(');
                let fdig = format_u64(*f as u64);
                append_chars(&mut v, &fdig);
                v.push(')');
                proof {
                    assert(v@ =~= spec_type_name(*self));
                }
                chars_to_string(&v)
            },
            OracleType::IntervalYM(l) => {
                let base = sized_name("INTERVAL YEAR", *l as u32);
                let mut v = crate::text::str_to_chars(base.as_str());
                let tail = crate::text::str_to_chars(" TO MONTH");
                append_chars(&mut v, &tail);
                proof {
                    assert(v@ =~= spec_type_name(*self));
                }
                chars_to_string(&v)
            },
            OracleType::CLOB => String::from_str("CLOB"),
            OracleType::NCLOB => String::from_str("NCLOB"),
            OracleType::BLOB => String::from_str("BLOB"),
            OracleType::BFILE => String::from_str("BFILE"),
            OracleType::Long => String::from_str("LONG"),
            OracleType::LongRaw => String::from_str("LONG RAW"),
            OracleType::Int64 => String::from_str("INT64"),
            OracleType::UInt64 => String::from_str("UINT64"),
            OracleType::Boolean => String::from_str("BOOLEAN"),
            OracleType::Object(ot) => ot.name.clone(),
        }
    }
}

/// Appends all characters of `src` to `dst`.
pub fn append_chars(dst: &mut Vec<char>, src: &Vec<char>)
    ensures
        final(dst)@ == old(dst)@ + src@,
{
    let mut i: usize = 0;
    while i < src.len()
        invariant
            i <= src.len(),
            dst@ == old(dst)@ + src@.subrange(0, i as int),
        decreases src.len() - i,
    {
        dst.push(src[i]);
        i = i + 1;
        assert((old(dst)@ + src@.subrange(0, i - 1)).push(src@[i - 1]) =~= old(dst)@ + src@.subrange(
            0,
            i as int,
        ));
    }
    assert(src@.subrange(0, src@.len() as int) =~= src@);
}

/// Renders `NAME(n)` ([`spec_sized_name`]).
fn sized_name(name: &str, n: u32) -> (r: String)
    ensures
        r@ == spec_sized_name(name@, n as nat),
{
    let mut v = crate::text::str_to_chars(name);
    v.push('(');
    let digits = format_u64(n as u64);
    append_chars(&mut v, &digits);
    v.push(')');
    proof {
        assert(v@ =~= spec_sized_name(name@, n as nat));
    }
    chars_to_string(&v)
}

} // verus!
