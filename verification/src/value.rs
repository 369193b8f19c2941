//! The value cell: one native-format buffer of one or more row slots, a
//! current native encoding, and typed getters and setters with conversion
//! and null-safety rules.

use vstd::prelude::*;

use crate::datetime::{ids_wf, iym_wf, ts_wf, IntervalDS, IntervalYM, Timestamp};
use crate::error::Error;
use crate::types::{
    is_size_family, same_encoding, spec_catalog, NativeType, ObjectType, ObjectTypeModel,
    OracleType, TypeCode,
};

verus! {

/// An object value: a reference to an object of the named type. The `id`
/// stands for the identity of the underlying object.
#[derive(Debug)]
pub struct Object {
    pub objtype: ObjectType,
    pub id: u64,
}

impl Clone for Object {
    fn clone(&self) -> (r: Self)
        ensures
            r == *self,
    {
        Object { objtype: self.objtype.clone(), id: self.id }
    }
}

/// A collection value: a reference to a collection of the named type.
#[derive(Debug)]
pub struct Collection {
    pub objtype: ObjectType,
    pub id: u64,
}

impl Clone for Collection {
    fn clone(&self) -> (r: Self)
        ensures
            r == *self,
    {
        Collection { objtype: self.objtype.clone(), id: self.id }
    }
}

/// One value in a buffer slot, in its native encoding. Floating-point
/// values are carried as bit patterns: this crate moves them but performs
/// no arithmetic on them.
#[derive(Debug)]
pub enum NativeValue {
    Int64(i64),
    UInt64(u64),
    FloatBits(u32),
    DoubleBits(u64),
    Text(Vec<char>),
    Raw(Vec<u8>),
    Timestamp(Timestamp),
    IntervalDS(IntervalDS),
    IntervalYM(IntervalYM),
    Clob(Vec<char>),
    Blob(Vec<u8>),
    Boolean(bool),
    Object(ObjectType, u64),
}

/// The mathematical content of a [`NativeValue`].
pub ghost enum ValueModel {
    Int64(i64),
    UInt64(u64),
    FloatBits(u32),
    DoubleBits(u64),
    Text(Seq<char>),
    Raw(Seq<u8>),
    Timestamp(Timestamp),
    IntervalDS(IntervalDS),
    IntervalYM(IntervalYM),
    Clob(Seq<char>),
    Blob(Seq<u8>),
    Boolean(bool),
    Object(ObjectTypeModel, u64),
}

impl View for NativeValue {
    type V = ValueModel;

    open spec fn view(&self) -> ValueModel {
        match self {
            NativeValue::Int64(v) => ValueModel::Int64(*v),
            NativeValue::UInt64(v) => ValueModel::UInt64(*v),
            NativeValue::FloatBits(v) => ValueModel::FloatBits(*v),
            NativeValue::DoubleBits(v) => ValueModel::DoubleBits(*v),
            NativeValue::Text(v) => ValueModel::Text(v@),
            NativeValue::Raw(v) => ValueModel::Raw(v@),
            NativeValue::Timestamp(v) => ValueModel::Timestamp(*v),
            NativeValue::IntervalDS(v) => ValueModel::IntervalDS(*v),
            NativeValue::IntervalYM(v) => ValueModel::IntervalYM(*v),
            NativeValue::Clob(v) => ValueModel::Clob(v@),
            NativeValue::Blob(v) => ValueModel::Blob(v@),
            NativeValue::Boolean(v) => ValueModel::Boolean(*v),
            NativeValue::Object(t, id) => ValueModel::Object(t@, *id),
        }
    }
}

impl Clone for NativeValue {
    fn clone(&self) -> (r: Self)
        ensures
            r@ == self@,
    {
        match self {
            NativeValue::Int64(v) => NativeValue::Int64(*v),
            NativeValue::UInt64(v) => NativeValue::UInt64(*v),
            NativeValue::FloatBits(v) => NativeValue::FloatBits(*v),
            NativeValue::DoubleBits(v) => NativeValue::DoubleBits(*v),
            NativeValue::Text(v) => {
                let c = clone_chars(v);
                NativeValue::Text(c)
            },
            NativeValue::Raw(v) => {
                let c = clone_bytes(v);
                NativeValue::Raw(c)
            },
            NativeValue::Timestamp(v) => NativeValue::Timestamp(*v),
            NativeValue::IntervalDS(v) => NativeValue::IntervalDS(*v),
            NativeValue::IntervalYM(v) => NativeValue::IntervalYM(*v),
            NativeValue::Clob(v) => {
                let c = clone_chars(v);
                NativeValue::Clob(c)
            },
            NativeValue::Blob(v) => {
                let c = clone_bytes(v);
                NativeValue::Blob(c)
            },
            NativeValue::Boolean(v) => NativeValue::Boolean(*v),
            NativeValue::Object(t, id) => NativeValue::Object(t.clone(), *id),
        }
    }
}

/// Copies a character vector.
pub fn clone_chars(v: &Vec<char>) -> (r: Vec<char>)
    ensures
        r@ == v@,
{
    crate::text::sub_chars(v, 0, v.len())
}

/// Copies a byte vector.
pub fn clone_bytes(v: &Vec<u8>) -> (r: Vec<u8>)
    ensures
        r@ == v@,
{
    let mut r: Vec<u8> = Vec::new();
    let mut i: usize = 0;
    while i < v.len()
        invariant
            i <= v.len(),
            r@ == v@.subrange(0, i as int),
        decreases v.len() - i,
    {
        r.push(v[i]);
        i = i + 1;
        assert(v@.subrange(0, i - 1).push(v@[i - 1]) =~= v@.subrange(0, i as int));
    }
    assert(v@.subrange(0, v@.len() as int) =~= v@);
    r
}

/// One buffer slot: a null flag and a value in the buffer's encoding.
/// Setting the null flag leaves the encoded payload in place.
#[derive(Debug)]
pub struct DataSlot {
    pub is_null: bool,
    pub value: NativeValue,
}

impl Clone for DataSlot {
    fn clone(&self) -> (r: Self)
        ensures
            r.is_null == self.is_null,
            r.value@ == self.value@,
    {
        DataSlot { is_null: self.is_null, value: self.value.clone() }
    }
}

/// Whether a stored value is a well-formed inhabitant of the encoding.
pub open spec fn value_fits(v: ValueModel, nt: NativeType) -> bool {
    match nt {
        NativeType::Int64 => v is Int64,
        NativeType::UInt64 => v is UInt64,
        NativeType::Float => v is FloatBits,
        NativeType::Double => v is DoubleBits,
        NativeType::Char => v is Text,
        NativeType::Number => v is Text,
        NativeType::Raw => v is Raw,
        NativeType::Timestamp => v matches ValueModel::Timestamp(t) && ts_wf(t),
        NativeType::IntervalDS => v matches ValueModel::IntervalDS(t) && ids_wf(t),
        NativeType::IntervalYM => v matches ValueModel::IntervalYM(t) && iym_wf(t),
        NativeType::CLOB => v is Clob,
        NativeType::BLOB => v is Blob,
        NativeType::Boolean => v is Boolean,
        NativeType::Object(ot) => v matches ValueModel::Object(m, _) && m == ot@,
    }
}

/// The value a freshly allocated slot of the encoding holds.
pub open spec fn default_model(nt: NativeType) -> ValueModel {
    match nt {
        NativeType::Int64 => ValueModel::Int64(0),
        NativeType::UInt64 => ValueModel::UInt64(0),
        NativeType::Float => ValueModel::FloatBits(0),
        NativeType::Double => ValueModel::DoubleBits(0),
        NativeType::Char => ValueModel::Text(Seq::empty()),
        NativeType::Number => ValueModel::Text(Seq::empty()),
        NativeType::Raw => ValueModel::Raw(Seq::empty()),
        NativeType::Timestamp => ValueModel::Timestamp(default_ts()),
        NativeType::IntervalDS => ValueModel::IntervalDS(default_ids()),
        NativeType::IntervalYM => ValueModel::IntervalYM(default_iym()),
        NativeType::CLOB => ValueModel::Clob(Seq::empty()),
        NativeType::BLOB => ValueModel::Blob(Seq::empty()),
        NativeType::Boolean => ValueModel::Boolean(false),
        NativeType::Object(ot) => ValueModel::Object(ot@, 0),
    }
}

/// The timestamp a fresh slot holds.
pub open spec fn default_ts() -> Timestamp {
    Timestamp {
        year: 1,
        month: 1,
        day: 1,
        hour: 0,
        minute: 0,
        second: 0,
        nanosecond: 0,
        tz_hour_offset: 0,
        tz_minute_offset: 0,
        precision: 9,
        with_tz: false,
    }
}

pub open spec fn default_ids() -> IntervalDS {
    IntervalDS { days: 0, hours: 0, minutes: 0, seconds: 0, nanoseconds: 0, lfprec: 9, fsprec: 9 }
}

pub open spec fn default_iym() -> IntervalYM {
    IntervalYM { years: 0, months: 0, lfprec: 9 }
}

/// Builds the fresh-slot value of the encoding.
fn default_value(nt: &NativeType) -> (r: NativeValue)
    ensures
        r@ == default_model(*nt),
        value_fits(r@, *nt),
{
    match nt {
        NativeType::Int64 => NativeValue::Int64(0),
        NativeType::UInt64 => NativeValue::UInt64(0),
        NativeType::Float => NativeValue::FloatBits(0),
        NativeType::Double => NativeValue::DoubleBits(0),
        NativeType::Char => NativeValue::Text(Vec::new()),
        NativeType::Number => NativeValue::Text(Vec::new()),
        NativeType::Raw => NativeValue::Raw(Vec::new()),
        NativeType::Timestamp => NativeValue::Timestamp(Timestamp::new(1, 1, 1, 0, 0, 0, 0)),
        NativeType::IntervalDS => NativeValue::IntervalDS(IntervalDS::new(0, 0, 0, 0, 0)),
        NativeType::IntervalYM => NativeValue::IntervalYM(IntervalYM::new(0, 0)),
        NativeType::CLOB => NativeValue::Clob(Vec::new()),
        NativeType::BLOB => NativeValue::Blob(Vec::new()),
        NativeType::Boolean => NativeValue::Boolean(false),
        NativeType::Object(ot) => NativeValue::Object(ot.clone(), 0),
    }
}

/// A value cell. It owns a buffer of `array_size` slots once a handle has
/// been allocated ([`SqlValue::init_handle`]), or wraps a single slot
/// supplied by an owning object ([`SqlValue::from_oratype`]), or is still
/// unbound. The native encoding of the buffer never changes without a full
/// reallocation.
#[derive(Debug)]
pub struct SqlValue {
    /// Whether a driver buffer handle is allocated. A cell wrapping an
    /// object attribute slot has data but no handle of its own.
    pub has_handle: bool,
    /// The buffer: one slot per array element.
    pub slots: Vec<DataSlot>,
    /// The buffer's native encoding.
    pub native_type: NativeType,
    /// The logical type, absent for an uninitialized bind slot.
    pub oratype: Option<OracleType>,
    /// The element capacity the buffer was allocated with.
    pub array_size: u32,
    /// The slot the cell currently addresses.
    pub buffer_row_index: u32,
}

/// Well-formedness of a value cell: a logical type exactly when a buffer is
/// present, a catalog-consistent encoding, the row offset within the
/// buffer, and every slot holding a well-formed value of the encoding.
pub open spec fn cell_wf(c: SqlValue) -> bool {
    &&& (c.oratype is Some <==> c.slots@.len() > 0)
    &&& (c.slots@.len() > 0 ==> (c.buffer_row_index as int) < c.slots@.len())
    &&& (c.oratype is None ==> c.buffer_row_index == 0 && !c.has_handle && c.array_size == 0)
    &&& (c.oratype matches Some(t) ==> spec_catalog(t) is Some && same_encoding(
        c.native_type,
        (spec_catalog(t)->0).1,
    ) && forall|i: int|
        0 <= i < c.slots@.len() ==> value_fits(#[trigger] c.slots@[i].value@, c.native_type))
    &&& (c.has_handle ==> c.slots@.len() == c.array_size as int)
    &&& (!c.has_handle ==> c.slots@.len() <= 1 && c.array_size == 0)
}

/// The slot the cell currently addresses.
pub open spec fn cur(c: SqlValue) -> DataSlot {
    c.slots@[c.buffer_row_index as int]
}

/// The cell after an operation that may write only the current slot and no
/// other field.
pub open spec fn writes_cur_slot(pre: SqlValue, post: SqlValue) -> bool {
    &&& post.has_handle == pre.has_handle
    &&& post.native_type == pre.native_type
    &&& post.oratype == pre.oratype
    &&& post.array_size == pre.array_size
    &&& post.buffer_row_index == pre.buffer_row_index
    &&& post.slots@.len() == pre.slots@.len()
    &&& forall|i: int|
        0 <= i < pre.slots@.len() && i != pre.buffer_row_index ==> post.slots@[i] == #[trigger] pre.slots@[i]
}

/// A successful set: the current slot now holds `m` and is not null;
/// nothing else changed.
pub open spec fn slot_written(pre: SqlValue, post: SqlValue, m: ValueModel) -> bool {
    &&& writes_cur_slot(pre, post)
    &&& !cur(post).is_null
    &&& cur(post).value@ == m
}

/// A freshly allocated buffer for the given type and element capacity:
/// every slot null and holding the encoding's fresh value.
pub open spec fn fresh_buffer(c: SqlValue, t: OracleType, n: u32) -> bool {
    &&& c.has_handle
    &&& c.oratype == Some(t)
    &&& spec_catalog(t) is Some
    &&& c.native_type == (spec_catalog(t)->0).1
    &&& c.array_size == n
    &&& c.buffer_row_index == 0
    &&& c.slots@.len() == n as int
    &&& forall|i: int|
        0 <= i < c.slots@.len() ==> (#[trigger] c.slots@[i]).is_null && c.slots@[i].value@
            == default_model(c.native_type)
}

/// Whether an existing buffer can serve a bind of the given type and
/// element capacity without reallocation: a handle is present, the
/// capacities agree, the driver type codes agree, and — for the character
/// and raw family — the existing element size covers the requested one, or
/// — for the object family — the object types agree.
pub open spec fn spec_reusable(c: SqlValue, t: OracleType, n: u32) -> bool {
    &&& c.has_handle
    &&& c.array_size == n
    &&& c.oratype is Some
    &&& spec_catalog(t) is Some
    &&& {
        let curp = spec_catalog(c.oratype->0)->0;
        let newp = spec_catalog(t)->0;
        &&& curp.0 == newp.0
        &&& (is_size_family(curp.0) ==> curp.2 >= newp.2)
        &&& (curp.0 == TypeCode::Object ==> same_encoding(curp.1, newp.1))
    }
}

impl SqlValue {
    /// An unbound cell: no buffer, no logical type. Every typed accessor
    /// on it fails with [`Error::UninitializedBindValue`].
    pub fn new() -> (r: SqlValue)
        ensures
            cell_wf(r),
            r.oratype is None,
            !r.has_handle,
            r.slots@.len() == 0,
    {
        SqlValue {
            has_handle: false,
            slots: Vec::new(),
            native_type: NativeType::Int64,
            oratype: None,
            array_size: 0,
            buffer_row_index: 0,
        }
    }

    /// A cell wrapping a single slot supplied by an owning object: capacity
    /// fixed at one, no separate buffer handle. Fails with
    /// [`Error::NotSupported`] exactly on the types the catalog refuses.
    pub fn from_oratype(oratype: &OracleType) -> (r: Result<SqlValue, Error>)
        ensures
            r is Ok <==> spec_catalog(*oratype) is Some,
            r is Ok ==> cell_wf(r->Ok_0) && {
                let c = r->Ok_0;
                &&& c.oratype == Some(*oratype)
                &&& !c.has_handle
                &&& c.slots@.len() == 1
                &&& cur(c).is_null
                &&& cur(c).value@ == default_model(c.native_type)
                &&& c.native_type == (spec_catalog(*oratype)->0).1
            },
            r is Err ==> r->Err_0 matches Error::NotSupported(_),
    {
        let (_code, native_type, _size, _unit) = match oratype.var_create_param() {
            Ok(p) => p,
            Err(e) => {
                return Err(e);
            },
        };
        let mut slots: Vec<DataSlot> = Vec::new();
        let value = default_value(&native_type);
        slots.push(DataSlot { is_null: true, value });
        Ok(
            SqlValue {
                has_handle: false,
                slots,
                native_type,
                oratype: Some(oratype.clone()),
                array_size: 0,
                buffer_row_index: 0,
            },
        )
    }

    /// Whether the existing buffer can serve the given type and capacity.
    /// Fails only when the requested type is outside the catalog while a
    /// comparable buffer is present.
    fn handle_is_reusable(&self, oratype: &OracleType, array_size: u32) -> (r: Result<bool, Error>)
        requires
            cell_wf(*self),
        ensures
            r is Err <==> (self.has_handle && self.array_size == array_size && self.oratype is Some
                && spec_catalog(*oratype) is None),
            r is Ok ==> r->Ok_0 == spec_reusable(*self, *oratype, array_size),
            r is Err ==> r->Err_0 matches Error::NotSupported(_),
    {
        if !self.has_handle {
            return Ok(false);
        }
        if self.array_size != array_size {
            return Ok(false);
        }
        let current = match &self.oratype {
            Some(t) => t,
            None => {
                return Ok(false);
            },
        };
        let (cur_code, cur_native, cur_size, _) = match current.var_create_param() {
            Ok(p) => p,
            Err(e) => {
                proof {
                    assert(spec_catalog(self.oratype->0) is Some);
                }
                return Err(e);
            },
        };
        let (new_code, new_native, new_size, _) = match oratype.var_create_param() {
            Ok(p) => p,
            Err(e) => {
                return Err(e);
            },
        };
        if cur_code != new_code {
            return Ok(false);
        }
        let reusable = match cur_code {
            TypeCode::Varchar | TypeCode::Nvarchar | TypeCode::Char | TypeCode::Nchar
                | TypeCode::Raw => cur_size >= new_size,
            TypeCode::Object => cur_native.encoding_matches(&new_native),
            _ => true,
        };
        Ok(reusable)
    }

    /// Reconciles the buffer with a requested logical type and element
    /// capacity. Returns `Ok(false)`, leaving the cell exactly as it was,
    /// when the existing buffer is reusable ([`spec_reusable`]); otherwise
    /// releases it and allocates a fresh one, returning `Ok(true)`. Fails
    /// with [`Error::NotSupported`] exactly on the types the catalog
    /// refuses, leaving the cell unchanged.
    pub fn init_handle(&mut self, oratype: &OracleType, array_size: u32) -> (r: Result<bool, Error>)
        requires
            cell_wf(*old(self)),
            array_size >= 1,
        ensures
            cell_wf(*final(self)),
            r is Ok <==> spec_catalog(*oratype) is Some,
            r is Err ==> *final(self) == *old(self) && r->Err_0 matches Error::NotSupported(_),
            r is Ok ==> r->Ok_0 == !spec_reusable(*old(self), *oratype, array_size),
            r matches Ok(false) ==> *final(self) == *old(self),
            r matches Ok(true) ==> fresh_buffer(*final(self), *oratype, array_size),
    {
        let (_code, native_type, _size, _unit) = match oratype.var_create_param() {
            Ok(p) => p,
            Err(e) => {
                return Err(e);
            },
        };
        match self.handle_is_reusable(oratype, array_size) {
            Ok(true) => {
                return Ok(false);
            },
            Ok(false) => {},
            Err(e) => {
                proof {
                    assert(spec_catalog(*oratype) is Some);
                }
                return Err(e);
            },
        }
        // Release the old buffer, if any, and allocate a fresh one.
        let mut slots: Vec<DataSlot> = Vec::new();
        let mut i: u32 = 0;
        while i < array_size
            invariant
                i <= array_size,
                slots@.len() == i as int,
                forall|j: int|
                    0 <= j < i ==> (#[trigger] slots@[j]).is_null && slots@[j].value@
                        == default_model(native_type) && value_fits(slots@[j].value@, native_type),
            decreases array_size - i,
        {
            let value = default_value(&native_type);
            slots.push(DataSlot { is_null: true, value });
            i = i + 1;
        }
        self.slots = slots;
        self.native_type = native_type;
        self.oratype = Some(oratype.clone());
        self.array_size = array_size;
        self.buffer_row_index = 0;
        self.has_handle = true;
        Ok(true)
    }

    /// Writes one buffer slot as a fetch round trip does, and repositions
    /// the cell at it.
    pub fn load_slot(&mut self, at: u32, is_null: bool, value: NativeValue)
        requires
            cell_wf(*old(self)),
            (at as int) < old(self).slots@.len(),
            value_fits(value@, old(self).native_type),
        ensures
            cell_wf(*final(self)),
            final(self).has_handle == old(self).has_handle,
            final(self).native_type == old(self).native_type,
            final(self).oratype == old(self).oratype,
            final(self).array_size == old(self).array_size,
            final(self).buffer_row_index == at,
            final(self).slots@.len() == old(self).slots@.len(),
            forall|i: int|
                0 <= i < old(self).slots@.len() && i != at ==> final(self).slots@[i]
                    == #[trigger] old(self).slots@[i],
            cur(*final(self)).is_null == is_null,
            cur(*final(self)).value@ == value@,
    {
        let i = at as usize;
        self.slots[i] = DataSlot { is_null, value };
        self.buffer_row_index = at;
    }

    /// Whether the current slot is null. Fails with
    /// [`Error::UninitializedBindValue`] on an unbound cell.
    pub fn is_null(&self) -> (r: Result<bool, Error>)
        requires
            cell_wf(*self),
        ensures
            self.oratype is None ==> r == Err::<bool, Error>(Error::UninitializedBindValue),
            self.oratype is Some ==> r == Ok::<bool, Error>(cur(*self).is_null),
    {
        if self.slots.len() == 0 {
            return Err(Error::UninitializedBindValue);
        }
        Ok(self.slots[self.buffer_row_index as usize].is_null)
    }

    /// Marks the current slot null, leaving the encoded payload in place.
    /// Fails with [`Error::UninitializedBindValue`] on an unbound cell.
    pub fn set_null(&mut self) -> (r: Result<(), Error>)
        requires
            cell_wf(*old(self)),
        ensures
            cell_wf(*final(self)),
            old(self).oratype is None ==> r == Err::<(), Error>(Error::UninitializedBindValue)
                && *final(self) == *old(self),
            old(self).oratype is Some ==> r == Ok::<(), Error>(()) && writes_cur_slot(
                *old(self),
                *final(self),
            ) && cur(*final(self)).is_null && cur(*final(self)).value@ == cur(*old(self)).value@,
    {
        if self.slots.len() == 0 {
            return Err(Error::UninitializedBindValue);
        }
        let i = self.buffer_row_index as usize;
        self.slots[i].is_null = true;
        Ok(())
    }

    /// The cell's text form: its logical type's name, or a mark for an
    /// unbound cell.
    pub fn description(&self) -> (r: String)
        ensures
            r@ == "SqlValue"@ + seq!['('] + (match self.oratype {
                Some(t) => crate::types::spec_type_name(t),
                None => "uninitialized"@,
            }) + seq![')'],
    {
        let inner = match &self.oratype {
            Some(t) => t.name_text(),
            None => {
                let v = crate::text::str_to_chars("uninitialized");
                crate::text::chars_to_string(&v)
            },
        };
        let mut v = crate::text::str_to_chars("SqlValue");
        v.push('(');
        let ichars = crate::text::str_to_chars(inner.as_str());
        crate::types::append_chars(&mut v, &ichars);
        v.push(')');
        proof {
            assert(v@ =~= "SqlValue"@ + seq!['('] + (match self.oratype {
                Some(t) => crate::types::spec_type_name(t),
                None => "uninitialized"@,
            }) + seq![')']);
        }
        crate::text::chars_to_string(&v)
    }

    /// The cell's logical type. Fails with
    /// [`Error::UninitializedBindValue`] on an unbound cell.
    pub fn oracle_type(&self) -> (r: Result<&OracleType, Error>)
        ensures
            self.oratype is None ==> r is Err && r->Err_0 == Error::UninitializedBindValue,
            self.oratype is Some ==> r is Ok && *r->Ok_0 == self.oratype->0,
    {
        match &self.oratype {
            Some(t) => Ok(t),
            None => Err(Error::UninitializedBindValue),
        }
    }
}

// ---------------------------------------------------------------------------
// Typed access: outcomes
// ---------------------------------------------------------------------------

/// The outcome a typed getter owes: a value, or one specific condition.
/// A conversion refusal names the cell's type and the requested host type;
/// an overflow names the source value's text and the destination type.
pub ghost enum SpecOut<T> {
    Value(T),
    Null,
    Uninit,
    Conv(Seq<char>, Seq<char>),
    Overflow(Seq<char>, Seq<char>),
    Parse,
}

/// Whether a getter's result is the owed outcome.
pub open spec fn out_matches<T>(r: Result<T, Error>, o: SpecOut<T>) -> bool {
    match o {
        SpecOut::Value(v) => r == Ok::<T, Error>(v),
        SpecOut::Null => r == Err::<T, Error>(Error::NullValue),
        SpecOut::Uninit => r == Err::<T, Error>(Error::UninitializedBindValue),
        SpecOut::Conv(from, to) => r matches Err(Error::InvalidTypeConversion(a, b)) && a@ == from
            && b@ == to,
        SpecOut::Overflow(v, to) => r matches Err(Error::Overflow(a, b)) && a@ == v && b@ == to,
        SpecOut::Parse => r matches Err(Error::ParseError(_)),
    }
}

/// [`out_matches`] for a textual result, compared by content.
pub open spec fn out_matches_str(r: Result<String, Error>, o: SpecOut<Seq<char>>) -> bool {
    match o {
        SpecOut::Value(t) => r matches Ok(s) && s@ == t,
        SpecOut::Null => r == Err::<String, Error>(Error::NullValue),
        SpecOut::Uninit => r == Err::<String, Error>(Error::UninitializedBindValue),
        SpecOut::Conv(from, to) => r matches Err(Error::InvalidTypeConversion(a, b)) && a@ == from
            && b@ == to,
        SpecOut::Overflow(v, to) => r matches Err(Error::Overflow(a, b)) && a@ == v && b@ == to,
        SpecOut::Parse => r matches Err(Error::ParseError(_)),
    }
}

/// [`out_matches`] for a byte-string result, compared by content.
pub open spec fn out_matches_bytes(r: Result<Vec<u8>, Error>, o: SpecOut<Seq<u8>>) -> bool {
    match o {
        SpecOut::Value(t) => r matches Ok(b) && b@ == t,
        SpecOut::Null => r == Err::<Vec<u8>, Error>(Error::NullValue),
        SpecOut::Uninit => r == Err::<Vec<u8>, Error>(Error::UninitializedBindValue),
        SpecOut::Conv(from, to) => r matches Err(Error::InvalidTypeConversion(a, b)) && a@ == from
            && b@ == to,
        SpecOut::Overflow(v, to) => r matches Err(Error::Overflow(a, b)) && a@ == v && b@ == to,
        SpecOut::Parse => r matches Err(Error::ParseError(_)),
    }
}

/// The outcome a typed setter owes: store a value, or refuse the
/// conversion — naming the host type and the cell's type — or report
/// unparsable text.
pub ghost enum SetOut {
    Store(ValueModel),
    Conv(Seq<char>, Seq<char>),
    Parse,
}

/// Whether a setter's result and the cell's new state are the owed ones.
/// On an unbound cell every setter fails with
/// [`Error::UninitializedBindValue`]; on a refusal the cell is unchanged.
pub open spec fn set_matches(
    pre: SqlValue,
    post: SqlValue,
    r: Result<(), Error>,
    o: SetOut,
) -> bool {
    if pre.oratype is None {
        r == Err::<(), Error>(Error::UninitializedBindValue) && post == pre
    } else {
        match o {
            SetOut::Store(m) => r == Ok::<(), Error>(()) && slot_written(pre, post, m),
            SetOut::Conv(from, to) => (r matches Err(Error::InvalidTypeConversion(a, b)) && a@
                == from && b@ == to) && post == pre,
            SetOut::Parse => (r matches Err(Error::ParseError(_))) && post == pre,
        }
    }
}

/// The integer a text cell yields: the signed decimal value of the text,
/// within 64-bit signed range.
pub open spec fn spec_int_from_text(t: Seq<char>) -> SpecOut<i64> {
    match crate::text::spec_parse_int(t) {
        Some(v) => if i64::MIN <= v <= i64::MAX {
            SpecOut::Value(v as i64)
        } else {
            SpecOut::Parse
        },
        None => SpecOut::Parse,
    }
}

/// The unsigned integer a text cell yields.
pub open spec fn spec_uint_from_text(t: Seq<char>) -> SpecOut<u64> {
    match crate::text::spec_parse_int(t) {
        Some(v) => if 0 <= v <= u64::MAX {
            SpecOut::Value(v as u64)
        } else {
            SpecOut::Parse
        },
        None => SpecOut::Parse,
    }
}

/// What [`SqlValue::as_i64`] owes for each encoding and stored value:
/// signed integers as they are; unsigned ones when they fit, else an
/// overflow; text and character large objects parsed as a signed decimal;
/// every other encoding refused. Floating-point sources are refused here:
/// their conversions are outside this crate.
pub open spec fn spec_as_i64(c: SqlValue) -> SpecOut<i64> {
    if c.oratype is None {
        SpecOut::Uninit
    } else {
        let s = cur(c);
        match s.value@ {
            ValueModel::Int64(v) => if s.is_null {
                SpecOut::Null
            } else {
                SpecOut::Value(v)
            },
            ValueModel::UInt64(v) => if s.is_null {
                SpecOut::Null
            } else if v <= i64::MAX {
                SpecOut::Value(v as i64)
            } else {
                SpecOut::Overflow(crate::text::spec_dec_digits(v as nat), "i64"@)
            },
            ValueModel::Text(t) => if s.is_null {
                SpecOut::Null
            } else {
                spec_int_from_text(t)
            },
            ValueModel::Clob(t) => if s.is_null {
                SpecOut::Null
            } else {
                spec_int_from_text(t)
            },
            _ => SpecOut::Conv(crate::types::spec_type_name(c.oratype->0), "i64"@),
        }
    }
}

/// What [`SqlValue::as_u64`] owes: as [`spec_as_i64`], with signed sources
/// refused below zero.
pub open spec fn spec_as_u64(c: SqlValue) -> SpecOut<u64> {
    if c.oratype is None {
        SpecOut::Uninit
    } else {
        let s = cur(c);
        match s.value@ {
            ValueModel::Int64(v) => if s.is_null {
                SpecOut::Null
            } else if v >= 0 {
                SpecOut::Value(v as u64)
            } else {
                SpecOut::Overflow(crate::text::spec_dec_int(v as int), "u64"@)
            },
            ValueModel::UInt64(v) => if s.is_null {
                SpecOut::Null
            } else {
                SpecOut::Value(v)
            },
            ValueModel::Text(t) => if s.is_null {
                SpecOut::Null
            } else {
                spec_uint_from_text(t)
            },
            ValueModel::Clob(t) => if s.is_null {
                SpecOut::Null
            } else {
                spec_uint_from_text(t)
            },
            _ => SpecOut::Conv(crate::types::spec_type_name(c.oratype->0), "u64"@),
        }
    }
}

/// What [`SqlValue::set_i64`] owes for each encoding: stored directly in
/// the integer encodings (unsigned ones take the two's-complement image),
/// rendered in decimal for text encodings, refused elsewhere.
pub open spec fn spec_set_i64(c: SqlValue, v: i64) -> SetOut {
    match c.native_type {
        NativeType::Int64 => SetOut::Store(ValueModel::Int64(v)),
        NativeType::UInt64 => SetOut::Store(ValueModel::UInt64(v as u64)),
        NativeType::Char => SetOut::Store(ValueModel::Text(crate::text::spec_dec_int(v as int))),
        NativeType::Number => SetOut::Store(ValueModel::Text(crate::text::spec_dec_int(v as int))),
        _ => SetOut::Conv("i64"@, crate::types::spec_type_name(c.oratype->0)),
    }
}

/// What [`SqlValue::set_u64`] owes.
pub open spec fn spec_set_u64(c: SqlValue, v: u64) -> SetOut {
    match c.native_type {
        NativeType::Int64 => SetOut::Store(ValueModel::Int64(v as i64)),
        NativeType::UInt64 => SetOut::Store(ValueModel::UInt64(v)),
        NativeType::Char => SetOut::Store(ValueModel::Text(crate::text::spec_dec_digits(v as nat))),
        NativeType::Number => SetOut::Store(
            ValueModel::Text(crate::text::spec_dec_digits(v as nat)),
        ),
        _ => SetOut::Conv("u64"@, crate::types::spec_type_name(c.oratype->0)),
    }
}

impl SqlValue {
    /// The conversion-refusal error a getter reports: the cell's type name,
    /// then the requested host type's.
    fn conv_err(&self, to: &str) -> (r: Error)
        requires
            self.oratype is Some,
        ensures
            r matches Error::InvalidTypeConversion(a, b) && a@ == crate::types::spec_type_name(
                self.oratype->0,
            ) && b@ == to@,
    {
        let own = match &self.oratype {
            Some(t) => t.name_text(),
            None => String::new(),
        };
        Error::InvalidTypeConversion(own, to.to_owned())
    }

    /// The conversion-refusal error a setter reports: the host type's name,
    /// then the cell's.
    fn conv_err_from(&self, from: &str) -> (r: Error)
        requires
            self.oratype is Some,
        ensures
            r matches Error::InvalidTypeConversion(a, b) && a@ == from@ && b@
                == crate::types::spec_type_name(self.oratype->0),
    {
        let own = match &self.oratype {
            Some(t) => t.name_text(),
            None => String::new(),
        };
        Error::InvalidTypeConversion(from.to_owned(), own)
    }

    /// Writes the current slot and clears its null flag.
    fn write_cur(&mut self, value: NativeValue)
        requires
            cell_wf(*old(self)),
            old(self).oratype is Some,
            value_fits(value@, old(self).native_type),
        ensures
            cell_wf(*final(self)),
            slot_written(*old(self), *final(self), value@),
    {
        let i = self.buffer_row_index as usize;
        self.slots[i] = DataSlot { is_null: false, value };
    }

    /// The current slot's value as a 64-bit signed integer
    /// ([`spec_as_i64`]).
    pub fn as_i64(&self) -> (r: Result<i64, Error>)
        requires
            cell_wf(*self),
        ensures
            out_matches(r, spec_as_i64(*self)),
    {
        if self.slots.len() == 0 {
            return Err(Error::UninitializedBindValue);
        }
        let slot = &self.slots[self.buffer_row_index as usize];
        match &slot.value {
            NativeValue::Int64(v) => {
                if slot.is_null {
                    Err(Error::NullValue)
                } else {
                    Ok(*v)
                }
            },
            NativeValue::UInt64(v) => {
                if slot.is_null {
                    Err(Error::NullValue)
                } else if *v <= i64::MAX as u64 {
                    Ok(*v as i64)
                } else {
                    Err(
                        Error::Overflow(
                            crate::text::u64_to_string(*v),
                            String::from_str("i64"),
                        ),
                    )
                }
            },
            NativeValue::Text(t) => {
                if slot.is_null {
                    Err(Error::NullValue)
                } else {
                    crate::text::parse_i64(t)
                }
            },
            NativeValue::Clob(t) => {
                if slot.is_null {
                    Err(Error::NullValue)
                } else {
                    crate::text::parse_i64(t)
                }
            },
            _ => Err(self.conv_err("i64")),
        }
    }

    /// The current slot's value as a 64-bit unsigned integer
    /// ([`spec_as_u64`]).
    pub fn as_u64(&self) -> (r: Result<u64, Error>)
        requires
            cell_wf(*self),
        ensures
            out_matches(r, spec_as_u64(*self)),
    {
        if self.slots.len() == 0 {
            return Err(Error::UninitializedBindValue);
        }
        let slot = &self.slots[self.buffer_row_index as usize];
        match &slot.value {
            NativeValue::Int64(v) => {
                if slot.is_null {
                    Err(Error::NullValue)
                } else if *v >= 0 {
                    Ok(*v as u64)
                } else {
                    Err(
                        Error::Overflow(
                            crate::text::i64_to_string(*v),
                            String::from_str("u64"),
                        ),
                    )
                }
            },
            NativeValue::UInt64(v) => {
                if slot.is_null {
                    Err(Error::NullValue)
                } else {
                    Ok(*v)
                }
            },
            NativeValue::Text(t) => {
                if slot.is_null {
                    Err(Error::NullValue)
                } else {
                    crate::text::parse_u64_signed(t)
                }
            },
            NativeValue::Clob(t) => {
                if slot.is_null {
                    Err(Error::NullValue)
                } else {
                    crate::text::parse_u64_signed(t)
                }
            },
            _ => Err(self.conv_err("u64")),
        }
    }

    /// Stores a 64-bit signed integer ([`spec_set_i64`]).
    pub fn set_i64(&mut self, val: i64) -> (r: Result<(), Error>)
        requires
            cell_wf(*old(self)),
        ensures
            cell_wf(*final(self)),
            set_matches(*old(self), *final(self), r, spec_set_i64(*old(self), val)),
    {
        if self.slots.len() == 0 {
            return Err(Error::UninitializedBindValue);
        }
        match &self.native_type {
            NativeType::Int64 => {
                self.write_cur(NativeValue::Int64(val));
                Ok(())
            },
            NativeType::UInt64 => {
                self.write_cur(NativeValue::UInt64(val as u64));
                Ok(())
            },
            NativeType::Char | NativeType::Number => {
                let text = crate::text::format_i64(val);
                self.write_cur(NativeValue::Text(text));
                Ok(())
            },
            _ => Err(self.conv_err_from("i64")),
        }
    }

    /// Stores a 64-bit unsigned integer ([`spec_set_u64`]).
    pub fn set_u64(&mut self, val: u64) -> (r: Result<(), Error>)
        requires
            cell_wf(*old(self)),
        ensures
            cell_wf(*final(self)),
            set_matches(*old(self), *final(self), r, spec_set_u64(*old(self), val)),
    {
        if self.slots.len() == 0 {
            return Err(Error::UninitializedBindValue);
        }
        match &self.native_type {
            NativeType::Int64 => {
                self.write_cur(NativeValue::Int64(val as i64));
                Ok(())
            },
            NativeType::UInt64 => {
                self.write_cur(NativeValue::UInt64(val));
                Ok(())
            },
            NativeType::Char | NativeType::Number => {
                let text = crate::text::format_u64(val);
                self.write_cur(NativeValue::Text(text));
                Ok(())
            },
            _ => Err(self.conv_err_from("u64")),
        }
    }

    /// The current slot's 32-bit floating-point value, as its bit pattern.
    /// Arithmetic on it is outside this crate.
    pub fn get_float_bits(&self) -> (r: Result<u32, Error>)
        requires
            cell_wf(*self),
        ensures
            self.oratype is None ==> r == Err::<u32, Error>(Error::UninitializedBindValue),
            self.oratype is Some ==> match cur(*self).value@ {
                ValueModel::FloatBits(b) => if cur(*self).is_null {
                    r == Err::<u32, Error>(Error::NullValue)
                } else {
                    r == Ok::<u32, Error>(b)
                },
                _ => r matches Err(Error::InvalidTypeConversion(a, b)) && a@
                    == crate::types::spec_type_name(self.oratype->0) && b@ == "f32"@,
            },
    {
        if self.slots.len() == 0 {
            return Err(Error::UninitializedBindValue);
        }
        let slot = &self.slots[self.buffer_row_index as usize];
        match &slot.value {
            NativeValue::FloatBits(b) => {
                if slot.is_null {
                    Err(Error::NullValue)
                } else {
                    Ok(*b)
                }
            },
            _ => Err(self.conv_err("f32")),
        }
    }

    /// The current slot's 64-bit floating-point value, as its bit pattern.
    pub fn get_double_bits(&self) -> (r: Result<u64, Error>)
        requires
            cell_wf(*self),
        ensures
            self.oratype is None ==> r == Err::<u64, Error>(Error::UninitializedBindValue),
            self.oratype is Some ==> match cur(*self).value@ {
                ValueModel::DoubleBits(b) => if cur(*self).is_null {
                    r == Err::<u64, Error>(Error::NullValue)
                } else {
                    r == Ok::<u64, Error>(b)
                },
                _ => r matches Err(Error::InvalidTypeConversion(a, b)) && a@
                    == crate::types::spec_type_name(self.oratype->0) && b@ == "f64"@,
            },
    {
        if self.slots.len() == 0 {
            return Err(Error::UninitializedBindValue);
        }
        let slot = &self.slots[self.buffer_row_index as usize];
        match &slot.value {
            NativeValue::DoubleBits(b) => {
                if slot.is_null {
                    Err(Error::NullValue)
                } else {
                    Ok(*b)
                }
            },
            _ => Err(self.conv_err("f64")),
        }
    }

    /// Stores a 32-bit floating-point bit pattern into a float-encoded
    /// cell.
    pub fn set_float_bits(&mut self, bits: u32) -> (r: Result<(), Error>)
        requires
            cell_wf(*old(self)),
        ensures
            cell_wf(*final(self)),
            set_matches(
                *old(self),
                *final(self),
                r,
                if old(self).native_type is Float {
                    SetOut::Store(ValueModel::FloatBits(bits))
                } else {
                    SetOut::Conv("f32"@, crate::types::spec_type_name(old(self).oratype->0))
                },
            ),
    {
        if self.slots.len() == 0 {
            return Err(Error::UninitializedBindValue);
        }
        match &self.native_type {
            NativeType::Float => {
                self.write_cur(NativeValue::FloatBits(bits));
                Ok(())
            },
            _ => Err(self.conv_err_from("f32")),
        }
    }

    /// Stores a 64-bit floating-point bit pattern into a double-encoded
    /// cell.
    pub fn set_double_bits(&mut self, bits: u64) -> (r: Result<(), Error>)
        requires
            cell_wf(*old(self)),
        ensures
            cell_wf(*final(self)),
            set_matches(
                *old(self),
                *final(self),
                r,
                if old(self).native_type is Double {
                    SetOut::Store(ValueModel::DoubleBits(bits))
                } else {
                    SetOut::Conv("f64"@, crate::types::spec_type_name(old(self).oratype->0))
                },
            ),
    {
        if self.slots.len() == 0 {
            return Err(Error::UninitializedBindValue);
        }
        match &self.native_type {
            NativeType::Double => {
                self.write_cur(NativeValue::DoubleBits(bits));
                Ok(())
            },
            _ => Err(self.conv_err_from("f64")),
        }
    }
}

// ---------------------------------------------------------------------------
// Text, bytes, and large objects
// ---------------------------------------------------------------------------

/// The number of character units one large-object read requests.
pub const LOB_READ_CHUNK: usize = 8192;

/// Copies the byte range `from..to` out of the vector.
pub fn sub_bytes(v: &Vec<u8>, from: usize, to: usize) -> (r: Vec<u8>)
    requires
        from <= to <= v@.len(),
    ensures
        r@ == v@.subrange(from as int, to as int),
{
    let mut r: Vec<u8> = Vec::new();
    let mut i: usize = from;
    while i < to
        invariant
            from <= i <= to <= v@.len(),
            r@ == v@.subrange(from as int, i as int),
        decreases to - i,
    {
        r.push(v[i]);
        i = i + 1;
        assert(v@.subrange(from as int, i - 1).push(v@[i - 1]) =~= v@.subrange(
            from as int,
            i as int,
        ));
    }
    r
}

/// Reads a character large object in bounded windows: the total size is
/// taken once, then windows of at most [`LOB_READ_CHUNK`] character units
/// are read at a 1-based offset that advances until it passes the total,
/// and appended in order. The result is exactly the object's content,
/// whatever its size.
fn clob_read_chunked(content: &Vec<char>) -> (r: Vec<char>)
    ensures
        r@ == content@,
{
    let total = content.len();
    let mut out: Vec<char> = Vec::new();
    let mut offset: usize = 1;
    while offset <= total
        invariant
            1 <= offset,
            offset - 1 <= total,
            total == content@.len(),
            out@ == content@.subrange(0, (offset - 1) as int),
            (offset - 1) % LOB_READ_CHUNK as int == 0,
        decreases total + 1 - offset,
    {
        let remain = total - (offset - 1);
        let n = if remain < LOB_READ_CHUNK {
            remain
        } else {
            LOB_READ_CHUNK
        };
        let chunk = crate::text::sub_chars(content, offset - 1, offset - 1 + n);
        crate::types::append_chars(&mut out, &chunk);
        proof {
            assert(content@.subrange(0, (offset - 1) as int) + content@.subrange(
                (offset - 1) as int,
                (offset - 1 + n) as int,
            ) =~= content@.subrange(0, (offset - 1 + n) as int));
        }
        if n < LOB_READ_CHUNK {
            // The final, short window: the offset passes the total.
            proof {
                assert(offset - 1 + n == total);
                assert(out@ =~= content@.subrange(0, total as int));
                assert(content@.subrange(0, total as int) =~= content@);
            }
            return out;
        }
        offset = offset + LOB_READ_CHUNK;
    }
    proof {
        assert(offset - 1 == total);
        assert(out@ =~= content@);
    }
    out
}

/// Reads a binary large object in bounded windows, rendering each window
/// in hexadecimal as it arrives. The result is exactly the hexadecimal
/// rendering of the object's content.
fn blob_read_hex_chunked(content: &Vec<u8>) -> (r: Vec<char>)
    ensures
        r@ == crate::text::spec_hex(content@),
{
    let total = content.len();
    let mut out: Vec<char> = Vec::new();
    let mut offset: usize = 1;
    while offset <= total
        invariant
            1 <= offset,
            offset - 1 <= total,
            total == content@.len(),
            out@ == crate::text::spec_hex(content@.subrange(0, (offset - 1) as int)),
            (offset - 1) % LOB_READ_CHUNK as int == 0,
        decreases total + 1 - offset,
    {
        let remain = total - (offset - 1);
        let n = if remain < LOB_READ_CHUNK {
            remain
        } else {
            LOB_READ_CHUNK
        };
        let chunk = sub_bytes(content, offset - 1, offset - 1 + n);
        let mut hexed: Vec<char> = Vec::new();
        crate::text::push_hex(&mut hexed, chunk.as_slice());
        crate::types::append_chars(&mut out, &hexed);
        proof {
            let a = content@.subrange(0, (offset - 1) as int);
            let b = content@.subrange((offset - 1) as int, (offset - 1 + n) as int);
            crate::text::lemma_hex_append(a, b);
            assert(a + b =~= content@.subrange(0, (offset - 1 + n) as int));
        }
        if n < LOB_READ_CHUNK {
            proof {
                assert(offset - 1 + n == total);
                assert(content@.subrange(0, total as int) =~= content@);
            }
            return out;
        }
        offset = offset + LOB_READ_CHUNK;
    }
    proof {
        assert(offset - 1 == total);
        assert(content@.subrange(0, total as int) =~= content@);
    }
    out
}

/// What [`SqlValue::as_string`] owes for each encoding: integers in
/// decimal, text as it is, raw bytes and binary large objects in
/// hexadecimal, date-time values in their canonical text, character large
/// objects by chunked reconstruction. Floating-point, boolean and object
/// sources are refused here.
pub open spec fn spec_as_string(c: SqlValue) -> SpecOut<Seq<char>> {
    if c.oratype is None {
        SpecOut::Uninit
    } else {
        let s = cur(c);
        match s.value@ {
            ValueModel::Int64(v) => if s.is_null {
                SpecOut::Null
            } else {
                SpecOut::Value(crate::text::spec_dec_int(v as int))
            },
            ValueModel::UInt64(v) => if s.is_null {
                SpecOut::Null
            } else {
                SpecOut::Value(crate::text::spec_dec_digits(v as nat))
            },
            ValueModel::Text(t) => if s.is_null {
                SpecOut::Null
            } else {
                SpecOut::Value(t)
            },
            ValueModel::Raw(b) => if s.is_null {
                SpecOut::Null
            } else {
                SpecOut::Value(crate::text::spec_hex(b))
            },
            ValueModel::Timestamp(t) => if s.is_null {
                SpecOut::Null
            } else {
                SpecOut::Value(crate::datetime::spec_ts_text(t))
            },
            ValueModel::IntervalDS(t) => if s.is_null {
                SpecOut::Null
            } else {
                SpecOut::Value(crate::datetime::spec_ids_text(t))
            },
            ValueModel::IntervalYM(t) => if s.is_null {
                SpecOut::Null
            } else {
                SpecOut::Value(crate::datetime::spec_iym_text(t))
            },
            ValueModel::Clob(t) => if s.is_null {
                SpecOut::Null
            } else {
                SpecOut::Value(t)
            },
            ValueModel::Blob(b) => if s.is_null {
                SpecOut::Null
            } else {
                SpecOut::Value(crate::text::spec_hex(b))
            },
            _ => SpecOut::Conv(crate::types::spec_type_name(c.oratype->0), "String"@),
        }
    }
}

/// What [`SqlValue::as_bytes`] owes: raw bytes and binary large objects as
/// they are; text and character large objects parsed as hexadecimal.
pub open spec fn spec_as_bytes(c: SqlValue) -> SpecOut<Seq<u8>> {
    if c.oratype is None {
        SpecOut::Uninit
    } else {
        let s = cur(c);
        match s.value@ {
            ValueModel::Raw(b) => if s.is_null {
                SpecOut::Null
            } else {
                SpecOut::Value(b)
            },
            ValueModel::Text(t) => if s.is_null {
                SpecOut::Null
            } else if t.len() % 2 == 0 && crate::text::all_hex_digits(t) {
                SpecOut::Value(crate::text::spec_hex_bytes(t))
            } else {
                SpecOut::Parse
            },
            ValueModel::Clob(t) => if s.is_null {
                SpecOut::Null
            } else if t.len() % 2 == 0 && crate::text::all_hex_digits(t) {
                SpecOut::Value(crate::text::spec_hex_bytes(t))
            } else {
                SpecOut::Parse
            },
            _ => SpecOut::Conv(crate::types::spec_type_name(c.oratype->0), "raw"@),
        }
    }
}

/// What [`SqlValue::as_bool`] owes: only the boolean encoding converts.
pub open spec fn spec_as_bool(c: SqlValue) -> SpecOut<bool> {
    if c.oratype is None {
        SpecOut::Uninit
    } else {
        let s = cur(c);
        match s.value@ {
            ValueModel::Boolean(b) => if s.is_null {
                SpecOut::Null
            } else {
                SpecOut::Value(b)
            },
            _ => SpecOut::Conv(crate::types::spec_type_name(c.oratype->0), "bool"@),
        }
    }
}

/// What [`SqlValue::set_string`] owes for the encodings whose stored value
/// is a pure function of the text. The three date-time encodings are
/// specified separately on the setter itself.
pub open spec fn spec_set_string(c: SqlValue, t: Seq<char>) -> SetOut {
    match c.native_type {
        NativeType::Int64 => match crate::text::spec_parse_int(t) {
            Some(v) => if i64::MIN <= v <= i64::MAX {
                SetOut::Store(ValueModel::Int64(v as i64))
            } else {
                SetOut::Parse
            },
            None => SetOut::Parse,
        },
        NativeType::UInt64 => match crate::text::spec_parse_int(t) {
            Some(v) => if 0 <= v <= u64::MAX {
                SetOut::Store(ValueModel::UInt64(v as u64))
            } else {
                SetOut::Parse
            },
            None => SetOut::Parse,
        },
        NativeType::Char => SetOut::Store(ValueModel::Text(t)),
        NativeType::Number => if crate::text::is_number_format(t) {
            SetOut::Store(ValueModel::Text(t))
        } else {
            SetOut::Parse
        },
        NativeType::Raw => if t.len() % 2 == 0 && crate::text::all_hex_digits(t) {
            SetOut::Store(ValueModel::Raw(crate::text::spec_hex_bytes(t)))
        } else {
            SetOut::Parse
        },
        NativeType::CLOB => SetOut::Store(ValueModel::Clob(t)),
        NativeType::BLOB => if t.len() % 2 == 0 && crate::text::all_hex_digits(t) {
            SetOut::Store(ValueModel::Blob(crate::text::spec_hex_bytes(t)))
        } else {
            SetOut::Parse
        },
        _ => SetOut::Conv("&str"@, crate::types::spec_type_name(c.oratype->0)),
    }
}

impl SqlValue {
    /// The current slot's value rendered as text ([`spec_as_string`]).
    /// A character large object is reconstructed by chunked reads; a binary
    /// one is rendered in hexadecimal by chunked reads.
    pub fn as_string(&self) -> (r: Result<String, Error>)
        requires
            cell_wf(*self),
        ensures
            out_matches_str(r, spec_as_string(*self)),
    {
        if self.slots.len() == 0 {
            return Err(Error::UninitializedBindValue);
        }
        let slot = &self.slots[self.buffer_row_index as usize];
        if slot.is_null {
            match &slot.value {
                NativeValue::FloatBits(_) | NativeValue::DoubleBits(_) | NativeValue::Boolean(_)
                    | NativeValue::Object(_, _) => {
                    return Err(self.conv_err("String"));
                },
                _ => {
                    return Err(Error::NullValue);
                },
            }
        }
        match &slot.value {
            NativeValue::Int64(v) => Ok(crate::text::i64_to_string(*v)),
            NativeValue::UInt64(v) => Ok(crate::text::u64_to_string(*v)),
            NativeValue::Text(t) => Ok(crate::text::chars_to_string(t)),
            NativeValue::Raw(b) => {
                let mut hexed: Vec<char> = Vec::new();
                crate::text::push_hex(&mut hexed, b.as_slice());
                Ok(crate::text::chars_to_string(&hexed))
            },
            NativeValue::Timestamp(t) => {
                proof {
                    assert(value_fits(cur(*self).value@, self.native_type));
                }
                Ok(crate::datetime::timestamp_to_string(t))
            },
            NativeValue::IntervalDS(t) => {
                proof {
                    assert(value_fits(cur(*self).value@, self.native_type));
                }
                Ok(crate::datetime::interval_ds_to_string(t))
            },
            NativeValue::IntervalYM(t) => {
                proof {
                    assert(value_fits(cur(*self).value@, self.native_type));
                }
                Ok(crate::datetime::interval_ym_to_string(t))
            },
            NativeValue::Clob(t) => {
                let out = clob_read_chunked(t);
                Ok(crate::text::chars_to_string(&out))
            },
            NativeValue::Blob(b) => {
                let out = blob_read_hex_chunked(b);
                Ok(crate::text::chars_to_string(&out))
            },
            _ => Err(self.conv_err("String")),
        }
    }

    /// The current slot's value as bytes ([`spec_as_bytes`]).
    pub fn as_bytes(&self) -> (r: Result<Vec<u8>, Error>)
        requires
            cell_wf(*self),
        ensures
            out_matches_bytes(r, spec_as_bytes(*self)),
    {
        if self.slots.len() == 0 {
            return Err(Error::UninitializedBindValue);
        }
        let slot = &self.slots[self.buffer_row_index as usize];
        match &slot.value {
            NativeValue::Raw(b) => {
                if slot.is_null {
                    Err(Error::NullValue)
                } else {
                    Ok(clone_bytes(b))
                }
            },
            NativeValue::Text(t) => {
                if slot.is_null {
                    Err(Error::NullValue)
                } else {
                    crate::text::parse_hex(t)
                }
            },
            NativeValue::Clob(t) => {
                if slot.is_null {
                    Err(Error::NullValue)
                } else {
                    let whole = clob_read_chunked(t);
                    crate::text::parse_hex(&whole)
                }
            },
            _ => Err(self.conv_err("raw")),
        }
    }

    /// The current slot's value as a timestamp: a timestamp cell yields its
    /// value; a text or character-large-object cell is parsed in the
    /// canonical timestamp text form; everything else is refused.
    pub fn as_timestamp(&self) -> (r: Result<Timestamp, Error>)
        requires
            cell_wf(*self),
        ensures
            self.oratype is None ==> r == Err::<Timestamp, Error>(Error::UninitializedBindValue),
            self.oratype is Some ==> match cur(*self).value@ {
                ValueModel::Timestamp(t) => if cur(*self).is_null {
                    r == Err::<Timestamp, Error>(Error::NullValue)
                } else {
                    r == Ok::<Timestamp, Error>(t)
                },
                ValueModel::Text(t) => if cur(*self).is_null {
                    r == Err::<Timestamp, Error>(Error::NullValue)
                } else {
                    (r is Ok <==> crate::datetime::ts_text_shape(t)) && (r is Ok ==> ts_wf(
                        r->Ok_0,
                    ) && crate::datetime::ts_fields_of_text(r->Ok_0, t)) && (r is Err ==> r->Err_0
                        matches Error::ParseError(_))
                },
                ValueModel::Clob(t) => if cur(*self).is_null {
                    r == Err::<Timestamp, Error>(Error::NullValue)
                } else {
                    (r is Ok <==> crate::datetime::ts_text_shape(t)) && (r is Ok ==> ts_wf(
                        r->Ok_0,
                    ) && crate::datetime::ts_fields_of_text(r->Ok_0, t)) && (r is Err ==> r->Err_0
                        matches Error::ParseError(_))
                },
                _ => r matches Err(Error::InvalidTypeConversion(a, b)) && a@
                    == crate::types::spec_type_name(self.oratype->0) && b@ == "Timestamp"@,
            },
    {
        if self.slots.len() == 0 {
            return Err(Error::UninitializedBindValue);
        }
        let slot = &self.slots[self.buffer_row_index as usize];
        match &slot.value {
            NativeValue::Timestamp(t) => {
                if slot.is_null {
                    Err(Error::NullValue)
                } else {
                    Ok(*t)
                }
            },
            NativeValue::Text(t) => {
                if slot.is_null {
                    Err(Error::NullValue)
                } else {
                    crate::datetime::parse_timestamp(t)
                }
            },
            NativeValue::Clob(t) => {
                if slot.is_null {
                    Err(Error::NullValue)
                } else {
                    crate::datetime::parse_timestamp(t)
                }
            },
            _ => Err(self.conv_err("Timestamp")),
        }
    }

    /// The current slot's value as a day-to-second interval; text forms are
    /// parsed in the canonical interval text form.
    pub fn as_interval_ds(&self) -> (r: Result<IntervalDS, Error>)
        requires
            cell_wf(*self),
        ensures
            self.oratype is None ==> r == Err::<IntervalDS, Error>(Error::UninitializedBindValue),
            self.oratype is Some ==> match cur(*self).value@ {
                ValueModel::IntervalDS(t) => if cur(*self).is_null {
                    r == Err::<IntervalDS, Error>(Error::NullValue)
                } else {
                    r == Ok::<IntervalDS, Error>(t)
                },
                ValueModel::Text(t) => if cur(*self).is_null {
                    r == Err::<IntervalDS, Error>(Error::NullValue)
                } else {
                    (r is Ok <==> crate::datetime::ids_text_shape(t)) && (r is Ok ==> ids_wf(
                        r->Ok_0,
                    ) && crate::datetime::ids_fields_of_text(r->Ok_0, t)) && (r is Err ==> r->Err_0
                        matches Error::ParseError(_))
                },
                ValueModel::Clob(t) => if cur(*self).is_null {
                    r == Err::<IntervalDS, Error>(Error::NullValue)
                } else {
                    (r is Ok <==> crate::datetime::ids_text_shape(t)) && (r is Ok ==> ids_wf(
                        r->Ok_0,
                    ) && crate::datetime::ids_fields_of_text(r->Ok_0, t)) && (r is Err ==> r->Err_0
                        matches Error::ParseError(_))
                },
                _ => r matches Err(Error::InvalidTypeConversion(a, b)) && a@
                    == crate::types::spec_type_name(self.oratype->0) && b@ == "IntervalDS"@,
            },
    {
        if self.slots.len() == 0 {
            return Err(Error::UninitializedBindValue);
        }
        let slot = &self.slots[self.buffer_row_index as usize];
        match &slot.value {
            NativeValue::IntervalDS(t) => {
                if slot.is_null {
                    Err(Error::NullValue)
                } else {
                    Ok(*t)
                }
            },
            NativeValue::Text(t) => {
                if slot.is_null {
                    Err(Error::NullValue)
                } else {
                    crate::datetime::parse_interval_ds(t)
                }
            },
            NativeValue::Clob(t) => {
                if slot.is_null {
                    Err(Error::NullValue)
                } else {
                    crate::datetime::parse_interval_ds(t)
                }
            },
            _ => Err(self.conv_err("IntervalDS")),
        }
    }

    /// The current slot's value as a year-to-month interval; text forms are
    /// parsed in the canonical interval text form.
    pub fn as_interval_ym(&self) -> (r: Result<IntervalYM, Error>)
        requires
            cell_wf(*self),
        ensures
            self.oratype is None ==> r == Err::<IntervalYM, Error>(Error::UninitializedBindValue),
            self.oratype is Some ==> match cur(*self).value@ {
                ValueModel::IntervalYM(t) => if cur(*self).is_null {
                    r == Err::<IntervalYM, Error>(Error::NullValue)
                } else {
                    r == Ok::<IntervalYM, Error>(t)
                },
                ValueModel::Text(t) => if cur(*self).is_null {
                    r == Err::<IntervalYM, Error>(Error::NullValue)
                } else {
                    (r is Ok <==> crate::datetime::iym_text_shape(t)) && (r is Ok ==> iym_wf(
                        r->Ok_0,
                    ) && crate::datetime::iym_fields_of_text(r->Ok_0, t)) && (r is Err ==> r->Err_0
                        matches Error::ParseError(_))
                },
                ValueModel::Clob(t) => if cur(*self).is_null {
                    r == Err::<IntervalYM, Error>(Error::NullValue)
                } else {
                    (r is Ok <==> crate::datetime::iym_text_shape(t)) && (r is Ok ==> iym_wf(
                        r->Ok_0,
                    ) && crate::datetime::iym_fields_of_text(r->Ok_0, t)) && (r is Err ==> r->Err_0
                        matches Error::ParseError(_))
                },
                _ => r matches Err(Error::InvalidTypeConversion(a, b)) && a@
                    == crate::types::spec_type_name(self.oratype->0) && b@ == "IntervalYM"@,
            },
    {
        if self.slots.len() == 0 {
            return Err(Error::UninitializedBindValue);
        }
        let slot = &self.slots[self.buffer_row_index as usize];
        match &slot.value {
            NativeValue::IntervalYM(t) => {
                if slot.is_null {
                    Err(Error::NullValue)
                } else {
                    Ok(*t)
                }
            },
            NativeValue::Text(t) => {
                if slot.is_null {
                    Err(Error::NullValue)
                } else {
                    crate::datetime::parse_interval_ym(t)
                }
            },
            NativeValue::Clob(t) => {
                if slot.is_null {
                    Err(Error::NullValue)
                } else {
                    crate::datetime::parse_interval_ym(t)
                }
            },
            _ => Err(self.conv_err("IntervalYM")),
        }
    }

    /// The current slot's value as a boolean ([`spec_as_bool`]).
    pub fn as_bool(&self) -> (r: Result<bool, Error>)
        requires
            cell_wf(*self),
        ensures
            out_matches(r, spec_as_bool(*self)),
    {
        if self.slots.len() == 0 {
            return Err(Error::UninitializedBindValue);
        }
        let slot = &self.slots[self.buffer_row_index as usize];
        match &slot.value {
            NativeValue::Boolean(b) => {
                if slot.is_null {
                    Err(Error::NullValue)
                } else {
                    Ok(*b)
                }
            },
            _ => Err(self.conv_err("bool")),
        }
    }

    /// The current slot's value as an object; refused when the cell's type
    /// is a collection or not an object at all.
    pub fn as_object(&self) -> (r: Result<Object, Error>)
        requires
            cell_wf(*self),
        ensures
            self.oratype is None ==> r is Err && r->Err_0 == Error::UninitializedBindValue,
            self.oratype is Some ==> match cur(*self).value@ {
                ValueModel::Object(m, id) => if m.is_collection {
                    r matches Err(Error::InvalidTypeConversion(a, b)) && a@
                        == crate::types::spec_type_name(self.oratype->0) && b@ == "Object"@
                } else if cur(*self).is_null {
                    r is Err && r->Err_0 == Error::NullValue
                } else {
                    r matches Ok(o) && o.objtype@ == m && o.id == id
                },
                _ => r matches Err(Error::InvalidTypeConversion(a, b)) && a@
                    == crate::types::spec_type_name(self.oratype->0) && b@ == "Object"@,
            },
    {
        if self.slots.len() == 0 {
            return Err(Error::UninitializedBindValue);
        }
        let slot = &self.slots[self.buffer_row_index as usize];
        match &slot.value {
            NativeValue::Object(ot, id) => {
                if ot.is_collection {
                    Err(self.conv_err("Object"))
                } else if slot.is_null {
                    Err(Error::NullValue)
                } else {
                    Ok(Object { objtype: ot.clone(), id: *id })
                }
            },
            _ => Err(self.conv_err("Object")),
        }
    }

    /// The current slot's value as a collection; refused when the cell's
    /// type is a plain object or not an object at all.
    pub fn as_collection(&self) -> (r: Result<Collection, Error>)
        requires
            cell_wf(*self),
        ensures
            self.oratype is None ==> r is Err && r->Err_0 == Error::UninitializedBindValue,
            self.oratype is Some ==> match cur(*self).value@ {
                ValueModel::Object(m, id) => if !m.is_collection {
                    r matches Err(Error::InvalidTypeConversion(a, b)) && a@
                        == crate::types::spec_type_name(self.oratype->0) && b@ == "Collection"@
                } else if cur(*self).is_null {
                    r is Err && r->Err_0 == Error::NullValue
                } else {
                    r matches Ok(o) && o.objtype@ == m && o.id == id
                },
                _ => r matches Err(Error::InvalidTypeConversion(a, b)) && a@
                    == crate::types::spec_type_name(self.oratype->0) && b@ == "Collection"@,
            },
    {
        if self.slots.len() == 0 {
            return Err(Error::UninitializedBindValue);
        }
        let slot = &self.slots[self.buffer_row_index as usize];
        match &slot.value {
            NativeValue::Object(ot, id) => {
                if !ot.is_collection {
                    Err(self.conv_err("Collection"))
                } else if slot.is_null {
                    Err(Error::NullValue)
                } else {
                    Ok(Collection { objtype: ot.clone(), id: *id })
                }
            },
            _ => Err(self.conv_err("Collection")),
        }
    }

    /// Stores text ([`spec_set_string`]). Into a date-time encoding the
    /// text is parsed in the canonical text form of that encoding; on
    /// success the slot holds the parsed, well-formed value, on failure the
    /// cell is unchanged.
    pub fn set_string(&mut self, val: &str) -> (r: Result<(), Error>)
        requires
            cell_wf(*old(self)),
        ensures
            cell_wf(*final(self)),
            !(old(self).native_type is Timestamp || old(self).native_type is IntervalDS || old(
                self,
            ).native_type is IntervalYM) ==> set_matches(
                *old(self),
                *final(self),
                r,
                spec_set_string(*old(self), val@),
            ),
            (old(self).oratype is Some && (old(self).native_type is Timestamp || old(
                self,
            ).native_type is IntervalDS || old(self).native_type is IntervalYM)) ==> ((
            r is Ok ==> writes_cur_slot(*old(self), *final(self)) && !cur(*final(self)).is_null
                && (match old(self).native_type {
                NativeType::Timestamp => cur(*final(self)).value@ matches ValueModel::Timestamp(t)
                    && ts_wf(t) && crate::datetime::ts_fields_of_text(t, val@),
                NativeType::IntervalDS => cur(*final(self)).value@ matches ValueModel::IntervalDS(
                    t,
                ) && ids_wf(t) && crate::datetime::ids_fields_of_text(t, val@),
                NativeType::IntervalYM => cur(*final(self)).value@ matches ValueModel::IntervalYM(
                    t,
                ) && iym_wf(t) && crate::datetime::iym_fields_of_text(t, val@),
                _ => false,
            })) && (r is Err ==> *final(self) == *old(self) && r->Err_0 matches Error::ParseError(
                _,
            )) && (r is Ok <==> match old(self).native_type {
                NativeType::Timestamp => crate::datetime::ts_text_shape(val@),
                NativeType::IntervalDS => crate::datetime::ids_text_shape(val@),
                NativeType::IntervalYM => crate::datetime::iym_text_shape(val@),
                _ => false,
            })),
    {
        if self.slots.len() == 0 {
            return Err(Error::UninitializedBindValue);
        }
        let chars = crate::text::str_to_chars(val);
        match &self.native_type {
            NativeType::Int64 => {
                match crate::text::parse_i64(&chars) {
                    Ok(v) => {
                        self.write_cur(NativeValue::Int64(v));
                        Ok(())
                    },
                    Err(e) => Err(e),
                }
            },
            NativeType::UInt64 => {
                match crate::text::parse_u64_signed(&chars) {
                    Ok(v) => {
                        self.write_cur(NativeValue::UInt64(v));
                        Ok(())
                    },
                    Err(e) => Err(e),
                }
            },
            NativeType::Char => {
                self.write_cur(NativeValue::Text(chars));
                Ok(())
            },
            NativeType::Number => {
                if crate::text::check_number_format(&chars) {
                    self.write_cur(NativeValue::Text(chars));
                    Ok(())
                } else {
                    Err(Error::ParseError(crate::text::chars_to_string(&chars)))
                }
            },
            NativeType::Raw => {
                match crate::text::parse_hex(&chars) {
                    Ok(b) => {
                        self.write_cur(NativeValue::Raw(b));
                        Ok(())
                    },
                    Err(e) => Err(e),
                }
            },
            NativeType::Timestamp => {
                match crate::datetime::parse_timestamp(&chars) {
                    Ok(t) => {
                        self.write_cur(NativeValue::Timestamp(t));
                        Ok(())
                    },
                    Err(e) => Err(e),
                }
            },
            NativeType::IntervalDS => {
                match crate::datetime::parse_interval_ds(&chars) {
                    Ok(t) => {
                        self.write_cur(NativeValue::IntervalDS(t));
                        Ok(())
                    },
                    Err(e) => Err(e),
                }
            },
            NativeType::IntervalYM => {
                match crate::datetime::parse_interval_ym(&chars) {
                    Ok(t) => {
                        self.write_cur(NativeValue::IntervalYM(t));
                        Ok(())
                    },
                    Err(e) => Err(e),
                }
            },
            NativeType::CLOB => {
                // Truncate the object, then write the whole payload in one
                // call, then clear the null flag.
                self.write_cur(NativeValue::Clob(chars));
                Ok(())
            },
            NativeType::BLOB => {
                match crate::text::parse_hex(&chars) {
                    Ok(b) => {
                        self.write_cur(NativeValue::Blob(b));
                        Ok(())
                    },
                    Err(e) => Err(e),
                }
            },
            _ => Err(self.conv_err_from("&str")),
        }
    }

    /// Stores bytes: directly into a raw cell; into a binary large object
    /// by truncating it and writing the whole payload in one call. Other
    /// encodings are refused.
    pub fn set_bytes(&mut self, val: &Vec<u8>) -> (r: Result<(), Error>)
        requires
            cell_wf(*old(self)),
        ensures
            cell_wf(*final(self)),
            set_matches(
                *old(self),
                *final(self),
                r,
                match old(self).native_type {
                    NativeType::Raw => SetOut::Store(ValueModel::Raw(val@)),
                    NativeType::BLOB => SetOut::Store(ValueModel::Blob(val@)),
                    _ => SetOut::Conv("Vec<u8>"@, crate::types::spec_type_name(old(self).oratype->0)),
                },
            ),
    {
        if self.slots.len() == 0 {
            return Err(Error::UninitializedBindValue);
        }
        match &self.native_type {
            NativeType::Raw => {
                let copy = clone_bytes(val);
                self.write_cur(NativeValue::Raw(copy));
                Ok(())
            },
            NativeType::BLOB => {
                let copy = clone_bytes(val);
                self.write_cur(NativeValue::Blob(copy));
                Ok(())
            },
            _ => Err(self.conv_err_from("Vec<u8>")),
        }
    }

    /// Stores a timestamp; only a timestamp-encoded cell accepts it.
    pub fn set_timestamp(&mut self, val: &Timestamp) -> (r: Result<(), Error>)
        requires
            cell_wf(*old(self)),
            ts_wf(*val),
        ensures
            cell_wf(*final(self)),
            set_matches(
                *old(self),
                *final(self),
                r,
                if old(self).native_type is Timestamp {
                    SetOut::Store(ValueModel::Timestamp(*val))
                } else {
                    SetOut::Conv("Timestamp"@, crate::types::spec_type_name(old(self).oratype->0))
                },
            ),
    {
        if self.slots.len() == 0 {
            return Err(Error::UninitializedBindValue);
        }
        match &self.native_type {
            NativeType::Timestamp => {
                self.write_cur(NativeValue::Timestamp(*val));
                Ok(())
            },
            _ => Err(self.conv_err_from("Timestamp")),
        }
    }

    /// Stores a day-to-second interval; only an interval-encoded cell
    /// accepts it.
    pub fn set_interval_ds(&mut self, val: &IntervalDS) -> (r: Result<(), Error>)
        requires
            cell_wf(*old(self)),
            ids_wf(*val),
        ensures
            cell_wf(*final(self)),
            set_matches(
                *old(self),
                *final(self),
                r,
                if old(self).native_type is IntervalDS {
                    SetOut::Store(ValueModel::IntervalDS(*val))
                } else {
                    SetOut::Conv("IntervalDS"@, crate::types::spec_type_name(old(self).oratype->0))
                },
            ),
    {
        if self.slots.len() == 0 {
            return Err(Error::UninitializedBindValue);
        }
        match &self.native_type {
            NativeType::IntervalDS => {
                self.write_cur(NativeValue::IntervalDS(*val));
                Ok(())
            },
            _ => Err(self.conv_err_from("IntervalDS")),
        }
    }

    /// Stores a year-to-month interval; only an interval-encoded cell
    /// accepts it.
    pub fn set_interval_ym(&mut self, val: &IntervalYM) -> (r: Result<(), Error>)
        requires
            cell_wf(*old(self)),
            iym_wf(*val),
        ensures
            cell_wf(*final(self)),
            set_matches(
                *old(self),
                *final(self),
                r,
                if old(self).native_type is IntervalYM {
                    SetOut::Store(ValueModel::IntervalYM(*val))
                } else {
                    SetOut::Conv("IntervalYM"@, crate::types::spec_type_name(old(self).oratype->0))
                },
            ),
    {
        if self.slots.len() == 0 {
            return Err(Error::UninitializedBindValue);
        }
        match &self.native_type {
            NativeType::IntervalYM => {
                self.write_cur(NativeValue::IntervalYM(*val));
                Ok(())
            },
            _ => Err(self.conv_err_from("IntervalYM")),
        }
    }

    /// Stores a boolean; only a boolean-encoded cell accepts it.
    pub fn set_bool(&mut self, val: &bool) -> (r: Result<(), Error>)
        requires
            cell_wf(*old(self)),
        ensures
            cell_wf(*final(self)),
            set_matches(
                *old(self),
                *final(self),
                r,
                if old(self).native_type is Boolean {
                    SetOut::Store(ValueModel::Boolean(*val))
                } else {
                    SetOut::Conv("bool"@, crate::types::spec_type_name(old(self).oratype->0))
                },
            ),
    {
        if self.slots.len() == 0 {
            return Err(Error::UninitializedBindValue);
        }
        match &self.native_type {
            NativeType::Boolean => {
                self.write_cur(NativeValue::Boolean(*val));
                Ok(())
            },
            _ => Err(self.conv_err_from("bool")),
        }
    }

    /// Stores an object; only a cell encoded with the same object type
    /// accepts it.
    pub fn set_object(&mut self, val: &Object) -> (r: Result<(), Error>)
        requires
            cell_wf(*old(self)),
        ensures
            cell_wf(*final(self)),
            set_matches(
                *old(self),
                *final(self),
                r,
                match old(self).native_type {
                    NativeType::Object(ot) => if val.objtype@ == ot@ {
                        SetOut::Store(ValueModel::Object(val.objtype@, val.id))
                    } else {
                        SetOut::Conv("Object"@, crate::types::spec_type_name(old(self).oratype->0))
                    },
                    _ => SetOut::Conv("Object"@, crate::types::spec_type_name(old(self).oratype->0)),
                },
            ),
    {
        if self.slots.len() == 0 {
            return Err(Error::UninitializedBindValue);
        }
        let matches_type = match &self.native_type {
            NativeType::Object(ot) => ot.same_as(&val.objtype),
            _ => false,
        };
        if matches_type {
            self.write_cur(NativeValue::Object(val.objtype.clone(), val.id));
            Ok(())
        } else {
            Err(self.conv_err_from("Object"))
        }
    }

    /// Stores a collection; only a cell encoded with the same collection
    /// type accepts it.
    pub fn set_collection(&mut self, val: &Collection) -> (r: Result<(), Error>)
        requires
            cell_wf(*old(self)),
        ensures
            cell_wf(*final(self)),
            set_matches(
                *old(self),
                *final(self),
                r,
                match old(self).native_type {
                    NativeType::Object(ot) => if val.objtype@ == ot@ {
                        SetOut::Store(ValueModel::Object(val.objtype@, val.id))
                    } else {
                        SetOut::Conv("Collection"@, crate::types::spec_type_name(old(self).oratype->0))
                    },
                    _ => SetOut::Conv("Collection"@, crate::types::spec_type_name(old(self).oratype->0)),
                },
            ),
    {
        if self.slots.len() == 0 {
            return Err(Error::UninitializedBindValue);
        }
        let matches_type = match &self.native_type {
            NativeType::Object(ot) => ot.same_as(&val.objtype),
            _ => false,
        };
        if matches_type {
            self.write_cur(NativeValue::Object(val.objtype.clone(), val.id));
            Ok(())
        } else {
            Err(self.conv_err_from("Collection"))
        }
    }
}

/// Decides [`value_fits`] against a cell's encoding.
pub fn value_fits_cell(v: &NativeValue, c: &SqlValue) -> (r: bool)
    ensures
        r == value_fits(v@, c.native_type),
{
    match (&c.native_type, v) {
        (NativeType::Int64, NativeValue::Int64(_)) => true,
        (NativeType::UInt64, NativeValue::UInt64(_)) => true,
        (NativeType::Float, NativeValue::FloatBits(_)) => true,
        (NativeType::Double, NativeValue::DoubleBits(_)) => true,
        (NativeType::Char, NativeValue::Text(_)) => true,
        (NativeType::Number, NativeValue::Text(_)) => true,
        (NativeType::Raw, NativeValue::Raw(_)) => true,
        (NativeType::Timestamp, NativeValue::Timestamp(t)) => crate::datetime::ts_wf_check(t),
        (NativeType::IntervalDS, NativeValue::IntervalDS(t)) => crate::datetime::ids_wf_check(t),
        (NativeType::IntervalYM, NativeValue::IntervalYM(t)) => crate::datetime::iym_wf_check(t),
        (NativeType::CLOB, NativeValue::Clob(_)) => true,
        (NativeType::BLOB, NativeValue::Blob(_)) => true,
        (NativeType::Boolean, NativeValue::Boolean(_)) => true,
        (NativeType::Object(ot), NativeValue::Object(vt, _)) => ot.same_as(vt),
        _ => false,
    }
}

/// Two cells of the same shape: the same handle state, encoding, logical
/// type, and buffer geometry, whatever the slots hold.
pub open spec fn cell_shape_eq(a: SqlValue, b: SqlValue) -> bool {
    &&& a.has_handle == b.has_handle
    &&& a.native_type == b.native_type
    &&& a.oratype == b.oratype
    &&& a.array_size == b.array_size
    &&& a.slots@.len() == b.slots@.len()
}

/// Two cells with the same shape and the same slot contents.
pub open spec fn cell_like(a: SqlValue, b: SqlValue) -> bool {
    &&& a.has_handle == b.has_handle
    &&& a.native_type == b.native_type
    &&& a.oratype == b.oratype
    &&& a.array_size == b.array_size
    &&& a.buffer_row_index == b.buffer_row_index
    &&& a.slots@.len() == b.slots@.len()
    &&& forall|i: int|
        0 <= i < a.slots@.len() ==> (#[trigger] b.slots@[i]).is_null == a.slots@[i].is_null
            && b.slots@[i].value@ == a.slots@[i].value@
}

impl Clone for SqlValue {
    /// A copy with the same shape and contents. A driver-owned buffer is
    /// shared by reference counting when a cell is copied; this model
    /// copies the slots instead, which no contract can distinguish.
    fn clone(&self) -> (r: Self)
        ensures
            cell_like(*self, r),
            cell_wf(*self) ==> cell_wf(r),
    {
        let mut slots: Vec<DataSlot> = Vec::new();
        let mut i: usize = 0;
        while i < self.slots.len()
            invariant
                i <= self.slots@.len(),
                slots@.len() == i as int,
                forall|j: int|
                    0 <= j < i ==> (#[trigger] slots@[j]).is_null == self.slots@[j].is_null
                        && slots@[j].value@ == self.slots@[j].value@,
            decreases self.slots@.len() - i,
        {
            let s = self.slots[i].clone();
            slots.push(s);
            i = i + 1;
        }
        let r = SqlValue {
            has_handle: self.has_handle,
            slots,
            native_type: self.native_type.clone(),
            oratype: match &self.oratype {
                Some(t) => Some(t.clone()),
                None => None,
            },
            array_size: self.array_size,
            buffer_row_index: self.buffer_row_index,
        };
        proof {
            if cell_wf(*self) {
                assert forall|j: int| 0 <= j < r.slots@.len() implies value_fits(
                    #[trigger] r.slots@[j].value@,
                    r.native_type,
                ) by {
                    assert(value_fits(self.slots@[j].value@, self.native_type));
                }
            }
        }
        r
    }
}

// ---------------------------------------------------------------------------
// Buffer reuse laws
// ---------------------------------------------------------------------------

/// A buffer just allocated for a type and capacity serves a second request
/// with the identical type and capacity without reallocation, so
/// [`SqlValue::init_handle`] returns `Ok(false)` and leaves the cell
/// untouched on such a repeated call.
pub proof fn lemma_fresh_buffer_is_reusable(c: SqlValue, t: OracleType, n: u32)
    requires
        fresh_buffer(c, t, n),
    ensures
        spec_reusable(c, t, n),
{
}

// ---------------------------------------------------------------------------
// Round-trip and null-visibility laws
// ---------------------------------------------------------------------------

/// Setting a signed integer and getting it back yields the value exactly,
/// for every encoding that accepts the set — with the one exclusion that an
/// unsigned-integer buffer round-trips only nonnegative values (a negative
/// one is stored as its two's-complement image and read back as an
/// overflow).
pub proof fn lemma_round_trip_i64(pre: SqlValue, post: SqlValue, v: i64)
    requires
        pre.oratype is Some,
        spec_set_i64(pre, v) matches SetOut::Store(m) && slot_written(pre, post, m),
        pre.native_type is UInt64 ==> v >= 0,
    ensures
        spec_as_i64(post) == SpecOut::Value(v),
{
    match pre.native_type {
        NativeType::Char | NativeType::Number => {
            crate::text::lemma_parse_dec_int(v as int);
        },
        _ => {},
    }
}

/// Setting an unsigned integer and getting it back yields the value
/// exactly — with the one exclusion that a signed-integer buffer
/// round-trips only values within its positive range.
pub proof fn lemma_round_trip_u64(pre: SqlValue, post: SqlValue, v: u64)
    requires
        pre.oratype is Some,
        spec_set_u64(pre, v) matches SetOut::Store(m) && slot_written(pre, post, m),
        pre.native_type is Int64 ==> v <= i64::MAX,
    ensures
        spec_as_u64(post) == SpecOut::Value(v),
{
    match pre.native_type {
        NativeType::Char | NativeType::Number => {
            crate::text::lemma_parse_dec_int(v as int);
        },
        _ => {},
    }
}

/// Setting text and rendering the cell back as text yields the text
/// exactly, for the plain text, numeric text, and character-large-object
/// encodings.
pub proof fn lemma_round_trip_text(pre: SqlValue, post: SqlValue, t: Seq<char>)
    requires
        pre.oratype is Some,
        pre.native_type is Char || pre.native_type is Number || pre.native_type is CLOB,
        spec_set_string(pre, t) matches SetOut::Store(m) && slot_written(pre, post, m),
    ensures
        spec_as_string(post) == SpecOut::Value(t),
{
}

/// Setting bytes into a raw buffer and getting them back yields the bytes
/// exactly; rendering them as text yields their hexadecimal form, which
/// parses back to the same bytes.
pub proof fn lemma_round_trip_bytes(pre: SqlValue, post: SqlValue, b: Seq<u8>)
    requires
        pre.oratype is Some,
        pre.native_type is Raw,
        slot_written(pre, post, ValueModel::Raw(b)),
    ensures
        spec_as_bytes(post) == SpecOut::Value(b),
        spec_as_string(post) == SpecOut::Value(crate::text::spec_hex(b)),
        crate::text::spec_hex_bytes(crate::text::spec_hex(b)) == b,
{
    crate::text::lemma_hex_round_trip(b);
}

/// A binary large object reads back, as text, exactly the hexadecimal form
/// of what was written, and that form parses back to the written bytes.
pub proof fn lemma_round_trip_blob(pre: SqlValue, post: SqlValue, b: Seq<u8>)
    requires
        pre.oratype is Some,
        pre.native_type is BLOB,
        slot_written(pre, post, ValueModel::Blob(b)),
    ensures
        spec_as_string(post) == SpecOut::Value(crate::text::spec_hex(b)),
        crate::text::spec_hex_bytes(crate::text::spec_hex(b)) == b,
{
    crate::text::lemma_hex_round_trip(b);
}

/// Setting a timestamp, a day-to-second interval, a year-to-month interval,
/// a boolean, or an object and getting it back yields the value exactly:
/// the slot holds the written value not null, which is what the matching
/// getter's contract returns.
pub proof fn lemma_round_trip_scalar(pre: SqlValue, post: SqlValue, m: ValueModel)
    requires
        pre.oratype is Some,
        slot_written(pre, post, m),
    ensures
        post.oratype is Some,
        !cur(post).is_null,
        cur(post).value@ == m,
        m matches ValueModel::Boolean(b) ==> spec_as_bool(post) == SpecOut::Value(b),
{
}

/// A numeric narrowing at a range boundary: an unsigned source at the
/// signed maximum converts exactly; one just above it overflows. A signed
/// source at zero converts exactly to unsigned; one below overflows.
pub proof fn lemma_narrowing_boundary(c: SqlValue)
    requires
        c.oratype is Some,
        !cur(c).is_null,
    ensures
        cur(c).value@ matches ValueModel::UInt64(v) ==> (v <= i64::MAX ==> spec_as_i64(c)
            == SpecOut::Value(v as i64)) && (v > i64::MAX ==> spec_as_i64(c) == SpecOut::<
            i64,
        >::Overflow(crate::text::spec_dec_digits(v as nat), "i64"@)),
        cur(c).value@ matches ValueModel::Int64(v) ==> (v >= 0 ==> spec_as_u64(c)
            == SpecOut::Value(v as u64)) && (v < 0 ==> spec_as_u64(c) == SpecOut::<u64>::Overflow(
            crate::text::spec_dec_int(v as int),
            "u64"@,
        )),
{
}

/// Null visibility: after any successful typed set the cell is not null;
/// after `set_null` it is (that is the `ensures` of [`SqlValue::set_null`]
/// itself), and `is_null` reports exactly the current slot's flag.
pub proof fn lemma_set_clears_null(pre: SqlValue, post: SqlValue, m: ValueModel)
    requires
        slot_written(pre, post, m),
    ensures
        !cur(post).is_null,
{
}

/// Requested twice with an identical logical type and element capacity,
/// `init_handle` never reallocates on the second call: whatever the first
/// call did — allocated fresh, or reused and left the cell untouched — the
/// cell it leaves serves the identical request, so the second call returns
/// `Ok(false)` and changes nothing.
pub proof fn lemma_repeated_request_reuses(pre: SqlValue, post: SqlValue, t: OracleType, n: u32)
    requires
        spec_catalog(t) is Some,
        fresh_buffer(post, t, n) || (spec_reusable(pre, t, n) && post == pre),
    ensures
        spec_reusable(post, t, n),
{
}

/// A request with a differing element capacity, or a differing driver type
/// code, or — in the character and raw family — a larger element size than
/// the buffer has, is never served by the existing buffer: `init_handle`
/// reallocates.
pub proof fn lemma_reuse_needs_same_shape(c: SqlValue, t: OracleType, n: u32)
    requires
        cell_wf(c),
        c.oratype is Some,
        spec_catalog(t) is Some,
    ensures
        c.array_size != n ==> !spec_reusable(c, t, n),
        (spec_catalog(c.oratype->0)->0).0 != (spec_catalog(t)->0).0 ==> !spec_reusable(c, t, n),
        (is_size_family((spec_catalog(t)->0).0) && (spec_catalog(c.oratype->0)->0).2 < (spec_catalog(
            t,
        )->0).2) ==> !spec_reusable(c, t, n),
{
}

} // verus!

