//! What the functions of a binding do to an instance: construction with
//! default values, and the reading and writing of single fields while the
//! instance stays owned by whoever holds its handle.

use vstd::prelude::*;
use crate::binding::{pairs_of, FieldShape, GeneratedBinding, PairModel};
use crate::ffi_string::{
    foreign_buffer_of, lemma_foreign_buffer_decodes, lemma_stored_text_reads_back, stored_bytes,
    FfiString,
};
use crate::schema::PrimitiveKind;
use crate::text::{c_str_bytes, c_str_len, decode_lossy, lossy_text};
use vstd::slice::slice_subrange;

verus! {

/// A value of a primitive type. A floating-point value is held by its
/// IEEE-754 bit pattern, so that it is stored and returned bit for bit.
#[derive(Clone, Copy, Debug, PartialEq, Eq, Structural)]
pub enum Value {
    U8(u8),
    U16(u16),
    U32(u32),
    U64(u64),
    U128(u128),
    I8(i8),
    I16(i16),
    I32(i32),
    I64(i64),
    I128(i128),
    F32(u32),
    F64(u64),
    Bool(bool),
}

/// Why a field could not be read or written.
#[derive(Clone, Copy, Debug, PartialEq, Eq, Structural)]
pub enum AccessError {
    /// The binding has no accessors at this position.
    NoSuchField,
    /// The field is of another shape, or of another primitive type, than
    /// the access is for.
    ShapeMismatch,
}

/// The storage of one supported field.
pub enum Slot {
    Primitive(Value),
    Text(String),
}

/// The mathematical content of a [`Slot`].
pub enum SlotModel {
    Primitive(Value),
    Text(Seq<char>),
}

impl View for Slot {
    type V = SlotModel;

    open spec fn view(&self) -> SlotModel {
        match self {
            Slot::Primitive(value) => SlotModel::Primitive(*value),
            Slot::Text(text) => SlotModel::Text(text@),
        }
    }
}

impl Value {
    /// The primitive type of the value.
    pub open spec fn kind_of(self) -> PrimitiveKind {
        match self {
            Value::U8(_) => PrimitiveKind::U8,
            Value::U16(_) => PrimitiveKind::U16,
            Value::U32(_) => PrimitiveKind::U32,
            Value::U64(_) => PrimitiveKind::U64,
            Value::U128(_) => PrimitiveKind::U128,
            Value::I8(_) => PrimitiveKind::I8,
            Value::I16(_) => PrimitiveKind::I16,
            Value::I32(_) => PrimitiveKind::I32,
            Value::I64(_) => PrimitiveKind::I64,
            Value::I128(_) => PrimitiveKind::I128,
            Value::F32(_) => PrimitiveKind::F32,
            Value::F64(_) => PrimitiveKind::F64,
            Value::Bool(_) => PrimitiveKind::Bool,
        }
    }

    /// The default value of a primitive type: zero, positive zero or false.
    pub open spec fn zero_of(kind: PrimitiveKind) -> Value {
        match kind {
            PrimitiveKind::U8 => Value::U8(0),
            PrimitiveKind::U16 => Value::U16(0),
            PrimitiveKind::U32 => Value::U32(0),
            PrimitiveKind::U64 => Value::U64(0),
            PrimitiveKind::U128 => Value::U128(0),
            PrimitiveKind::I8 => Value::I8(0),
            PrimitiveKind::I16 => Value::I16(0),
            PrimitiveKind::I32 => Value::I32(0),
            PrimitiveKind::I64 => Value::I64(0),
            PrimitiveKind::I128 => Value::I128(0),
            PrimitiveKind::F32 => Value::F32(0),
            PrimitiveKind::F64 => Value::F64(0),
            PrimitiveKind::Bool => Value::Bool(false),
        }
    }

    /// The primitive type of the value.
    pub fn kind(&self) -> (kind: PrimitiveKind)
        ensures
            kind == self.kind_of(),
    {
        match self {
            Value::U8(_) => PrimitiveKind::U8,
            Value::U16(_) => PrimitiveKind::U16,
            Value::U32(_) => PrimitiveKind::U32,
            Value::U64(_) => PrimitiveKind::U64,
            Value::U128(_) => PrimitiveKind::U128,
            Value::I8(_) => PrimitiveKind::I8,
            Value::I16(_) => PrimitiveKind::I16,
            Value::I32(_) => PrimitiveKind::I32,
            Value::I64(_) => PrimitiveKind::I64,
            Value::I128(_) => PrimitiveKind::I128,
            Value::F32(_) => PrimitiveKind::F32,
            Value::F64(_) => PrimitiveKind::F64,
            Value::Bool(_) => PrimitiveKind::Bool,
        }
    }

    /// The default value of a primitive type.
    pub fn zero(kind: PrimitiveKind) -> (value: Value)
        ensures
            value == Value::zero_of(kind),
    {
        match kind {
            PrimitiveKind::U8 => Value::U8(0),
            PrimitiveKind::U16 => Value::U16(0),
            PrimitiveKind::U32 => Value::U32(0),
            PrimitiveKind::U64 => Value::U64(0),
            PrimitiveKind::U128 => Value::U128(0),
            PrimitiveKind::I8 => Value::I8(0),
            PrimitiveKind::I16 => Value::I16(0),
            PrimitiveKind::I32 => Value::I32(0),
            PrimitiveKind::I64 => Value::I64(0),
            PrimitiveKind::I128 => Value::I128(0),
            PrimitiveKind::F32 => Value::F32(0),
            PrimitiveKind::F64 => Value::F64(0),
            PrimitiveKind::Bool => Value::Bool(false),
        }
    }
}

/// The content of a field of the given shape right after construction.
pub open spec fn default_slot(shape: FieldShape) -> SlotModel {
    match shape {
        FieldShape::Primitive(kind) => SlotModel::Primitive(Value::zero_of(kind)),
        FieldShape::Text => SlotModel::Text(Seq::empty()),
    }
}

/// The content of a freshly constructed instance: each field at its default.
pub open spec fn default_slots(accessors: Seq<PairModel>) -> Seq<SlotModel> {
    accessors.map_values(|p: PairModel| default_slot(p.shape))
}

/// What a primitive getter returns.
pub open spec fn read_primitive(slots: Seq<SlotModel>, field: int) -> Result<Value, AccessError> {
    if !(0 <= field < slots.len()) {
        Err(AccessError::NoSuchField)
    } else {
        match slots[field] {
            SlotModel::Primitive(value) => Ok(value),
            SlotModel::Text(_) => Err(AccessError::ShapeMismatch),
        }
    }
}

/// What a primitive setter leaves behind: the field holds the new value and
/// every other field is as before.
pub open spec fn write_primitive(slots: Seq<SlotModel>, field: int, val: Value) -> Result<
    Seq<SlotModel>,
    AccessError,
> {
    if !(0 <= field < slots.len()) {
        Err(AccessError::NoSuchField)
    } else {
        match slots[field] {
            SlotModel::Primitive(value) if value.kind_of() == val.kind_of() => Ok(
                slots.update(field, SlotModel::Primitive(val)),
            ),
            _ => Err(AccessError::ShapeMismatch),
        }
    }
}

/// The text that a text getter copies out.
pub open spec fn read_text(slots: Seq<SlotModel>, field: int) -> Result<Seq<char>, AccessError> {
    if !(0 <= field < slots.len()) {
        Err(AccessError::NoSuchField)
    } else {
        match slots[field] {
            SlotModel::Text(text) => Ok(text),
            SlotModel::Primitive(_) => Err(AccessError::ShapeMismatch),
        }
    }
}

/// What a text setter leaves behind.
pub open spec fn write_text(slots: Seq<SlotModel>, field: int, text: Seq<char>) -> Result<
    Seq<SlotModel>,
    AccessError,
> {
    if !(0 <= field < slots.len()) {
        Err(AccessError::NoSuchField)
    } else {
        match slots[field] {
            SlotModel::Text(_) => Ok(slots.update(field, SlotModel::Text(text))),
            SlotModel::Primitive(_) => Err(AccessError::ShapeMismatch),
        }
    }
}

/// An instance of a bound structure: the storage of its supported fields,
/// in the order of the binding's accessors.
pub struct Instance {
    slots: Vec<Slot>,
}

impl View for Instance {
    type V = Seq<SlotModel>;

    closed spec fn view(&self) -> Seq<SlotModel> {
        self.slots@.map_values(|s: Slot| s@)
    }
}

impl Instance {
    /// Allocates a default-initialized instance and returns the handle that
    /// owns it: every primitive field is zero or false, every text field is
    /// empty.
    pub fn new(binding: &GeneratedBinding) -> (ptr: Box<Instance>)
        ensures
            ptr@ == default_slots(binding@.accessors),
    {
        let mut slots: Vec<Slot> = Vec::new();
        let mut i: usize = 0;
        while i < binding.accessors.len()
            invariant
                i <= binding.accessors.len(),
                slots@.map_values(|s: Slot| s@) == default_slots(
                    pairs_of(binding.accessors@).subrange(0, i as int),
                ),
            decreases binding.accessors.len() - i,
        {
            let ghost before = slots@.map_values(|s: Slot| s@);
            let slot = match binding.accessors[i].shape {
                FieldShape::Primitive(kind) => Slot::Primitive(Value::zero(kind)),
                FieldShape::Text => Slot::Text(String::new()),
            };
            slots.push(slot);
            assert(slots@.map_values(|s: Slot| s@) =~= before.push(slot@));
            assert(default_slots(pairs_of(binding.accessors@).subrange(0, i + 1)) =~= before.push(
                default_slot(binding.accessors@[i as int]@.shape),
            ));
            i += 1;
        }
        assert(pairs_of(binding.accessors@).subrange(0, i as int) =~= pairs_of(
            binding.accessors@,
        ));
        Box::new(Instance { slots })
    }

    /// Takes the instance back from its handle and destroys it. The handle
    /// is consumed, so it cannot be used or destroyed again.
    pub fn free(ptr: Box<Instance>) {
        let _ = ptr;
    }

    /// Reads a primitive field: a copy of its current value. The instance
    /// is only borrowed and stays as it is.
    pub fn get(&self, field: usize) -> (value: Result<Value, AccessError>)
        ensures
            value == read_primitive(self@, field as int),
    {
        if field >= self.slots.len() {
            return Err(AccessError::NoSuchField);
        }
        match &self.slots[field] {
            Slot::Primitive(value) => Ok(*value),
            Slot::Text(_) => Err(AccessError::ShapeMismatch),
        }
    }

    /// Writes a primitive field. On an error the instance is unchanged.
    pub fn set(&mut self, field: usize, val: Value) -> (done: Result<(), AccessError>)
        ensures
            match write_primitive(old(self)@, field as int, val) {
                Ok(slots) => done is Ok && final(self)@ == slots,
                Err(e) => done == Err::<(), AccessError>(e) && final(self)@ == old(self)@,
            },
    {
        if field >= self.slots.len() {
            return Err(AccessError::NoSuchField);
        }
        let same_kind = match &self.slots[field] {
            Slot::Primitive(value) => value.kind() == val.kind(),
            Slot::Text(_) => false,
        };
        if !same_kind {
            return Err(AccessError::ShapeMismatch);
        }
        let ghost before = self@;
        self.slots.set(field, Slot::Primitive(val));
        assert(self@ =~= before.update(field as int, SlotModel::Primitive(val)));
        Ok(())
    }

    /// Reads a text field into an owned string, whose previous text is
    /// replaced. The instance stays as it is. On an error the owned string
    /// is unchanged.
    pub fn get_string(&self, field: usize, out: &mut FfiString) -> (done: Result<
        (),
        AccessError,
    >)
        ensures
            match read_text(self@, field as int) {
                Ok(text) => done is Ok && final(out)@ == stored_bytes(text),
                Err(e) => done == Err::<(), AccessError>(e) && final(out)@ == old(out)@,
            },
    {
        if field >= self.slots.len() {
            return Err(AccessError::NoSuchField);
        }
        match &self.slots[field] {
            Slot::Text(text) => {
                out.set_string(text.as_str());
                Ok(())
            },
            Slot::Primitive(_) => Err(AccessError::ShapeMismatch),
        }
    }

    /// Writes a text field from a foreign null-terminated buffer, which is
    /// decoded lossily and only read. On an error the instance is
    /// unchanged.
    pub fn set_string(&mut self, field: usize, new_str: &[u8]) -> (done: Result<
        (),
        AccessError,
    >)
        ensures
            match write_text(old(self)@, field as int, lossy_text(c_str_bytes(new_str@))) {
                Ok(slots) => done is Ok && final(self)@ == slots,
                Err(e) => done == Err::<(), AccessError>(e) && final(self)@ == old(self)@,
            },
    {
        if field >= self.slots.len() {
            return Err(AccessError::NoSuchField);
        }
        let is_text = match &self.slots[field] {
            Slot::Text(_) => true,
            Slot::Primitive(_) => false,
        };
        if !is_text {
            return Err(AccessError::ShapeMismatch);
        }
        let n = c_str_len(new_str);
        let text = decode_lossy(slice_subrange(new_str, 0, n));
        let ghost before = self@;
        self.slots.set(field, Slot::Text(text));
        assert(self@ =~= before.update(field as int, SlotModel::Text(text@)));
        Ok(())
    }
}

/// Right after construction, the getter of every primitive field returns
/// the zero or false value of the field's type.
pub proof fn lemma_fresh_primitive_is_zero(
    accessors: Seq<PairModel>,
    field: int,
    kind: PrimitiveKind,
)
    requires
        0 <= field < accessors.len(),
        accessors[field].shape == FieldShape::Primitive(kind),
    ensures
        read_primitive(default_slots(accessors), field) == Ok::<Value, AccessError>(
            Value::zero_of(kind),
        ),
{
}

/// Right after construction, every text field reads as the empty text, and
/// an owned string that a getter fills from it is empty.
pub proof fn lemma_fresh_text_is_empty(accessors: Seq<PairModel>, field: int)
    requires
        0 <= field < accessors.len(),
        accessors[field].shape == FieldShape::Text,
    ensures
        read_text(default_slots(accessors), field) == Ok::<Seq<char>, AccessError>(Seq::empty()),
        stored_bytes(Seq::<char>::empty()) == Seq::<u8>::empty(),
        lossy_text(stored_bytes(Seq::<char>::empty())) == Seq::<char>::empty(),
{
    assert(!Seq::<char>::empty().contains('\0'));
    lemma_stored_text_reads_back(Seq::<char>::empty());
    assert(vstd::utf8::encode_utf8(Seq::<char>::empty()) =~= Seq::<u8>::empty());
}

/// Round trip of a primitive: whenever a setter succeeds, the getter of the
/// same field returns exactly the value that was set, and every other field
/// reads as before.
pub proof fn lemma_set_then_get(slots: Seq<SlotModel>, field: int, val: Value, other: int)
    requires
        write_primitive(slots, field, val) is Ok,
    ensures
        read_primitive(write_primitive(slots, field, val)->Ok_0, field) == Ok::<
            Value,
            AccessError,
        >(val),
        other != field ==> read_primitive(write_primitive(slots, field, val)->Ok_0, other)
            == read_primitive(slots, other),
        other != field ==> read_text(write_primitive(slots, field, val)->Ok_0, other)
            == read_text(slots, other),
{
}

/// A setter succeeds exactly on a primitive field of the value's type.
pub proof fn lemma_set_succeeds(slots: Seq<SlotModel>, field: int, val: Value)
    ensures
        write_primitive(slots, field, val) is Ok <==> ({
            &&& 0 <= field < slots.len()
            &&& slots[field] matches SlotModel::Primitive(v)
            &&& v.kind_of() == val.kind_of()
        }),
{
}

/// Round trip of text: after a text field is set from the foreign buffer of
/// a text without the null character, an owned string that the getter fills
/// from the field reads back as exactly that text.
pub proof fn lemma_text_round_trip(slots: Seq<SlotModel>, field: int, text: Seq<char>)
    requires
        !text.contains('\0'),
        0 <= field < slots.len(),
        slots[field] is Text,
    ensures
        write_text(slots, field, lossy_text(c_str_bytes(foreign_buffer_of(text)))) is Ok,
        read_text(
            write_text(slots, field, lossy_text(c_str_bytes(foreign_buffer_of(text))))->Ok_0,
            field,
        ) == Ok::<Seq<char>, AccessError>(text),
        lossy_text(stored_bytes(text)) == text,
{
    lemma_foreign_buffer_decodes(text);
    lemma_stored_text_reads_back(text);
}

} // verus!
