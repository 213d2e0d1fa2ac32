//! Type descriptors and the in-memory representation of Move values.
//!
//! A `MoveType` describes the shape of a value at runtime. Values are held as
//! `AnyValue`, and a vector's elements live in an `ElementBuffer` whose kind
//! must agree with the descriptor that the caller passes alongside it.
use vstd::prelude::*;

verus! {

/// The largest byte size of one vector buffer (the allocator's `isize::MAX`).
pub const MAX_ALLOC_BYTES: u64 = 0x7fff_ffff_ffff_ffff;

/// The largest element count that the wire format can carry.
pub const MAX_WIRE_LENGTH: u64 = 0xffff_ffff;

#[derive(PartialEq, Eq, Structural, Clone, Copy, Debug)]
pub enum TypeDesc {
    Bool,
    U8,
    U16,
    U32,
    U64,
    U128,
    U256,
    Address,
    Signer,
    Vector,
    Struct,
    Reference,
}

pub struct MoveType {
    pub name: String,
    pub type_desc: TypeDesc,
    pub type_info: TypeInfo,
}

/// The payload of a descriptor: what its tag needs beyond itself.
pub enum TypeInfo {
    Nothing,
    Vector(VectorTypeInfo),
    Struct(StructTypeInfo),
    Reference(ReferenceTypeInfo),
}

pub struct VectorTypeInfo {
    pub element_type: Box<MoveType>,
}

pub struct ReferenceTypeInfo {
    pub element_type: Box<MoveType>,
}

pub struct StructTypeInfo {
    pub field_array: Vec<StructFieldInfo>,
    pub size: u64,
    pub alignment: u64,
}

pub struct StructFieldInfo {
    pub type_: MoveType,
    pub offset: u64,
    pub name: String,
}

#[derive(PartialEq, Eq, Structural, Clone, Copy, Debug)]
pub struct U256 {
    pub lo: u128,
    pub hi: u128,
}

#[derive(Clone, Copy, Debug)]
pub struct MoveAddress(pub [u8; 32]);

#[derive(Clone, Copy, Debug)]
pub struct MoveSigner(pub MoveAddress);

/// A reference to a value elsewhere, held as the address it points to.
#[derive(PartialEq, Eq, Structural, Clone, Copy, Debug)]
pub struct MoveUntypedReference(pub u64);

/// A Move value of some type; which one is told by the `MoveType` beside it.
pub enum AnyValue {
    Bool(bool),
    U8(u8),
    U16(u16),
    U32(u32),
    U64(u64),
    U128(u128),
    U256(U256),
    Address(MoveAddress),
    Signer(MoveSigner),
    Vector(MoveUntypedVector),
    Struct(MoveStruct),
    Reference(MoveUntypedReference),
}

/// A struct value: its fields in declared order.
pub struct MoveStruct {
    pub fields: Vec<AnyValue>,
}

/// The element storage of a vector, one kind per element tag.
pub enum ElementBuffer {
    Bool(Vec<bool>),
    U8(Vec<u8>),
    U16(Vec<u16>),
    U32(Vec<u32>),
    U64(Vec<u64>),
    U128(Vec<u128>),
    U256(Vec<U256>),
    Address(Vec<MoveAddress>),
    Signer(Vec<MoveSigner>),
    Vector(Vec<MoveUntypedVector>),
    Struct(Vec<MoveStruct>),
    Reference(Vec<MoveUntypedReference>),
}

/// A Move `vector<T>`: its buffer, its capacity and its length. The element
/// type is not recorded here; every operation is handed a descriptor for it.
pub struct MoveUntypedVector {
    pub ptr: ElementBuffer,
    pub capacity: u64,
    pub length: u64,
}

/// A `vector<u8>`, as serialization hands it out and takes it in.
pub struct MoveByteVector {
    pub ptr: Vec<u8>,
    pub capacity: u64,
    pub length: u64,
}

impl MoveByteVector {
    pub open spec fn wf(&self) -> bool {
        &&& self.length == self.ptr.len()
        &&& self.length <= self.capacity
    }
}

pub open spec fn is_power_of_two(n: u64) -> bool
    decreases n,
{
    if n == 1 {
        true
    } else if n == 0 || n % 2 == 1 {
        false
    } else {
        is_power_of_two(n / 2)
    }
}

/// Whether `n` is a power of two.
pub fn power_of_two(n: u64) -> (r: bool)
    ensures
        r == is_power_of_two(n),
    decreases n,
{
    if n == 1 {
        true
    } else if n == 0 || n % 2 == 1 {
        false
    } else {
        power_of_two(n / 2)
    }
}

/// Whether the descriptor `t` is well formed.
pub fn type_is_wf(t: &MoveType) -> (r: bool)
    ensures
        r == type_wf(*t),
    decreases *t,
{
    match t.type_desc {
        TypeDesc::Vector => match &t.type_info {
            TypeInfo::Vector(vi) => type_is_wf(&vi.element_type),
            _ => false,
        },
        TypeDesc::Reference => match &t.type_info {
            TypeInfo::Reference(ri) => type_is_wf(&ri.element_type),
            _ => false,
        },
        TypeDesc::Struct => match &t.type_info {
            TypeInfo::Struct(si) => {
                if si.size == 0 || si.alignment == 0 || !power_of_two(si.alignment) {
                    return false;
                }
                let n = si.field_array.len();
                let mut i: usize = 0;
                while i < n
                    invariant
                        t.type_desc == TypeDesc::Struct,
                        t.type_info == TypeInfo::Struct(*si),
                        si.size > 0 && si.alignment > 0 && is_power_of_two(si.alignment),
                        n == si.field_array.len(),
                        i <= n,
                        forall|k: int|
                            0 <= k < i ==> {
                                &&& type_wf(#[trigger] si.field_array@[k].type_)
                                &&& si.field_array@[k].type_.type_desc != TypeDesc::Reference
                            },
                    decreases n - i,
                {
                    let ft = &si.field_array[i].type_;
                    proof {
                        assert(decreases_to!(*t => t.type_info));
                        assert(decreases_to!(t.type_info => t.type_info->Struct_0));
                    }
                    if ft.type_desc == TypeDesc::Reference || !type_is_wf(ft) {
                        return false;
                    }
                    i = i + 1;
                }
                true
            },
            _ => false,
        },
        _ => true,
    }
}

/// Whether no reference type occurs anywhere in `t`.
pub fn type_is_ref_free(t: &MoveType) -> (r: bool)
    ensures
        r == ref_free(*t),
    decreases *t,
{
    match t.type_desc {
        TypeDesc::Reference => false,
        TypeDesc::Vector => match &t.type_info {
            TypeInfo::Vector(vi) => type_is_ref_free(&vi.element_type),
            _ => false,
        },
        TypeDesc::Struct => match &t.type_info {
            TypeInfo::Struct(si) => {
                let n = si.field_array.len();
                let mut i: usize = 0;
                while i < n
                    invariant
                        t.type_desc == TypeDesc::Struct,
                        t.type_info == TypeInfo::Struct(*si),
                        n == si.field_array.len(),
                        i <= n,
                        forall|k: int| 0 <= k < i ==> ref_free(#[trigger] si.field_array@[k].type_),
                    decreases n - i,
                {
                    proof {
                        assert(decreases_to!(*t => t.type_info));
                        assert(decreases_to!(t.type_info => t.type_info->Struct_0));
                    }
                    if !type_is_ref_free(&si.field_array[i].type_) {
                        return false;
                    }
                    i = i + 1;
                }
                true
            },
            _ => false,
        },
        _ => true,
    }
}

/// The element type of a vector or reference descriptor.
pub open spec fn element_type(t: MoveType) -> MoveType {
    match t.type_info {
        TypeInfo::Vector(vi) => *vi.element_type,
        TypeInfo::Reference(ri) => *ri.element_type,
        _ => t,
    }
}

/// A descriptor is well formed: its payload agrees with its tag, struct layouts
/// are non-empty with a power-of-two alignment, and no struct field is a
/// reference.
pub open spec fn type_wf(t: MoveType) -> bool
    decreases t,
{
    match t.type_desc {
        TypeDesc::Vector => match t.type_info {
            TypeInfo::Vector(vi) => type_wf(*vi.element_type),
            _ => false,
        },
        TypeDesc::Reference => match t.type_info {
            TypeInfo::Reference(ri) => type_wf(*ri.element_type),
            _ => false,
        },
        TypeDesc::Struct => match t.type_info {
            TypeInfo::Struct(si) => {
                &&& si.size > 0
                &&& si.alignment > 0
                &&& is_power_of_two(si.alignment)
                &&& forall|i: int|
                    0 <= i < si.field_array.len() ==> {
                        &&& type_wf(#[trigger] si.field_array@[i].type_)
                        &&& si.field_array@[i].type_.type_desc != TypeDesc::Reference
                    }
            },
            _ => false,
        },
        _ => true,
    }
}

/// The byte size of one element of type `t` in a vector buffer.
pub open spec fn elem_size(t: MoveType) -> nat {
    match t.type_desc {
        TypeDesc::Bool => 1,
        TypeDesc::U8 => 1,
        TypeDesc::U16 => 2,
        TypeDesc::U32 => 4,
        TypeDesc::U64 => 8,
        TypeDesc::U128 => 16,
        TypeDesc::U256 => 32,
        TypeDesc::Address => 32,
        TypeDesc::Signer => 32,
        TypeDesc::Vector => 24,
        TypeDesc::Reference => 8,
        TypeDesc::Struct => match t.type_info {
            TypeInfo::Struct(si) => si.size as nat,
            _ => 1,
        },
    }
}

/// The buffer's kind is the one that the tag stands for.
pub open spec fn buffer_matches(d: TypeDesc, b: ElementBuffer) -> bool {
    match d {
        TypeDesc::Bool => b is Bool,
        TypeDesc::U8 => b is U8,
        TypeDesc::U16 => b is U16,
        TypeDesc::U32 => b is U32,
        TypeDesc::U64 => b is U64,
        TypeDesc::U128 => b is U128,
        TypeDesc::U256 => b is U256,
        TypeDesc::Address => b is Address,
        TypeDesc::Signer => b is Signer,
        TypeDesc::Vector => b is Vector,
        TypeDesc::Struct => b is Struct,
        TypeDesc::Reference => b is Reference,
    }
}

pub open spec fn buffer_len(b: ElementBuffer) -> nat {
    match b {
        ElementBuffer::Bool(v) => v.len() as nat,
        ElementBuffer::U8(v) => v.len() as nat,
        ElementBuffer::U16(v) => v.len() as nat,
        ElementBuffer::U32(v) => v.len() as nat,
        ElementBuffer::U64(v) => v.len() as nat,
        ElementBuffer::U128(v) => v.len() as nat,
        ElementBuffer::U256(v) => v.len() as nat,
        ElementBuffer::Address(v) => v.len() as nat,
        ElementBuffer::Signer(v) => v.len() as nat,
        ElementBuffer::Vector(v) => v.len() as nat,
        ElementBuffer::Struct(v) => v.len() as nat,
        ElementBuffer::Reference(v) => v.len() as nat,
    }
}

/// The elements of a buffer, each as a value.
pub open spec fn buffer_elems(b: ElementBuffer) -> Seq<AnyValue> {
    match b {
        ElementBuffer::Bool(b) => b@.map_values(|x: bool| AnyValue::Bool(x)),
        ElementBuffer::U8(b) => b@.map_values(|x: u8| AnyValue::U8(x)),
        ElementBuffer::U16(b) => b@.map_values(|x: u16| AnyValue::U16(x)),
        ElementBuffer::U32(b) => b@.map_values(|x: u32| AnyValue::U32(x)),
        ElementBuffer::U64(b) => b@.map_values(|x: u64| AnyValue::U64(x)),
        ElementBuffer::U128(b) => b@.map_values(|x: u128| AnyValue::U128(x)),
        ElementBuffer::U256(b) => b@.map_values(|x: U256| AnyValue::U256(x)),
        ElementBuffer::Address(b) => b@.map_values(|x: MoveAddress| AnyValue::Address(x)),
        ElementBuffer::Signer(b) => b@.map_values(|x: MoveSigner| AnyValue::Signer(x)),
        ElementBuffer::Vector(b) => b@.map_values(|x: MoveUntypedVector| AnyValue::Vector(x)),
        ElementBuffer::Struct(b) => b@.map_values(|x: MoveStruct| AnyValue::Struct(x)),
        ElementBuffer::Reference(b) => b@.map_values(
            |x: MoveUntypedReference| AnyValue::Reference(x),
        ),
    }
}

/// The elements of a vector, each as a value.
pub open spec fn vec_elems(v: MoveUntypedVector) -> Seq<AnyValue> {
    buffer_elems(v.ptr)
}

/// A buffer has as many elements as its native vector.
pub proof fn lemma_buffer_len(b: ElementBuffer)
    ensures
        buffer_elems(b).len() == buffer_len(b),
{
}

/// Two buffers hold elements of the same kind.
pub open spec fn buffer_matches_kind(a: ElementBuffer, b: ElementBuffer) -> bool {
    match a {
        ElementBuffer::Bool(_) => b is Bool,
        ElementBuffer::U8(_) => b is U8,
        ElementBuffer::U16(_) => b is U16,
        ElementBuffer::U32(_) => b is U32,
        ElementBuffer::U64(_) => b is U64,
        ElementBuffer::U128(_) => b is U128,
        ElementBuffer::U256(_) => b is U256,
        ElementBuffer::Address(_) => b is Address,
        ElementBuffer::Signer(_) => b is Signer,
        ElementBuffer::Vector(_) => b is Vector,
        ElementBuffer::Struct(_) => b is Struct,
        ElementBuffer::Reference(_) => b is Reference,
    }
}

/// `e` is of the kind that the buffer holds.
pub open spec fn buffer_matches_value(b: ElementBuffer, e: AnyValue) -> bool {
    match b {
        ElementBuffer::Bool(_) => e is Bool,
        ElementBuffer::U8(_) => e is U8,
        ElementBuffer::U16(_) => e is U16,
        ElementBuffer::U32(_) => e is U32,
        ElementBuffer::U64(_) => e is U64,
        ElementBuffer::U128(_) => e is U128,
        ElementBuffer::U256(_) => e is U256,
        ElementBuffer::Address(_) => e is Address,
        ElementBuffer::Signer(_) => e is Signer,
        ElementBuffer::Vector(_) => e is Vector,
        ElementBuffer::Struct(_) => e is Struct,
        ElementBuffer::Reference(_) => e is Reference,
    }
}

/// `v` is a value of type `t`.
pub open spec fn has_type(t: MoveType, v: AnyValue) -> bool
    decreases t, 0nat,
{
    match t.type_desc {
        TypeDesc::Bool => v is Bool,
        TypeDesc::U8 => v is U8,
        TypeDesc::U16 => v is U16,
        TypeDesc::U32 => v is U32,
        TypeDesc::U64 => v is U64,
        TypeDesc::U128 => v is U128,
        TypeDesc::U256 => v is U256,
        TypeDesc::Address => v is Address,
        TypeDesc::Signer => v is Signer,
        TypeDesc::Vector => match t.type_info {
            TypeInfo::Vector(vi) => match v {
                AnyValue::Vector(mv) => vec_has_type(*vi.element_type, mv),
                _ => false,
            },
            _ => false,
        },
        TypeDesc::Struct => match t.type_info {
            TypeInfo::Struct(si) => match v {
                AnyValue::Struct(s) => struct_has_type(si, s),
                _ => false,
            },
            _ => false,
        },
        TypeDesc::Reference => v is Reference,
    }
}

/// `s` holds one value of each field's type, in declared order.
pub open spec fn struct_has_type(si: StructTypeInfo, s: MoveStruct) -> bool
    decreases si, 0nat,
{
    &&& s.fields.len() == si.field_array.len()
    &&& forall|i: int|
        0 <= i < s.fields.len() ==> has_type(#[trigger] si.field_array@[i].type_, s.fields@[i])
}

/// `v` is a well-formed vector whose elements have type `et`: its buffer is of
/// the kind `et` names, its length is the buffer's, within its capacity, and
/// the capacity's bytes fit one allocation.
pub open spec fn vec_has_type(et: MoveType, v: MoveUntypedVector) -> bool
    decreases et, 1nat,
{
    &&& buffer_matches(et.type_desc, v.ptr)
    &&& v.length == buffer_len(v.ptr)
    &&& v.length <= v.capacity
    &&& v.capacity * elem_size(et) <= MAX_ALLOC_BYTES
    &&& forall|i: int| 0 <= i < v.length ==> has_type(et, #[trigger] vec_elems(v)[i])
}

/// No reference type occurs anywhere in `t`.
pub open spec fn ref_free(t: MoveType) -> bool
    decreases t,
{
    match t.type_desc {
        TypeDesc::Reference => false,
        TypeDesc::Vector => match t.type_info {
            TypeInfo::Vector(vi) => ref_free(*vi.element_type),
            _ => false,
        },
        TypeDesc::Struct => match t.type_info {
            TypeInfo::Struct(si) => forall|i: int|
                0 <= i < si.field_array.len() ==> ref_free(#[trigger] si.field_array@[i].type_),
            _ => false,
        },
        _ => true,
    }
}

/// Structural equality of two values of type `t`: what `cmp_eq` decides.
/// Capacities play no part in it.
pub open spec fn value_eq(t: MoveType, a: AnyValue, b: AnyValue) -> bool
    decreases t, 0nat,
{
    match t.type_desc {
        TypeDesc::Address => match (a, b) {
            (AnyValue::Address(x), AnyValue::Address(y)) => x.0@ == y.0@,
            _ => false,
        },
        TypeDesc::Signer => match (a, b) {
            (AnyValue::Signer(x), AnyValue::Signer(y)) => x.0.0@ == y.0.0@,
            _ => false,
        },
        TypeDesc::Vector => match t.type_info {
            TypeInfo::Vector(vi) => match (a, b) {
                (AnyValue::Vector(x), AnyValue::Vector(y)) => vec_eq(*vi.element_type, x, y),
                _ => false,
            },
            _ => false,
        },
        TypeDesc::Struct => match t.type_info {
            TypeInfo::Struct(si) => match (a, b) {
                (AnyValue::Struct(x), AnyValue::Struct(y)) => struct_eq(si, x, y),
                _ => false,
            },
            _ => false,
        },
        _ => a == b,
    }
}

/// Field-by-field equality of two structs with layout `si`.
pub open spec fn struct_eq(si: StructTypeInfo, x: MoveStruct, y: MoveStruct) -> bool
    decreases si, 0nat,
{
    &&& x.fields.len() == si.field_array.len()
    &&& y.fields.len() == si.field_array.len()
    &&& forall|i: int|
        0 <= i < si.field_array.len() ==> value_eq(
            #[trigger] si.field_array@[i].type_,
            x.fields@[i],
            y.fields@[i],
        )
}

/// Element-by-element equality of two vectors with element type `et`.
pub open spec fn vec_eq(et: MoveType, x: MoveUntypedVector, y: MoveUntypedVector) -> bool
    decreases et, 1nat,
{
    &&& x.length == y.length
    &&& forall|i: int|
        0 <= i < x.length ==> value_eq(et, #[trigger] vec_elems(x)[i], vec_elems(y)[i])
}

/// What a vector descriptor says of its element type.
pub proof fn lemma_vector_element(t: MoveType)
    requires
        t.type_desc == TypeDesc::Vector,
        type_wf(t),
    ensures
        t.type_info is Vector,
        type_wf(element_type(t)),
        ref_free(t) ==> ref_free(element_type(t)),
        forall|v: MoveUntypedVector|
            has_type(t, AnyValue::Vector(v)) <==> #[trigger] vec_has_type(element_type(t), v),
        forall|a: MoveUntypedVector, b: MoveUntypedVector|
            value_eq(t, AnyValue::Vector(a), AnyValue::Vector(b)) <==> #[trigger] vec_eq(
                element_type(t),
                a,
                b,
            ),
{
}

/// What a struct descriptor says of its fields.
pub proof fn lemma_struct_element(t: MoveType)
    requires
        t.type_desc == TypeDesc::Struct,
        type_wf(t),
    ensures
        t.type_info is Struct,
        forall|i: int|
            0 <= i < t.type_info->Struct_0.field_array.len() ==> type_wf(
                #[trigger] t.type_info->Struct_0.field_array@[i].type_,
            ),
        ref_free(t) ==> forall|i: int|
            0 <= i < t.type_info->Struct_0.field_array.len() ==> ref_free(
                #[trigger] t.type_info->Struct_0.field_array@[i].type_,
            ),
        forall|s: MoveStruct|
            has_type(t, AnyValue::Struct(s)) <==> #[trigger] struct_has_type(
                t.type_info->Struct_0,
                s,
            ),
        forall|a: MoveStruct, b: MoveStruct|
            value_eq(t, AnyValue::Struct(a), AnyValue::Struct(b)) <==> #[trigger] struct_eq(
                t.type_info->Struct_0,
                a,
                b,
            ),
{
}

} // verus!
