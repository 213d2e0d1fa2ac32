//! Typed views of values, and conversions between native vectors and Move
//! vectors.
use crate::rt_types::{
    buffer_len, element_type, has_type, type_wf, AnyValue, ElementBuffer, MoveAddress,
    MoveByteVector, MoveSigner, MoveStruct, MoveType, MoveUntypedReference, MoveUntypedVector,
    StructTypeInfo, TypeDesc, TypeInfo, U256,
};
use crate::vector::MoveBorrowedRustVec;
use vstd::prelude::*;

verus! {

/// A value seen through its type: one arm per tag. Vector, struct and
/// reference arms carry the descriptor that their contents need.
pub enum BorrowedTypedMoveValue<'mv> {
    Bool(&'mv bool),
    U8(&'mv u8),
    U16(&'mv u16),
    U32(&'mv u32),
    U64(&'mv u64),
    U128(&'mv u128),
    U256(&'mv U256),
    Address(&'mv MoveAddress),
    Signer(&'mv MoveSigner),
    Vector(&'mv MoveType, &'mv MoveUntypedVector),
    Struct(&'mv MoveType, &'mv MoveStruct),
    Reference(&'mv MoveType, &'mv MoveUntypedReference),
}

impl<'mv> BorrowedTypedMoveValue<'mv> {
    /// The value that this view shows.
    pub open spec fn value(&self) -> AnyValue {
        match *self {
            BorrowedTypedMoveValue::Bool(x) => AnyValue::Bool(*x),
            BorrowedTypedMoveValue::U8(x) => AnyValue::U8(*x),
            BorrowedTypedMoveValue::U16(x) => AnyValue::U16(*x),
            BorrowedTypedMoveValue::U32(x) => AnyValue::U32(*x),
            BorrowedTypedMoveValue::U64(x) => AnyValue::U64(*x),
            BorrowedTypedMoveValue::U128(x) => AnyValue::U128(*x),
            BorrowedTypedMoveValue::U256(x) => AnyValue::U256(*x),
            BorrowedTypedMoveValue::Address(x) => AnyValue::Address(*x),
            BorrowedTypedMoveValue::Signer(x) => AnyValue::Signer(*x),
            BorrowedTypedMoveValue::Vector(_, x) => AnyValue::Vector(*x),
            BorrowedTypedMoveValue::Struct(_, x) => AnyValue::Struct(*x),
            BorrowedTypedMoveValue::Reference(_, x) => AnyValue::Reference(*x),
        }
    }

    /// The view's arm agrees with the descriptor `t` it was made from: a
    /// vector or reference arm carries `t`'s element type, a struct arm `t`
    /// itself.
    pub open spec fn typed_by(&self, t: MoveType) -> bool {
        match *self {
            BorrowedTypedMoveValue::Vector(et, _) => *et == element_type(t),
            BorrowedTypedMoveValue::Reference(et, _) => *et == element_type(t),
            BorrowedTypedMoveValue::Struct(st, _) => *st == t,
            _ => true,
        }
    }
}

/// The element type of a vector or reference descriptor.
pub fn element_type_of(t: &MoveType) -> (r: &MoveType)
    requires
        t.type_desc == TypeDesc::Vector || t.type_desc == TypeDesc::Reference,
        type_wf(*t),
    ensures
        *r == element_type(*t),
        type_wf(*r),
{
    match &t.type_info {
        TypeInfo::Vector(vi) => &*vi.element_type,
        TypeInfo::Reference(ri) => &*ri.element_type,
        _ => {
            assert(false);
            unreached()
        },
    }
}

/// The layout of a struct descriptor.
pub fn struct_info_of(t: &MoveType) -> (r: &StructTypeInfo)
    requires
        t.type_desc == TypeDesc::Struct,
        type_wf(*t),
    ensures
        t.type_info == TypeInfo::Struct(*r),
{
    match &t.type_info {
        TypeInfo::Struct(si) => si,
        _ => {
            assert(false);
            unreached()
        },
    }
}

/// Sees `value` through the type `type_`.
pub fn borrow_move_value_as_rust_value<'mv>(type_: &'mv MoveType, value: &'mv AnyValue) -> (r:
    BorrowedTypedMoveValue<'mv>)
    requires
        type_wf(*type_),
        has_type(*type_, *value),
    ensures
        r.value() == *value,
        r.typed_by(*type_),
{
    match value {
        AnyValue::Bool(x) => BorrowedTypedMoveValue::Bool(x),
        AnyValue::U8(x) => BorrowedTypedMoveValue::U8(x),
        AnyValue::U16(x) => BorrowedTypedMoveValue::U16(x),
        AnyValue::U32(x) => BorrowedTypedMoveValue::U32(x),
        AnyValue::U64(x) => BorrowedTypedMoveValue::U64(x),
        AnyValue::U128(x) => BorrowedTypedMoveValue::U128(x),
        AnyValue::U256(x) => BorrowedTypedMoveValue::U256(x),
        AnyValue::Address(x) => BorrowedTypedMoveValue::Address(x),
        AnyValue::Signer(x) => BorrowedTypedMoveValue::Signer(x),
        AnyValue::Vector(x) => BorrowedTypedMoveValue::Vector(element_type_of(type_), x),
        AnyValue::Struct(x) => BorrowedTypedMoveValue::Struct(type_, x),
        AnyValue::Reference(x) => BorrowedTypedMoveValue::Reference(element_type_of(type_), x),
    }
}

/// Wraps a native buffer as a Move vector whose capacity is its length.
pub fn rust_vec_to_move_vec(rv: ElementBuffer) -> (r: MoveUntypedVector)
    ensures
        r.ptr == rv,
        r.length == buffer_len(rv),
        r.capacity == r.length,
{
    let len: usize = match &rv {
        ElementBuffer::Bool(b) => b.len(),
        ElementBuffer::U8(b) => b.len(),
        ElementBuffer::U16(b) => b.len(),
        ElementBuffer::U32(b) => b.len(),
        ElementBuffer::U64(b) => b.len(),
        ElementBuffer::U128(b) => b.len(),
        ElementBuffer::U256(b) => b.len(),
        ElementBuffer::Address(b) => b.len(),
        ElementBuffer::Signer(b) => b.len(),
        ElementBuffer::Vector(b) => b.len(),
        ElementBuffer::Struct(b) => b.len(),
        ElementBuffer::Reference(b) => b.len(),
    };
    MoveUntypedVector { ptr: rv, capacity: len as u64, length: len as u64 }
}

/// The native byte vector that a Move `vector<u8>` holds.
pub fn move_byte_vec_to_rust_vec(mv: MoveByteVector) -> (r: Vec<u8>)
    ensures
        r@ == mv.ptr@,
{
    mv.ptr
}

/// The native buffer that a Move vector holds.
pub fn move_vec_to_rust_vec(mv: MoveUntypedVector) -> (r: ElementBuffer)
    ensures
        r == mv.ptr,
{
    mv.ptr
}

/// Sees a Move `vector<u8>` as a native byte vector.
pub fn borrow_move_byte_vec_as_rust_vec<'mv>(mv: &'mv MoveByteVector) -> (r: MoveBorrowedRustVec<
    'mv,
    u8,
>)
    ensures
        r.inner@ == mv.ptr@,
{
    MoveBorrowedRustVec::new(&mv.ptr)
}

/// Wraps a native byte vector as a Move `vector<u8>`.
pub fn rust_vec_to_move_byte_vec(rv: Vec<u8>) -> (r: MoveByteVector)
    ensures
        r.ptr@ == rv@,
        r.wf(),
        r.capacity == r.length,
{
    let len = rv.len() as u64;
    MoveByteVector { ptr: rv, capacity: len, length: len }
}

} // verus!
