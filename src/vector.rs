//! The dynamic vector engine: vectors whose element type is known only from
//! the descriptor handed in with each call.
use crate::conv::{element_type_of, struct_info_of, BorrowedTypedMoveValue};
use crate::rt_types::{
    buffer_elems, buffer_len, buffer_matches, buffer_matches_kind, buffer_matches_value,
    elem_size, element_type, has_type, lemma_buffer_len, lemma_struct_element,
    lemma_vector_element, ref_free, struct_eq, struct_has_type, type_wf, value_eq, vec_elems,
    vec_eq, vec_has_type, AnyValue, ElementBuffer, MoveStruct, MoveType, MoveUntypedVector,
    StructTypeInfo, TypeDesc, TypeInfo, MAX_ALLOC_BYTES,
};
use vstd::prelude::*;

verus! {

/// A read-only view of a vector's buffer as a native vector.
pub struct MoveBorrowedRustVec<'mv, T> {
    pub inner: &'mv Vec<T>,
}

/// A read-only view of a vector of structs, with the struct's layout and its
/// full descriptor.
pub struct MoveBorrowedRustVecOfStruct<'mv> {
    pub inner: &'mv MoveUntypedVector,
    pub type_: &'mv StructTypeInfo,
    pub full_type: &'mv MoveType,
}

/// A vector seen through its element type: one arm per tag.
pub enum TypedMoveBorrowedRustVec<'mv> {
    Bool(MoveBorrowedRustVec<'mv, bool>),
    U8(MoveBorrowedRustVec<'mv, u8>),
    U16(MoveBorrowedRustVec<'mv, u16>),
    U32(MoveBorrowedRustVec<'mv, u32>),
    U64(MoveBorrowedRustVec<'mv, u64>),
    U128(MoveBorrowedRustVec<'mv, u128>),
    U256(MoveBorrowedRustVec<'mv, crate::rt_types::U256>),
    Address(MoveBorrowedRustVec<'mv, crate::rt_types::MoveAddress>),
    Signer(MoveBorrowedRustVec<'mv, crate::rt_types::MoveSigner>),
    Vector(&'mv MoveType, MoveBorrowedRustVec<'mv, MoveUntypedVector>),
    Struct(MoveBorrowedRustVecOfStruct<'mv>),
    Reference(&'mv MoveType, MoveBorrowedRustVec<'mv, crate::rt_types::MoveUntypedReference>),
}

impl<'mv, T> MoveBorrowedRustVec<'mv, T> {
    pub fn new(v: &'mv Vec<T>) -> (r: MoveBorrowedRustVec<'mv, T>)
        ensures
            r.inner == v,
    {
        MoveBorrowedRustVec { inner: v }
    }
}

impl<'mv> MoveBorrowedRustVecOfStruct<'mv> {
    /// The view holds a vector of structs of type `full_type`, laid out by `type_`.
    pub open spec fn wf(&self) -> bool {
        &&& self.full_type.type_desc == TypeDesc::Struct
        &&& self.full_type.type_info == TypeInfo::Struct(*self.type_)
        &&& type_wf(*self.full_type)
        &&& vec_has_type(*self.full_type, *self.inner)
    }

    pub fn new(ty: &'mv MoveType, mv: &'mv MoveUntypedVector) -> (r: MoveBorrowedRustVecOfStruct<'mv>)
        requires
            ty.type_desc == TypeDesc::Struct,
            type_wf(*ty),
            vec_has_type(*ty, *mv),
        ensures
            r.wf(),
            r.inner == mv,
            r.full_type == ty,
    {
        MoveBorrowedRustVecOfStruct { inner: mv, type_: struct_info_of(ty), full_type: ty }
    }

    pub fn len(&self) -> (r: usize)
        requires
            self.wf(),
        ensures
            r == self.inner.length,
    {
        match &self.inner.ptr {
            ElementBuffer::Struct(b) => b.len(),
            _ => {
                assert(false);
                unreached()
            },
        }
    }

    pub fn type_(&self) -> (r: &MoveType)
        ensures
            r == self.full_type,
    {
        self.full_type
    }

    /// The struct at index `i`.
    pub fn get(&self, i: usize) -> (r: &'mv MoveStruct)
        requires
            self.wf(),
            i < self.inner.length,
        ensures
            vec_elems(*self.inner)[i as int] == AnyValue::Struct(*r),
    {
        match &self.inner.ptr {
            ElementBuffer::Struct(b) => &b[i],
            _ => {
                assert(false);
                unreached()
            },
        }
    }
}

impl<'mv> TypedMoveBorrowedRustVec<'mv> {
    /// The elements that the view shows.
    pub open spec fn elems(&self) -> Seq<AnyValue> {
        match *self {
            TypedMoveBorrowedRustVec::Bool(v) => v.inner@.map_values(|x: bool| AnyValue::Bool(x)),
            TypedMoveBorrowedRustVec::U8(v) => v.inner@.map_values(|x: u8| AnyValue::U8(x)),
            TypedMoveBorrowedRustVec::U16(v) => v.inner@.map_values(|x: u16| AnyValue::U16(x)),
            TypedMoveBorrowedRustVec::U32(v) => v.inner@.map_values(|x: u32| AnyValue::U32(x)),
            TypedMoveBorrowedRustVec::U64(v) => v.inner@.map_values(|x: u64| AnyValue::U64(x)),
            TypedMoveBorrowedRustVec::U128(v) => v.inner@.map_values(|x: u128| AnyValue::U128(x)),
            TypedMoveBorrowedRustVec::U256(v) => v.inner@.map_values(
                |x: crate::rt_types::U256| AnyValue::U256(x),
            ),
            TypedMoveBorrowedRustVec::Address(v) => v.inner@.map_values(
                |x: crate::rt_types::MoveAddress| AnyValue::Address(x),
            ),
            TypedMoveBorrowedRustVec::Signer(v) => v.inner@.map_values(
                |x: crate::rt_types::MoveSigner| AnyValue::Signer(x),
            ),
            TypedMoveBorrowedRustVec::Vector(_, v) => v.inner@.map_values(
                |x: MoveUntypedVector| AnyValue::Vector(x),
            ),
            TypedMoveBorrowedRustVec::Struct(s) => vec_elems(*s.inner),
            TypedMoveBorrowedRustVec::Reference(_, v) => v.inner@.map_values(
                |x: crate::rt_types::MoveUntypedReference| AnyValue::Reference(x),
            ),
        }
    }

    /// The number of elements, as the native buffer counts them.
    pub open spec fn spec_len(&self) -> nat {
        match *self {
            TypedMoveBorrowedRustVec::Bool(v) => v.inner.len() as nat,
            TypedMoveBorrowedRustVec::U8(v) => v.inner.len() as nat,
            TypedMoveBorrowedRustVec::U16(v) => v.inner.len() as nat,
            TypedMoveBorrowedRustVec::U32(v) => v.inner.len() as nat,
            TypedMoveBorrowedRustVec::U64(v) => v.inner.len() as nat,
            TypedMoveBorrowedRustVec::U128(v) => v.inner.len() as nat,
            TypedMoveBorrowedRustVec::U256(v) => v.inner.len() as nat,
            TypedMoveBorrowedRustVec::Address(v) => v.inner.len() as nat,
            TypedMoveBorrowedRustVec::Signer(v) => v.inner.len() as nat,
            TypedMoveBorrowedRustVec::Vector(_, v) => v.inner.len() as nat,
            TypedMoveBorrowedRustVec::Struct(s) => buffer_len(s.inner.ptr),
            TypedMoveBorrowedRustVec::Reference(_, v) => v.inner.len() as nat,
        }
    }

    /// The view was made from a vector with element type `t`: its arm is the
    /// one `t`'s tag names, and it carries what that arm needs of `t`.
    pub open spec fn typed_by(&self, t: MoveType) -> bool {
        match *self {
            TypedMoveBorrowedRustVec::Bool(_) => t.type_desc == TypeDesc::Bool,
            TypedMoveBorrowedRustVec::U8(_) => t.type_desc == TypeDesc::U8,
            TypedMoveBorrowedRustVec::U16(_) => t.type_desc == TypeDesc::U16,
            TypedMoveBorrowedRustVec::U32(_) => t.type_desc == TypeDesc::U32,
            TypedMoveBorrowedRustVec::U64(_) => t.type_desc == TypeDesc::U64,
            TypedMoveBorrowedRustVec::U128(_) => t.type_desc == TypeDesc::U128,
            TypedMoveBorrowedRustVec::U256(_) => t.type_desc == TypeDesc::U256,
            TypedMoveBorrowedRustVec::Address(_) => t.type_desc == TypeDesc::Address,
            TypedMoveBorrowedRustVec::Signer(_) => t.type_desc == TypeDesc::Signer,
            TypedMoveBorrowedRustVec::Vector(et, _) => {
                &&& t.type_desc == TypeDesc::Vector
                &&& *et == element_type(t)
            },
            TypedMoveBorrowedRustVec::Struct(s) => {
                &&& t.type_desc == TypeDesc::Struct
                &&& *s.full_type == t
                &&& s.wf()
            },
            TypedMoveBorrowedRustVec::Reference(et, _) => {
                &&& t.type_desc == TypeDesc::Reference
                &&& *et == element_type(t)
            },
        }
    }

    /// Sees `mv` as a vector of elements of type `type_`.
    pub fn new(type_: &'mv MoveType, mv: &'mv MoveUntypedVector) -> (r: TypedMoveBorrowedRustVec<'mv>)
        requires
            type_wf(*type_),
            vec_has_type(*type_, *mv),
        ensures
            r.elems() == vec_elems(*mv),
            r.spec_len() == mv.length,
            r.typed_by(*type_),
    {
        match &mv.ptr {
            ElementBuffer::Bool(b) => TypedMoveBorrowedRustVec::Bool(MoveBorrowedRustVec { inner: b }),
            ElementBuffer::U8(b) => TypedMoveBorrowedRustVec::U8(MoveBorrowedRustVec { inner: b }),
            ElementBuffer::U16(b) => TypedMoveBorrowedRustVec::U16(MoveBorrowedRustVec { inner: b }),
            ElementBuffer::U32(b) => TypedMoveBorrowedRustVec::U32(MoveBorrowedRustVec { inner: b }),
            ElementBuffer::U64(b) => TypedMoveBorrowedRustVec::U64(MoveBorrowedRustVec { inner: b }),
            ElementBuffer::U128(b) => TypedMoveBorrowedRustVec::U128(MoveBorrowedRustVec { inner: b }),
            ElementBuffer::U256(b) => TypedMoveBorrowedRustVec::U256(MoveBorrowedRustVec { inner: b }),
            ElementBuffer::Address(b) => TypedMoveBorrowedRustVec::Address(
                MoveBorrowedRustVec { inner: b },
            ),
            ElementBuffer::Signer(b) => TypedMoveBorrowedRustVec::Signer(
                MoveBorrowedRustVec { inner: b },
            ),
            ElementBuffer::Vector(b) => TypedMoveBorrowedRustVec::Vector(
                element_type_of(type_),
                MoveBorrowedRustVec { inner: b },
            ),
            ElementBuffer::Struct(_) => TypedMoveBorrowedRustVec::Struct(
                MoveBorrowedRustVecOfStruct::new(type_, mv),
            ),
            ElementBuffer::Reference(b) => TypedMoveBorrowedRustVec::Reference(
                element_type_of(type_),
                MoveBorrowedRustVec { inner: b },
            ),
        }
    }

    /// The number of elements.
    pub fn len(&self) -> (r: u64)
        requires
            self matches TypedMoveBorrowedRustVec::Struct(s) ==> s.wf(),
        ensures
            r == self.elems().len(),
            r == self.spec_len(),
    {
        let len: usize = match self {
            TypedMoveBorrowedRustVec::Bool(v) => v.inner.len(),
            TypedMoveBorrowedRustVec::U8(v) => v.inner.len(),
            TypedMoveBorrowedRustVec::U16(v) => v.inner.len(),
            TypedMoveBorrowedRustVec::U32(v) => v.inner.len(),
            TypedMoveBorrowedRustVec::U64(v) => v.inner.len(),
            TypedMoveBorrowedRustVec::U128(v) => v.inner.len(),
            TypedMoveBorrowedRustVec::U256(v) => v.inner.len(),
            TypedMoveBorrowedRustVec::Address(v) => v.inner.len(),
            TypedMoveBorrowedRustVec::Signer(v) => v.inner.len(),
            TypedMoveBorrowedRustVec::Vector(_t, v) => v.inner.len(),
            TypedMoveBorrowedRustVec::Struct(s) => s.len(),
            TypedMoveBorrowedRustVec::Reference(_t, v) => v.inner.len(),
        };
        len as u64
    }

    /// The element at index `i`, seen through the element type.
    pub fn borrow(&self, i: u64) -> (r: BorrowedTypedMoveValue<'mv>)
        requires
            i < self.spec_len(),
            self matches TypedMoveBorrowedRustVec::Struct(s) ==> s.wf(),
        ensures
            r.value() == self.elems()[i as int],
            match *self {
                TypedMoveBorrowedRustVec::Vector(et, _) => r matches BorrowedTypedMoveValue::Vector(
                    t,
                    _,
                ) && t == et,
                TypedMoveBorrowedRustVec::Struct(s) => r matches BorrowedTypedMoveValue::Struct(
                    t,
                    _,
                ) && t == s.full_type,
                TypedMoveBorrowedRustVec::Reference(et, _) => r matches BorrowedTypedMoveValue::Reference(
                    t,
                    _,
                ) && t == et,
                _ => true,
            },
    {
        match self {
            TypedMoveBorrowedRustVec::Bool(v) => BorrowedTypedMoveValue::Bool(&v.inner[i as usize]),
            TypedMoveBorrowedRustVec::U8(v) => BorrowedTypedMoveValue::U8(&v.inner[i as usize]),
            TypedMoveBorrowedRustVec::U16(v) => BorrowedTypedMoveValue::U16(&v.inner[i as usize]),
            TypedMoveBorrowedRustVec::U32(v) => BorrowedTypedMoveValue::U32(&v.inner[i as usize]),
            TypedMoveBorrowedRustVec::U64(v) => BorrowedTypedMoveValue::U64(&v.inner[i as usize]),
            TypedMoveBorrowedRustVec::U128(v) => BorrowedTypedMoveValue::U128(&v.inner[i as usize]),
            TypedMoveBorrowedRustVec::U256(v) => BorrowedTypedMoveValue::U256(&v.inner[i as usize]),
            TypedMoveBorrowedRustVec::Address(v) => BorrowedTypedMoveValue::Address(&v.inner[i as usize]),
            TypedMoveBorrowedRustVec::Signer(v) => BorrowedTypedMoveValue::Signer(&v.inner[i as usize]),
            TypedMoveBorrowedRustVec::Vector(t, v) => BorrowedTypedMoveValue::Vector(
                t,
                &v.inner[i as usize],
            ),
            TypedMoveBorrowedRustVec::Struct(s) => BorrowedTypedMoveValue::Struct(
                s.full_type,
                s.get(i as usize),
            ),
            TypedMoveBorrowedRustVec::Reference(t, v) => BorrowedTypedMoveValue::Reference(
                t,
                &v.inner[i as usize],
            ),
        }
    }
}

/// The first capacity that a growing buffer takes, by element size: the
/// heuristic of std's growable vector, so that every kind of element grows
/// alike.
pub open spec fn min_non_zero_cap(size: nat) -> nat {
    if size == 1 {
        8
    } else if size <= 1024 {
        4
    } else {
        1
    }
}

/// The capacity after growing a full buffer of capacity `cap`: twice as much,
/// and at least the minimum.
pub open spec fn grown_capacity(cap: nat, size: nat) -> nat {
    if 2 * cap >= min_non_zero_cap(size) {
        2 * cap
    } else {
        min_non_zero_cap(size)
    }
}

/// The capacity of a buffer of length `len` and capacity `cap` after one
/// more element of `size` bytes: unchanged while there is room, else grown.
pub open spec fn capacity_for_push(len: nat, cap: nat, size: nat) -> nat {
    if len < cap {
        cap
    } else {
        grown_capacity(cap, size)
    }
}

/// The capacity of `v` after one more element, with elements of `size` bytes.
pub open spec fn capacity_after_push(v: MoveUntypedVector, size: nat) -> nat {
    capacity_for_push(v.length as nat, v.capacity as nat, size)
}

/// One more element fits: either there is room, or the grown buffer fits one
/// allocation.
pub open spec fn push_fits(t: MoveType, v: MoveUntypedVector) -> bool {
    capacity_after_push(v, elem_size(t)) * elem_size(t) <= MAX_ALLOC_BYTES
}

/// The byte size of one element of type `t`.
pub fn element_size(t: &MoveType) -> (r: u64)
    requires
        type_wf(*t),
    ensures
        r == elem_size(*t),
        r > 0,
{
    match t.type_desc {
        TypeDesc::Bool => 1,
        TypeDesc::U8 => 1,
        TypeDesc::U16 => 2,
        TypeDesc::U32 => 4,
        TypeDesc::U64 => 8,
        TypeDesc::U128 => 16,
        TypeDesc::U256 => 32,
        TypeDesc::Address => 32,
        TypeDesc::Signer => 32,
        TypeDesc::Vector => 24,
        TypeDesc::Reference => 8,
        TypeDesc::Struct => struct_info_of(t).size,
    }
}

/// The capacity that a full buffer of capacity `cap`, with elements of `size`
/// bytes, grows to.
pub(crate) fn amortized_capacity(cap: u64, size: u64) -> (r: u64)
    requires
        size > 0,
        cap * size <= MAX_ALLOC_BYTES,
    ensures
        r == grown_capacity(cap as nat, size as nat),
{
    proof {
        assert(cap <= cap * size) by (nonlinear_arith)
            requires
                size > 0,
        ;
    }
    let min_non_zero_cap: u64 = if size == 1 {
        8
    } else if size <= 1024 {
        4
    } else {
        1
    };
    let doubled = cap * 2;
    if doubled >= min_non_zero_cap {
        doubled
    } else {
        min_non_zero_cap
    }
}

/// Sets the capacity of `v` to exactly `new_cap`.
pub fn reserve_exact(v: &mut MoveUntypedVector, new_cap: u64)
    requires
        new_cap >= old(v).capacity,
    ensures
        final(v).capacity == new_cap,
        final(v).ptr == old(v).ptr,
        final(v).length == old(v).length,
{
    v.capacity = new_cap;
}

/// A new vector with no elements and no capacity.
pub fn empty(type_r: &MoveType) -> (r: MoveUntypedVector)
    requires
        type_wf(*type_r),
    ensures
        vec_has_type(*type_r, r),
        r.length == 0,
        r.capacity == 0,
        vec_elems(r) == Seq::<AnyValue>::empty(),
{
    let ptr = match type_r.type_desc {
        TypeDesc::Bool => ElementBuffer::Bool(Vec::new()),
        TypeDesc::U8 => ElementBuffer::U8(Vec::new()),
        TypeDesc::U16 => ElementBuffer::U16(Vec::new()),
        TypeDesc::U32 => ElementBuffer::U32(Vec::new()),
        TypeDesc::U64 => ElementBuffer::U64(Vec::new()),
        TypeDesc::U128 => ElementBuffer::U128(Vec::new()),
        TypeDesc::U256 => ElementBuffer::U256(Vec::new()),
        TypeDesc::Address => ElementBuffer::Address(Vec::new()),
        TypeDesc::Signer => ElementBuffer::Signer(Vec::new()),
        TypeDesc::Vector => ElementBuffer::Vector(Vec::new()),
        TypeDesc::Struct => ElementBuffer::Struct(Vec::new()),
        TypeDesc::Reference => ElementBuffer::Reference(Vec::new()),
    };
    let r = MoveUntypedVector { ptr, capacity: 0, length: 0 };
    assert(vec_elems(r) =~= Seq::<AnyValue>::empty());
    r
}

/// Releases an empty vector. Its buffer holds no element, so releasing it
/// drops nothing.
pub fn destroy_empty(type_ve: &MoveType, v: MoveUntypedVector)
    requires
        type_wf(*type_ve),
        vec_has_type(*type_ve, v),
        v.length == 0,
{
    let _buffer = crate::conv::move_vec_to_rust_vec(v);
}

/// The number of elements of `v`.
pub fn length(type_ve: &MoveType, v: &MoveUntypedVector) -> (r: u64)
    requires
        type_wf(*type_ve),
        vec_has_type(*type_ve, *v),
    ensures
        r == v.length,
        r == vec_elems(*v).len(),
{
    let rust_vec = TypedMoveBorrowedRustVec::new(type_ve, v);
    rust_vec.len()
}

/// The element of `v` at index `i`.
pub fn borrow<'v>(type_ve: &'v MoveType, v: &'v MoveUntypedVector, i: u64) -> (r:
    BorrowedTypedMoveValue<'v>)
    requires
        type_wf(*type_ve),
        vec_has_type(*type_ve, *v),
        i < v.length,
    ensures
        r.value() == vec_elems(*v)[i as int],
        r.typed_by(*type_ve),
{
    let rust_vec = TypedMoveBorrowedRustVec::new(type_ve, v);
    rust_vec.borrow(i)
}

/// An empty buffer of the same kind as `b`.
fn empty_buffer_like(b: &ElementBuffer) -> (r: ElementBuffer)
    ensures
        buffer_matches_kind(r, *b),
        buffer_len(r) == 0,
{
    match b {
        ElementBuffer::Bool(_) => ElementBuffer::Bool(Vec::new()),
        ElementBuffer::U8(_) => ElementBuffer::U8(Vec::new()),
        ElementBuffer::U16(_) => ElementBuffer::U16(Vec::new()),
        ElementBuffer::U32(_) => ElementBuffer::U32(Vec::new()),
        ElementBuffer::U64(_) => ElementBuffer::U64(Vec::new()),
        ElementBuffer::U128(_) => ElementBuffer::U128(Vec::new()),
        ElementBuffer::U256(_) => ElementBuffer::U256(Vec::new()),
        ElementBuffer::Address(_) => ElementBuffer::Address(Vec::new()),
        ElementBuffer::Signer(_) => ElementBuffer::Signer(Vec::new()),
        ElementBuffer::Vector(_) => ElementBuffer::Vector(Vec::new()),
        ElementBuffer::Struct(_) => ElementBuffer::Struct(Vec::new()),
        ElementBuffer::Reference(_) => ElementBuffer::Reference(Vec::new()),
    }
}

/// Moves the vector out of `v`, leaving an empty one of the same kind.
fn take_vector(v: &mut MoveUntypedVector) -> (r: MoveUntypedVector)
    ensures
        r == *old(v),
        buffer_matches_kind(final(v).ptr, old(v).ptr),
        buffer_len(final(v).ptr) == 0,
        final(v).length == 0,
        final(v).capacity == 0,
{
    let mut taken = MoveUntypedVector { ptr: empty_buffer_like(&v.ptr), capacity: 0, length: 0 };
    core::mem::swap(v, &mut taken);
    taken
}

/// A vector's native buffer, taken out of the vector for one operation;
/// `finish` puts it back with its new length and capacity.
pub struct MoveBorrowedRustVecMut<T> {
    pub inner: Vec<T>,
    pub capacity: u64,
}

impl<T> MoveBorrowedRustVecMut<T> {
    /// Appends `x`, growing a full buffer of `size`-byte elements first.
    pub fn push(&mut self, x: T, size: u64)
        requires
            size > 0,
            old(self).inner.len() <= old(self).capacity,
            capacity_for_push(old(self).inner.len() as nat, old(self).capacity as nat, size as nat)
                * size <= MAX_ALLOC_BYTES,
        ensures
            final(self).inner@ == old(self).inner@.push(x),
            final(self).capacity == capacity_for_push(
                old(self).inner.len() as nat,
                old(self).capacity as nat,
                size as nat,
            ),
    {
        if self.inner.len() as u64 == self.capacity {
            proof {
                assert(self.capacity * size <= grown_capacity(self.capacity as nat, size as nat)
                    * size) by (nonlinear_arith)
                    requires
                        self.capacity <= grown_capacity(self.capacity as nat, size as nat),
                ;
            }
            self.capacity = amortized_capacity(self.capacity, size);
        }
        self.inner.push(x);
    }

    /// Removes and returns the last element.
    pub fn pop(&mut self) -> (r: T)
        requires
            old(self).inner.len() > 0,
        ensures
            r == old(self).inner@.last(),
            final(self).inner@ == old(self).inner@.drop_last(),
            final(self).capacity == old(self).capacity,
    {
        self.inner.pop().unwrap()
    }
}

/// A vector of structs taken out of its vector for one operation. Its buffer
/// grows by the struct's size, as the layout gives it.
pub struct MoveBorrowedRustVecOfStructMut<'mv> {
    pub inner: Vec<MoveStruct>,
    pub capacity: u64,
    pub type_: &'mv StructTypeInfo,
}

impl<'mv> MoveBorrowedRustVecOfStructMut<'mv> {
    /// The buffer's length is within its capacity, whose bytes fit one
    /// allocation.
    pub open spec fn wf(&self) -> bool {
        &&& self.type_.size > 0
        &&& self.inner.len() <= self.capacity
        &&& self.capacity * self.type_.size <= MAX_ALLOC_BYTES
    }

    /// Sets the capacity to exactly `new_cap`.
    pub fn reserve_exact(&mut self, new_cap: u64)
        requires
            new_cap >= old(self).capacity,
            new_cap * old(self).type_.size <= MAX_ALLOC_BYTES,
        ensures
            final(self).capacity == new_cap,
            final(self).inner == old(self).inner,
            final(self).type_ == old(self).type_,
    {
        self.capacity = new_cap;
    }

    /// Grows a full buffer: twice the capacity, and at least the first
    /// non-zero capacity for the struct's size.
    pub fn grow_amortized(&mut self)
        requires
            old(self).wf(),
            old(self).inner.len() == old(self).capacity,
            grown_capacity(old(self).capacity as nat, old(self).type_.size as nat)
                * old(self).type_.size <= MAX_ALLOC_BYTES,
        ensures
            final(self).wf(),
            final(self).capacity == grown_capacity(
                old(self).capacity as nat,
                old(self).type_.size as nat,
            ),
            final(self).inner == old(self).inner,
            final(self).type_ == old(self).type_,
    {
        let new_cap = amortized_capacity(self.capacity, self.type_.size);
        self.reserve_exact(new_cap);
    }

    /// Grows the buffer when it is full.
    pub fn maybe_grow(&mut self)
        requires
            old(self).wf(),
            capacity_for_push(
                old(self).inner.len() as nat,
                old(self).capacity as nat,
                old(self).type_.size as nat,
            ) * old(self).type_.size <= MAX_ALLOC_BYTES,
        ensures
            final(self).wf(),
            final(self).capacity == capacity_for_push(
                old(self).inner.len() as nat,
                old(self).capacity as nat,
                old(self).type_.size as nat,
            ),
            final(self).inner == old(self).inner,
            final(self).type_ == old(self).type_,
            final(self).inner.len() < final(self).capacity,
    {
        if (self.inner.len() as u64) < self.capacity {
            return;
        }
        self.grow_amortized();
    }

    /// Appends `s`, growing the buffer first when it is full.
    pub fn push(&mut self, s: MoveStruct)
        requires
            old(self).wf(),
            capacity_for_push(
                old(self).inner.len() as nat,
                old(self).capacity as nat,
                old(self).type_.size as nat,
            ) * old(self).type_.size <= MAX_ALLOC_BYTES,
        ensures
            final(self).wf(),
            final(self).inner@ == old(self).inner@.push(s),
            final(self).capacity == capacity_for_push(
                old(self).inner.len() as nat,
                old(self).capacity as nat,
                old(self).type_.size as nat,
            ),
            final(self).type_ == old(self).type_,
    {
        self.maybe_grow();
        self.inner.push(s);
    }

    /// Removes and returns the last struct.
    pub fn pop_into(&mut self) -> (r: MoveStruct)
        requires
            old(self).inner.len() > 0,
        ensures
            r == old(self).inner@.last(),
            final(self).inner@ == old(self).inner@.drop_last(),
            final(self).capacity == old(self).capacity,
            final(self).type_ == old(self).type_,
    {
        self.inner.pop().unwrap()
    }

    /// Exchanges the structs at `i` and `j`; the same index twice leaves the
    /// buffer as it is.
    pub fn swap(&mut self, i: usize, j: usize)
        requires
            i < old(self).inner.len(),
            j < old(self).inner.len(),
        ensures
            final(self).inner@ == old(self).inner@.update(i as int, old(self).inner@[j as int]).update(
                j as int,
                old(self).inner@[i as int],
            ),
            final(self).capacity == old(self).capacity,
            final(self).type_ == old(self).type_,
    {
        if i == j {
            assert(self.inner@.update(i as int, self.inner@[j as int]).update(j as int, self.inner@[i as int])
                =~= self.inner@);
            return;
        }
        swap_moved(&mut self.inner, i, j, MoveStruct { fields: Vec::new() });
    }
}

/// A vector taken out of its `MoveUntypedVector` and seen through its
/// element type, for an operation that changes it.
pub enum TypedMoveBorrowedRustVecMut<'mv> {
    Bool(MoveBorrowedRustVecMut<bool>),
    U8(MoveBorrowedRustVecMut<u8>),
    U16(MoveBorrowedRustVecMut<u16>),
    U32(MoveBorrowedRustVecMut<u32>),
    U64(MoveBorrowedRustVecMut<u64>),
    U128(MoveBorrowedRustVecMut<u128>),
    U256(MoveBorrowedRustVecMut<crate::rt_types::U256>),
    Address(MoveBorrowedRustVecMut<crate::rt_types::MoveAddress>),
    Signer(MoveBorrowedRustVecMut<crate::rt_types::MoveSigner>),
    Vector(&'mv MoveType, MoveBorrowedRustVecMut<MoveUntypedVector>),
    Struct(MoveBorrowedRustVecOfStructMut<'mv>),
    Reference(&'mv MoveType, MoveBorrowedRustVecMut<crate::rt_types::MoveUntypedReference>),
}

impl<'mv> TypedMoveBorrowedRustVecMut<'mv> {
    /// The buffer as `finish` puts it back.
    pub open spec fn buffer(&self) -> ElementBuffer {
        match *self {
            TypedMoveBorrowedRustVecMut::Bool(v) => ElementBuffer::Bool(v.inner),
            TypedMoveBorrowedRustVecMut::U8(v) => ElementBuffer::U8(v.inner),
            TypedMoveBorrowedRustVecMut::U16(v) => ElementBuffer::U16(v.inner),
            TypedMoveBorrowedRustVecMut::U32(v) => ElementBuffer::U32(v.inner),
            TypedMoveBorrowedRustVecMut::U64(v) => ElementBuffer::U64(v.inner),
            TypedMoveBorrowedRustVecMut::U128(v) => ElementBuffer::U128(v.inner),
            TypedMoveBorrowedRustVecMut::U256(v) => ElementBuffer::U256(v.inner),
            TypedMoveBorrowedRustVecMut::Address(v) => ElementBuffer::Address(v.inner),
            TypedMoveBorrowedRustVecMut::Signer(v) => ElementBuffer::Signer(v.inner),
            TypedMoveBorrowedRustVecMut::Vector(_, v) => ElementBuffer::Vector(v.inner),
            TypedMoveBorrowedRustVecMut::Struct(s) => ElementBuffer::Struct(s.inner),
            TypedMoveBorrowedRustVecMut::Reference(_, v) => ElementBuffer::Reference(v.inner),
        }
    }

    /// The capacity as `finish` puts it back.
    pub open spec fn capacity(&self) -> u64 {
        match *self {
            TypedMoveBorrowedRustVecMut::Bool(v) => v.capacity,
            TypedMoveBorrowedRustVecMut::U8(v) => v.capacity,
            TypedMoveBorrowedRustVecMut::U16(v) => v.capacity,
            TypedMoveBorrowedRustVecMut::U32(v) => v.capacity,
            TypedMoveBorrowedRustVecMut::U64(v) => v.capacity,
            TypedMoveBorrowedRustVecMut::U128(v) => v.capacity,
            TypedMoveBorrowedRustVecMut::U256(v) => v.capacity,
            TypedMoveBorrowedRustVecMut::Address(v) => v.capacity,
            TypedMoveBorrowedRustVecMut::Signer(v) => v.capacity,
            TypedMoveBorrowedRustVecMut::Vector(_, v) => v.capacity,
            TypedMoveBorrowedRustVecMut::Struct(s) => s.capacity,
            TypedMoveBorrowedRustVecMut::Reference(_, v) => v.capacity,
        }
    }

    /// The view was made from a vector with element type `t`: its arm is the
    /// one `t`'s tag names, a struct view carries `t`'s layout, and a vector
    /// or reference view carries `t`'s own element type.
    pub open spec fn typed_by(&self, t: MoveType) -> bool {
        &&& buffer_matches(t.type_desc, self.buffer())
        &&& (self matches TypedMoveBorrowedRustVecMut::Struct(s) ==> t.type_info
            == TypeInfo::Struct(*s.type_))
        &&& (self matches TypedMoveBorrowedRustVecMut::Vector(et, _) ==> *et == element_type(t))
        &&& (self matches TypedMoveBorrowedRustVecMut::Reference(et, _) ==> *et == element_type(t))
    }

    /// Takes `mv` over, seen through the element type `type_`: the view holds
    /// its buffer and capacity until `finish` hands the vector back.
    pub fn new(type_: &'mv MoveType, mv: MoveUntypedVector) -> (r: TypedMoveBorrowedRustVecMut<'mv>)
        requires
            type_wf(*type_),
            vec_has_type(*type_, mv),
        ensures
            r.buffer() == mv.ptr,
            r.capacity() == mv.capacity,
            r.typed_by(*type_),
    {
        let capacity = mv.capacity;
        match mv.ptr {
            ElementBuffer::Bool(b) => TypedMoveBorrowedRustVecMut::Bool(
                MoveBorrowedRustVecMut { inner: b, capacity },
            ),
            ElementBuffer::U8(b) => TypedMoveBorrowedRustVecMut::U8(
                MoveBorrowedRustVecMut { inner: b, capacity },
            ),
            ElementBuffer::U16(b) => TypedMoveBorrowedRustVecMut::U16(
                MoveBorrowedRustVecMut { inner: b, capacity },
            ),
            ElementBuffer::U32(b) => TypedMoveBorrowedRustVecMut::U32(
                MoveBorrowedRustVecMut { inner: b, capacity },
            ),
            ElementBuffer::U64(b) => TypedMoveBorrowedRustVecMut::U64(
                MoveBorrowedRustVecMut { inner: b, capacity },
            ),
            ElementBuffer::U128(b) => TypedMoveBorrowedRustVecMut::U128(
                MoveBorrowedRustVecMut { inner: b, capacity },
            ),
            ElementBuffer::U256(b) => TypedMoveBorrowedRustVecMut::U256(
                MoveBorrowedRustVecMut { inner: b, capacity },
            ),
            ElementBuffer::Address(b) => TypedMoveBorrowedRustVecMut::Address(
                MoveBorrowedRustVecMut { inner: b, capacity },
            ),
            ElementBuffer::Signer(b) => TypedMoveBorrowedRustVecMut::Signer(
                MoveBorrowedRustVecMut { inner: b, capacity },
            ),
            ElementBuffer::Vector(b) => TypedMoveBorrowedRustVecMut::Vector(
                element_type_of(type_),
                MoveBorrowedRustVecMut { inner: b, capacity },
            ),
            ElementBuffer::Struct(b) => TypedMoveBorrowedRustVecMut::Struct(
                MoveBorrowedRustVecOfStructMut { inner: b, capacity, type_: struct_info_of(type_) },
            ),
            ElementBuffer::Reference(b) => TypedMoveBorrowedRustVecMut::Reference(
                element_type_of(type_),
                MoveBorrowedRustVecMut { inner: b, capacity },
            ),
        }
    }

    /// Hands the vector back: the view's buffer, its length and its capacity.
    pub fn finish(self) -> (r: MoveUntypedVector)
        ensures
            r.ptr == self.buffer(),
            r.capacity == self.capacity(),
            r.length == buffer_len(self.buffer()),
    {
        let (ptr, capacity) = match self {
            TypedMoveBorrowedRustVecMut::Bool(v) => (ElementBuffer::Bool(v.inner), v.capacity),
            TypedMoveBorrowedRustVecMut::U8(v) => (ElementBuffer::U8(v.inner), v.capacity),
            TypedMoveBorrowedRustVecMut::U16(v) => (ElementBuffer::U16(v.inner), v.capacity),
            TypedMoveBorrowedRustVecMut::U32(v) => (ElementBuffer::U32(v.inner), v.capacity),
            TypedMoveBorrowedRustVecMut::U64(v) => (ElementBuffer::U64(v.inner), v.capacity),
            TypedMoveBorrowedRustVecMut::U128(v) => (ElementBuffer::U128(v.inner), v.capacity),
            TypedMoveBorrowedRustVecMut::U256(v) => (ElementBuffer::U256(v.inner), v.capacity),
            TypedMoveBorrowedRustVecMut::Address(v) => (ElementBuffer::Address(v.inner), v.capacity),
            TypedMoveBorrowedRustVecMut::Signer(v) => (ElementBuffer::Signer(v.inner), v.capacity),
            TypedMoveBorrowedRustVecMut::Vector(_, v) => (ElementBuffer::Vector(v.inner), v.capacity),
            TypedMoveBorrowedRustVecMut::Struct(s) => (ElementBuffer::Struct(s.inner), s.capacity),
            TypedMoveBorrowedRustVecMut::Reference(_, v) => (
                ElementBuffer::Reference(v.inner),
                v.capacity,
            ),
        };
        let len = match &ptr {
            ElementBuffer::Bool(b) => b.len(),
            ElementBuffer::U8(b) => b.len(),
            ElementBuffer::U16(b) => b.len(),
            ElementBuffer::U32(b) => b.len(),
            ElementBuffer::U64(b) => b.len(),
            ElementBuffer::U128(b) => b.len(),
            ElementBuffer::U256(b) => b.len(),
            ElementBuffer::Address(b) => b.len(),
            ElementBuffer::Signer(b) => b.len(),
            ElementBuffer::Vector(b) => b.len(),
            ElementBuffer::Struct(b) => b.len(),
            ElementBuffer::Reference(b) => b.len(),
        };
        MoveUntypedVector { ptr, capacity, length: len as u64 }
    }

    /// Appends `e`, growing a full buffer of `size`-byte elements first.
    pub fn push_back(&mut self, e: AnyValue, size: u64)
        requires
            size > 0,
            buffer_matches_value(old(self).buffer(), e),
            buffer_len(old(self).buffer()) <= old(self).capacity(),
            *old(self) matches TypedMoveBorrowedRustVecMut::Struct(s) ==> s.wf() && s.type_.size
                == size,
            capacity_for_push(
                buffer_len(old(self).buffer()),
                old(self).capacity() as nat,
                size as nat,
            ) * size <= MAX_ALLOC_BYTES,
        ensures
            buffer_elems(final(self).buffer()) == buffer_elems(old(self).buffer()).push(e),
            buffer_matches_kind(final(self).buffer(), old(self).buffer()),
            final(self).capacity() == capacity_for_push(
                buffer_len(old(self).buffer()),
                old(self).capacity() as nat,
                size as nat,
            ),
            *old(self) matches TypedMoveBorrowedRustVecMut::Struct(s) ==> *final(self) matches TypedMoveBorrowedRustVecMut::Struct(
                f,
            ) && f.type_ == s.type_,
    {
        let ghost before = *self;
        match self {
            TypedMoveBorrowedRustVecMut::Bool(v) => if let AnyValue::Bool(x) = e { v.push(x, size) },
            TypedMoveBorrowedRustVecMut::U8(v) => if let AnyValue::U8(x) = e { v.push(x, size) },
            TypedMoveBorrowedRustVecMut::U16(v) => if let AnyValue::U16(x) = e { v.push(x, size) },
            TypedMoveBorrowedRustVecMut::U32(v) => if let AnyValue::U32(x) = e { v.push(x, size) },
            TypedMoveBorrowedRustVecMut::U64(v) => if let AnyValue::U64(x) = e { v.push(x, size) },
            TypedMoveBorrowedRustVecMut::U128(v) => if let AnyValue::U128(x) = e { v.push(x, size) },
            TypedMoveBorrowedRustVecMut::U256(v) => if let AnyValue::U256(x) = e { v.push(x, size) },
            TypedMoveBorrowedRustVecMut::Address(v) => if let AnyValue::Address(x) = e {
                v.push(x, size)
            },
            TypedMoveBorrowedRustVecMut::Signer(v) => if let AnyValue::Signer(x) = e {
                v.push(x, size)
            },
            TypedMoveBorrowedRustVecMut::Vector(_t, v) => if let AnyValue::Vector(x) = e {
                v.push(x, size)
            },
            TypedMoveBorrowedRustVecMut::Struct(s) => if let AnyValue::Struct(x) = e { s.push(x) },
            TypedMoveBorrowedRustVecMut::Reference(_t, v) => if let AnyValue::Reference(x) = e {
                v.push(x, size)
            },
        }
        assert(buffer_elems(self.buffer()) =~= buffer_elems(before.buffer()).push(e));
    }

    /// Removes and returns the last element.
    pub fn pop_back(&mut self) -> (r: AnyValue)
        requires
            buffer_len(old(self).buffer()) > 0,
        ensures
            r == buffer_elems(old(self).buffer()).last(),
            buffer_elems(final(self).buffer()) == buffer_elems(old(self).buffer()).drop_last(),
            buffer_matches_kind(final(self).buffer(), old(self).buffer()),
            final(self).capacity() == old(self).capacity(),
    {
        let ghost before = *self;
        let r = match self {
            TypedMoveBorrowedRustVecMut::Bool(v) => AnyValue::Bool(v.pop()),
            TypedMoveBorrowedRustVecMut::U8(v) => AnyValue::U8(v.pop()),
            TypedMoveBorrowedRustVecMut::U16(v) => AnyValue::U16(v.pop()),
            TypedMoveBorrowedRustVecMut::U32(v) => AnyValue::U32(v.pop()),
            TypedMoveBorrowedRustVecMut::U64(v) => AnyValue::U64(v.pop()),
            TypedMoveBorrowedRustVecMut::U128(v) => AnyValue::U128(v.pop()),
            TypedMoveBorrowedRustVecMut::U256(v) => AnyValue::U256(v.pop()),
            TypedMoveBorrowedRustVecMut::Address(v) => AnyValue::Address(v.pop()),
            TypedMoveBorrowedRustVecMut::Signer(v) => AnyValue::Signer(v.pop()),
            TypedMoveBorrowedRustVecMut::Vector(_t, v) => AnyValue::Vector(v.pop()),
            TypedMoveBorrowedRustVecMut::Struct(s) => AnyValue::Struct(s.pop_into()),
            TypedMoveBorrowedRustVecMut::Reference(_t, v) => AnyValue::Reference(v.pop()),
        };
        assert(buffer_elems(self.buffer()) =~= buffer_elems(before.buffer()).drop_last());
        r
    }

    /// Exchanges the elements at `i` and `j`.
    pub fn swap(&mut self, i: usize, j: usize)
        requires
            i < buffer_len(old(self).buffer()),
            j < buffer_len(old(self).buffer()),
        ensures
            buffer_elems(final(self).buffer()) == buffer_elems(old(self).buffer()).update(
                i as int,
                buffer_elems(old(self).buffer())[j as int],
            ).update(j as int, buffer_elems(old(self).buffer())[i as int]),
            buffer_matches_kind(final(self).buffer(), old(self).buffer()),
            final(self).capacity() == old(self).capacity(),
    {
        let ghost before = *self;
        match self {
            TypedMoveBorrowedRustVecMut::Bool(v) => swap_copied(&mut v.inner, i, j),
            TypedMoveBorrowedRustVecMut::U8(v) => swap_copied(&mut v.inner, i, j),
            TypedMoveBorrowedRustVecMut::U16(v) => swap_copied(&mut v.inner, i, j),
            TypedMoveBorrowedRustVecMut::U32(v) => swap_copied(&mut v.inner, i, j),
            TypedMoveBorrowedRustVecMut::U64(v) => swap_copied(&mut v.inner, i, j),
            TypedMoveBorrowedRustVecMut::U128(v) => swap_copied(&mut v.inner, i, j),
            TypedMoveBorrowedRustVecMut::U256(v) => swap_copied(&mut v.inner, i, j),
            TypedMoveBorrowedRustVecMut::Address(v) => swap_copied(&mut v.inner, i, j),
            TypedMoveBorrowedRustVecMut::Signer(v) => swap_copied(&mut v.inner, i, j),
            TypedMoveBorrowedRustVecMut::Vector(_t, v) => swap_moved(
                &mut v.inner,
                i,
                j,
                MoveUntypedVector { ptr: ElementBuffer::Bool(Vec::new()), capacity: 0, length: 0 },
            ),
            TypedMoveBorrowedRustVecMut::Struct(s) => s.swap(i, j),
            TypedMoveBorrowedRustVecMut::Reference(_t, v) => swap_copied(&mut v.inner, i, j),
        }
        let ghost o = buffer_elems(before.buffer());
        assert(buffer_elems(self.buffer()) =~= o.update(i as int, o[j as int]).update(
            j as int,
            o[i as int],
        ));
    }
}

/// Appends `e` to `v`, growing the buffer when it is full.
pub fn push_back(type_ve: &MoveType, v: &mut MoveUntypedVector, e: AnyValue)
    requires
        type_wf(*type_ve),
        vec_has_type(*type_ve, *old(v)),
        has_type(*type_ve, e),
        push_fits(*type_ve, *old(v)),
    ensures
        vec_has_type(*type_ve, *final(v)),
        vec_elems(*final(v)) == vec_elems(*old(v)).push(e),
        final(v).length == old(v).length + 1,
        final(v).capacity == capacity_after_push(*old(v), elem_size(*type_ve)),
{
    let ghost old_v = *v;
    let size = element_size(type_ve);
    let mut rust_vec = TypedMoveBorrowedRustVecMut::new(type_ve, take_vector(v));
    proof {
        assert(buffer_matches_value(rust_vec.buffer(), e));
    }
    rust_vec.push_back(e, size);
    *v = rust_vec.finish();
    proof {
        lemma_buffer_len(old_v.ptr);
        lemma_buffer_len(v.ptr);
        assert forall|i: int| 0 <= i < v.length implies has_type(
            *type_ve,
            #[trigger] vec_elems(*v)[i],
        ) by {
            if i < old_v.length {
                assert(vec_elems(*v)[i] == vec_elems(old_v)[i]);
            }
        }
    }
}

/// Removes the last element of `v` and returns it.
pub fn pop_back(type_ve: &MoveType, v: &mut MoveUntypedVector) -> (r: AnyValue)
    requires
        type_wf(*type_ve),
        vec_has_type(*type_ve, *old(v)),
        old(v).length > 0,
    ensures
        vec_has_type(*type_ve, *final(v)),
        r == vec_elems(*old(v)).last(),
        vec_elems(*final(v)) == vec_elems(*old(v)).drop_last(),
        final(v).length == old(v).length - 1,
        final(v).capacity == old(v).capacity,
{
    let ghost old_v = *v;
    let mut rust_vec = TypedMoveBorrowedRustVecMut::new(type_ve, take_vector(v));
    let r = rust_vec.pop_back();
    *v = rust_vec.finish();
    proof {
        lemma_buffer_len(old_v.ptr);
        lemma_buffer_len(v.ptr);
        assert forall|i: int| 0 <= i < v.length implies has_type(
            *type_ve,
            #[trigger] vec_elems(*v)[i],
        ) by {
            assert(vec_elems(*v)[i] == vec_elems(old_v)[i]);
        }
    }
    r
}

/// Exchanges two elements of a buffer whose elements can be copied.
fn swap_copied<T: Copy>(b: &mut Vec<T>, i: usize, j: usize)
    requires
        i < old(b).len(),
        j < old(b).len(),
    ensures
        final(b)@ == old(b)@.update(i as int, old(b)@[j as int]).update(j as int, old(b)@[i as int]),
{
    let x = b[i];
    let y = b[j];
    b.set(i, y);
    b.set(j, x);
}

/// Exchanges two elements of a buffer, parking `spare` in a slot meanwhile.
fn swap_moved<T>(b: &mut Vec<T>, i: usize, j: usize, spare: T)
    requires
        i < old(b).len(),
        j < old(b).len(),
    ensures
        final(b)@ == old(b)@.update(i as int, old(b)@[j as int]).update(j as int, old(b)@[i as int]),
{
    if i != j {
        let mut tmp = spare;
        b.set_and_swap(i, &mut tmp);
        b.set_and_swap(j, &mut tmp);
        b.set_and_swap(i, &mut tmp);
    } else {
        assert(old(b)@.update(i as int, old(b)@[j as int]).update(j as int, old(b)@[i as int])
            =~= old(b)@);
    }
}

/// Exchanges the elements of `v` at indices `i` and `j`.
pub fn swap(type_ve: &MoveType, v: &mut MoveUntypedVector, i: u64, j: u64)
    requires
        type_wf(*type_ve),
        vec_has_type(*type_ve, *old(v)),
        i < old(v).length,
        j < old(v).length,
    ensures
        vec_has_type(*type_ve, *final(v)),
        vec_elems(*final(v)) == vec_elems(*old(v)).update(
            i as int,
            vec_elems(*old(v))[j as int],
        ).update(j as int, vec_elems(*old(v))[i as int]),
        final(v).length == old(v).length,
        final(v).capacity == old(v).capacity,
{
    let ghost old_v = *v;
    proof {
        assert(buffer_len(v.ptr) <= usize::MAX);
    }
    let i = i as usize;
    let j = j as usize;
    let mut rust_vec = TypedMoveBorrowedRustVecMut::new(type_ve, take_vector(v));
    rust_vec.swap(i, j);
    *v = rust_vec.finish();
    proof {
        lemma_buffer_len(old_v.ptr);
        lemma_buffer_len(v.ptr);
        let o = vec_elems(old_v);
        assert forall|k: int| 0 <= k < v.length implies has_type(
            *type_ve,
            #[trigger] vec_elems(*v)[k],
        ) by {
            if k == j {
                assert(vec_elems(*v)[k] == o[i as int]);
            } else if k == i {
                assert(vec_elems(*v)[k] == o[j as int]);
            } else {
                assert(vec_elems(*v)[k] == o[k]);
            }
        }
    }
}

/// Puts `e` at index `i` of `v` and returns the element that was there: a
/// write through `borrow_mut`.
pub fn replace(type_ve: &MoveType, v: &mut MoveUntypedVector, i: u64, e: AnyValue) -> (r: AnyValue)
    requires
        type_wf(*type_ve),
        vec_has_type(*type_ve, *old(v)),
        has_type(*type_ve, e),
        i < old(v).length,
    ensures
        vec_has_type(*type_ve, *final(v)),
        r == vec_elems(*old(v))[i as int],
        vec_elems(*final(v)) == vec_elems(*old(v)).update(i as int, e),
        final(v).length == old(v).length,
        final(v).capacity == old(v).capacity,
{
    let ghost old_v = *v;
    proof {
        assert(buffer_len(v.ptr) <= usize::MAX);
    }
    let i = i as usize;
    let r = match &mut v.ptr {
        ElementBuffer::Bool(b) => match e {
            AnyValue::Bool(mut x) => {
                b.set_and_swap(i, &mut x);
                AnyValue::Bool(x)
            },
            _ => unreached(),
        },
        ElementBuffer::U8(b) => match e {
            AnyValue::U8(mut x) => {
                b.set_and_swap(i, &mut x);
                AnyValue::U8(x)
            },
            _ => unreached(),
        },
        ElementBuffer::U16(b) => match e {
            AnyValue::U16(mut x) => {
                b.set_and_swap(i, &mut x);
                AnyValue::U16(x)
            },
            _ => unreached(),
        },
        ElementBuffer::U32(b) => match e {
            AnyValue::U32(mut x) => {
                b.set_and_swap(i, &mut x);
                AnyValue::U32(x)
            },
            _ => unreached(),
        },
        ElementBuffer::U64(b) => match e {
            AnyValue::U64(mut x) => {
                b.set_and_swap(i, &mut x);
                AnyValue::U64(x)
            },
            _ => unreached(),
        },
        ElementBuffer::U128(b) => match e {
            AnyValue::U128(mut x) => {
                b.set_and_swap(i, &mut x);
                AnyValue::U128(x)
            },
            _ => unreached(),
        },
        ElementBuffer::U256(b) => match e {
            AnyValue::U256(mut x) => {
                b.set_and_swap(i, &mut x);
                AnyValue::U256(x)
            },
            _ => unreached(),
        },
        ElementBuffer::Address(b) => match e {
            AnyValue::Address(mut x) => {
                b.set_and_swap(i, &mut x);
                AnyValue::Address(x)
            },
            _ => unreached(),
        },
        ElementBuffer::Signer(b) => match e {
            AnyValue::Signer(mut x) => {
                b.set_and_swap(i, &mut x);
                AnyValue::Signer(x)
            },
            _ => unreached(),
        },
        ElementBuffer::Vector(b) => match e {
            AnyValue::Vector(mut x) => {
                b.set_and_swap(i, &mut x);
                AnyValue::Vector(x)
            },
            _ => unreached(),
        },
        ElementBuffer::Struct(b) => match e {
            AnyValue::Struct(mut x) => {
                b.set_and_swap(i, &mut x);
                AnyValue::Struct(x)
            },
            _ => unreached(),
        },
        ElementBuffer::Reference(b) => match e {
            AnyValue::Reference(mut x) => {
                b.set_and_swap(i, &mut x);
                AnyValue::Reference(x)
            },
            _ => unreached(),
        },
    };
    proof {
        let o = vec_elems(old_v);
        assert(vec_elems(*v) =~= o.update(i as int, e));
        assert forall|k: int| 0 <= k < v.length implies has_type(
            *type_ve,
            #[trigger] vec_elems(*v)[k],
        ) by {
            if k != i {
                assert(vec_elems(*v)[k] == o[k]);
            }
        }
    }
    r
}

/// Removes the last element of `v` and drops it.
fn pop_back_discard(type_ve: &MoveType, v: &mut MoveUntypedVector)
    requires
        type_wf(*type_ve),
        vec_has_type(*type_ve, *old(v)),
        old(v).length > 0,
    ensures
        vec_has_type(*type_ve, *final(v)),
        vec_elems(*final(v)) == vec_elems(*old(v)).drop_last(),
        final(v).length == old(v).length - 1,
        final(v).capacity == old(v).capacity,
{
    let _ = pop_back(type_ve, v);
}

/// Compares two vectors with elements of type `type_ve`: unequal lengths
/// differ at once; otherwise elements are compared in order, stopping at the
/// first difference.
pub fn cmp_eq(type_ve: &MoveType, v1: &MoveUntypedVector, v2: &MoveUntypedVector) -> (r: bool)
    requires
        type_wf(*type_ve),
        ref_free(*type_ve) || v1.length != v2.length,
        vec_has_type(*type_ve, *v1),
        vec_has_type(*type_ve, *v2),
    ensures
        r == vec_eq(*type_ve, *v1, *v2),
    decreases *type_ve, 1nat,
{
    let v1_len = length(type_ve, v1);
    let v2_len = length(type_ve, v2);
    if v1_len != v2_len {
        return false;
    }
    let rv1 = TypedMoveBorrowedRustVec::new(type_ve, v1);
    let rv2 = TypedMoveBorrowedRustVec::new(type_ve, v2);
    let mut i: u64 = 0;
    while i < v1_len
        invariant
            type_wf(*type_ve),
            ref_free(*type_ve),
            vec_has_type(*type_ve, *v1),
            vec_has_type(*type_ve, *v2),
            rv1.elems() == vec_elems(*v1),
            rv2.elems() == vec_elems(*v2),
            rv1.spec_len() == v1.length,
            rv2.spec_len() == v2.length,
            rv1.typed_by(*type_ve),
            rv2.typed_by(*type_ve),
            v1_len == v1.length,
            v1_len == v2.length,
            i <= v1_len,
            forall|k: int| 0 <= k < i ==> value_eq(*type_ve, #[trigger] vec_elems(*v1)[k], vec_elems(*v2)[k]),
        decreases v1_len - i,
    {
        let e1 = rv1.borrow(i);
        let e2 = rv2.borrow(i);
        let is_eq = match (e1, e2) {
            (BorrowedTypedMoveValue::Bool(a), BorrowedTypedMoveValue::Bool(b)) => *a == *b,
            (BorrowedTypedMoveValue::U8(a), BorrowedTypedMoveValue::U8(b)) => *a == *b,
            (BorrowedTypedMoveValue::U16(a), BorrowedTypedMoveValue::U16(b)) => *a == *b,
            (BorrowedTypedMoveValue::U32(a), BorrowedTypedMoveValue::U32(b)) => *a == *b,
            (BorrowedTypedMoveValue::U64(a), BorrowedTypedMoveValue::U64(b)) => *a == *b,
            (BorrowedTypedMoveValue::U128(a), BorrowedTypedMoveValue::U128(b)) => *a == *b,
            (BorrowedTypedMoveValue::U256(a), BorrowedTypedMoveValue::U256(b)) => *a == *b,
            (BorrowedTypedMoveValue::Address(a), BorrowedTypedMoveValue::Address(b)) => {
                crate::rt::address_eq(a, b)
            },
            (BorrowedTypedMoveValue::Signer(a), BorrowedTypedMoveValue::Signer(b)) => {
                crate::rt::address_eq(&a.0, &b.0)
            },
            (BorrowedTypedMoveValue::Vector(t, a), BorrowedTypedMoveValue::Vector(_, b)) => {
                proof {
                    assert(has_type(*type_ve, vec_elems(*v1)[i as int]));
                    assert(has_type(*type_ve, vec_elems(*v2)[i as int]));
                }
                cmp_eq(t, a, b)
            },
            (BorrowedTypedMoveValue::Struct(t, a), BorrowedTypedMoveValue::Struct(_, b)) => {
                proof {
                    assert(has_type(*type_ve, vec_elems(*v1)[i as int]));
                    assert(has_type(*type_ve, vec_elems(*v2)[i as int]));
                }
                crate::rt::struct_cmp_eq(t, a, b)
            },
            _ => {
                assert(false);
                false
            },
        };
        if !is_eq {
            return false;
        }
        i = i + 1;
    }
    true
}

/// A copy of a buffer whose elements can be copied.
fn copy_buffer<T: Copy>(b: &Vec<T>) -> (r: Vec<T>)
    ensures
        r@ == b@,
{
    let mut r: Vec<T> = Vec::new();
    let mut i: usize = 0;
    while i < b.len()
        invariant
            i <= b.len(),
            r@ == b@.subrange(0, i as int),
        decreases b.len() - i,
    {
        r.push(b[i]);
        i = i + 1;
    }
    assert(b@.subrange(0, b.len() as int) =~= b@);
    r
}

/// A deep copy of a value of type `t`.
pub fn clone_value(t: &MoveType, v: &AnyValue) -> (r: AnyValue)
    requires
        type_wf(*t),
        has_type(*t, *v),
    ensures
        has_type(*t, r),
        value_eq(*t, r, *v),
    decreases *t, 1nat,
{
    match v {
        AnyValue::Bool(x) => AnyValue::Bool(*x),
        AnyValue::U8(x) => AnyValue::U8(*x),
        AnyValue::U16(x) => AnyValue::U16(*x),
        AnyValue::U32(x) => AnyValue::U32(*x),
        AnyValue::U64(x) => AnyValue::U64(*x),
        AnyValue::U128(x) => AnyValue::U128(*x),
        AnyValue::U256(x) => AnyValue::U256(*x),
        AnyValue::Address(x) => AnyValue::Address(*x),
        AnyValue::Signer(x) => AnyValue::Signer(*x),
        AnyValue::Vector(x) => {
            proof {
                lemma_vector_element(*t);
            }
            AnyValue::Vector(clone_vector(element_type_of(t), x))
        },
        AnyValue::Struct(x) => {
            proof {
                lemma_struct_element(*t);
            }
            AnyValue::Struct(clone_struct(struct_info_of(t), x))
        },
        AnyValue::Reference(x) => AnyValue::Reference(*x),
    }
}

/// A deep copy of a struct laid out by `si`.
fn clone_struct(si: &StructTypeInfo, s: &MoveStruct) -> (r: MoveStruct)
    requires
        forall|i: int| 0 <= i < si.field_array.len() ==> type_wf(#[trigger] si.field_array@[i].type_),
        struct_has_type(*si, *s),
    ensures
        struct_has_type(*si, r),
        struct_eq(*si, r, *s),
    decreases *si, 0nat,
{
    let n = s.fields.len();
    let mut fields: Vec<AnyValue> = Vec::new();
    let mut i: usize = 0;
    while i < n
        invariant
            forall|k: int| 0 <= k < si.field_array.len() ==> type_wf(#[trigger] si.field_array@[k].type_),
            struct_has_type(*si, *s),
            n == s.fields.len(),
            i <= n,
            fields@.len() == i,
            forall|k: int|
                0 <= k < i ==> has_type(#[trigger] si.field_array@[k].type_, fields@[k])
                    && value_eq(si.field_array@[k].type_, fields@[k], s.fields@[k]),
        decreases n - i,
    {
        let f = clone_value(&si.field_array[i].type_, &s.fields[i]);
        fields.push(f);
        i = i + 1;
    }
    MoveStruct { fields }
}

/// A deep copy of a vector with elements of type `et`, of the same capacity.
pub fn clone_vector(et: &MoveType, v: &MoveUntypedVector) -> (r: MoveUntypedVector)
    requires
        type_wf(*et),
        vec_has_type(*et, *v),
    ensures
        vec_has_type(*et, r),
        vec_eq(*et, r, *v),
        r.capacity == v.capacity,
    decreases *et, 2nat,
{
    let ptr = match &v.ptr {
        ElementBuffer::Bool(b) => ElementBuffer::Bool(copy_buffer(b)),
        ElementBuffer::U8(b) => ElementBuffer::U8(copy_buffer(b)),
        ElementBuffer::U16(b) => ElementBuffer::U16(copy_buffer(b)),
        ElementBuffer::U32(b) => ElementBuffer::U32(copy_buffer(b)),
        ElementBuffer::U64(b) => ElementBuffer::U64(copy_buffer(b)),
        ElementBuffer::U128(b) => ElementBuffer::U128(copy_buffer(b)),
        ElementBuffer::U256(b) => ElementBuffer::U256(copy_buffer(b)),
        ElementBuffer::Address(b) => ElementBuffer::Address(copy_buffer(b)),
        ElementBuffer::Signer(b) => ElementBuffer::Signer(copy_buffer(b)),
        ElementBuffer::Reference(b) => ElementBuffer::Reference(copy_buffer(b)),
        ElementBuffer::Vector(b) => {
            proof {
                lemma_vector_element(*et);
            }
            let inner = element_type_of(et);
            let n = b.len();
            proof {
                assert forall|k: int| 0 <= k < n implies vec_has_type(*inner, #[trigger] b@[k]) by {
                    assert(has_type(*et, vec_elems(*v)[k]));
                    assert(vec_elems(*v)[k] == AnyValue::Vector(b@[k]));
                }
            }
            let mut out: Vec<MoveUntypedVector> = Vec::new();
            let mut i: usize = 0;
            while i < n
                invariant
                    *inner == element_type(*et),
                    et.type_info is Vector,
                    type_wf(*inner),
                    n == b.len(),
                    i <= n,
                    out@.len() == i,
                    forall|k: int| 0 <= k < n ==> vec_has_type(*inner, #[trigger] b@[k]),
                    forall|k: int|
                        0 <= k < i ==> vec_has_type(*inner, #[trigger] out@[k]) && vec_eq(
                            *inner,
                            out@[k],
                            b@[k],
                        ),
                decreases n - i,
            {
                let c = clone_vector(inner, &b[i]);
                out.push(c);
                i = i + 1;
            }
            ElementBuffer::Vector(out)
        },
        ElementBuffer::Struct(b) => {
            proof {
                lemma_struct_element(*et);
            }
            let si = struct_info_of(et);
            let n = b.len();
            proof {
                assert forall|k: int| 0 <= k < n implies struct_has_type(*si, #[trigger] b@[k]) by {
                    assert(has_type(*et, vec_elems(*v)[k]));
                    assert(vec_elems(*v)[k] == AnyValue::Struct(b@[k]));
                }
            }
            let mut out: Vec<MoveStruct> = Vec::new();
            let mut i: usize = 0;
            while i < n
                invariant
                    et.type_info == TypeInfo::Struct(*si),
                    forall|k: int| 0 <= k < si.field_array.len() ==> type_wf(#[trigger] si.field_array@[k].type_),
                    n == b.len(),
                    i <= n,
                    out@.len() == i,
                    forall|k: int| 0 <= k < n ==> struct_has_type(*si, #[trigger] b@[k]),
                    forall|k: int|
                        0 <= k < i ==> struct_has_type(*si, #[trigger] out@[k]) && struct_eq(
                            *si,
                            out@[k],
                            b@[k],
                        ),
                decreases n - i,
            {
                proof {
                    assert(decreases_to!(*et => et.type_info));
                    assert(decreases_to!(et.type_info => et.type_info->Struct_0));
                }
                let c = clone_struct(si, &b[i]);
                out.push(c);
                i = i + 1;
            }
            ElementBuffer::Struct(out)
        },
    };
    let r = MoveUntypedVector { ptr, capacity: v.capacity, length: v.length };
    proof {
        assert forall|k: int| 0 <= k < r.length implies has_type(*et, #[trigger] vec_elems(r)[k])
            && value_eq(*et, vec_elems(r)[k], vec_elems(*v)[k]) by {
            assert(has_type(*et, vec_elems(*v)[k]));
        }
    }
    r
}

/// The capacity of a vector of length `len` and capacity `cap` after `n` more
/// elements are pushed, with elements of `size` bytes.
pub open spec fn capacity_after_pushes(cap: nat, len: nat, n: nat, size: nat) -> nat
    decreases n,
{
    if n == 0 {
        cap
    } else {
        capacity_for_push(
            (len + n - 1) as nat,
            capacity_after_pushes(cap, len, (n - 1) as nat, size),
            size,
        )
    }
}

/// Every buffer that `n` pushes pass through fits one allocation.
pub open spec fn pushes_fit(cap: nat, len: nat, n: nat, size: nat) -> bool {
    forall|k: nat| k <= n ==> #[trigger] capacity_after_pushes(cap, len, k, size) * size <= MAX_ALLOC_BYTES
}

/// Makes `dstv` a copy of `srcv`: `dstv` is drained first, then each element
/// of `srcv` is copied and pushed, in order.
pub fn copy(type_ve: &MoveType, dstv: &mut MoveUntypedVector, srcv: &MoveUntypedVector)
    requires
        type_wf(*type_ve),
        vec_has_type(*type_ve, *old(dstv)),
        vec_has_type(*type_ve, *srcv),
        pushes_fit(old(dstv).capacity as nat, 0, srcv.length as nat, elem_size(*type_ve)),
    ensures
        vec_has_type(*type_ve, *final(dstv)),
        vec_eq(*type_ve, *final(dstv), *srcv),
        final(dstv).length == srcv.length,
        final(dstv).capacity == capacity_after_pushes(
            old(dstv).capacity as nat,
            0,
            srcv.length as nat,
            elem_size(*type_ve),
        ),
{
    let src_len = length(type_ve, srcv);
    let dst_len = length(type_ve, dstv);
    let ghost cap0 = dstv.capacity as nat;
    let mut k: u64 = 0;
    while k < dst_len
        invariant
            type_wf(*type_ve),
            vec_has_type(*type_ve, *dstv),
            dstv.length == dst_len - k,
            dstv.capacity == cap0,
            k <= dst_len,
        decreases dst_len - k,
    {
        pop_back_discard(type_ve, dstv);
        k = k + 1;
    }
    let mut i: u64 = 0;
    while i < src_len
        invariant
            type_wf(*type_ve),
            vec_has_type(*type_ve, *dstv),
            vec_has_type(*type_ve, *srcv),
            src_len == srcv.length,
            pushes_fit(cap0, 0, src_len as nat, elem_size(*type_ve)),
            i <= src_len,
            dstv.length == i,
            dstv.capacity == capacity_after_pushes(cap0, 0, i as nat, elem_size(*type_ve)),
            forall|m: int|
                0 <= m < i ==> value_eq(*type_ve, #[trigger] vec_elems(*dstv)[m], vec_elems(*srcv)[m]),
        decreases src_len - i,
    {
        let ghost before = *dstv;
        let se = borrow(type_ve, srcv, i);
        let e = clone_borrowed(type_ve, se);
        proof {
            assert(capacity_after_pushes(cap0, 0, (i + 1) as nat, elem_size(*type_ve))
                == capacity_after_push(*dstv, elem_size(*type_ve)));
            assert(capacity_after_pushes(cap0, 0, (i + 1) as nat, elem_size(*type_ve))
                * elem_size(*type_ve) <= MAX_ALLOC_BYTES);
        }
        push_back(type_ve, dstv, e);
        proof {
            assert forall|m: int| 0 <= m < i + 1 implies value_eq(
                *type_ve,
                #[trigger] vec_elems(*dstv)[m],
                vec_elems(*srcv)[m],
            ) by {
                if m < i {
                    assert(vec_elems(*dstv)[m] == vec_elems(before)[m]);
                }
            }
        }
        i = i + 1;
    }
}

/// A deep copy of the value that a view shows.
fn clone_borrowed(t: &MoveType, v: BorrowedTypedMoveValue) -> (r: AnyValue)
    requires
        type_wf(*t),
        has_type(*t, v.value()),
        v.typed_by(*t),
    ensures
        has_type(*t, r),
        value_eq(*t, r, v.value()),
{
    match v {
        BorrowedTypedMoveValue::Bool(x) => AnyValue::Bool(*x),
        BorrowedTypedMoveValue::U8(x) => AnyValue::U8(*x),
        BorrowedTypedMoveValue::U16(x) => AnyValue::U16(*x),
        BorrowedTypedMoveValue::U32(x) => AnyValue::U32(*x),
        BorrowedTypedMoveValue::U64(x) => AnyValue::U64(*x),
        BorrowedTypedMoveValue::U128(x) => AnyValue::U128(*x),
        BorrowedTypedMoveValue::U256(x) => AnyValue::U256(*x),
        BorrowedTypedMoveValue::Address(x) => AnyValue::Address(*x),
        BorrowedTypedMoveValue::Signer(x) => AnyValue::Signer(*x),
        BorrowedTypedMoveValue::Vector(et, x) => {
            proof {
                lemma_vector_element(*t);
            }
            AnyValue::Vector(clone_vector(et, x))
        },
        BorrowedTypedMoveValue::Struct(_, x) => {
            proof {
                lemma_struct_element(*t);
            }
            AnyValue::Struct(clone_struct(struct_info_of(t), x))
        },
        BorrowedTypedMoveValue::Reference(_, x) => AnyValue::Reference(*x),
    }
}

/// One call on a vector's elements: `Some(e)` is a `push_back` of `e`, `None`
/// a `pop_back`.
pub open spec fn apply_op(elems: Seq<AnyValue>, op: Option<AnyValue>) -> Seq<AnyValue> {
    match op {
        Some(e) => elems.push(e),
        None => elems.drop_last(),
    }
}

/// The elements after the calls `ops`, in order, starting from `elems`.
pub open spec fn replay(elems: Seq<AnyValue>, ops: Seq<Option<AnyValue>>) -> Seq<AnyValue>
    decreases ops.len(),
{
    if ops.len() == 0 {
        elems
    } else {
        apply_op(replay(elems, ops.drop_last()), ops.last())
    }
}

/// Every pop in `ops`, replayed from a new vector, finds an element.
pub open spec fn pops_succeed(ops: Seq<Option<AnyValue>>) -> bool
    decreases ops.len(),
{
    ops.len() == 0 || {
        &&& pops_succeed(ops.drop_last())
        &&& ops.last() is None ==> replay(Seq::empty(), ops.drop_last()).len() > 0
    }
}

pub open spec fn count_pushes(ops: Seq<Option<AnyValue>>) -> nat
    decreases ops.len(),
{
    if ops.len() == 0 {
        0
    } else {
        count_pushes(ops.drop_last()) + if ops.last() is Some {
            1nat
        } else {
            0nat
        }
    }
}

pub open spec fn count_pops(ops: Seq<Option<AnyValue>>) -> nat
    decreases ops.len(),
{
    if ops.len() == 0 {
        0
    } else {
        count_pops(ops.drop_last()) + if ops.last() is None {
            1nat
        } else {
            0nat
        }
    }
}

/// From `empty`, the length after a run of successful `push_back` and
/// `pop_back` calls is the number of pushes minus the number of pops.
pub proof fn lemma_length_counts(ops: Seq<Option<AnyValue>>)
    requires
        pops_succeed(ops),
    ensures
        replay(Seq::empty(), ops).len() + count_pops(ops) == count_pushes(ops),
    decreases ops.len(),
{
    if ops.len() > 0 {
        lemma_length_counts(ops.drop_last());
    }
}

/// `c` doubled `k` times.
pub open spec fn doubled(c: nat, k: nat) -> nat
    decreases k,
{
    if k == 0 {
        c
    } else {
        2 * doubled(c, (k - 1) as nat)
    }
}

/// From capacity 0, the capacity after `n` pushes holds the `n` elements, and
/// is 0 or the first non-zero capacity doubled some number of times.
pub proof fn lemma_growth_reachable(size: nat, n: nat)
    ensures
        capacity_after_pushes(0, 0, n, size) >= n,
        n == 0 ==> capacity_after_pushes(0, 0, n, size) == 0,
        n > 0 ==> exists|k: nat|
            capacity_after_pushes(0, 0, n, size) == #[trigger] doubled(min_non_zero_cap(size), k),
    decreases n,
{
    if n > 0 {
        let m = (n - 1) as nat;
        lemma_growth_reachable(size, m);
        let c = capacity_after_pushes(0, 0, m, size);
        let min = min_non_zero_cap(size);
        if m == 0 {
            assert(capacity_after_pushes(0, 0, n, size) == doubled(min, 0));
        } else {
            let k = choose|k: nat| c == #[trigger] doubled(min, k);
            lemma_doubled_at_least(min, k);
            if m < c {
                assert(capacity_after_pushes(0, 0, n, size) == doubled(min, k));
            } else {
                assert(capacity_after_pushes(0, 0, n, size) == doubled(min, k + 1));
            }
        }
    }
}

proof fn lemma_doubled_at_least(c: nat, k: nat)
    ensures
        doubled(c, k) >= c,
    decreases k,
{
    if k > 0 {
        lemma_doubled_at_least(c, (k - 1) as nat);
    }
}

} // verus!
