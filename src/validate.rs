//! Exact tests of the library's preconditions, for callers that cannot
//! reason about them.
use crate::conv::{element_type_of, struct_info_of};
use crate::rt_types::{
    buffer_len, buffer_matches, has_type, lemma_struct_element, lemma_vector_element,
    struct_has_type, type_wf, vec_elems, vec_has_type, MAX_WIRE_LENGTH, AnyValue, ElementBuffer, MoveStruct,
    MoveType, MoveUntypedVector, StructTypeInfo, TypeDesc, TypeInfo, MAX_ALLOC_BYTES,
};
use crate::serialization::{encodable, vec_encodable};
use crate::vector::{capacity_after_pushes, element_size, pushes_fit};
use vstd::prelude::*;

verus! {

/// The number of elements in a buffer.
pub fn buffer_length(b: &ElementBuffer) -> (r: usize)
    ensures
        r == buffer_len(*b),
{
    match b {
        ElementBuffer::Bool(v) => v.len(),
        ElementBuffer::U8(v) => v.len(),
        ElementBuffer::U16(v) => v.len(),
        ElementBuffer::U32(v) => v.len(),
        ElementBuffer::U64(v) => v.len(),
        ElementBuffer::U128(v) => v.len(),
        ElementBuffer::U256(v) => v.len(),
        ElementBuffer::Address(v) => v.len(),
        ElementBuffer::Signer(v) => v.len(),
        ElementBuffer::Vector(v) => v.len(),
        ElementBuffer::Struct(v) => v.len(),
        ElementBuffer::Reference(v) => v.len(),
    }
}

/// Whether the buffer's kind is the one that `d` names.
pub fn buffer_kind_is(d: TypeDesc, b: &ElementBuffer) -> (r: bool)
    ensures
        r == buffer_matches(d, *b),
{
    match d {
        TypeDesc::Bool => matches!(b, ElementBuffer::Bool(_)),
        TypeDesc::U8 => matches!(b, ElementBuffer::U8(_)),
        TypeDesc::U16 => matches!(b, ElementBuffer::U16(_)),
        TypeDesc::U32 => matches!(b, ElementBuffer::U32(_)),
        TypeDesc::U64 => matches!(b, ElementBuffer::U64(_)),
        TypeDesc::U128 => matches!(b, ElementBuffer::U128(_)),
        TypeDesc::U256 => matches!(b, ElementBuffer::U256(_)),
        TypeDesc::Address => matches!(b, ElementBuffer::Address(_)),
        TypeDesc::Signer => matches!(b, ElementBuffer::Signer(_)),
        TypeDesc::Vector => matches!(b, ElementBuffer::Vector(_)),
        TypeDesc::Struct => matches!(b, ElementBuffer::Struct(_)),
        TypeDesc::Reference => matches!(b, ElementBuffer::Reference(_)),
    }
}

/// Whether `v` is a value of type `t`.
pub fn value_has_type(t: &MoveType, v: &AnyValue) -> (r: bool)
    requires
        type_wf(*t),
    ensures
        r == has_type(*t, *v),
    decreases *t, 1nat,
{
    match t.type_desc {
        TypeDesc::Bool => matches!(v, AnyValue::Bool(_)),
        TypeDesc::U8 => matches!(v, AnyValue::U8(_)),
        TypeDesc::U16 => matches!(v, AnyValue::U16(_)),
        TypeDesc::U32 => matches!(v, AnyValue::U32(_)),
        TypeDesc::U64 => matches!(v, AnyValue::U64(_)),
        TypeDesc::U128 => matches!(v, AnyValue::U128(_)),
        TypeDesc::U256 => matches!(v, AnyValue::U256(_)),
        TypeDesc::Address => matches!(v, AnyValue::Address(_)),
        TypeDesc::Signer => matches!(v, AnyValue::Signer(_)),
        TypeDesc::Reference => matches!(v, AnyValue::Reference(_)),
        TypeDesc::Vector => match v {
            AnyValue::Vector(mv) => {
                proof {
                    lemma_vector_element(*t);
                }
                vector_has_type(element_type_of(t), mv)
            },
            _ => false,
        },
        TypeDesc::Struct => match v {
            AnyValue::Struct(s) => {
                proof {
                    lemma_struct_element(*t);
                }
                struct_matches(struct_info_of(t), s)
            },
            _ => false,
        },
    }
}

/// Whether `s` holds one value of each field's type, in declared order.
pub fn struct_matches(si: &StructTypeInfo, s: &MoveStruct) -> (r: bool)
    requires
        forall|i: int| 0 <= i < si.field_array.len() ==> type_wf(#[trigger] si.field_array@[i].type_),
    ensures
        r == struct_has_type(*si, *s),
    decreases *si, 0nat,
{
    let n = si.field_array.len();
    if s.fields.len() != n {
        return false;
    }
    let mut i: usize = 0;
    while i < n
        invariant
            forall|k: int| 0 <= k < si.field_array.len() ==> type_wf(#[trigger] si.field_array@[k].type_),
            n == si.field_array.len(),
            n == s.fields.len(),
            i <= n,
            forall|k: int| 0 <= k < i ==> has_type(#[trigger] si.field_array@[k].type_, s.fields@[k]),
        decreases n - i,
    {
        if !value_has_type(&si.field_array[i].type_, &s.fields[i]) {
            return false;
        }
        i = i + 1;
    }
    true
}

/// Whether `mv` is a well-formed vector with elements of type `et`.
pub fn vector_has_type(et: &MoveType, mv: &MoveUntypedVector) -> (r: bool)
    requires
        type_wf(*et),
    ensures
        r == vec_has_type(*et, *mv),
    decreases *et, 2nat,
{
    if !buffer_kind_is(et.type_desc, &mv.ptr) {
        return false;
    }
    let n = buffer_length(&mv.ptr);
    if mv.length != n as u64 || mv.length > mv.capacity {
        return false;
    }
    let size = element_size(et);
    match mv.capacity.checked_mul(size) {
        Some(bytes) => {
            if bytes > MAX_ALLOC_BYTES {
                return false;
            }
        },
        None => {
            return false;
        },
    }
    match &mv.ptr {
        ElementBuffer::Vector(b) => {
            proof {
                lemma_vector_element(*et);
            }
            let inner = element_type_of(et);
            let mut i: usize = 0;
            while i < n
                invariant
                    type_wf(*et),
                    et.type_desc == TypeDesc::Vector,
                    et.type_info is Vector,
                    *inner == crate::rt_types::element_type(*et),
                    type_wf(*inner),
                    mv.ptr == ElementBuffer::Vector(*b),
                    n == b.len(),
                    i <= n,
                    forall|k: int| 0 <= k < i ==> vec_has_type(*inner, #[trigger] b@[k]),
                decreases n - i,
            {
                if !vector_has_type(inner, &b[i]) {
                    proof {
                        assert(vec_elems(*mv)[i as int] == AnyValue::Vector(b@[i as int]));
                    }
                    return false;
                }
                i = i + 1;
            }
            proof {
                assert forall|k: int| 0 <= k < mv.length implies has_type(
                    *et,
                    #[trigger] vec_elems(*mv)[k],
                ) by {
                    assert(vec_elems(*mv)[k] == AnyValue::Vector(b@[k]));
                }
            }
            true
        },
        ElementBuffer::Struct(b) => {
            proof {
                lemma_struct_element(*et);
            }
            let si = struct_info_of(et);
            let mut i: usize = 0;
            while i < n
                invariant
                    type_wf(*et),
                    et.type_desc == TypeDesc::Struct,
                    et.type_info == TypeInfo::Struct(*si),
                    forall|k: int| 0 <= k < si.field_array.len() ==> type_wf(#[trigger] si.field_array@[k].type_),
                    mv.ptr == ElementBuffer::Struct(*b),
                    n == b.len(),
                    i <= n,
                    forall|k: int| 0 <= k < i ==> struct_has_type(*si, #[trigger] b@[k]),
                decreases n - i,
            {
                proof {
                    assert(decreases_to!(*et => et.type_info));
                    assert(decreases_to!(et.type_info => et.type_info->Struct_0));
                }
                if !struct_matches(si, &b[i]) {
                    proof {
                        assert(vec_elems(*mv)[i as int] == AnyValue::Struct(b@[i as int]));
                    }
                    return false;
                }
                i = i + 1;
            }
            proof {
                assert forall|k: int| 0 <= k < mv.length implies has_type(
                    *et,
                    #[trigger] vec_elems(*mv)[k],
                ) by {
                    assert(vec_elems(*mv)[k] == AnyValue::Struct(b@[k]));
                }
            }
            true
        },
        _ => {
            proof {
                assert forall|k: int| 0 <= k < mv.length implies has_type(
                    *et,
                    #[trigger] vec_elems(*mv)[k],
                ) by {}
            }
            true
        },
    }
}

/// Whether `n` elements of `size` bytes can be pushed, one at a time, onto an
/// empty vector of capacity `cap`, each buffer on the way fitting one
/// allocation.
pub fn pushes_fit_from(cap: u64, n: u64, size: u64) -> (r: bool)
    requires
        size > 0,
    ensures
        r == pushes_fit(cap as nat, 0, n as nat, size as nat),
{
    let mut c = cap;
    match c.checked_mul(size) {
        Some(bytes) => {
            if bytes > MAX_ALLOC_BYTES {
                assert(capacity_after_pushes(cap as nat, 0, 0, size as nat) == cap);
                return false;
            }
        },
        None => {
            assert(capacity_after_pushes(cap as nat, 0, 0, size as nat) == cap);
            return false;
        },
    }
    let mut k: u64 = 0;
    while k < n
        invariant
            size > 0,
            k <= n,
            c == capacity_after_pushes(cap as nat, 0, k as nat, size as nat),
            pushes_fit(cap as nat, 0, k as nat, size as nat),
        decreases n - k,
    {
        if k >= c {
            c = crate::vector::amortized_capacity(c, size);
        }
        assert(c == capacity_after_pushes(cap as nat, 0, (k + 1) as nat, size as nat));
        match c.checked_mul(size) {
            Some(bytes) => {
                if bytes > MAX_ALLOC_BYTES {
                    return false;
                }
            },
            None => {
                return false;
            },
        }
        k = k + 1;
        proof {
            assert forall|j: nat| j <= k implies #[trigger] capacity_after_pushes(
                cap as nat,
                0,
                j,
                size as nat,
            ) * size <= MAX_ALLOC_BYTES by {
                if j < k {
                    assert(j <= (k - 1) as nat);
                }
            }
        }
    }
    true
}

/// Whether every vector within `v`, a value of type `t`, has a length that the
/// encoding's four-byte count can hold, and no reference occurs in it.
pub fn value_is_encodable(t: &MoveType, v: &AnyValue) -> (r: bool)
    requires
        type_wf(*t),
        has_type(*t, *v),
    ensures
        r == encodable(*t, *v),
    decreases *t, 1nat,
{
    match t.type_desc {
        TypeDesc::Reference => false,
        TypeDesc::Vector => match v {
            AnyValue::Vector(mv) => {
                proof {
                    lemma_vector_element(*t);
                }
                vector_is_encodable(element_type_of(t), mv)
            },
            _ => false,
        },
        TypeDesc::Struct => match v {
            AnyValue::Struct(s) => {
                proof {
                    lemma_struct_element(*t);
                }
                struct_is_encodable(struct_info_of(t), s)
            },
            _ => false,
        },
        _ => true,
    }
}

/// Whether every field of `s`, a struct laid out by `si`, can be encoded.
pub fn struct_is_encodable(si: &StructTypeInfo, s: &MoveStruct) -> (r: bool)
    requires
        forall|k: int| 0 <= k < si.field_array.len() ==> type_wf(#[trigger] si.field_array@[k].type_),
        struct_has_type(*si, *s),
    ensures
        r == forall|k: int|
            0 <= k < si.field_array.len() ==> encodable(#[trigger] si.field_array@[k].type_, s.fields@[k]),
    decreases *si, 0nat,
{
    let n = si.field_array.len();
    let mut i: usize = 0;
    while i < n
        invariant
            forall|k: int| 0 <= k < si.field_array.len() ==> type_wf(#[trigger] si.field_array@[k].type_),
            struct_has_type(*si, *s),
            n == si.field_array.len(),
            i <= n,
            forall|k: int| 0 <= k < i ==> encodable(#[trigger] si.field_array@[k].type_, s.fields@[k]),
        decreases n - i,
    {
        proof {
            assert(has_type(si.field_array@[i as int].type_, s.fields@[i as int]));
        }
        if !value_is_encodable(&si.field_array[i].type_, &s.fields[i]) {
            return false;
        }
        i = i + 1;
    }
    true
}

/// Whether `mv`, a vector with elements of type `et`, and every vector within
/// it have lengths that the four-byte count can hold, with no reference in it.
pub fn vector_is_encodable(et: &MoveType, mv: &MoveUntypedVector) -> (r: bool)
    requires
        type_wf(*et),
        vec_has_type(*et, *mv),
    ensures
        r == vec_encodable(*et, *mv),
    decreases *et, 2nat,
{
    if mv.length > MAX_WIRE_LENGTH {
        return false;
    }
    let n = mv.length;
    match &mv.ptr {
        ElementBuffer::Vector(b) => {
            proof {
                lemma_vector_element(*et);
            }
            let inner = element_type_of(et);
            let mut i: usize = 0;
            while (i as u64) < n
                invariant
                    et.type_desc == TypeDesc::Vector,
                    et.type_info is Vector,
                    *inner == crate::rt_types::element_type(*et),
                    type_wf(*inner),
                    vec_has_type(*et, *mv),
                    mv.ptr == ElementBuffer::Vector(*b),
                    n == mv.length,
                    n == b.len(),
                    i <= n,
                    forall|k: int| 0 <= k < i ==> encodable(*et, #[trigger] vec_elems(*mv)[k]),
                decreases n - i,
            {
                proof {
                    assert(vec_elems(*mv)[i as int] == AnyValue::Vector(b@[i as int]));
                    assert(has_type(*et, vec_elems(*mv)[i as int]));
                }
                if !vector_is_encodable(inner, &b[i]) {
                    return false;
                }
                i = i + 1;
            }
            true
        },
        ElementBuffer::Struct(b) => {
            proof {
                lemma_struct_element(*et);
            }
            let si = struct_info_of(et);
            let mut i: usize = 0;
            while (i as u64) < n
                invariant
                    et.type_desc == TypeDesc::Struct,
                    et.type_info == TypeInfo::Struct(*si),
                    forall|k: int| 0 <= k < si.field_array.len() ==> type_wf(#[trigger] si.field_array@[k].type_),
                    vec_has_type(*et, *mv),
                    mv.ptr == ElementBuffer::Struct(*b),
                    n == mv.length,
                    n == b.len(),
                    i <= n,
                    forall|k: int| 0 <= k < i ==> encodable(*et, #[trigger] vec_elems(*mv)[k]),
                decreases n - i,
            {
                proof {
                    assert(vec_elems(*mv)[i as int] == AnyValue::Struct(b@[i as int]));
                    assert(has_type(*et, vec_elems(*mv)[i as int]));
                    assert(decreases_to!(*et => et.type_info));
                    assert(decreases_to!(et.type_info => et.type_info->Struct_0));
                }
                if !struct_is_encodable(si, &b[i]) {
                    return false;
                }
                i = i + 1;
            }
            true
        },
        _ => {
            let ok = et.type_desc != TypeDesc::Reference || n == 0;
            proof {
                if et.type_desc == TypeDesc::Reference && n > 0 {
                    assert(!encodable(*et, vec_elems(*mv)[0]));
                }
            }
            ok
        },
    }
}

} // verus!
