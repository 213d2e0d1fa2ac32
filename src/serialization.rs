//! The canonical byte encoding of Move values: fixed-width little-endian
//! primitives, vectors as a 32-bit element count followed by their elements,
//! structs as their fields in declared order with no framing.
use crate::conv::{
    borrow_move_byte_vec_as_rust_vec, borrow_move_value_as_rust_value, element_type_of,
    rust_vec_to_move_byte_vec, struct_info_of, BorrowedTypedMoveValue,
};
use crate::rt_types::{
    elem_size, element_type, has_type, lemma_struct_element, lemma_vector_element, ref_free,
    struct_has_type, type_wf, value_eq, vec_elems, vec_has_type, AnyValue, MoveAddress,
    MoveByteVector, MoveStruct, MoveType, MoveUntypedVector, StructTypeInfo, TypeDesc, TypeInfo,
    MAX_ALLOC_BYTES, MAX_WIRE_LENGTH, U256,
};
use crate::vector::{
    capacity_after_push, element_size, length, reserve_exact, TypedMoveBorrowedRustVec,
};
use vstd::arithmetic::power::pow;
use vstd::prelude::*;

verus! {

/// The `w` low bytes of `n`, least significant first.
pub open spec fn le_bytes(n: nat, w: nat) -> Seq<u8>
    decreases w,
{
    if w == 0 {
        Seq::empty()
    } else {
        seq![(n % 256) as u8].add(le_bytes(n / 256, (w - 1) as nat))
    }
}

/// The number that `s` holds, least significant byte first.
pub open spec fn le_value(s: Seq<u8>) -> nat
    decreases s.len(),
{
    if s.len() == 0 {
        0
    } else {
        s[0] as nat + 256 * le_value(s.drop_first())
    }
}

/// Relies on borsh's `bool` impl: one byte, 1 for true and 0 for false.
#[verifier::external_body]
fn write_bool(buf: &mut Vec<u8>, v: bool)
    ensures
        final(buf)@ == old(buf)@ + seq![if v { 1u8 } else { 0u8 }],
{
    borsh::to_writer(buf, &v).expect("serialization failure")
}

/// Relies on borsh's `u8` impl: the byte itself.
#[verifier::external_body]
fn write_u8(buf: &mut Vec<u8>, v: u8)
    ensures
        final(buf)@ == old(buf)@ + seq![v],
{
    borsh::to_writer(buf, &v).expect("serialization failure")
}

/// Relies on borsh's `u16` impl: `to_le_bytes`.
#[verifier::external_body]
fn write_u16(buf: &mut Vec<u8>, v: u16)
    ensures
        final(buf)@ == old(buf)@ + le_bytes(v as nat, 2),
{
    borsh::to_writer(buf, &v).expect("serialization failure")
}

/// Relies on borsh's `u32` impl: `to_le_bytes`.
#[verifier::external_body]
fn write_u32(buf: &mut Vec<u8>, v: u32)
    ensures
        final(buf)@ == old(buf)@ + le_bytes(v as nat, 4),
{
    borsh::to_writer(buf, &v).expect("serialization failure")
}

/// Relies on borsh's `u64` impl: `to_le_bytes`.
#[verifier::external_body]
fn write_u64(buf: &mut Vec<u8>, v: u64)
    ensures
        final(buf)@ == old(buf)@ + le_bytes(v as nat, 8),
{
    borsh::to_writer(buf, &v).expect("serialization failure")
}

/// Relies on borsh's `u128` impl: `to_le_bytes`.
#[verifier::external_body]
fn write_u128(buf: &mut Vec<u8>, v: u128)
    ensures
        final(buf)@ == old(buf)@ + le_bytes(v as nat, 16),
{
    borsh::to_writer(buf, &v).expect("serialization failure")
}

/// Relies on borsh's `[u8; N]` impl: the bytes as they stand.
#[verifier::external_body]
fn write_address(buf: &mut Vec<u8>, v: &MoveAddress)
    ensures
        final(buf)@ == old(buf)@ + v.0@,
{
    borsh::to_writer(buf, &v.0).expect("serialization failure")
}

/// Relies on borsh's `bool` impl: one byte, which must be 0 or 1.
#[verifier::external_body]
fn read_bool(bytes: &Vec<u8>, pos: usize) -> (r: Option<bool>)
    requires
        pos <= bytes@.len(),
    ensures
        r.is_some() <==> (bytes@.len() > pos && bytes@[pos as int] <= 1),
        r.is_some() ==> r.unwrap() == (bytes@[pos as int] == 1),
{
    let mut rest: &[u8] = &bytes[pos..];
    <bool as borsh::BorshDeserialize>::deserialize(&mut rest).ok()
}

/// Relies on borsh's `u8` impl: one byte.
#[verifier::external_body]
fn read_u8(bytes: &Vec<u8>, pos: usize) -> (r: Option<u8>)
    requires
        pos <= bytes@.len(),
    ensures
        r.is_some() <==> bytes@.len() > pos,
        r.is_some() ==> r.unwrap() == bytes@[pos as int],
{
    let mut rest: &[u8] = &bytes[pos..];
    <u8 as borsh::BorshDeserialize>::deserialize(&mut rest).ok()
}

/// Relies on borsh's `u16` impl: `from_le_bytes` of two bytes.
#[verifier::external_body]
fn read_u16(bytes: &Vec<u8>, pos: usize) -> (r: Option<u16>)
    requires
        pos <= bytes@.len(),
    ensures
        r.is_some() <==> pos + 2 <= bytes@.len(),
        r.is_some() ==> r.unwrap() as nat == le_value(bytes@.subrange(pos as int, pos + 2)),
{
    let mut rest: &[u8] = &bytes[pos..];
    <u16 as borsh::BorshDeserialize>::deserialize(&mut rest).ok()
}

/// Relies on borsh's `u32` impl: `from_le_bytes` of four bytes.
#[verifier::external_body]
fn read_u32(bytes: &Vec<u8>, pos: usize) -> (r: Option<u32>)
    requires
        pos <= bytes@.len(),
    ensures
        r.is_some() <==> pos + 4 <= bytes@.len(),
        r.is_some() ==> r.unwrap() as nat == le_value(bytes@.subrange(pos as int, pos + 4)),
{
    let mut rest: &[u8] = &bytes[pos..];
    <u32 as borsh::BorshDeserialize>::deserialize(&mut rest).ok()
}

/// Relies on borsh's `u64` impl: `from_le_bytes` of eight bytes.
#[verifier::external_body]
fn read_u64(bytes: &Vec<u8>, pos: usize) -> (r: Option<u64>)
    requires
        pos <= bytes@.len(),
    ensures
        r.is_some() <==> pos + 8 <= bytes@.len(),
        r.is_some() ==> r.unwrap() as nat == le_value(bytes@.subrange(pos as int, pos + 8)),
{
    let mut rest: &[u8] = &bytes[pos..];
    <u64 as borsh::BorshDeserialize>::deserialize(&mut rest).ok()
}

/// Relies on borsh's `u128` impl: `from_le_bytes` of sixteen bytes.
#[verifier::external_body]
fn read_u128(bytes: &Vec<u8>, pos: usize) -> (r: Option<u128>)
    requires
        pos <= bytes@.len(),
    ensures
        r.is_some() <==> pos + 16 <= bytes@.len(),
        r.is_some() ==> r.unwrap() as nat == le_value(bytes@.subrange(pos as int, pos + 16)),
{
    let mut rest: &[u8] = &bytes[pos..];
    <u128 as borsh::BorshDeserialize>::deserialize(&mut rest).ok()
}

/// Relies on borsh's `[u8; N]` impl: thirty-two bytes as they stand.
#[verifier::external_body]
fn read_address(bytes: &Vec<u8>, pos: usize) -> (r: Option<MoveAddress>)
    requires
        pos <= bytes@.len(),
    ensures
        r.is_some() <==> pos + 32 <= bytes@.len(),
        r.is_some() ==> r.unwrap().0@ == bytes@.subrange(pos as int, pos + 32),
{
    let mut rest: &[u8] = &bytes[pos..];
    <[u8; 32] as borsh::BorshDeserialize>::deserialize(&mut rest).ok().map(MoveAddress)
}

/// The encoding of `v`, a value of type `t`.
pub open spec fn ser(t: MoveType, v: AnyValue) -> Seq<u8>
    decreases t, 0nat, 0nat,
{
    match v {
        AnyValue::Bool(b) => seq![if b { 1u8 } else { 0u8 }],
        AnyValue::U8(x) => seq![x],
        AnyValue::U16(x) => le_bytes(x as nat, 2),
        AnyValue::U32(x) => le_bytes(x as nat, 4),
        AnyValue::U64(x) => le_bytes(x as nat, 8),
        AnyValue::U128(x) => le_bytes(x as nat, 16),
        AnyValue::U256(x) => le_bytes(x.lo as nat, 16) + le_bytes(x.hi as nat, 16),
        AnyValue::Address(a) => a.0@,
        AnyValue::Signer(s) => s.0.0@,
        AnyValue::Vector(mv) => match t.type_info {
            TypeInfo::Vector(vi) => ser_vec(*vi.element_type, mv),
            _ => Seq::empty(),
        },
        AnyValue::Struct(s) => match t.type_info {
            TypeInfo::Struct(si) => ser_fields(si, s.fields@, si.field_array.len() as nat),
            _ => Seq::empty(),
        },
        AnyValue::Reference(_) => Seq::empty(),
    }
}

/// The encoding of a vector with elements of type `et`: its length in four
/// bytes, then its elements.
pub open spec fn ser_vec(et: MoveType, mv: MoveUntypedVector) -> Seq<u8>
    decreases et, 2nat, 0nat,
{
    le_bytes(mv.length as nat, 4) + ser_elems(et, vec_elems(mv), mv.length as nat)
}

/// The encodings of the first `n` of `xs`, one after another.
pub open spec fn ser_elems(et: MoveType, xs: Seq<AnyValue>, n: nat) -> Seq<u8>
    decreases et, 1nat, n,
{
    if n == 0 {
        Seq::empty()
    } else {
        ser_elems(et, xs, (n - 1) as nat) + ser(et, xs[n - 1])
    }
}

/// The encodings of the first `n` fields of a struct laid out by `si`.
pub open spec fn ser_fields(si: StructTypeInfo, fs: Seq<AnyValue>, n: nat) -> Seq<u8>
    decreases si, 1nat, n,
{
    if n == 0 || n > si.field_array.len() {
        Seq::empty()
    } else {
        ser_fields(si, fs, (n - 1) as nat) + ser(si.field_array@[n - 1].type_, fs[n - 1])
    }
}

/// Every vector within `v` has a length that the four-byte prefix can hold.
pub open spec fn encodable(t: MoveType, v: AnyValue) -> bool
    decreases t, 0nat,
{
    match t.type_desc {
        TypeDesc::Vector => match (t.type_info, v) {
            (TypeInfo::Vector(vi), AnyValue::Vector(mv)) => vec_encodable(*vi.element_type, mv),
            _ => false,
        },
        TypeDesc::Struct => match (t.type_info, v) {
            (TypeInfo::Struct(si), AnyValue::Struct(s)) => forall|i: int|
                0 <= i < si.field_array.len() ==> encodable(
                    #[trigger] si.field_array@[i].type_,
                    s.fields@[i],
                ),
            _ => false,
        },
        TypeDesc::Reference => false,
        _ => true,
    }
}

/// A vector whose length, and that of every vector within it, the four-byte
/// prefix can hold.
pub open spec fn vec_encodable(et: MoveType, mv: MoveUntypedVector) -> bool
    decreases et, 1nat,
{
    &&& mv.length <= MAX_WIRE_LENGTH
    &&& forall|i: int| 0 <= i < mv.length ==> encodable(et, #[trigger] vec_elems(mv)[i])
}

/// Writes the value that `v` shows, of type `t`, onto `buf`.
fn serialize_borrowed(t: &MoveType, v: BorrowedTypedMoveValue, buf: &mut Vec<u8>)
    requires
        type_wf(*t),
        has_type(*t, v.value()),
        encodable(*t, v.value()),
        v.typed_by(*t),
    ensures
        final(buf)@ == old(buf)@ + ser(*t, v.value()),
    decreases *t, 1nat,
{
    match v {
        BorrowedTypedMoveValue::Bool(x) => write_bool(buf, *x),
        BorrowedTypedMoveValue::U8(x) => write_u8(buf, *x),
        BorrowedTypedMoveValue::U16(x) => write_u16(buf, *x),
        BorrowedTypedMoveValue::U32(x) => write_u32(buf, *x),
        BorrowedTypedMoveValue::U64(x) => write_u64(buf, *x),
        BorrowedTypedMoveValue::U128(x) => write_u128(buf, *x),
        BorrowedTypedMoveValue::U256(x) => {
            write_u128(buf, x.lo);
            write_u128(buf, x.hi);
            assert(buf@ =~= old(buf)@ + ser(*t, v.value()));
        },
        BorrowedTypedMoveValue::Address(x) => write_address(buf, x),
        BorrowedTypedMoveValue::Signer(x) => write_address(buf, &x.0),
        BorrowedTypedMoveValue::Vector(et, x) => {
            proof {
                lemma_vector_element(*t);
            }
            serialize_vector(et, x, buf);
        },
        BorrowedTypedMoveValue::Struct(st, x) => {
            proof {
                lemma_struct_element(*t);
            }
            serialize_struct(st, x, buf);
        },
        BorrowedTypedMoveValue::Reference(_, _) => {
            assert(false);
        },
    }
}

/// Writes `v`, a value of type `type_v`, onto `buf`.
fn serialize_to_buf(type_v: &MoveType, v: &AnyValue, buf: &mut Vec<u8>)
    requires
        type_wf(*type_v),
        has_type(*type_v, *v),
        encodable(*type_v, *v),
    ensures
        final(buf)@ == old(buf)@ + ser(*type_v, *v),
    decreases *type_v, 2nat,
{
    let rv = borrow_move_value_as_rust_value(type_v, v);
    serialize_borrowed(type_v, rv, buf);
}

/// Writes a vector with elements of type `type_elt`: its length, then each
/// element.
fn serialize_vector(type_elt: &MoveType, v: &MoveUntypedVector, buf: &mut Vec<u8>)
    requires
        type_wf(*type_elt),
        vec_has_type(*type_elt, *v),
        vec_encodable(*type_elt, *v),
    ensures
        final(buf)@ == old(buf)@ + ser_vec(*type_elt, *v),
    decreases *type_elt, 3nat,
{
    let len = length(type_elt, v);
    write_u32(buf, len as u32);
    let ghost start = buf@;
    let rv = TypedMoveBorrowedRustVec::new(type_elt, v);
    let mut i: u64 = 0;
    while i < len
        invariant
            type_wf(*type_elt),
            vec_has_type(*type_elt, *v),
            vec_encodable(*type_elt, *v),
            rv.elems() == vec_elems(*v),
            rv.spec_len() == v.length,
            rv.typed_by(*type_elt),
            len == v.length,
            i <= len,
            buf@ == start + ser_elems(*type_elt, vec_elems(*v), i as nat),
        decreases len - i,
    {
        let e = rv.borrow(i);
        proof {
            assert(has_type(*type_elt, vec_elems(*v)[i as int]));
            assert(encodable(*type_elt, vec_elems(*v)[i as int]));
            borrowed_typed_by(*type_elt, rv, i as int, e);
        }
        serialize_borrowed(type_elt, e, buf);
        proof {
            assert(buf@ =~= start + ser_elems(*type_elt, vec_elems(*v), (i + 1) as nat));
        }
        i = i + 1;
    }
    assert(buf@ =~= old(buf)@ + ser_vec(*type_elt, *v));
}

/// An element borrowed from a vector view is seen through the element type.
proof fn borrowed_typed_by(t: MoveType, rv: TypedMoveBorrowedRustVec, i: int, e: BorrowedTypedMoveValue)
    requires
        type_wf(t),
        rv.typed_by(t),
        0 <= i < rv.elems().len(),
        e.value() == rv.elems()[i],
        match rv {
            TypedMoveBorrowedRustVec::Vector(et, _) => e matches BorrowedTypedMoveValue::Vector(
                x,
                _,
            ) && x == et,
            TypedMoveBorrowedRustVec::Struct(s) => e matches BorrowedTypedMoveValue::Struct(
                x,
                _,
            ) && x == s.full_type,
            TypedMoveBorrowedRustVec::Reference(et, _) => e matches BorrowedTypedMoveValue::Reference(
                x,
                _,
            ) && x == et,
            _ => true,
        },
    ensures
        e.typed_by(t),
{
}

/// Writes a struct of type `t`: its fields in declared order.
fn serialize_struct(t: &MoveType, v: &MoveStruct, buf: &mut Vec<u8>)
    requires
        t.type_desc == TypeDesc::Struct,
        type_wf(*t),
        has_type(*t, AnyValue::Struct(*v)),
        encodable(*t, AnyValue::Struct(*v)),
    ensures
        final(buf)@ == old(buf)@ + ser(*t, AnyValue::Struct(*v)),
    decreases *t, 0nat,
{
    proof {
        lemma_struct_element(*t);
    }
    let structinfo = struct_info_of(t);
    serialize_struct_with_type_info(structinfo, v, buf);
}

/// Writes the fields of a struct laid out by `t`, in declared order.
fn serialize_struct_with_type_info(t: &StructTypeInfo, v: &MoveStruct, buf: &mut Vec<u8>)
    requires
        forall|i: int| 0 <= i < t.field_array.len() ==> type_wf(#[trigger] t.field_array@[i].type_),
        struct_has_type(*t, *v),
        forall|i: int|
            0 <= i < t.field_array.len() ==> encodable(#[trigger] t.field_array@[i].type_, v.fields@[i]),
    ensures
        final(buf)@ == old(buf)@ + ser_fields(*t, v.fields@, t.field_array.len() as nat),
    decreases *t, 0nat,
{
    let ghost start = buf@;
    let n = t.field_array.len();
    let mut i: usize = 0;
    while i < n
        invariant
            forall|k: int| 0 <= k < t.field_array.len() ==> type_wf(#[trigger] t.field_array@[k].type_),
            struct_has_type(*t, *v),
            forall|k: int|
                0 <= k < t.field_array.len() ==> encodable(#[trigger] t.field_array@[k].type_, v.fields@[k]),
            n == t.field_array.len(),
            i <= n,
            buf@ == start + ser_fields(*t, v.fields@, i as nat),
        decreases n - i,
    {
        let ft = &t.field_array[i].type_;
        proof {
            assert(has_type(*ft, v.fields@[i as int]));
            assert(encodable(*ft, v.fields@[i as int]));
        }
        serialize_to_buf(ft, &v.fields[i], buf);
        proof {
            assert(buf@ =~= start + ser_fields(*t, v.fields@, (i + 1) as nat));
        }
        i = i + 1;
    }
}

/// The canonical encoding of `v`, a value of type `type_v`.
pub fn serialize(type_v: &MoveType, v: &AnyValue) -> (r: MoveByteVector)
    requires
        type_wf(*type_v),
        ref_free(*type_v),
        has_type(*type_v, *v),
        encodable(*type_v, *v),
    ensures
        r.wf(),
        r.ptr@ == ser(*type_v, *v),
{
    let mut buf: Vec<u8> = Vec::new();
    serialize_to_buf(type_v, v, &mut buf);
    assert(buf@ =~= ser(*type_v, *v));
    rust_vec_to_move_byte_vec(buf)
}

/// `w` bytes, if `s` has them.
pub open spec fn fixed_len(s: Seq<u8>, w: nat) -> Option<nat> {
    if s.len() >= w {
        Some(w)
    } else {
        None
    }
}

/// How many bytes at the start of `s` encode a value of type `t`, or `None`
/// when they do not.
pub open spec fn parse_len(t: MoveType, s: Seq<u8>) -> Option<nat>
    decreases t, 0nat, 0nat,
{
    match t.type_desc {
        TypeDesc::Bool => if s.len() >= 1 && s[0] <= 1 {
            Some(1)
        } else {
            None
        },
        TypeDesc::U8 => fixed_len(s, 1),
        TypeDesc::U16 => fixed_len(s, 2),
        TypeDesc::U32 => fixed_len(s, 4),
        TypeDesc::U64 => fixed_len(s, 8),
        TypeDesc::U128 => fixed_len(s, 16),
        TypeDesc::U256 => fixed_len(s, 32),
        TypeDesc::Address => fixed_len(s, 32),
        TypeDesc::Signer => fixed_len(s, 32),
        TypeDesc::Vector => match t.type_info {
            TypeInfo::Vector(vi) => parse_vec_len(*vi.element_type, s),
            _ => None,
        },
        TypeDesc::Struct => match t.type_info {
            TypeInfo::Struct(si) => parse_fields_len(si, s, si.field_array.len() as nat),
            _ => None,
        },
        TypeDesc::Reference => None,
    }
}

/// How many bytes at the start of `s` encode a vector with elements of type
/// `et`: a four-byte count, whose buffer must fit one allocation, then that
/// many elements.
pub open spec fn parse_vec_len(et: MoveType, s: Seq<u8>) -> Option<nat>
    decreases et, 2nat, 0nat,
{
    if s.len() < 4 {
        None
    } else {
        let n = le_value(s.subrange(0, 4));
        if n * elem_size(et) > MAX_ALLOC_BYTES {
            None
        } else {
            match parse_elems_len(et, s.subrange(4, s.len() as int), n) {
                Some(k) => Some(k + 4),
                None => None,
            }
        }
    }
}

/// How many bytes at the start of `s` encode `n` values of type `et`, one
/// after another.
pub open spec fn parse_elems_len(et: MoveType, s: Seq<u8>, n: nat) -> Option<nat>
    decreases et, 1nat, n,
{
    if n == 0 {
        Some(0)
    } else {
        match parse_elems_len(et, s, (n - 1) as nat) {
            Some(k) => if k <= s.len() {
                match parse_len(et, s.subrange(k as int, s.len() as int)) {
                    Some(m) => Some(k + m),
                    None => None,
                }
            } else {
                None
            },
            None => None,
        }
    }
}

/// How many bytes at the start of `s` encode the first `n` fields of a struct
/// laid out by `si`.
pub open spec fn parse_fields_len(si: StructTypeInfo, s: Seq<u8>, n: nat) -> Option<nat>
    decreases si, 1nat, n,
{
    if n == 0 {
        Some(0)
    } else if n > si.field_array.len() {
        None
    } else {
        match parse_fields_len(si, s, (n - 1) as nat) {
            Some(k) => if k <= s.len() {
                match parse_len(si.field_array@[n - 1].type_, s.subrange(k as int, s.len() as int)) {
                    Some(m) => Some(k + m),
                    None => None,
                }
            } else {
                None
            },
            None => None,
        }
    }
}

/// Bytes read as a number and written back are the same bytes.
pub proof fn lemma_le_bytes_of_value(s: Seq<u8>)
    ensures
        le_bytes(le_value(s), s.len()) == s,
    decreases s.len(),
{
    if s.len() > 0 {
        let a = s[0] as nat;
        let b = le_value(s.drop_first());
        lemma_le_bytes_of_value(s.drop_first());
        assert((a + 256 * b) % 256 == a && (a + 256 * b) / 256 == b) by (nonlinear_arith)
            requires
                a < 256,
        ;
        assert(le_bytes(le_value(s), s.len()) =~= s);
    }
}

proof fn lemma_ser_elems_prefix(et: MoveType, xs: Seq<AnyValue>, ys: Seq<AnyValue>, n: nat)
    requires
        n <= xs.len(),
        n <= ys.len(),
        forall|k: int| 0 <= k < n ==> xs[k] == ys[k],
    ensures
        ser_elems(et, xs, n) == ser_elems(et, ys, n),
    decreases n,
{
    if n > 0 {
        lemma_ser_elems_prefix(et, xs, ys, (n - 1) as nat);
    }
}

proof fn lemma_ser_fields_prefix(si: StructTypeInfo, xs: Seq<AnyValue>, ys: Seq<AnyValue>, n: nat)
    requires
        n <= xs.len(),
        n <= ys.len(),
        forall|k: int| 0 <= k < n ==> xs[k] == ys[k],
    ensures
        ser_fields(si, xs, n) == ser_fields(si, ys, n),
    decreases n,
{
    if n > 0 {
        lemma_ser_fields_prefix(si, xs, ys, (n - 1) as nat);
    }
}

proof fn lemma_parse_elems_none(et: MoveType, s: Seq<u8>, m: nat, n: nat)
    requires
        m <= n,
        parse_elems_len(et, s, m) is None,
    ensures
        parse_elems_len(et, s, n) is None,
    decreases n - m,
{
    if m < n {
        lemma_parse_elems_none(et, s, m + 1, n);
    }
}

proof fn lemma_parse_fields_none(si: StructTypeInfo, s: Seq<u8>, m: nat, n: nat)
    requires
        m <= n,
        parse_fields_len(si, s, m) is None,
    ensures
        parse_fields_len(si, s, n) is None,
    decreases n - m,
{
    if m < n {
        lemma_parse_fields_none(si, s, m + 1, n);
    }
}

/// Reads a value of type `type_v` from `bytes` at `pos`: the value and where
/// its encoding ends, or `None` when the bytes there encode no such value.
fn deserialize_from_slice(type_v: &MoveType, bytes: &Vec<u8>, pos: usize) -> (r: Option<
    (AnyValue, usize),
>)
    requires
        type_wf(*type_v),
        ref_free(*type_v),
        pos <= bytes@.len(),
    ensures
        match r {
            None => parse_len(*type_v, bytes@.subrange(pos as int, bytes@.len() as int)) is None,
            Some((v, end)) => {
                &&& pos <= end <= bytes@.len()
                &&& parse_len(*type_v, bytes@.subrange(pos as int, bytes@.len() as int)) == Some(
                    (end - pos) as nat,
                )
                &&& has_type(*type_v, v)
                &&& encodable(*type_v, v)
                &&& ser(*type_v, v) == bytes@.subrange(pos as int, end as int)
            },
        },
    decreases *type_v, 2nat,
{
    proof {
        assert(bytes@.len() == bytes.len());
    }
    match type_v.type_desc {
        TypeDesc::Bool => match read_bool(bytes, pos) {
            Some(b) => {
                assert(ser(*type_v, AnyValue::Bool(b)) =~= bytes@.subrange(pos as int, pos + 1));
                Some((AnyValue::Bool(b), pos + 1))
            },
            None => None,
        },
        TypeDesc::U8 => match read_u8(bytes, pos) {
            Some(x) => {
                assert(ser(*type_v, AnyValue::U8(x)) =~= bytes@.subrange(pos as int, pos + 1));
                Some((AnyValue::U8(x), pos + 1))
            },
            None => None,
        },
        TypeDesc::U16 => match read_u16(bytes, pos) {
            Some(x) => {
                proof {
                    lemma_le_bytes_of_value(bytes@.subrange(pos as int, pos + 2));
                }
                Some((AnyValue::U16(x), pos + 2))
            },
            None => None,
        },
        TypeDesc::U32 => match read_u32(bytes, pos) {
            Some(x) => {
                proof {
                    lemma_le_bytes_of_value(bytes@.subrange(pos as int, pos + 4));
                }
                Some((AnyValue::U32(x), pos + 4))
            },
            None => None,
        },
        TypeDesc::U64 => match read_u64(bytes, pos) {
            Some(x) => {
                proof {
                    lemma_le_bytes_of_value(bytes@.subrange(pos as int, pos + 8));
                }
                Some((AnyValue::U64(x), pos + 8))
            },
            None => None,
        },
        TypeDesc::U128 => match read_u128(bytes, pos) {
            Some(x) => {
                proof {
                    lemma_le_bytes_of_value(bytes@.subrange(pos as int, pos + 16));
                }
                Some((AnyValue::U128(x), pos + 16))
            },
            None => None,
        },
        TypeDesc::U256 => match read_u128(bytes, pos) {
            Some(lo) => match read_u128(bytes, pos + 16) {
                Some(hi) => {
                    proof {
                        lemma_le_bytes_of_value(bytes@.subrange(pos as int, pos + 16));
                        lemma_le_bytes_of_value(bytes@.subrange(pos + 16, pos + 32));
                        assert(ser(*type_v, AnyValue::U256(U256 { lo, hi })) =~= bytes@.subrange(
                            pos as int,
                            pos + 32,
                        ));
                    }
                    Some((AnyValue::U256(U256 { lo, hi }), pos + 32))
                },
                None => None,
            },
            None => None,
        },
        TypeDesc::Address => match read_address(bytes, pos) {
            Some(a) => Some((AnyValue::Address(a), pos + 32)),
            None => None,
        },
        TypeDesc::Signer => match read_address(bytes, pos) {
            Some(a) => Some((AnyValue::Signer(crate::rt_types::MoveSigner(a)), pos + 32)),
            None => None,
        },
        TypeDesc::Vector => {
            proof {
                lemma_vector_element(*type_v);
            }
            let et = element_type_of(type_v);
            match deserialize_vector(et, bytes, pos) {
                Some((v, end)) => Some((AnyValue::Vector(v), end)),
                None => None,
            }
        },
        TypeDesc::Struct => match deserialize_struct(type_v, bytes, pos) {
            Some((s, end)) => Some((AnyValue::Struct(s), end)),
            None => None,
        },
        TypeDesc::Reference => {
            assert(false);
            None
        },
    }
}

/// Reads a vector with elements of type `type_elt` from `bytes` at `pos`:
/// its count, then that many elements into a buffer reserved for exactly
/// that many.
fn deserialize_vector(type_elt: &MoveType, bytes: &Vec<u8>, pos: usize) -> (r: Option<
    (MoveUntypedVector, usize),
>)
    requires
        type_wf(*type_elt),
        ref_free(*type_elt),
        pos <= bytes@.len(),
    ensures
        match r {
            None => parse_vec_len(*type_elt, bytes@.subrange(pos as int, bytes@.len() as int)) is None,
            Some((v, end)) => {
                &&& pos <= end <= bytes@.len()
                &&& parse_vec_len(*type_elt, bytes@.subrange(pos as int, bytes@.len() as int))
                    == Some((end - pos) as nat)
                &&& vec_has_type(*type_elt, v)
                &&& vec_encodable(*type_elt, v)
                &&& v.capacity == v.length
                &&& ser_vec(*type_elt, v) == bytes@.subrange(pos as int, end as int)
            },
        },
    decreases *type_elt, 3nat,
{
    proof {
        assert(bytes@.len() == bytes.len());
    }
    let ghost whole = bytes@.subrange(pos as int, bytes@.len() as int);
    let len = match read_u32(bytes, pos) {
        Some(n) => n as u64,
        None => {
            return None;
        },
    };
    let ghost head = bytes@.subrange(pos as int, pos + 4);
    assert(whole.subrange(0, 4) =~= head);
    let size = element_size(type_elt);
    match len.checked_mul(size) {
        Some(b) => {
            if b > MAX_ALLOC_BYTES {
                return None;
            }
        },
        None => {
            return None;
        },
    }
    let mut v = crate::vector::empty(type_elt);
    reserve_exact(&mut v, len);
    let start = pos + 4;
    let ghost tail = bytes@.subrange(start as int, bytes@.len() as int);
    assert(whole.subrange(4, whole.len() as int) =~= tail);
    let mut p = start;
    let mut i: u64 = 0;
    while i < len
        invariant
            type_wf(*type_elt),
            ref_free(*type_elt),
            start == pos + 4,
            start <= p <= bytes@.len(),
            whole == bytes@.subrange(pos as int, bytes@.len() as int),
            head == bytes@.subrange(pos as int, pos + 4),
            whole.subrange(0, 4) == head,
            whole.subrange(4, whole.len() as int) == tail,
            len == le_value(head),
            len <= MAX_WIRE_LENGTH,
            len * elem_size(*type_elt) <= MAX_ALLOC_BYTES,
            tail == bytes@.subrange(start as int, bytes@.len() as int),
            i <= len,
            v.length == i,
            v.capacity == len,
            vec_has_type(*type_elt, v),
            forall|k: int| 0 <= k < i ==> encodable(*type_elt, #[trigger] vec_elems(v)[k]),
            parse_elems_len(*type_elt, tail, i as nat) == Some((p - start) as nat),
            ser_elems(*type_elt, vec_elems(v), i as nat) == bytes@.subrange(start as int, p as int),
        decreases len - i,
    {
        proof {
            assert(tail.subrange(p - start, tail.len() as int) =~= bytes@.subrange(
                p as int,
                bytes@.len() as int,
            ));
        }
        match deserialize_from_slice(type_elt, bytes, p) {
            None => {
                proof {
                    lemma_parse_elems_none(*type_elt, tail, (i + 1) as nat, len as nat);
                }
                return None;
            },
            Some((e, q)) => {
                let ghost before = v;
                proof {
                    assert(capacity_after_push(v, elem_size(*type_elt)) == len);
                }
                crate::vector::push_back(type_elt, &mut v, e);
                proof {
                    lemma_ser_elems_prefix(
                        *type_elt,
                        vec_elems(v),
                        vec_elems(before),
                        i as nat,
                    );
                    assert(vec_elems(v)[i as int] == e);
                    assert(bytes@.subrange(start as int, q as int) =~= bytes@.subrange(
                        start as int,
                        p as int,
                    ) + bytes@.subrange(p as int, q as int));
                    assert forall|k: int| 0 <= k < i + 1 implies encodable(
                        *type_elt,
                        #[trigger] vec_elems(v)[k],
                    ) by {
                        if k < i {
                            assert(vec_elems(v)[k] == vec_elems(before)[k]);
                        }
                    }
                }
                p = q;
            },
        }
        i = i + 1;
    }
    proof {
        lemma_le_bytes_of_value(head);
        assert(bytes@.subrange(pos as int, p as int) =~= head + bytes@.subrange(
            start as int,
            p as int,
        ));
    }
    Some((v, p))
}

/// Reads a struct of type `t` from `bytes` at `pos`: its fields in declared
/// order.
fn deserialize_struct(t: &MoveType, bytes: &Vec<u8>, pos: usize) -> (r: Option<(MoveStruct, usize)>)
    requires
        t.type_desc == TypeDesc::Struct,
        type_wf(*t),
        ref_free(*t),
        pos <= bytes@.len(),
    ensures
        match r {
            None => parse_len(*t, bytes@.subrange(pos as int, bytes@.len() as int)) is None,
            Some((s, end)) => {
                &&& pos <= end <= bytes@.len()
                &&& parse_len(*t, bytes@.subrange(pos as int, bytes@.len() as int)) == Some(
                    (end - pos) as nat,
                )
                &&& has_type(*t, AnyValue::Struct(s))
                &&& encodable(*t, AnyValue::Struct(s))
                &&& ser(*t, AnyValue::Struct(s)) == bytes@.subrange(pos as int, end as int)
            },
        },
    decreases *t, 1nat,
{
    proof {
        lemma_struct_element(*t);
    }
    let ghost whole = bytes@.subrange(pos as int, bytes@.len() as int);
    let structinfo = struct_info_of(t);
    let n = structinfo.field_array.len();
    let mut fields: Vec<AnyValue> = Vec::new();
    let mut p = pos;
    let mut i: usize = 0;
    while i < n
        invariant
            t.type_desc == TypeDesc::Struct,
            t.type_info == TypeInfo::Struct(*structinfo),
            type_wf(*t),
            ref_free(*t),
            forall|k: int| 0 <= k < structinfo.field_array.len() ==> type_wf(#[trigger] structinfo.field_array@[k].type_),
            forall|k: int| 0 <= k < structinfo.field_array.len() ==> ref_free(#[trigger] structinfo.field_array@[k].type_),
            n == structinfo.field_array.len(),
            pos <= p <= bytes@.len(),
            whole == bytes@.subrange(pos as int, bytes@.len() as int),
            i <= n,
            fields@.len() == i,
            forall|k: int|
                0 <= k < i ==> has_type(#[trigger] structinfo.field_array@[k].type_, fields@[k])
                    && encodable(structinfo.field_array@[k].type_, fields@[k]),
            parse_fields_len(*structinfo, whole, i as nat) == Some((p - pos) as nat),
            ser_fields(*structinfo, fields@, i as nat) == bytes@.subrange(pos as int, p as int),
        decreases n - i,
    {
        proof {
            assert(whole.subrange(p - pos, whole.len() as int) =~= bytes@.subrange(
                p as int,
                bytes@.len() as int,
            ));
        }
        let ft = &structinfo.field_array[i].type_;
        match deserialize_from_slice(ft, bytes, p) {
            None => {
                proof {
                    lemma_parse_fields_none(*structinfo, whole, (i + 1) as nat, n as nat);
                }
                return None;
            },
            Some((e, q)) => {
                let ghost before = fields@;
                fields.push(e);
                proof {
                    lemma_ser_fields_prefix(*structinfo, fields@, before, i as nat);
                    assert(bytes@.subrange(pos as int, q as int) =~= bytes@.subrange(
                        pos as int,
                        p as int,
                    ) + bytes@.subrange(p as int, q as int));
                }
                p = q;
            },
        }
        i = i + 1;
    }
    let s = MoveStruct { fields };
    Some((s, p))
}

/// Reads a value of type `type_v` from `bytes`, which must hold its encoding
/// and nothing more.
pub fn deserialize(type_v: &MoveType, bytes: &MoveByteVector) -> (r: Option<AnyValue>)
    requires
        type_wf(*type_v),
        ref_free(*type_v),
    ensures
        r.is_some() <==> parse_len(*type_v, bytes.ptr@) == Some(bytes.ptr@.len()),
        r.is_some() ==> {
            &&& has_type(*type_v, r.unwrap())
            &&& encodable(*type_v, r.unwrap())
            &&& ser(*type_v, r.unwrap()) == bytes.ptr@
        },
{
    let view = borrow_move_byte_vec_as_rust_vec(bytes);
    let bytes = view.inner;
    assert(bytes@.subrange(0, bytes@.len() as int) =~= bytes@);
    match deserialize_from_slice(type_v, bytes, 0) {
        Some((v, end)) => if end == bytes.len() {
            Some(v)
        } else {
            None
        },
        None => None,
    }
}

/// `le_bytes` gives `w` bytes.
proof fn lemma_le_bytes_len(n: nat, w: nat)
    ensures
        le_bytes(n, w).len() == w,
    decreases w,
{
    if w > 0 {
        lemma_le_bytes_len(n / 256, (w - 1) as nat);
    }
}

/// A number below `256^w`, written in `w` bytes and read back, is itself.
proof fn lemma_le_value_of_bytes(n: nat, w: nat)
    requires
        n < pow(256, w),
    ensures
        le_value(le_bytes(n, w)) == n,
        le_bytes(n, w).len() == w,
    decreases w,
{
    lemma_le_bytes_len(n, w);
    reveal(pow);
    if w > 0 {
        let p = pow(256, (w - 1) as nat);
        assert(pow(256, w) == 256 * p);
        assert(n / 256 < p && n % 256 + 256 * (n / 256) == n) by (nonlinear_arith)
            requires
                n < 256 * p,
        ;
        lemma_le_value_of_bytes(n / 256, (w - 1) as nat);
        let s = le_bytes(n, w);
        assert(s.drop_first() =~= le_bytes(n / 256, (w - 1) as nat));
        assert(s[0] as nat == n % 256);
        assert(le_value(s) == s[0] as nat + 256 * le_value(s.drop_first()));
    }
}

/// The powers of 256 that bound the fixed widths.
proof fn lemma_width_bounds()
    ensures
        pow(256, 2) == 0x1_0000,
        pow(256, 4) == 0x1_0000_0000,
        pow(256, 8) == 0x1_0000_0000_0000_0000,
        pow(256, 16) == 0x1_0000_0000_0000_0000_0000_0000_0000_0000,
{
    reveal_with_fuel(pow, 17);
}

/// Equal encodings of two numbers below `256^w` are of equal numbers.
proof fn lemma_le_bytes_injective(x: nat, y: nat, w: nat)
    requires
        x < pow(256, w),
        y < pow(256, w),
        le_bytes(x, w) == le_bytes(y, w),
    ensures
        x == y,
{
    lemma_le_value_of_bytes(x, w);
    lemma_le_value_of_bytes(y, w);
}

/// A value's encoding, with anything after it, parses to exactly the
/// encoding's length.
pub proof fn lemma_parse_ser(t: MoveType, v: AnyValue, rest: Seq<u8>)
    requires
        type_wf(t),
        ref_free(t),
        has_type(t, v),
        encodable(t, v),
    ensures
        parse_len(t, ser(t, v) + rest) == Some(ser(t, v).len()),
    decreases t, 0nat, 0nat,
{
    lemma_width_bounds();
    let s = ser(t, v) + rest;
    match v {
        AnyValue::U16(x) => lemma_le_bytes_len(x as nat, 2),
        AnyValue::U32(x) => lemma_le_bytes_len(x as nat, 4),
        AnyValue::U64(x) => lemma_le_bytes_len(x as nat, 8),
        AnyValue::U128(x) => lemma_le_bytes_len(x as nat, 16),
        AnyValue::U256(x) => {
            lemma_le_bytes_len(x.lo as nat, 16);
            lemma_le_bytes_len(x.hi as nat, 16);
        },
        AnyValue::Vector(mv) => {
            lemma_vector_element(t);
            lemma_parse_ser_vec(element_type(t), mv, rest);
        },
        AnyValue::Struct(st) => {
            lemma_struct_element(t);
            let si = t.type_info->Struct_0;
            lemma_parse_ser_fields(si, st.fields@, si.field_array.len() as nat, rest);
        },
        _ => {},
    }
}

proof fn lemma_parse_ser_vec(et: MoveType, mv: MoveUntypedVector, rest: Seq<u8>)
    requires
        type_wf(et),
        ref_free(et),
        vec_has_type(et, mv),
        vec_encodable(et, mv),
    ensures
        parse_vec_len(et, ser_vec(et, mv) + rest) == Some(ser_vec(et, mv).len()),
    decreases et, 2nat, 0nat,
{
    lemma_width_bounds();
    let n = mv.length as nat;
    let head = le_bytes(n, 4);
    let body = ser_elems(et, vec_elems(mv), n);
    let s = ser_vec(et, mv) + rest;
    lemma_le_value_of_bytes(n, 4);
    assert(s.subrange(0, 4) =~= head);
    assert(s.subrange(4, s.len() as int) =~= body + rest);
    let size = elem_size(et);
    assert(n * size <= mv.capacity * size) by (nonlinear_arith)
        requires
            n <= mv.capacity,
    ;
    assert forall|k: int| 0 <= k < n implies has_type(et, #[trigger] vec_elems(mv)[k]) && encodable(
        et,
        vec_elems(mv)[k],
    ) by {}
    lemma_parse_ser_elems(et, vec_elems(mv), n, rest);
}

proof fn lemma_parse_ser_elems(et: MoveType, xs: Seq<AnyValue>, n: nat, rest: Seq<u8>)
    requires
        type_wf(et),
        ref_free(et),
        n <= xs.len(),
        forall|k: int| 0 <= k < n ==> has_type(et, #[trigger] xs[k]) && encodable(et, xs[k]),
    ensures
        parse_elems_len(et, ser_elems(et, xs, n) + rest, n) == Some(ser_elems(et, xs, n).len()),
    decreases et, 1nat, n,
{
    if n > 0 {
        let a = ser_elems(et, xs, (n - 1) as nat);
        let x = ser(et, xs[n - 1]);
        let s = ser_elems(et, xs, n) + rest;
        assert(s =~= a + (x + rest));
        lemma_parse_ser_elems(et, xs, (n - 1) as nat, x + rest);
        assert(s.subrange(a.len() as int, s.len() as int) =~= x + rest);
        lemma_parse_ser(et, xs[n - 1], rest);
    }
}

proof fn lemma_parse_ser_fields(si: StructTypeInfo, fs: Seq<AnyValue>, n: nat, rest: Seq<u8>)
    requires
        n <= si.field_array.len(),
        n <= fs.len(),
        forall|k: int|
            0 <= k < si.field_array.len() ==> type_wf(#[trigger] si.field_array@[k].type_) && ref_free(
                si.field_array@[k].type_,
            ),
        forall|k: int|
            0 <= k < n ==> has_type(#[trigger] si.field_array@[k].type_, fs[k]) && encodable(
                si.field_array@[k].type_,
                fs[k],
            ),
    ensures
        parse_fields_len(si, ser_fields(si, fs, n) + rest, n) == Some(ser_fields(si, fs, n).len()),
    decreases si, 1nat, n,
{
    if n > 0 {
        let ft = si.field_array@[n - 1].type_;
        let a = ser_fields(si, fs, (n - 1) as nat);
        let x = ser(ft, fs[n - 1]);
        let s = ser_fields(si, fs, n) + rest;
        assert(s =~= a + (x + rest));
        lemma_parse_ser_fields(si, fs, (n - 1) as nat, x + rest);
        assert(s.subrange(a.len() as int, s.len() as int) =~= x + rest);
        lemma_parse_ser(ft, fs[n - 1], rest);
    }
}

/// Two values of type `t` with the same encoding are structurally equal.
pub proof fn lemma_ser_injective(t: MoveType, a: AnyValue, b: AnyValue)
    requires
        type_wf(t),
        ref_free(t),
        has_type(t, a),
        has_type(t, b),
        encodable(t, a),
        encodable(t, b),
        ser(t, a) == ser(t, b),
    ensures
        value_eq(t, a, b),
    decreases t, 0nat, 0nat,
{
    lemma_width_bounds();
    match (a, b) {
        (AnyValue::Bool(x), AnyValue::Bool(y)) => {
            assert(ser(t, a)[0] == (if x { 1u8 } else { 0u8 }));
            assert(ser(t, b)[0] == (if y { 1u8 } else { 0u8 }));
            assert(t.type_desc == TypeDesc::Bool);
        },
        (AnyValue::U8(x), AnyValue::U8(y)) => {
            assert(ser(t, a)[0] == x);
            assert(ser(t, b)[0] == y);
            assert(t.type_desc == TypeDesc::U8);
        },
        (AnyValue::U16(x), AnyValue::U16(y)) => lemma_le_bytes_injective(x as nat, y as nat, 2),
        (AnyValue::U32(x), AnyValue::U32(y)) => lemma_le_bytes_injective(x as nat, y as nat, 4),
        (AnyValue::U64(x), AnyValue::U64(y)) => lemma_le_bytes_injective(x as nat, y as nat, 8),
        (AnyValue::U128(x), AnyValue::U128(y)) => lemma_le_bytes_injective(
            x as nat,
            y as nat,
            16,
        ),
        (AnyValue::U256(x), AnyValue::U256(y)) => {
            lemma_le_bytes_len(x.lo as nat, 16);
            lemma_le_bytes_len(y.lo as nat, 16);
            lemma_le_bytes_len(x.hi as nat, 16);
            lemma_le_bytes_len(y.hi as nat, 16);
            assert(ser(t, a).subrange(0, 16) =~= le_bytes(x.lo as nat, 16));
            assert(ser(t, b).subrange(0, 16) =~= le_bytes(y.lo as nat, 16));
            assert(ser(t, a).subrange(16, 32) =~= le_bytes(x.hi as nat, 16));
            assert(ser(t, b).subrange(16, 32) =~= le_bytes(y.hi as nat, 16));
            lemma_le_bytes_injective(x.lo as nat, y.lo as nat, 16);
            lemma_le_bytes_injective(x.hi as nat, y.hi as nat, 16);
            assert(value_eq(t, a, b));
        },
        (AnyValue::Vector(x), AnyValue::Vector(y)) => {
            lemma_vector_element(t);
            let et = element_type(t);
            assert(vec_encodable(et, x) && vec_encodable(et, y));
            assert(vec_has_type(et, x) && vec_has_type(et, y));
            let ha = le_bytes(x.length as nat, 4);
            let hb = le_bytes(y.length as nat, 4);
            lemma_le_bytes_len(x.length as nat, 4);
            lemma_le_bytes_len(y.length as nat, 4);
            assert(ser(t, a).subrange(0, 4) =~= ha);
            assert(ser(t, b).subrange(0, 4) =~= hb);
            lemma_le_bytes_injective(x.length as nat, y.length as nat, 4);
            let n = x.length as nat;
            assert(ser(t, a).subrange(4, ser(t, a).len() as int) =~= ser_elems(et, vec_elems(x), n));
            assert(ser(t, b).subrange(4, ser(t, b).len() as int) =~= ser_elems(et, vec_elems(y), n));
            assert forall|k: int| 0 <= k < n implies has_type(et, #[trigger] vec_elems(y)[k])
                && encodable(et, vec_elems(y)[k]) by {}
            assert forall|k: int| 0 <= k < n implies has_type(et, #[trigger] vec_elems(x)[k])
                && encodable(et, vec_elems(x)[k]) by {}
            lemma_ser_elems_injective(et, vec_elems(x), vec_elems(y), n);
            assert(value_eq(t, a, b));
        },
        (AnyValue::Struct(x), AnyValue::Struct(y)) => {
            lemma_struct_element(t);
            let si = t.type_info->Struct_0;
            lemma_ser_fields_injective(si, x.fields@, y.fields@, si.field_array.len() as nat);
            assert(value_eq(t, a, b));
        },
        _ => {
            assert(value_eq(t, a, b));
        },
    }
}

proof fn lemma_ser_elems_injective(et: MoveType, xs: Seq<AnyValue>, ys: Seq<AnyValue>, n: nat)
    requires
        type_wf(et),
        ref_free(et),
        n <= xs.len(),
        n <= ys.len(),
        forall|k: int| 0 <= k < n ==> has_type(et, #[trigger] xs[k]) && encodable(et, xs[k]),
        forall|k: int| 0 <= k < n ==> has_type(et, #[trigger] ys[k]) && encodable(et, ys[k]),
        ser_elems(et, xs, n) == ser_elems(et, ys, n),
    ensures
        forall|k: int| 0 <= k < n ==> value_eq(et, #[trigger] xs[k], ys[k]),
    decreases et, 1nat, n,
{
    if n > 0 {
        let m = (n - 1) as nat;
        let ax = ser_elems(et, xs, m);
        let ay = ser_elems(et, ys, m);
        let x = ser(et, xs[m as int]);
        let y = ser(et, ys[m as int]);
        let s = ser_elems(et, xs, n);
        lemma_parse_ser_elems(et, xs, m, x);
        lemma_parse_ser_elems(et, ys, m, y);
        assert(ax.len() == ay.len());
        assert(ax =~= s.subrange(0, ax.len() as int));
        assert(ay =~= s.subrange(0, ay.len() as int));
        assert(x =~= s.subrange(ax.len() as int, s.len() as int));
        assert(y =~= s.subrange(ay.len() as int, s.len() as int));
        lemma_ser_elems_injective(et, xs, ys, m);
        lemma_ser_injective(et, xs[m as int], ys[m as int]);
    }
}

proof fn lemma_ser_fields_injective(si: StructTypeInfo, xs: Seq<AnyValue>, ys: Seq<AnyValue>, n: nat)
    requires
        n <= si.field_array.len(),
        n <= xs.len(),
        n <= ys.len(),
        forall|k: int|
            0 <= k < si.field_array.len() ==> type_wf(#[trigger] si.field_array@[k].type_) && ref_free(
                si.field_array@[k].type_,
            ),
        forall|k: int|
            0 <= k < n ==> has_type(#[trigger] si.field_array@[k].type_, xs[k]) && encodable(
                si.field_array@[k].type_,
                xs[k],
            ) && has_type(si.field_array@[k].type_, ys[k]) && encodable(si.field_array@[k].type_, ys[k]),
        ser_fields(si, xs, n) == ser_fields(si, ys, n),
    ensures
        forall|k: int| 0 <= k < n ==> value_eq(#[trigger] si.field_array@[k].type_, xs[k], ys[k]),
    decreases si, 1nat, n,
{
    if n > 0 {
        let m = (n - 1) as nat;
        let ft = si.field_array@[m as int].type_;
        let ax = ser_fields(si, xs, m);
        let ay = ser_fields(si, ys, m);
        let x = ser(ft, xs[m as int]);
        let y = ser(ft, ys[m as int]);
        let s = ser_fields(si, xs, n);
        lemma_parse_ser_fields(si, xs, m, x);
        lemma_parse_ser_fields(si, ys, m, y);
        assert(ax.len() == ay.len());
        assert(ax =~= s.subrange(0, ax.len() as int));
        assert(ay =~= s.subrange(0, ay.len() as int));
        assert(x =~= s.subrange(ax.len() as int, s.len() as int));
        assert(y =~= s.subrange(ay.len() as int, s.len() as int));
        lemma_ser_fields_injective(si, xs, ys, m);
        lemma_ser_injective(ft, xs[m as int], ys[m as int]);
    }
}

/// Round trip: the encoding of a value decodes, taking every byte of it, and
/// whatever value is decoded from it is structurally equal to the encoded one.
pub proof fn lemma_round_trip(t: MoveType, v: AnyValue, w: AnyValue)
    requires
        type_wf(t),
        ref_free(t),
        has_type(t, v),
        encodable(t, v),
        has_type(t, w),
        encodable(t, w),
        ser(t, w) == ser(t, v),
    ensures
        parse_len(t, ser(t, v)) == Some(ser(t, v).len()),
        value_eq(t, w, v),
{
    lemma_parse_ser(t, v, Seq::empty());
    assert(ser(t, v) + Seq::<u8>::empty() =~= ser(t, v));
    lemma_ser_injective(t, w, v);
}

} // verus!
