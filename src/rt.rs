//! The equality engine over structs, and the laws of structural equality.
use crate::conv::{borrow_move_value_as_rust_value, BorrowedTypedMoveValue};
use crate::rt_types::{
    has_type, lemma_vector_element, ref_free, struct_has_type, type_wf, value_eq, vec_elems,
    vec_eq, vec_has_type, AnyValue, MoveAddress, MoveStruct, MoveType, MoveUntypedVector,
    TypeDesc, TypeInfo,
};
use crate::vector::cmp_eq;
use vstd::prelude::*;

verus! {

/// Byte-for-byte equality of two addresses.
pub fn address_eq(a: &MoveAddress, b: &MoveAddress) -> (r: bool)
    ensures
        r == (a.0@ == b.0@),
{
    let mut k: usize = 0;
    while k < 32
        invariant
            k <= 32,
            forall|m: int| 0 <= m < k ==> a.0@[m] == b.0@[m],
        decreases 32 - k,
    {
        if a.0[k] != b.0[k] {
            return false;
        }
        k = k + 1;
    }
    assert(a.0@ =~= b.0@);
    true
}

/// Compares two structs of type `type_ve` field by field, in declared order,
/// and stops at the first difference.
pub fn struct_cmp_eq(type_ve: &MoveType, s1: &MoveStruct, s2: &MoveStruct) -> (r: bool)
    requires
        type_ve.type_desc == TypeDesc::Struct,
        type_wf(*type_ve),
        ref_free(*type_ve),
        has_type(*type_ve, AnyValue::Struct(*s1)),
        has_type(*type_ve, AnyValue::Struct(*s2)),
    ensures
        r == value_eq(*type_ve, AnyValue::Struct(*s1), AnyValue::Struct(*s2)),
    decreases *type_ve, 0nat,
{
    let st_info = crate::conv::struct_info_of(type_ve);
    let n = st_info.field_array.len();
    let mut i: usize = 0;
    while i < n
        invariant
            type_ve.type_desc == TypeDesc::Struct,
            type_ve.type_info == TypeInfo::Struct(*st_info),
            type_wf(*type_ve),
            ref_free(*type_ve),
            n == st_info.field_array.len(),
            struct_has_type(*st_info, *s1),
            struct_has_type(*st_info, *s2),
            i <= n,
            forall|k: int|
                0 <= k < i ==> value_eq(
                    #[trigger] st_info.field_array@[k].type_,
                    s1.fields@[k],
                    s2.fields@[k],
                ),
        decreases n - i,
    {
        let fld_ty = &st_info.field_array[i].type_;
        proof {
            assert(has_type(*fld_ty, s1.fields@[i as int]));
            assert(has_type(*fld_ty, s2.fields@[i as int]));
            assert(ref_free(*fld_ty));
        }
        let rv1 = borrow_move_value_as_rust_value(fld_ty, &s1.fields[i]);
        let rv2 = borrow_move_value_as_rust_value(fld_ty, &s2.fields[i]);
        let is_eq = match (rv1, rv2) {
            (BorrowedTypedMoveValue::Bool(a), BorrowedTypedMoveValue::Bool(b)) => *a == *b,
            (BorrowedTypedMoveValue::U8(a), BorrowedTypedMoveValue::U8(b)) => *a == *b,
            (BorrowedTypedMoveValue::U16(a), BorrowedTypedMoveValue::U16(b)) => *a == *b,
            (BorrowedTypedMoveValue::U32(a), BorrowedTypedMoveValue::U32(b)) => *a == *b,
            (BorrowedTypedMoveValue::U64(a), BorrowedTypedMoveValue::U64(b)) => *a == *b,
            (BorrowedTypedMoveValue::U128(a), BorrowedTypedMoveValue::U128(b)) => *a == *b,
            (BorrowedTypedMoveValue::U256(a), BorrowedTypedMoveValue::U256(b)) => *a == *b,
            (BorrowedTypedMoveValue::Address(a), BorrowedTypedMoveValue::Address(b)) => address_eq(
                a,
                b,
            ),
            (BorrowedTypedMoveValue::Signer(a), BorrowedTypedMoveValue::Signer(b)) => address_eq(
                &a.0,
                &b.0,
            ),
            (BorrowedTypedMoveValue::Vector(t1, v1), BorrowedTypedMoveValue::Vector(_t2, v2)) => {
                proof {
                    assert(fld_ty.type_desc == TypeDesc::Vector);
                    lemma_vector_element(*fld_ty);
                }
                cmp_eq(t1, v1, v2)
            },
            (BorrowedTypedMoveValue::Struct(t1, a), BorrowedTypedMoveValue::Struct(_t2, b)) => {
                proof {
                    assert(fld_ty.type_desc == TypeDesc::Struct);
                }
                struct_cmp_eq(t1, a, b)
            },
            _ => {
                assert(false);
                false
            },
        };
        assert(is_eq == value_eq(*fld_ty, s1.fields@[i as int], s2.fields@[i as int]));
        if !is_eq {
            return false;
        }
        i = i + 1;
    }
    true
}

/// Every value equals itself.
pub proof fn lemma_value_eq_reflexive(t: MoveType, v: AnyValue)
    requires
        has_type(t, v),
    ensures
        value_eq(t, v, v),
    decreases t, 0nat,
{
    match t.type_desc {
        TypeDesc::Vector => {
            let et = t.type_info->Vector_0.element_type;
            lemma_vec_eq_reflexive(*et, v->Vector_0);
        },
        TypeDesc::Struct => {
            let si = t.type_info->Struct_0;
            let s = v->Struct_0;
            assert forall|i: int| 0 <= i < si.field_array.len() implies value_eq(
                #[trigger] si.field_array@[i].type_,
                s.fields@[i],
                s.fields@[i],
            ) by {
                lemma_value_eq_reflexive(si.field_array@[i].type_, s.fields@[i]);
            }
        },
        _ => {},
    }
}

/// Every vector equals itself: `cmp_eq(t, v, v)` is true.
pub proof fn lemma_vec_eq_reflexive(et: MoveType, v: MoveUntypedVector)
    requires
        vec_has_type(et, v),
    ensures
        vec_eq(et, v, v),
    decreases et, 1nat,
{
    assert forall|i: int| 0 <= i < v.length implies value_eq(
        et,
        #[trigger] vec_elems(v)[i],
        vec_elems(v)[i],
    ) by {
        lemma_value_eq_reflexive(et, vec_elems(v)[i]);
    }
}

/// Equality of values does not depend on the order of the two.
pub proof fn lemma_value_eq_symmetric(t: MoveType, a: AnyValue, b: AnyValue)
    requires
        value_eq(t, a, b),
    ensures
        value_eq(t, b, a),
    decreases t, 0nat,
{
    match t.type_desc {
        TypeDesc::Vector => {
            let et = t.type_info->Vector_0.element_type;
            lemma_vec_eq_symmetric(*et, a->Vector_0, b->Vector_0);
        },
        TypeDesc::Struct => {
            let si = t.type_info->Struct_0;
            let x = a->Struct_0;
            let y = b->Struct_0;
            assert forall|i: int| 0 <= i < si.field_array.len() implies value_eq(
                #[trigger] si.field_array@[i].type_,
                y.fields@[i],
                x.fields@[i],
            ) by {
                lemma_value_eq_symmetric(si.field_array@[i].type_, x.fields@[i], y.fields@[i]);
            }
        },
        _ => {},
    }
}

/// `cmp_eq(t, x, y)` and `cmp_eq(t, y, x)` agree.
pub proof fn lemma_vec_eq_symmetric(et: MoveType, x: MoveUntypedVector, y: MoveUntypedVector)
    requires
        vec_eq(et, x, y),
    ensures
        vec_eq(et, y, x),
    decreases et, 1nat,
{
    assert forall|i: int| 0 <= i < y.length implies value_eq(
        et,
        #[trigger] vec_elems(y)[i],
        vec_elems(x)[i],
    ) by {
        lemma_value_eq_symmetric(et, vec_elems(x)[i], vec_elems(y)[i]);
    }
}

/// Vectors of unequal length are never equal.
pub proof fn lemma_unequal_lengths_differ(et: MoveType, x: MoveUntypedVector, y: MoveUntypedVector)
    requires
        x.length != y.length,
    ensures
        !vec_eq(et, x, y),
{
}

} // verus!
