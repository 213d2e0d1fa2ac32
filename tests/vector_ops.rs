use move_native::conv::BorrowedTypedMoveValue;
use move_native::rt_types::{
    AnyValue, ElementBuffer, MoveStruct, MoveType, MoveUntypedVector, StructFieldInfo,
    StructTypeInfo, TypeDesc, TypeInfo, VectorTypeInfo,
};
use move_native::vector::{
    borrow, cmp_eq, copy, destroy_empty, empty, length, pop_back, push_back, replace, swap,
    MoveBorrowedRustVecOfStructMut, TypedMoveBorrowedRustVecMut,
};

fn prim(d: TypeDesc) -> MoveType {
    MoveType { name: String::new(), type_desc: d, type_info: TypeInfo::Nothing }
}

fn vec_of(et: MoveType) -> MoveType {
    MoveType {
        name: String::new(),
        type_desc: TypeDesc::Vector,
        type_info: TypeInfo::Vector(VectorTypeInfo { element_type: Box::new(et) }),
    }
}

fn pair_type(size: u64) -> MoveType {
    MoveType {
        name: String::from("Pair"),
        type_desc: TypeDesc::Struct,
        type_info: TypeInfo::Struct(StructTypeInfo {
            field_array: vec![
                StructFieldInfo { type_: prim(TypeDesc::U64), offset: 0, name: String::from("a") },
                StructFieldInfo { type_: prim(TypeDesc::Bool), offset: 8, name: String::from("b") },
            ],
            size,
            alignment: 8,
        }),
    }
}

fn pair(a: u64, b: bool) -> AnyValue {
    AnyValue::Struct(MoveStruct { fields: vec![AnyValue::U64(a), AnyValue::Bool(b)] })
}

fn u8_at(t: &MoveType, v: &MoveUntypedVector, i: u64) -> u8 {
    match borrow(t, v, i) {
        BorrowedTypedMoveValue::U8(x) => *x,
        _ => panic!("not a u8"),
    }
}

#[test]
fn push_three_bytes_then_pop() {
    let t = prim(TypeDesc::U8);
    let mut v = empty(&t);
    push_back(&t, &mut v, AnyValue::U8(0xAA));
    push_back(&t, &mut v, AnyValue::U8(0xBB));
    push_back(&t, &mut v, AnyValue::U8(0xCC));
    assert_eq!(length(&t, &v), 3);
    assert_eq!(u8_at(&t, &v, 2), 0xCC);
    assert!(matches!(pop_back(&t, &mut v), AnyValue::U8(0xCC)));
    assert_eq!(length(&t, &v), 2);
    assert_eq!(u8_at(&t, &v, 0), 0xAA);
    assert_eq!(u8_at(&t, &v, 1), 0xBB);
}

#[test]
fn empty_vector_has_no_length_or_capacity() {
    let t = pair_type(16);
    let v = empty(&t);
    assert_eq!(v.length, 0);
    assert_eq!(v.capacity, 0);
    assert!(matches!(v.ptr, ElementBuffer::Struct(_)));
    destroy_empty(&t, v);
}

#[test]
fn length_is_pushes_minus_pops() {
    let t = prim(TypeDesc::U32);
    let mut v = empty(&t);
    let mut pushes: u64 = 0;
    let mut pops: u64 = 0;
    for k in 0..20u32 {
        push_back(&t, &mut v, AnyValue::U32(k));
        pushes += 1;
        if k % 3 == 0 {
            pop_back(&t, &mut v);
            pops += 1;
        }
    }
    assert_eq!(length(&t, &v), pushes - pops);
    assert_eq!(length(&t, &v), 13);
}

#[test]
fn struct_vector_capacity_doubles_from_four() {
    let t = pair_type(16);
    let mut v = empty(&t);
    let mut caps = Vec::new();
    for k in 0..9u64 {
        push_back(&t, &mut v, pair(k, k % 2 == 0));
        caps.push(v.capacity);
        assert!(v.capacity >= v.length);
    }
    assert_eq!(caps, vec![4, 4, 4, 4, 8, 8, 8, 8, 16]);
}

#[test]
fn byte_vector_capacity_starts_at_eight() {
    let t = prim(TypeDesc::U8);
    let mut v = empty(&t);
    let mut caps = Vec::new();
    for k in 0..10u8 {
        push_back(&t, &mut v, AnyValue::U8(k));
        caps.push(v.capacity);
    }
    assert_eq!(caps, vec![8, 8, 8, 8, 8, 8, 8, 8, 16, 16]);
}

#[test]
fn large_struct_capacity_starts_at_one() {
    let t = pair_type(2048);
    let mut v = empty(&t);
    let mut caps = Vec::new();
    for k in 0..5u64 {
        push_back(&t, &mut v, pair(k, true));
        caps.push(v.capacity);
    }
    assert_eq!(caps, vec![1, 2, 4, 4, 8]);
}

#[test]
fn swap_exchanges_elements() {
    let t = prim(TypeDesc::U8);
    let mut v = empty(&t);
    for k in [1u8, 2, 3, 4] {
        push_back(&t, &mut v, AnyValue::U8(k));
    }
    swap(&t, &mut v, 0, 3);
    assert_eq!(u8_at(&t, &v, 0), 4);
    assert_eq!(u8_at(&t, &v, 3), 1);
    swap(&t, &mut v, 2, 2);
    assert_eq!(u8_at(&t, &v, 2), 3);
}

#[test]
fn swap_struct_elements() {
    let t = pair_type(16);
    let mut v = empty(&t);
    push_back(&t, &mut v, pair(10, true));
    push_back(&t, &mut v, pair(20, false));
    swap(&t, &mut v, 0, 1);
    match borrow(&t, &v, 0) {
        BorrowedTypedMoveValue::Struct(_, s) => assert!(matches!(s.fields[0], AnyValue::U64(20))),
        _ => panic!("not a struct"),
    }
    match borrow(&t, &v, 1) {
        BorrowedTypedMoveValue::Struct(_, s) => assert!(matches!(s.fields[0], AnyValue::U64(10))),
        _ => panic!("not a struct"),
    }
}

#[test]
fn copy_replaces_prior_contents() {
    let t = prim(TypeDesc::U64);
    let mut src = empty(&t);
    for k in [5u64, 6, 7] {
        push_back(&t, &mut src, AnyValue::U64(k));
    }
    let mut dst = empty(&t);
    for k in [1u64, 2, 3, 4, 9] {
        push_back(&t, &mut dst, AnyValue::U64(k));
    }
    copy(&t, &mut dst, &src);
    assert_eq!(length(&t, &dst), 3);
    assert!(cmp_eq(&t, &dst, &src));
}

#[test]
fn copy_struct_vector_into_non_empty() {
    let t = pair_type(16);
    let mut src = empty(&t);
    push_back(&t, &mut src, pair(1, true));
    push_back(&t, &mut src, pair(2, false));
    let mut dst = empty(&t);
    push_back(&t, &mut dst, pair(3, true));
    copy(&t, &mut dst, &src);
    assert_eq!(length(&t, &dst), 2);
    assert!(cmp_eq(&t, &dst, &src));
}

#[test]
fn copy_nested_vector_is_deep() {
    let inner = prim(TypeDesc::U16);
    let t = vec_of(prim(TypeDesc::U16));
    let mut a = empty(&inner);
    push_back(&inner, &mut a, AnyValue::U16(300));
    let mut src = empty(&t);
    push_back(&t, &mut src, AnyValue::Vector(a));
    let mut dst = empty(&t);
    copy(&t, &mut dst, &src);
    assert!(cmp_eq(&t, &dst, &src));
    // Changing the source afterwards leaves the copy as it was.
    if let ElementBuffer::Vector(b) = &mut src.ptr {
        push_back(&inner, &mut b[0], AnyValue::U16(1));
    }
    assert!(!cmp_eq(&t, &dst, &src));
}

#[test]
fn mutable_view_writes_back_on_finish() {
    let t = pair_type(16);
    let v = empty(&t);
    let mut view = TypedMoveBorrowedRustVecMut::new(&t, v);
    view.push_back(pair(1, true), 16);
    view.push_back(pair(2, false), 16);
    view.swap(0, 1);
    view.swap(1, 1);
    let v = view.finish();
    assert_eq!(v.length, 2);
    assert_eq!(v.capacity, 4);
    match borrow(&t, &v, 0) {
        BorrowedTypedMoveValue::Struct(_, s) => assert!(matches!(s.fields[0], AnyValue::U64(2))),
        _ => panic!("not a struct"),
    }
}

#[test]
fn struct_view_reserves_exactly() {
    let t = pair_type(16);
    let info = match &t.type_info {
        TypeInfo::Struct(si) => si,
        _ => panic!("not a struct"),
    };
    let mut view = MoveBorrowedRustVecOfStructMut { inner: Vec::new(), capacity: 0, type_: info };
    view.reserve_exact(3);
    assert_eq!(view.capacity, 3);
    for k in 0..3u64 {
        view.push(MoveStruct { fields: vec![AnyValue::U64(k), AnyValue::Bool(true)] });
    }
    assert_eq!(view.capacity, 3);
    view.push(MoveStruct { fields: vec![AnyValue::U64(9), AnyValue::Bool(false)] });
    assert_eq!(view.capacity, 6);
    let last = view.pop_into();
    assert!(matches!(last.fields[0], AnyValue::U64(9)));
    assert_eq!(view.inner.len(), 3);
}

#[test]
fn replace_returns_the_old_element() {
    let t = prim(TypeDesc::U8);
    let mut v = empty(&t);
    for k in [1u8, 2, 3] {
        push_back(&t, &mut v, AnyValue::U8(k));
    }
    let old = replace(&t, &mut v, 1, AnyValue::U8(9));
    assert!(matches!(old, AnyValue::U8(2)));
    assert_eq!(u8_at(&t, &v, 0), 1);
    assert_eq!(u8_at(&t, &v, 1), 9);
    assert_eq!(u8_at(&t, &v, 2), 3);
    assert_eq!(length(&t, &v), 3);
}

#[test]
fn replace_struct_element() {
    let t = pair_type(16);
    let mut v = empty(&t);
    push_back(&t, &mut v, pair(1, true));
    let old = replace(&t, &mut v, 0, pair(5, false));
    match old {
        AnyValue::Struct(s) => assert!(matches!(s.fields[0], AnyValue::U64(1))),
        _ => panic!("not a struct"),
    }
    match borrow(&t, &v, 0) {
        BorrowedTypedMoveValue::Struct(_, s) => assert!(matches!(s.fields[0], AnyValue::U64(5))),
        _ => panic!("not a struct"),
    }
}

#[test]
fn mutable_view_hands_the_vector_back_unchanged() {
    let t = prim(TypeDesc::U64);
    let mut v = empty(&t);
    push_back(&t, &mut v, AnyValue::U64(4));
    let view = TypedMoveBorrowedRustVecMut::new(&t, v);
    let v = view.finish();
    assert_eq!(v.length, 1);
    assert_eq!(v.capacity, 4);
    match &v.ptr {
        ElementBuffer::U64(b) => assert_eq!(b, &vec![4u64]),
        _ => panic!("buffer of another kind"),
    }
}

#[test]
fn vector_view_carries_the_element_type() {
    let inner = prim(TypeDesc::U16);
    let t = vec_of(prim(TypeDesc::U16));
    let mut v = empty(&t);
    push_back(&t, &mut v, AnyValue::Vector(empty(&inner)));
    let v = v;
    let view = TypedMoveBorrowedRustVecMut::new(&t, v);
    match &view {
        TypedMoveBorrowedRustVecMut::Vector(et, _) => assert_eq!(et.type_desc, TypeDesc::U16),
        _ => panic!("not a vector view"),
    }
    let v = view.finish();
    assert_eq!(length(&t, &v), 1);
}

#[test]
fn reference_vectors_of_unequal_length_differ() {
    let t = MoveType {
        name: String::new(),
        type_desc: TypeDesc::Reference,
        type_info: TypeInfo::Reference(move_native::rt_types::ReferenceTypeInfo {
            element_type: Box::new(prim(TypeDesc::U8)),
        }),
    };
    let mut a = empty(&t);
    let b = empty(&t);
    push_back(&t, &mut a, AnyValue::Reference(move_native::rt_types::MoveUntypedReference(64)));
    assert!(!cmp_eq(&t, &a, &b));
}
