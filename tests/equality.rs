use move_native::rt::{address_eq, struct_cmp_eq};
use move_native::rt_types::{
    AnyValue, MoveAddress, MoveStruct, MoveType, StructFieldInfo, StructTypeInfo, TypeDesc,
    TypeInfo, VectorTypeInfo,
};
use move_native::vector::{cmp_eq, empty, push_back};

fn prim(d: TypeDesc) -> MoveType {
    MoveType { name: String::new(), type_desc: d, type_info: TypeInfo::Nothing }
}

fn vec_of(et: MoveType) -> MoveType {
    MoveType {
        name: String::new(),
        type_desc: TypeDesc::Vector,
        type_info: TypeInfo::Vector(VectorTypeInfo { element_type: Box::new(et) }),
    }
}

fn holder_type() -> MoveType {
    MoveType {
        name: String::from("Holder"),
        type_desc: TypeDesc::Struct,
        type_info: TypeInfo::Struct(StructTypeInfo {
            field_array: vec![
                StructFieldInfo { type_: prim(TypeDesc::Address), offset: 0, name: String::from("owner") },
                StructFieldInfo { type_: vec_of(prim(TypeDesc::U32)), offset: 32, name: String::from("items") },
            ],
            size: 56,
            alignment: 8,
        }),
    }
}

fn u32s(xs: &[u32]) -> move_native::rt_types::MoveUntypedVector {
    let t = prim(TypeDesc::U32);
    let mut v = empty(&t);
    for x in xs {
        push_back(&t, &mut v, AnyValue::U32(*x));
    }
    v
}

fn holder(owner: u8, items: &[u32]) -> MoveStruct {
    MoveStruct { fields: vec![AnyValue::Address(MoveAddress([owner; 32])), AnyValue::Vector(u32s(items))] }
}

#[test]
fn vector_equals_itself() {
    let t = prim(TypeDesc::U32);
    let v = u32s(&[1, 2, 3]);
    assert!(cmp_eq(&t, &v, &v));
}

#[test]
fn equality_ignores_capacity() {
    let t = prim(TypeDesc::U32);
    let a = u32s(&[1, 2, 3]);
    let mut b = u32s(&[1, 2, 3]);
    b.capacity = 100;
    assert!(cmp_eq(&t, &a, &b));
    assert!(cmp_eq(&t, &b, &a));
}

#[test]
fn unequal_lengths_differ() {
    let t = prim(TypeDesc::U32);
    let a = u32s(&[1, 2]);
    let b = u32s(&[1, 2, 3]);
    assert!(!cmp_eq(&t, &a, &b));
    assert!(!cmp_eq(&t, &b, &a));
}

#[test]
fn one_differing_element_differs() {
    let t = prim(TypeDesc::U32);
    let a = u32s(&[1, 2, 3]);
    let b = u32s(&[1, 5, 3]);
    assert!(!cmp_eq(&t, &a, &b));
    assert!(!cmp_eq(&t, &b, &a));
}

#[test]
fn struct_fields_are_compared_in_order() {
    let t = holder_type();
    assert!(struct_cmp_eq(&t, &holder(1, &[4, 5]), &holder(1, &[4, 5])));
    assert!(!struct_cmp_eq(&t, &holder(1, &[4, 5]), &holder(2, &[4, 5])));
    assert!(!struct_cmp_eq(&t, &holder(1, &[4, 5]), &holder(1, &[4])));
}

#[test]
fn vectors_of_structs_compare_by_fields() {
    let t = holder_type();
    let mut a = empty(&t);
    let mut b = empty(&t);
    push_back(&t, &mut a, AnyValue::Struct(holder(3, &[9])));
    push_back(&t, &mut b, AnyValue::Struct(holder(3, &[9])));
    assert!(cmp_eq(&t, &a, &b));
    push_back(&t, &mut a, AnyValue::Struct(holder(3, &[9])));
    push_back(&t, &mut b, AnyValue::Struct(holder(3, &[8])));
    assert!(!cmp_eq(&t, &a, &b));
}

#[test]
fn nested_vectors_compare_element_wise() {
    let inner = prim(TypeDesc::U32);
    let mid = vec_of(prim(TypeDesc::U32));
    let mut a = empty(&mid);
    let mut b = empty(&mid);
    push_back(&mid, &mut a, AnyValue::Vector(u32s(&[1])));
    push_back(&mid, &mut b, AnyValue::Vector(u32s(&[1])));
    assert!(cmp_eq(&mid, &a, &b));
    push_back(&mid, &mut a, AnyValue::Vector(u32s(&[])));
    push_back(&mid, &mut b, AnyValue::Vector(u32s(&[0])));
    assert!(!cmp_eq(&mid, &a, &b));
    let _ = inner;
}

#[test]
fn addresses_compare_every_byte() {
    let a = MoveAddress([7; 32]);
    let mut raw = [7u8; 32];
    raw[31] = 8;
    let b = MoveAddress(raw);
    assert!(address_eq(&a, &a));
    assert!(!address_eq(&a, &b));
}
