use move_native::rt_types::{
    type_is_ref_free, type_is_wf, AnyValue, ElementBuffer, MoveStruct, MoveType,
    MoveUntypedVector, ReferenceTypeInfo, StructFieldInfo, StructTypeInfo, TypeDesc, TypeInfo,
    VectorTypeInfo,
};
use move_native::validate::{
    pushes_fit_from, struct_matches, value_has_type, value_is_encodable, vector_has_type,
    vector_is_encodable,
};
use move_native::vector::{empty, push_back};

fn prim(d: TypeDesc) -> MoveType {
    MoveType { name: String::new(), type_desc: d, type_info: TypeInfo::Nothing }
}

fn vec_of(et: MoveType) -> MoveType {
    MoveType {
        name: String::new(),
        type_desc: TypeDesc::Vector,
        type_info: TypeInfo::Vector(VectorTypeInfo { element_type: Box::new(et) }),
    }
}

fn ref_of(et: MoveType) -> MoveType {
    MoveType {
        name: String::new(),
        type_desc: TypeDesc::Reference,
        type_info: TypeInfo::Reference(ReferenceTypeInfo { element_type: Box::new(et) }),
    }
}

fn struct_of(fields: Vec<MoveType>, size: u64, alignment: u64) -> MoveType {
    MoveType {
        name: String::from("S"),
        type_desc: TypeDesc::Struct,
        type_info: TypeInfo::Struct(StructTypeInfo {
            field_array: fields
                .into_iter()
                .map(|t| StructFieldInfo { type_: t, offset: 0, name: String::from("f") })
                .collect(),
            size,
            alignment,
        }),
    }
}

#[test]
fn struct_layouts_must_be_sized_and_aligned() {
    assert!(type_is_wf(&struct_of(vec![prim(TypeDesc::U8)], 1, 1)));
    assert!(!type_is_wf(&struct_of(vec![prim(TypeDesc::U8)], 0, 1)));
    assert!(!type_is_wf(&struct_of(vec![prim(TypeDesc::U8)], 4, 0)));
    assert!(!type_is_wf(&struct_of(vec![prim(TypeDesc::U8)], 4, 3)));
    assert!(type_is_wf(&struct_of(vec![prim(TypeDesc::U8)], 4, 4)));
}

#[test]
fn struct_fields_cannot_be_references() {
    assert!(!type_is_wf(&struct_of(vec![ref_of(prim(TypeDesc::U8))], 8, 8)));
    assert!(type_is_wf(&ref_of(prim(TypeDesc::U8))));
}

#[test]
fn tag_and_payload_must_agree() {
    let bad = MoveType { name: String::new(), type_desc: TypeDesc::Vector, type_info: TypeInfo::Nothing };
    assert!(!type_is_wf(&bad));
    assert!(!type_is_wf(&vec_of(bad)));
}

#[test]
fn reference_free_types() {
    assert!(type_is_ref_free(&vec_of(prim(TypeDesc::U64))));
    assert!(!type_is_ref_free(&vec_of(ref_of(prim(TypeDesc::U64)))));
    assert!(!type_is_ref_free(&struct_of(vec![vec_of(ref_of(prim(TypeDesc::U8)))], 24, 8)));
}

#[test]
fn vectors_must_match_their_element_type() {
    let t = prim(TypeDesc::U16);
    let mut v = empty(&t);
    push_back(&t, &mut v, AnyValue::U16(1));
    assert!(vector_has_type(&t, &v));
    assert!(!vector_has_type(&prim(TypeDesc::U32), &v));
    let short = MoveUntypedVector { ptr: ElementBuffer::U16(vec![1, 2]), capacity: 2, length: 3 };
    assert!(!vector_has_type(&t, &short));
    let over = MoveUntypedVector { ptr: ElementBuffer::U16(vec![1, 2]), capacity: 1, length: 2 };
    assert!(!vector_has_type(&t, &over));
    let huge = MoveUntypedVector { ptr: ElementBuffer::U16(vec![]), capacity: u64::MAX / 2, length: 0 };
    assert!(!vector_has_type(&t, &huge));
}

#[test]
fn nested_values_are_checked_throughout() {
    let inner = prim(TypeDesc::U8);
    let t = vec_of(prim(TypeDesc::U8));
    let good = MoveUntypedVector { ptr: ElementBuffer::U8(vec![1]), capacity: 1, length: 1 };
    let bad = MoveUntypedVector { ptr: ElementBuffer::U8(vec![1]), capacity: 1, length: 0 };
    let outer_ok = MoveUntypedVector { ptr: ElementBuffer::Vector(vec![good]), capacity: 1, length: 1 };
    let outer_bad = MoveUntypedVector { ptr: ElementBuffer::Vector(vec![bad]), capacity: 1, length: 1 };
    assert!(vector_has_type(&t, &outer_ok));
    assert!(!vector_has_type(&t, &outer_bad));
    assert!(value_has_type(&inner, &AnyValue::U8(3)));
    assert!(!value_has_type(&inner, &AnyValue::Bool(true)));
}

#[test]
fn struct_values_need_every_field() {
    let t = struct_of(vec![prim(TypeDesc::U8), prim(TypeDesc::Bool)], 2, 1);
    let si = match &t.type_info {
        TypeInfo::Struct(si) => si,
        _ => panic!("not a struct"),
    };
    assert!(struct_matches(si, &MoveStruct { fields: vec![AnyValue::U8(1), AnyValue::Bool(false)] }));
    assert!(!struct_matches(si, &MoveStruct { fields: vec![AnyValue::U8(1)] }));
    assert!(!struct_matches(si, &MoveStruct { fields: vec![AnyValue::Bool(false), AnyValue::U8(1)] }));
}

#[test]
fn copy_capacity_precondition() {
    assert!(pushes_fit_from(0, 100, 8));
    assert!(pushes_fit_from(0, 0, u64::MAX));
    assert!(pushes_fit_from(0, 1, u64::MAX / 2));
    assert!(!pushes_fit_from(0, 1, u64::MAX / 2 + 1));
    assert!(!pushes_fit_from(0, 2, u64::MAX / 2));
    assert!(!pushes_fit_from(u64::MAX / 4, 0, 8));
}

#[test]
fn encodable_values() {
    let t = vec_of(prim(TypeDesc::U8));
    let v = MoveUntypedVector { ptr: ElementBuffer::U8(vec![1, 2]), capacity: 2, length: 2 };
    assert!(value_is_encodable(&t, &AnyValue::Vector(v)));
    let r = ref_of(prim(TypeDesc::U8));
    assert!(!value_is_encodable(&r, &AnyValue::Reference(move_native::rt_types::MoveUntypedReference(0))));
    let refs = MoveUntypedVector { ptr: ElementBuffer::Reference(vec![]), capacity: 0, length: 0 };
    assert!(vector_is_encodable(&r, &refs));
    let s = struct_of(vec![vec_of(prim(TypeDesc::U8))], 24, 8);
    let inner = MoveUntypedVector { ptr: ElementBuffer::U8(vec![]), capacity: 0, length: 0 };
    assert!(value_is_encodable(&s, &AnyValue::Struct(MoveStruct { fields: vec![AnyValue::Vector(inner)] })));
}
