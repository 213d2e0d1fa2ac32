use move_native::conv::rust_vec_to_move_byte_vec;
use move_native::rt::struct_cmp_eq;
use move_native::rt_types::{
    AnyValue, ElementBuffer, MoveAddress, MoveSigner, MoveStruct, MoveType, StructFieldInfo,
    StructTypeInfo, TypeDesc, TypeInfo, VectorTypeInfo, U256,
};
use move_native::serialization::{deserialize, serialize};
use move_native::vector::{cmp_eq, empty, length, push_back};

fn prim(d: TypeDesc) -> MoveType {
    MoveType { name: String::new(), type_desc: d, type_info: TypeInfo::Nothing }
}

fn vec_of(et: MoveType) -> MoveType {
    MoveType {
        name: String::new(),
        type_desc: TypeDesc::Vector,
        type_info: TypeInfo::Vector(VectorTypeInfo { element_type: Box::new(et) }),
    }
}

fn record_type() -> MoveType {
    MoveType {
        name: String::from("Record"),
        type_desc: TypeDesc::Struct,
        type_info: TypeInfo::Struct(StructTypeInfo {
            field_array: vec![
                StructFieldInfo { type_: prim(TypeDesc::U64), offset: 0, name: String::from("id") },
                StructFieldInfo {
                    type_: vec_of(prim(TypeDesc::U8)),
                    offset: 8,
                    name: String::from("data"),
                },
            ],
            size: 32,
            alignment: 8,
        }),
    }
}

fn byte_vector(bytes: &[u8]) -> AnyValue {
    let t = prim(TypeDesc::U8);
    let mut v = empty(&t);
    for b in bytes {
        push_back(&t, &mut v, AnyValue::U8(*b));
    }
    AnyValue::Vector(v)
}

fn encode(t: &MoveType, v: &AnyValue) -> Vec<u8> {
    serialize(t, v).ptr
}

#[test]
fn record_encodes_fields_in_order() {
    let t = record_type();
    let v = AnyValue::Struct(MoveStruct { fields: vec![AnyValue::U64(7), byte_vector(&[1, 2, 3])] });
    let bytes = encode(&t, &v);
    assert_eq!(bytes, vec![7, 0, 0, 0, 0, 0, 0, 0, 3, 0, 0, 0, 1, 2, 3]);
    let back = deserialize(&t, &rust_vec_to_move_byte_vec(bytes)).expect("decodes");
    match (&back, &v) {
        (AnyValue::Struct(a), AnyValue::Struct(b)) => assert!(struct_cmp_eq(&t, a, b)),
        _ => panic!("not a struct"),
    }
    match &back {
        AnyValue::Struct(s) => {
            assert!(matches!(s.fields[0], AnyValue::U64(7)));
            match &s.fields[1] {
                AnyValue::Vector(d) => match &d.ptr {
                    ElementBuffer::U8(b) => assert_eq!(b, &vec![1u8, 2, 3]),
                    _ => panic!("not bytes"),
                },
                _ => panic!("not a vector"),
            }
        }
        _ => panic!("not a struct"),
    }
}

#[test]
fn integers_are_little_endian() {
    assert_eq!(encode(&prim(TypeDesc::U16), &AnyValue::U16(0x1234)), vec![0x34, 0x12]);
    assert_eq!(
        encode(&prim(TypeDesc::U32), &AnyValue::U32(0x0102_0304)),
        vec![4, 3, 2, 1]
    );
    assert_eq!(
        encode(&prim(TypeDesc::U64), &AnyValue::U64(0x0102_0304_0506_0708)),
        vec![8, 7, 6, 5, 4, 3, 2, 1]
    );
    let mut expected = vec![0u8; 16];
    expected[0] = 0xff;
    expected[15] = 0x80;
    assert_eq!(
        encode(&prim(TypeDesc::U128), &AnyValue::U128((1u128 << 127) | 0xff)),
        expected
    );
    assert_eq!(encode(&prim(TypeDesc::U8), &AnyValue::U8(0x9c)), vec![0x9c]);
}

#[test]
fn u256_is_low_half_then_high_half() {
    let v = AnyValue::U256(U256 { lo: 1, hi: 2 });
    let bytes = encode(&prim(TypeDesc::U256), &v);
    assert_eq!(bytes.len(), 32);
    assert_eq!(bytes[0], 1);
    assert_eq!(bytes[16], 2);
    let back = deserialize(&prim(TypeDesc::U256), &rust_vec_to_move_byte_vec(bytes)).unwrap();
    assert!(matches!(back, AnyValue::U256(U256 { lo: 1, hi: 2 })));
}

#[test]
fn bools_are_one_byte() {
    assert_eq!(encode(&prim(TypeDesc::Bool), &AnyValue::Bool(true)), vec![1]);
    assert_eq!(encode(&prim(TypeDesc::Bool), &AnyValue::Bool(false)), vec![0]);
    let bad = deserialize(&prim(TypeDesc::Bool), &rust_vec_to_move_byte_vec(vec![2]));
    assert!(bad.is_none());
    let good = deserialize(&prim(TypeDesc::Bool), &rust_vec_to_move_byte_vec(vec![1]));
    assert!(matches!(good, Some(AnyValue::Bool(true))));
}

#[test]
fn addresses_and_signers_are_raw_bytes() {
    let mut raw = [0u8; 32];
    for (k, b) in raw.iter_mut().enumerate() {
        *b = k as u8 + 1;
    }
    let a = AnyValue::Address(MoveAddress(raw));
    assert_eq!(encode(&prim(TypeDesc::Address), &a), raw.to_vec());
    let s = AnyValue::Signer(MoveSigner(MoveAddress(raw)));
    let bytes = encode(&prim(TypeDesc::Signer), &s);
    assert_eq!(bytes, raw.to_vec());
    match deserialize(&prim(TypeDesc::Signer), &rust_vec_to_move_byte_vec(bytes)) {
        Some(AnyValue::Signer(MoveSigner(MoveAddress(b)))) => assert_eq!(b, raw),
        _ => panic!("not a signer"),
    }
}

#[test]
fn decoded_integers_match() {
    let back = deserialize(&prim(TypeDesc::U32), &rust_vec_to_move_byte_vec(vec![4, 3, 2, 1]));
    assert!(matches!(back, Some(AnyValue::U32(0x0102_0304))));
    let back = deserialize(&prim(TypeDesc::U8), &rust_vec_to_move_byte_vec(vec![0x9c]));
    assert!(matches!(back, Some(AnyValue::U8(0x9c))));
    let back = deserialize(&prim(TypeDesc::U16), &rust_vec_to_move_byte_vec(vec![0x34, 0x12]));
    assert!(matches!(back, Some(AnyValue::U16(0x1234))));
    let back = deserialize(
        &prim(TypeDesc::U64),
        &rust_vec_to_move_byte_vec(vec![8, 7, 6, 5, 4, 3, 2, 1]),
    );
    assert!(matches!(back, Some(AnyValue::U64(0x0102_0304_0506_0708))));
    let mut b = vec![0u8; 16];
    b[15] = 1;
    let back = deserialize(&prim(TypeDesc::U128), &rust_vec_to_move_byte_vec(b));
    assert!(matches!(back, Some(AnyValue::U128(x)) if x == 1u128 << 120));
}

#[test]
fn trailing_bytes_are_refused() {
    let t = prim(TypeDesc::U16);
    assert!(deserialize(&t, &rust_vec_to_move_byte_vec(vec![1, 2, 3])).is_none());
}

#[test]
fn short_input_is_refused() {
    let t = prim(TypeDesc::U64);
    assert!(deserialize(&t, &rust_vec_to_move_byte_vec(vec![1, 2, 3])).is_none());
    let r = record_type();
    assert!(deserialize(&r, &rust_vec_to_move_byte_vec(vec![7, 0, 0, 0, 0, 0, 0, 0, 3, 0, 0, 0, 1])).is_none());
}

#[test]
fn oversized_count_is_refused() {
    let big = MoveType {
        name: String::from("Big"),
        type_desc: TypeDesc::Struct,
        type_info: TypeInfo::Struct(StructTypeInfo {
            field_array: vec![StructFieldInfo {
                type_: prim(TypeDesc::U8),
                offset: 0,
                name: String::from("x"),
            }],
            size: 1 << 40,
            alignment: 1,
        }),
    };
    let t = vec_of(big);
    let bytes = vec![0xff, 0xff, 0xff, 0x7f];
    assert!(deserialize(&t, &rust_vec_to_move_byte_vec(bytes)).is_none());
}

#[test]
fn nested_vectors_round_trip() {
    let inner = prim(TypeDesc::U16);
    let mid = vec_of(prim(TypeDesc::U16));
    let t = vec_of(vec_of(prim(TypeDesc::U16)));
    let mut outer = empty(&mid);
    for n in 0..3u16 {
        let mut v = empty(&inner);
        for k in 0..n {
            push_back(&inner, &mut v, AnyValue::U16(k * 257));
        }
        push_back(&mid, &mut outer, AnyValue::Vector(v));
    }
    let value = AnyValue::Vector(outer);
    let bytes = encode(&t, &value);
    assert_eq!(bytes.len(), 4 + (4) + (4 + 2) + (4 + 4));
    let back = deserialize(&t, &rust_vec_to_move_byte_vec(bytes)).unwrap();
    match (&back, &value) {
        (AnyValue::Vector(a), AnyValue::Vector(b)) => {
            assert!(cmp_eq(&mid, a, b));
            assert_eq!(a.capacity, a.length);
        }
        _ => panic!("not a vector"),
    }
}

#[test]
fn struct_vector_round_trip_reserves_exactly() {
    let t = record_type();
    let vt = vec_of(record_type());
    let mut v = empty(&t);
    for k in 0..5u64 {
        let s = AnyValue::Struct(MoveStruct { fields: vec![AnyValue::U64(k), byte_vector(&[k as u8; 2])] });
        push_back(&t, &mut v, s);
    }
    assert_eq!(v.capacity, 8);
    let value = AnyValue::Vector(v);
    let bytes = encode(&vt, &value);
    let back = deserialize(&vt, &rust_vec_to_move_byte_vec(bytes)).unwrap();
    match (&back, &value) {
        (AnyValue::Vector(a), AnyValue::Vector(b)) => {
            assert_eq!(length(&t, a), 5);
            assert_eq!(a.capacity, 5);
            assert!(cmp_eq(&t, a, b));
        }
        _ => panic!("not a vector"),
    }
}

#[test]
fn empty_vector_is_a_zero_count() {
    let t = vec_of(prim(TypeDesc::U64));
    let v = AnyValue::Vector(empty(&prim(TypeDesc::U64)));
    assert_eq!(encode(&t, &v), vec![0, 0, 0, 0]);
}
