use bucket_store::database::bucket::document::field::descriptor::FieldDescriptor;
use bucket_store::database::bucket::document::field::fieldtype::{
    ConvertFieldType, FieldType, Float32Bits, Float64Bits,
};
use bucket_store::database::bucket::document::field::{is_valid_name, to_c_string, Field};
use bucket_store::database::bucket::document::Document;
use bucket_store::error::DbError;
use bucket_store::utils::bytes::{append_bytes, append_zeros, bytes_equal, copy_range, has_zero};
use bucket_store::utils::numbers::round_to_multiple;

#[test]
fn round_to_multiple_of_eight() {
    assert_eq!(round_to_multiple(0, 8), 0);
    assert_eq!(round_to_multiple(1, 8), 8);
    assert_eq!(round_to_multiple(8, 8), 8);
    assert_eq!(round_to_multiple(9, 8), 16);
    assert_eq!(round_to_multiple(17, 8), 24);
}

#[test]
fn round_to_multiple_stays_in_bounds() {
    for n in 0..200usize {
        for m in 1..20usize {
            let r = round_to_multiple(n, m);
            assert_eq!(r % m, 0);
            assert!(r >= n);
            assert!(r < n + m);
        }
    }
}

#[test]
fn round_to_multiple_other_multiples() {
    assert_eq!(round_to_multiple(10, 1), 10);
    assert_eq!(round_to_multiple(10, 3), 12);
    assert_eq!(round_to_multiple(4096, 4096), 4096);
    assert_eq!(round_to_multiple(4097, 4096), 8192);
}

#[test]
fn byte_helpers() {
    assert!(bytes_equal(b"abc", b"abc"));
    assert!(!bytes_equal(b"abc", b"abd"));
    assert!(!bytes_equal(b"abc", b"ab"));
    assert!(bytes_equal(b"", b""));
    assert!(has_zero(b"a\0b"));
    assert!(!has_zero(b"ab"));
    let mut v = vec![1u8];
    append_bytes(&mut v, &[2, 3]);
    append_zeros(&mut v, 2);
    assert_eq!(v, vec![1, 2, 3, 0, 0]);
    assert_eq!(copy_range(&v, 1, 3), vec![2, 3]);
}

#[test]
fn scalars_are_little_endian() {
    assert_eq!(ConvertFieldType::serialize(&1i32), Some(vec![1, 0, 0, 0]));
    assert_eq!(ConvertFieldType::serialize(&-2i16), Some(vec![0xfe, 0xff]));
    assert_eq!(ConvertFieldType::serialize(&0x0102u16), Some(vec![2, 1]));
    assert_eq!(ConvertFieldType::serialize(&0x01020304u32), Some(vec![4, 3, 2, 1]));
    assert_eq!(
        ConvertFieldType::serialize(&0x0102030405060708u64),
        Some(vec![8, 7, 6, 5, 4, 3, 2, 1])
    );
    assert_eq!(
        ConvertFieldType::serialize(&-1i64),
        Some(vec![0xff, 0xff, 0xff, 0xff, 0xff, 0xff, 0xff, 0xff])
    );
    assert_eq!(ConvertFieldType::serialize(&-1i8), Some(vec![0xff]));
    assert_eq!(ConvertFieldType::serialize(&7u8), Some(vec![7]));
}

#[test]
fn scalars_round_trip() {
    for v in [i8::MIN, -1, 0, 1, i8::MAX] {
        let b = ConvertFieldType::serialize(&v).unwrap();
        assert_eq!(<i8 as ConvertFieldType<i8>>::deserialize(&b), Some(v));
    }
    for v in [i16::MIN, -1, 0, 1, i16::MAX] {
        let b = ConvertFieldType::serialize(&v).unwrap();
        assert_eq!(<i16 as ConvertFieldType<i16>>::deserialize(&b), Some(v));
    }
    for v in [i32::MIN, -1, 0, 1, i32::MAX] {
        let b = ConvertFieldType::serialize(&v).unwrap();
        assert_eq!(<i32 as ConvertFieldType<i32>>::deserialize(&b), Some(v));
    }
    for v in [i64::MIN, -1, 0, 1, i64::MAX] {
        let b = ConvertFieldType::serialize(&v).unwrap();
        assert_eq!(<i64 as ConvertFieldType<i64>>::deserialize(&b), Some(v));
    }
    for v in [0u8, 1, u8::MAX] {
        let b = ConvertFieldType::serialize(&v).unwrap();
        assert_eq!(<u8 as ConvertFieldType<u8>>::deserialize(&b), Some(v));
    }
    for v in [0u16, 1, 0xabcd, u16::MAX] {
        let b = ConvertFieldType::serialize(&v).unwrap();
        assert_eq!(<u16 as ConvertFieldType<u16>>::deserialize(&b), Some(v));
    }
    for v in [0u32, 1, 0xdeadbeef, u32::MAX] {
        let b = ConvertFieldType::serialize(&v).unwrap();
        assert_eq!(<u32 as ConvertFieldType<u32>>::deserialize(&b), Some(v));
    }
    for v in [0u64, 1, 0xdeadbeefcafef00d, u64::MAX] {
        let b = ConvertFieldType::serialize(&v).unwrap();
        assert_eq!(<u64 as ConvertFieldType<u64>>::deserialize(&b), Some(v));
    }
}

#[test]
fn scalars_of_the_wrong_length_have_no_value() {
    assert_eq!(<i32 as ConvertFieldType<i32>>::deserialize(&vec![1, 0, 0]), None);
    assert_eq!(<i32 as ConvertFieldType<i32>>::deserialize(&vec![1, 0, 0, 0, 0]), None);
    assert_eq!(<u8 as ConvertFieldType<u8>>::deserialize(&vec![]), None);
    assert_eq!(<u64 as ConvertFieldType<u64>>::deserialize(&vec![0; 7]), None);
    assert_eq!(<i16 as ConvertFieldType<i16>>::deserialize(&vec![0; 3]), None);
    assert_eq!(<i8 as ConvertFieldType<i8>>::deserialize(&vec![0; 2]), None);
}

#[test]
fn floats_are_held_by_their_bits() {
    let x = Float32Bits { bits: 1.5f32.to_bits() };
    let b = ConvertFieldType::serialize(&x).unwrap();
    assert_eq!(b, 1.5f32.to_le_bytes().to_vec());
    let back = <Float32Bits as ConvertFieldType<Float32Bits>>::deserialize(&b).unwrap();
    assert_eq!(f32::from_bits(back.bits), 1.5f32);
    let y = Float64Bits { bits: (-2.25f64).to_bits() };
    let b = ConvertFieldType::serialize(&y).unwrap();
    assert_eq!(b, (-2.25f64).to_le_bytes().to_vec());
    let back = <Float64Bits as ConvertFieldType<Float64Bits>>::deserialize(&b).unwrap();
    assert_eq!(f64::from_bits(back.bits), -2.25f64);
    assert_eq!(ConvertFieldType::get_type(&x), FieldType::Float32);
    assert_eq!(ConvertFieldType::get_type(&y), FieldType::Float64);
    assert_eq!(<Float32Bits as ConvertFieldType<Float32Bits>>::deserialize(&vec![0; 8]), None);
}

#[test]
fn text_round_trips_and_rejects_bad_utf8() {
    let s = "Hagsér";
    let b = ConvertFieldType::serialize(&s).unwrap();
    assert_eq!(b, s.as_bytes().to_vec());
    assert_eq!(<&str as ConvertFieldType<&str>>::deserialize(&b), Some(s));
    let owned = String::from("anton@example.se");
    let b = ConvertFieldType::serialize(&owned).unwrap();
    assert_eq!(<String as ConvertFieldType<String>>::deserialize(&b), Some(owned.clone()));
    let b = ConvertFieldType::serialize(&&owned).unwrap();
    assert_eq!(<&String as ConvertFieldType<String>>::deserialize(&b), Some(owned));
    assert_eq!(<&str as ConvertFieldType<&str>>::deserialize(&vec![0xff, 0xfe]), None);
    assert_eq!(<String as ConvertFieldType<String>>::deserialize(&vec![0xc3]), None);
}

#[test]
fn bytes_round_trip() {
    let raw: &[u8] = &[0, 1, 2, 255];
    let b = ConvertFieldType::serialize(&raw).unwrap();
    assert_eq!(b, vec![0, 1, 2, 255]);
    assert_eq!(<&[u8] as ConvertFieldType<&[u8]>>::deserialize(&b), Some(raw));
    let v = vec![9u8, 8];
    let b = ConvertFieldType::serialize(&&v).unwrap();
    assert_eq!(<&Vec<u8> as ConvertFieldType<&Vec<u8>>>::deserialize(&b), Some(&v[..]));
    assert_eq!(ConvertFieldType::get_type(&raw), FieldType::Bytes);
}

#[test]
fn uuid_round_trips_and_needs_sixteen_bytes() {
    let bytes: [u8; 16] = [
        0xa1, 0xa2, 0xa3, 0xa4, 0xb1, 0xb2, 0xc1, 0xc2, 0xd1, 0xd2, 0xd3, 0xd4, 0xd5, 0xd6, 0xd7,
        0xd8,
    ];
    let id = uuid::Uuid::from_bytes(bytes);
    let b = ConvertFieldType::serialize(&id).unwrap();
    assert_eq!(b, bytes.to_vec());
    assert_eq!(<uuid::Uuid as ConvertFieldType<uuid::Uuid>>::deserialize(&b), Some(id));
    assert_eq!(<uuid::Uuid as ConvertFieldType<uuid::Uuid>>::deserialize(&vec![0; 15]), None);
    assert_eq!(<uuid::Uuid as ConvertFieldType<uuid::Uuid>>::deserialize(&vec![0; 17]), None);
    assert_eq!(ConvertFieldType::get_type(&id), FieldType::Uuid);
}

#[test]
fn tags_are_stable() {
    let all = [
        FieldType::Uuid,
        FieldType::Bytes,
        FieldType::Text,
        FieldType::Int8,
        FieldType::Int16,
        FieldType::Int32,
        FieldType::Int64,
        FieldType::UInt8,
        FieldType::UInt16,
        FieldType::UInt32,
        FieldType::UInt64,
        FieldType::Float32,
        FieldType::Float64,
    ];
    for (i, t) in all.iter().enumerate() {
        assert_eq!(t.tag(), i as u32);
        assert_eq!(FieldType::from_tag(i as u32), Some(*t));
    }
    assert_eq!(FieldType::from_tag(13), None);
    assert_eq!(FieldType::from_tag(u32::MAX), None);
    assert_eq!(FieldType::Uuid.width(), Some(16));
    assert_eq!(FieldType::Text.width(), None);
    assert_eq!(FieldType::Bytes.width(), None);
    assert_eq!(FieldType::Int64.width(), Some(8));
    assert_eq!(FieldType::Float32.width(), Some(4));
}

#[test]
fn names_are_stored_as_c_strings() {
    assert!(is_valid_name("first_name"));
    assert!(is_valid_name(""));
    assert!(!is_valid_name("a\0b"));
    assert_eq!(to_c_string(b"ab"), vec![b'a', b'b', 0]);
    let f = Field::new("x", 1i32).unwrap();
    assert_eq!(f.get_key(), b"x\0");
    assert_eq!(*f.get_type(), FieldType::Int32);
    assert_eq!(f.get_data(), &[1, 0, 0, 0]);
    assert_eq!(f.get_value::<i32>(), Some(1));
    assert_eq!(f.get_value::<i64>(), None);
}

#[test]
fn field_of_bytes_takes_the_bytes() {
    let mut bytes = vec![1u8, 2, 3];
    let f = Field::new_bytes("data", &mut bytes).unwrap();
    assert!(bytes.is_empty());
    assert_eq!(f.get_key(), b"data\0");
    assert_eq!(*f.get_type(), FieldType::Bytes);
    assert_eq!(f.get_value::<&[u8]>(), Some(&[1u8, 2, 3][..]));
}

#[test]
fn field_from_parts_checks_the_name() {
    assert!(Field::from_parts(b"x\0".to_vec(), FieldType::Text, vec![]).is_some());
    assert!(Field::from_parts(b"x".to_vec(), FieldType::Text, vec![]).is_none());
    assert!(Field::from_parts(b"".to_vec(), FieldType::Text, vec![]).is_none());
    assert!(Field::from_parts(b"a\0b\0".to_vec(), FieldType::Text, vec![]).is_none());
    assert!(Field::from_parts(b"\0".to_vec(), FieldType::Text, vec![]).is_some());
    assert!(FieldDescriptor::from_parts(b"x\0".to_vec(), FieldType::Text).is_some());
    assert!(FieldDescriptor::from_parts(b"x\0\0".to_vec(), FieldType::Text).is_none());
}

#[test]
fn descriptor_matches_name_and_type() {
    let d = FieldDescriptor::new("x", FieldType::Int32);
    assert_eq!(d.get_key(), b"x\0");
    assert_eq!(*d.get_type(), FieldType::Int32);
    assert!(d.is_match(&Field::new("x", 1i32).unwrap()));
    assert!(!d.is_match(&Field::new("y", 1i32).unwrap()));
    assert!(!d.is_match(&Field::new("x", 1i64).unwrap()));
    assert!(!d.is_match(&Field::new("xx", 1i32).unwrap()));
}

#[test]
fn document_reads_the_first_field_of_a_name() {
    let doc = Document::new(vec![
        Field::new("a", 1i32).unwrap(),
        Field::new("b", "two").unwrap(),
        Field::new("a", 3i32).unwrap(),
    ]);
    assert_eq!(doc.len(), 3);
    assert_eq!(doc.get_fields().len(), 3);
    assert_eq!(doc.read_field("a").unwrap().get_value::<i32>(), Some(1));
    assert_eq!(doc.read_field("b").unwrap().get_value::<&str>(), Some("two"));
    assert!(doc.read_field("c").is_none());
    assert!(doc.read_field("a\0").is_none());
    assert!(doc.read_field("").is_none());
}

#[test]
fn document_bytes_are_the_list_of_its_fields() {
    let doc = Document::new(vec![Field::new("x", 1i32).unwrap()]);
    let bytes = doc.serialize().unwrap();
    let expected: Vec<u8> = vec![
        1, 0, 0, 0, 0, 0, 0, 0, // one field
        1, 0, 0, 0, 0, 0, 0, 0, b'x', // name
        5, 0, 0, 0, // Int32
        4, 0, 0, 0, 0, 0, 0, 0, 1, 0, 0, 0, // payload
    ];
    assert_eq!(bytes, expected);
}

#[test]
fn document_round_trips() {
    let doc = Document::new(vec![
        Field::new("first_name", "Anton").unwrap(),
        Field::new("last_name", "Hagsér").unwrap(),
        Field::new("age", 33u8).unwrap(),
        Field::new("blob", &[0u8, 1, 2][..]).unwrap(),
    ]);
    let bytes = doc.serialize().unwrap();
    let back = Document::deserialize(&bytes).unwrap();
    assert_eq!(back, doc);
    assert_eq!(back.clone(), doc);
    let empty = Document::new(vec![]);
    let bytes = empty.serialize().unwrap();
    assert_eq!(bytes, vec![0; 8]);
    assert_eq!(Document::deserialize(&bytes).unwrap(), empty);
}

#[test]
fn document_decoding_rejects_what_is_no_document() {
    assert!(matches!(Document::deserialize(&[]), Err(DbError::CodecFailure(_))));
    assert!(matches!(Document::deserialize(&[1, 0, 0]), Err(DbError::CodecFailure(_))));
    let unknown_type: Vec<u8> = vec![
        1, 0, 0, 0, 0, 0, 0, 0, 1, 0, 0, 0, 0, 0, 0, 0, b'x', 13, 0, 0, 0, 0, 0, 0, 0, 0, 0, 0,
        0,
    ];
    assert!(matches!(Document::deserialize(&unknown_type), Err(DbError::CodecFailure(_))));
    let zero_in_name: Vec<u8> = vec![
        1, 0, 0, 0, 0, 0, 0, 0, 2, 0, 0, 0, 0, 0, 0, 0, b'x', 0, 2, 0, 0, 0, 0, 0, 0, 0, 0, 0,
        0, 0,
    ];
    assert!(matches!(Document::deserialize(&zero_in_name), Err(DbError::CodecFailure(_))));
    let truncated: Vec<u8> = vec![2, 0, 0, 0, 0, 0, 0, 0, 1, 0, 0, 0, 0, 0, 0, 0, b'x'];
    assert!(matches!(Document::deserialize(&truncated), Err(DbError::CodecFailure(_))));
}
