use bucket_store::database::bucket::descriptor::BucketDescription;
use bucket_store::database::bucket::document::field::descriptor::FieldDescriptor;
use bucket_store::database::bucket::document::field::fieldtype::FieldType;
use bucket_store::database::bucket::document::field::Field;
use bucket_store::database::bucket::document::Document;
use bucket_store::error::DbError;

fn point_schema() -> BucketDescription {
    BucketDescription::new(vec![
        FieldDescriptor::new("x", FieldType::Int32),
        FieldDescriptor::new("y", FieldType::Int32),
    ])
}

#[test]
fn document_that_fits_is_accepted() {
    let doc = Document::new(vec![Field::new("x", 1i32).unwrap(), Field::new("y", 2i32).unwrap()]);
    assert_eq!(point_schema().validate(&doc), Ok(()));
}

#[test]
fn order_of_fields_is_free() {
    let doc = Document::new(vec![Field::new("y", 2i32).unwrap(), Field::new("x", 1i32).unwrap()]);
    assert_eq!(point_schema().validate(&doc), Ok(()));
}

#[test]
fn too_few_fields_fail_with_arity() {
    let doc = Document::new(vec![Field::new("x", 1i32).unwrap()]);
    assert_eq!(
        point_schema().validate(&doc),
        Err(DbError::SchemaArity { expected: 2, actual: 1 })
    );
}

#[test]
fn one_field_too_many_fails_with_arity() {
    let doc = Document::new(vec![
        Field::new("x", 1i32).unwrap(),
        Field::new("y", 2i32).unwrap(),
        Field::new("z", 3i32).unwrap(),
    ]);
    assert_eq!(
        point_schema().validate(&doc),
        Err(DbError::SchemaArity { expected: 2, actual: 3 })
    );
}

#[test]
fn undeclared_field_fails_with_its_name() {
    let doc = Document::new(vec![Field::new("x", 1i32).unwrap(), Field::new("z", 2i32).unwrap()]);
    assert_eq!(
        point_schema().validate(&doc),
        Err(DbError::SchemaFieldUnknown { name: b"z\0".to_vec() })
    );
}

#[test]
fn first_undeclared_field_is_reported() {
    let doc = Document::new(vec![Field::new("q", 1i32).unwrap(), Field::new("z", 2i32).unwrap()]);
    assert_eq!(
        point_schema().validate(&doc),
        Err(DbError::SchemaFieldUnknown { name: b"q\0".to_vec() })
    );
}

#[test]
fn field_of_another_type_is_undeclared() {
    let doc = Document::new(vec![Field::new("x", 1i32).unwrap(), Field::new("y", 2i64).unwrap()]);
    assert_eq!(
        point_schema().validate(&doc),
        Err(DbError::SchemaFieldUnknown { name: b"y\0".to_vec() })
    );
}

#[test]
fn repeated_field_is_not_refused() {
    let doc = Document::new(vec![Field::new("x", 1i32).unwrap(), Field::new("x", 2i32).unwrap()]);
    assert_eq!(point_schema().validate(&doc), Ok(()));
}

#[test]
fn empty_document_fits_the_empty_schema() {
    let schema = BucketDescription::new(vec![]);
    assert_eq!(schema.validate(&Document::new(vec![])), Ok(()));
    assert_eq!(
        schema.validate(&Document::new(vec![Field::new("x", 1i32).unwrap()])),
        Err(DbError::SchemaArity { expected: 0, actual: 1 })
    );
}

#[test]
fn declares_field_looks_at_every_descriptor() {
    let schema = point_schema();
    assert!(schema.declares_field(&Field::new("y", 0i32).unwrap()));
    assert!(!schema.declares_field(&Field::new("y", 0u32).unwrap()));
    assert!(!schema.declares_field(&Field::new("w", 0i32).unwrap()));
}

#[test]
fn schema_bytes_are_the_list_of_its_descriptors() {
    let schema = BucketDescription::new(vec![FieldDescriptor::new("x", FieldType::Text)]);
    let bytes = schema.serialize().unwrap();
    let expected: Vec<u8> =
        vec![1, 0, 0, 0, 0, 0, 0, 0, 1, 0, 0, 0, 0, 0, 0, 0, b'x', 2, 0, 0, 0];
    assert_eq!(bytes, expected);
}

#[test]
fn schema_round_trips() {
    let schema = BucketDescription::new(vec![
        FieldDescriptor::new("first_name", FieldType::Text),
        FieldDescriptor::new("id", FieldType::Uuid),
        FieldDescriptor::new("score", FieldType::Float64),
    ]);
    let bytes = schema.serialize().unwrap();
    assert_eq!(BucketDescription::deserialize(&bytes).unwrap(), schema);
    assert_eq!(schema.clone(), schema);
    let empty = BucketDescription::new(vec![]);
    assert_eq!(BucketDescription::deserialize(&empty.serialize().unwrap()).unwrap(), empty);
}

#[test]
fn schema_decoding_rejects_what_is_no_schema() {
    assert!(matches!(BucketDescription::deserialize(&[]), Err(DbError::CodecFailure(_))));
    let unknown_type: Vec<u8> =
        vec![1, 0, 0, 0, 0, 0, 0, 0, 1, 0, 0, 0, 0, 0, 0, 0, b'x', 99, 0, 0, 0];
    assert!(matches!(BucketDescription::deserialize(&unknown_type), Err(DbError::CodecFailure(_))));
    let zero_in_name: Vec<u8> =
        vec![1, 0, 0, 0, 0, 0, 0, 0, 1, 0, 0, 0, 0, 0, 0, 0, 0, 2, 0, 0, 0];
    assert!(matches!(BucketDescription::deserialize(&zero_in_name), Err(DbError::CodecFailure(_))));
}
