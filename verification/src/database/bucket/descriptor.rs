//! The schema of a bucket.
//!
//! A schema is an ordered list of field descriptors. A document fits it when
//! it has as many fields as the schema has descriptors and each of its
//! fields is declared by some descriptor; the order of the fields is free.
//! A schema is encoded by `bincode` as the list of its descriptors, each a
//! pair of the bare name and the number of the type.

use super::document::field::descriptor::{FieldDescriptor, FieldDescriptorView};
use super::document::field::fieldtype::{lemma_tag_round_trip, FieldType};
use super::document::field::{
    c_string, is_name, lemma_c_string, lemma_c_string_parts, to_c_string, FieldView,
};
use super::document::{lemma_bytes_deep_view, Document};
use crate::error::DbError;
use crate::utils::bytes::{copy_range, has_zero};
use vstd::prelude::*;
use vstd::slice::slice_to_vec;

verus! {

/// The bytes that `bincode` writes for a list of descriptors, each given as
/// its bare name and the number of its type; `None` where it refuses the
/// list.
pub uninterp spec fn bincode_schema(fields: Seq<(Seq<u8>, u32)>) -> Option<Seq<u8>>;

/// The list of descriptors that `bincode` reads from bytes; `None` where the
/// bytes hold no such list.
pub uninterp spec fn bincode_schema_read(bytes: Seq<u8>) -> Option<Seq<(Seq<u8>, u32)>>;

/// `bincode::serialize` on a list of (name, type number): the bytes of the
/// list. Reading those bytes with `bincode::deserialize` gives the list
/// back.
#[verifier::external_body]
fn encode_schema(fields: &Vec<(Vec<u8>, u32)>) -> (r: Result<Vec<u8>, String>)
    ensures
        r is Ok <==> bincode_schema(fields.deep_view()) is Some,
        r matches Ok(bytes) ==> bincode_schema(fields.deep_view()) == Some(bytes@),
        r matches Ok(bytes) ==> bincode_schema_read(bytes@) == Some(fields.deep_view()),
{
    bincode::serialize(fields).map_err(|e| e.to_string())
}

/// `bincode::deserialize` to a list of (name, type number).
#[verifier::external_body]
fn decode_schema(bytes: &[u8]) -> (r: Result<Vec<(Vec<u8>, u32)>, String>)
    ensures
        r is Ok <==> bincode_schema_read(bytes@) is Some,
        r matches Ok(fields) ==> bincode_schema_read(bytes@) == Some(fields.deep_view()),
{
    bincode::deserialize(bytes).map_err(|e| e.to_string())
}

/// A descriptor as it is handed to the encoder: the name without its
/// terminating zero and the number of the type.
pub open spec fn plain_descriptor(descriptor: FieldDescriptorView) -> (Seq<u8>, u32) {
    (descriptor.name.drop_last(), descriptor.field_type.spec_tag())
}

/// The descriptors of a schema as they are handed to the encoder.
pub open spec fn plain_schema(schema: Seq<FieldDescriptorView>) -> Seq<(Seq<u8>, u32)> {
    Seq::new(schema.len(), |i: int| plain_descriptor(schema[i]))
}

/// The descriptor that a decoded pair stands for: none where the name holds
/// a zero byte or the number names no type.
pub open spec fn descriptor_of_plain(plain: (Seq<u8>, u32)) -> Option<FieldDescriptorView> {
    if is_name(plain.0) && FieldType::spec_from_tag(plain.1) is Some {
        Some(
            FieldDescriptorView {
                name: c_string(plain.0),
                field_type: FieldType::spec_from_tag(plain.1)->0,
            },
        )
    } else {
        None
    }
}

/// The schema that a decoded list stands for: none where one of its pairs
/// stands for no descriptor.
pub open spec fn schema_of_plain(plain: Seq<(Seq<u8>, u32)>) -> Option<Seq<FieldDescriptorView>> {
    if forall|i: int| 0 <= i < plain.len() ==> (#[trigger] descriptor_of_plain(plain[i])) is Some {
        Some(Seq::new(plain.len(), |i: int| descriptor_of_plain(plain[i])->0))
    } else {
        None
    }
}

/// The bytes of a schema.
pub open spec fn schema_encoding(schema: Seq<FieldDescriptorView>) -> Option<Seq<u8>> {
    bincode_schema(plain_schema(schema))
}

/// The schema that bytes hold.
pub open spec fn schema_decoding(bytes: Seq<u8>) -> Option<Seq<FieldDescriptorView>> {
    match bincode_schema_read(bytes) {
        Some(plain) => schema_of_plain(plain),
        None => None,
    }
}

/// Whether every descriptor of a schema is well formed.
pub open spec fn schema_wf(schema: Seq<FieldDescriptorView>) -> bool {
    forall|i: int| 0 <= i < schema.len() ==> (#[trigger] schema[i]).wf()
}

/// Whether a schema declares a field: one of its descriptors has the name
/// and the type of the field.
pub open spec fn declares(schema: Seq<FieldDescriptorView>, field: FieldView) -> bool {
    exists|j: int| 0 <= j < schema.len() && (#[trigger] schema[j]).matches(field)
}

/// Whether the field at `i` is the first of a document that a schema does
/// not declare.
pub open spec fn first_undeclared(
    schema: Seq<FieldDescriptorView>,
    document: Seq<FieldView>,
    i: int,
) -> bool {
    &&& 0 <= i < document.len()
    &&& !declares(schema, document[i])
    &&& forall|k: int| 0 <= k < i ==> declares(schema, #[trigger] document[k])
}

/// Whether a document fits a schema: it has as many fields as the schema
/// has descriptors, and the schema declares each of them.
pub open spec fn fits(schema: Seq<FieldDescriptorView>, document: Seq<FieldView>) -> bool {
    &&& document.len() == schema.len()
    &&& forall|i: int| 0 <= i < document.len() ==> declares(schema, #[trigger] document[i])
}

/// Whether `r` is what the check of a document against a schema gives: `Ok`
/// where the document fits, `SchemaArity` with both counts where the counts
/// differ, else `SchemaFieldUnknown` with the stored name of the first field
/// that the schema does not declare.
pub open spec fn is_verdict(
    schema: Seq<FieldDescriptorView>,
    document: Seq<FieldView>,
    r: Result<(), DbError>,
) -> bool {
    match r {
        Ok(_) => fits(schema, document),
        Err(DbError::SchemaArity { expected, actual }) => {
            &&& document.len() != schema.len()
            &&& expected == schema.len()
            &&& actual == document.len()
        },
        Err(DbError::SchemaFieldUnknown { name }) => {
            &&& document.len() == schema.len()
            &&& exists|i: int|
                first_undeclared(schema, document, i) && name@ == (#[trigger] document[i]).name
        },
        Err(_) => false,
    }
}

/// The list handed to the encoder stands for the schema it was made of.
pub proof fn lemma_plain_schema_round_trip(schema: Seq<FieldDescriptorView>)
    requires
        schema_wf(schema),
    ensures
        schema_of_plain(plain_schema(schema)) == Some(schema),
{
    let plain = plain_schema(schema);
    assert forall|i: int| 0 <= i < plain.len() implies (#[trigger] descriptor_of_plain(plain[i]))
        == Some(schema[i]) by {
        assert(schema[i].wf());
        lemma_c_string_parts(schema[i].name);
        lemma_tag_round_trip(schema[i].field_type, 0);
    }
    assert(schema_of_plain(plain)->0 =~= schema);
}

/// A schema whose bytes were read back is the schema that was encoded,
/// where the decoder reads what the encoder wrote.
pub proof fn lemma_schema_round_trip(schema: Seq<FieldDescriptorView>, bytes: Seq<u8>)
    requires
        schema_wf(schema),
        bincode_schema_read(bytes) == Some(plain_schema(schema)),
    ensures
        schema_decoding(bytes) == Some(schema),
{
    lemma_plain_schema_round_trip(schema);
}

/// A document without fields fits the schema without descriptors.
pub proof fn lemma_empty_document_fits()
    ensures
        fits(Seq::<FieldDescriptorView>::empty(), Seq::<FieldView>::empty()),
{
}

/// A document with more or fewer fields than the schema has descriptors
/// does not fit it.
pub proof fn lemma_arity_decides(schema: Seq<FieldDescriptorView>, document: Seq<FieldView>)
    requires
        document.len() != schema.len(),
    ensures
        !fits(schema, document),
{
}

/// The schema of a bucket: the descriptors of the fields of its documents.
#[derive(Debug, PartialEq, Eq)]
pub struct BucketDescription {
    pub field_description: Vec<FieldDescriptor>,
}

impl View for BucketDescription {
    type V = Seq<FieldDescriptorView>;

    open spec fn view(&self) -> Seq<FieldDescriptorView> {
        self.field_description.deep_view()
    }
}

impl Clone for BucketDescription {
    fn clone(&self) -> (copy: BucketDescription)
        ensures
            copy@ == self@,
    {
        let mut fields: Vec<FieldDescriptor> = Vec::new();
        let mut i: usize = 0;
        while i < self.field_description.len()
            invariant
                i <= self.field_description.len(),
                fields.deep_view() == self.field_description.deep_view().subrange(0, i as int),
            decreases self.field_description.len() - i,
        {
            let ghost before = fields.deep_view();
            let descriptor = self.field_description[i].clone();
            fields.push(descriptor);
            proof {
                assert(fields.deep_view() =~= before.push(descriptor@));
                assert(fields.deep_view() =~= self.field_description.deep_view().subrange(
                    0,
                    i + 1,
                ));
            }
            i += 1;
        }
        proof {
            assert(fields.deep_view() =~= self.field_description.deep_view());
        }
        BucketDescription { field_description: fields }
    }
}

/// Implemented on what has a schema.
pub trait BucketDesriptor {
    fn get_description(&self) -> BucketDescription;
}

impl BucketDescription {
    /// The schema of the given descriptors, in their order.
    pub fn new(field_description: Vec<FieldDescriptor>) -> (schema: BucketDescription)
        ensures
            schema@ == field_description.deep_view(),
    {
        BucketDescription { field_description }
    }

    /// Whether the schema declares a field.
    pub fn declares_field(&self, field: &super::document::field::Field) -> (declared: bool)
        ensures
            declared == declares(self@, field@),
    {
        let mut j: usize = 0;
        while j < self.field_description.len()
            invariant
                j <= self.field_description.len(),
                forall|k: int| 0 <= k < j ==> !(#[trigger] self@[k]).matches(field@),
            decreases self.field_description.len() - j,
        {
            if self.field_description[j].is_match(field) {
                assert(self@[j as int].matches(field@));
                return true;
            }
            j += 1;
        }
        false
    }

    /// Checks a document against the schema. A document with another number
    /// of fields than the schema fails with `SchemaArity`; else the first
    /// field that the schema does not declare fails with
    /// `SchemaFieldUnknown`.
    pub fn validate(&self, document: &Document) -> (r: Result<(), DbError>)
        ensures
            r is Ok <==> fits(self@, document@),
            is_verdict(self@, document@, r),
    {
        let fields = document.get_fields();
        if fields.len() != self.field_description.len() {
            return Err(
                DbError::SchemaArity {
                    expected: self.field_description.len(),
                    actual: fields.len(),
                },
            );
        }
        let mut i: usize = 0;
        while i < fields.len()
            invariant
                i <= fields.len(),
                fields.deep_view() == document@,
                document@.len() == self@.len(),
                forall|k: int| 0 <= k < i ==> declares(self@, #[trigger] document@[k]),
            decreases fields.len() - i,
        {
            if !self.declares_field(&fields[i]) {
                assert(first_undeclared(self@, document@, i as int));
                return Err(
                    DbError::SchemaFieldUnknown { name: slice_to_vec(fields[i].get_key()) },
                );
            }
            i += 1;
        }
        Ok(())
    }

    /// The descriptors as they are handed to the encoder.
    fn to_plain(&self) -> (plain: Vec<(Vec<u8>, u32)>)
        ensures
            plain.deep_view() == plain_schema(self@),
            schema_wf(self@),
    {
        let mut plain: Vec<(Vec<u8>, u32)> = Vec::new();
        let ghost all = self@;
        let mut i: usize = 0;
        while i < self.field_description.len()
            invariant
                i <= self.field_description.len(),
                all == self.field_description.deep_view(),
                plain.deep_view() == plain_schema(all).subrange(0, i as int),
                forall|k: int| 0 <= k < i ==> (#[trigger] all[k]).wf(),
            decreases self.field_description.len() - i,
        {
            let d = &self.field_description[i];
            let key = d.get_key();
            let name = copy_range(key, 0, key.len() - 1);
            let tag = d.get_type().tag();
            proof {
                lemma_bytes_deep_view(name);
                assert(key@.drop_last() =~= key@.subrange(0, key@.len() - 1));
            }
            let ghost before = plain.deep_view();
            plain.push((name, tag));
            proof {
                assert(plain.deep_view() =~= before.push(plain_descriptor(all[i as int])));
                assert(plain.deep_view() =~= plain_schema(all).subrange(0, i + 1));
            }
            i += 1;
        }
        proof {
            assert(plain.deep_view() =~= plain_schema(all));
        }
        plain
    }

    /// The bytes of the schema. Decoding them gives the schema back.
    pub fn serialize(&self) -> (r: Result<Vec<u8>, DbError>)
        ensures
            r is Ok <==> schema_encoding(self@) is Some,
            r matches Ok(bytes) ==> schema_encoding(self@) == Some(bytes@),
            r matches Ok(bytes) ==> schema_decoding(bytes@) == Some(self@),
            r matches Err(e) ==> e is CodecFailure,
    {
        let plain = self.to_plain();
        match encode_schema(&plain) {
            Ok(bytes) => {
                proof {
                    lemma_schema_round_trip(self@, bytes@);
                }
                Ok(bytes)
            },
            Err(reason) => Err(DbError::CodecFailure(reason)),
        }
    }

    /// The schema that bytes hold: the list that the decoder reads, where
    /// each of its names is free of zero bytes and each of its type numbers
    /// names a type.
    pub fn deserialize(bytes: &[u8]) -> (r: Result<BucketDescription, DbError>)
        ensures
            r is Ok <==> schema_decoding(bytes@) is Some,
            r matches Ok(schema) ==> schema_decoding(bytes@) == Some(schema@),
            r matches Err(e) ==> e is CodecFailure,
    {
        let plain = match decode_schema(bytes) {
            Ok(plain) => plain,
            Err(reason) => {
                return Err(DbError::CodecFailure(reason));
            },
        };
        let ghost all = plain.deep_view();
        let mut fields: Vec<FieldDescriptor> = Vec::new();
        let mut i: usize = 0;
        while i < plain.len()
            invariant
                i <= plain.len(),
                all == plain.deep_view(),
                bincode_schema_read(bytes@) == Some(all),
                fields.deep_view().len() == i,
                forall|k: int|
                    0 <= k < i ==> (#[trigger] descriptor_of_plain(all[k])) == Some(
                        fields.deep_view()[k],
                    ),
            decreases plain.len() - i,
        {
            let name = &plain[i].0;
            proof {
                lemma_bytes_deep_view(*name);
            }
            let field_type = match FieldType::from_tag(plain[i].1) {
                Some(field_type) => field_type,
                None => {
                    assert(descriptor_of_plain(all[i as int]) is None);
                    return Err(DbError::CodecFailure("unknown field type".to_string()));
                },
            };
            if has_zero(name.as_slice()) {
                assert(descriptor_of_plain(all[i as int]) is None);
                return Err(DbError::CodecFailure("zero byte in a field name".to_string()));
            }
            let stored = to_c_string(name.as_slice());
            proof {
                lemma_c_string(name@, name@);
            }
            let descriptor = FieldDescriptor::from_parts(stored, field_type).unwrap();
            let ghost before = fields.deep_view();
            fields.push(descriptor);
            proof {
                assert(fields.deep_view() =~= before.push(descriptor@));
            }
            i += 1;
        }
        proof {
            assert(schema_of_plain(all)->0 =~= fields.deep_view());
        }
        Ok(BucketDescription { field_description: fields })
    }
}

} // verus!
