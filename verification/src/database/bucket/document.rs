//! Documents: ordered lists of named, typed fields.
//!
//! A document is encoded by `bincode` as the list of its fields, each a
//! triple of the bare name, the number of the type and the payload. The
//! library does not state what those bytes are. It states which list is
//! handed to the encoder, that decoding what was encoded gives the document
//! back, and which decoded lists are documents.

pub mod field;

use crate::error::DbError;
use crate::utils::bytes::{bytes_equal, copy_range, has_zero};
use field::fieldtype::FieldType;
use field::{c_string, is_name, lemma_c_string_parts, to_c_string, Field, FieldView};
use vstd::prelude::*;
use vstd::slice::slice_to_vec;
use vstd::string::StringSliceAdditionalSpecFns;

verus! {

/// The bytes that `bincode` writes for a list of fields, each given as its
/// bare name, the number of its type and its payload; `None` where it
/// refuses the list.
pub uninterp spec fn bincode_fields(fields: Seq<(Seq<u8>, u32, Seq<u8>)>) -> Option<Seq<u8>>;

/// The list of fields that `bincode` reads from bytes; `None` where the
/// bytes hold no such list.
pub uninterp spec fn bincode_fields_read(bytes: Seq<u8>) -> Option<Seq<(Seq<u8>, u32, Seq<u8>)>>;

/// `bincode::serialize` on a list of (name, type number, payload): the bytes
/// of the list. Reading those bytes with `bincode::deserialize` gives the
/// list back.
#[verifier::external_body]
fn encode_fields(fields: &Vec<(Vec<u8>, u32, Vec<u8>)>) -> (r: Result<Vec<u8>, String>)
    ensures
        r is Ok <==> bincode_fields(fields.deep_view()) is Some,
        r matches Ok(bytes) ==> bincode_fields(fields.deep_view()) == Some(bytes@),
        r matches Ok(bytes) ==> bincode_fields_read(bytes@) == Some(fields.deep_view()),
{
    bincode::serialize(fields).map_err(|e| e.to_string())
}

/// `bincode::deserialize` to a list of (name, type number, payload).
#[verifier::external_body]
fn decode_fields(bytes: &[u8]) -> (r: Result<Vec<(Vec<u8>, u32, Vec<u8>)>, String>)
    ensures
        r is Ok <==> bincode_fields_read(bytes@) is Some,
        r matches Ok(fields) ==> bincode_fields_read(bytes@) == Some(fields.deep_view()),
{
    bincode::deserialize(bytes).map_err(|e| e.to_string())
}

/// A field as it is handed to the encoder: the name without its terminating
/// zero, the number of the type, the payload.
pub open spec fn plain_field(field: FieldView) -> (Seq<u8>, u32, Seq<u8>) {
    (field.name.drop_last(), field.field_type.spec_tag(), field.data)
}

/// The fields of a document as they are handed to the encoder.
pub open spec fn plain_fields(fields: Seq<FieldView>) -> Seq<(Seq<u8>, u32, Seq<u8>)> {
    Seq::new(fields.len(), |i: int| plain_field(fields[i]))
}

/// The field that a decoded triple stands for: none where the name holds a
/// zero byte or the number names no type.
pub open spec fn field_of_plain(plain: (Seq<u8>, u32, Seq<u8>)) -> Option<FieldView> {
    if is_name(plain.0) && FieldType::spec_from_tag(plain.1) is Some {
        Some(
            FieldView {
                name: c_string(plain.0),
                field_type: FieldType::spec_from_tag(plain.1)->0,
                data: plain.2,
            },
        )
    } else {
        None
    }
}

/// The document that a decoded list stands for: none where one of its
/// triples stands for no field.
pub open spec fn fields_of_plain(plain: Seq<(Seq<u8>, u32, Seq<u8>)>) -> Option<Seq<FieldView>> {
    if forall|i: int| 0 <= i < plain.len() ==> (#[trigger] field_of_plain(plain[i])) is Some {
        Some(Seq::new(plain.len(), |i: int| field_of_plain(plain[i])->0))
    } else {
        None
    }
}

/// The bytes of a document.
pub open spec fn document_encoding(fields: Seq<FieldView>) -> Option<Seq<u8>> {
    bincode_fields(plain_fields(fields))
}

/// The document that bytes hold.
pub open spec fn document_decoding(bytes: Seq<u8>) -> Option<Seq<FieldView>> {
    match bincode_fields_read(bytes) {
        Some(plain) => fields_of_plain(plain),
        None => None,
    }
}

/// Whether every field of a document is well formed.
pub open spec fn fields_wf(fields: Seq<FieldView>) -> bool {
    forall|i: int| 0 <= i < fields.len() ==> (#[trigger] fields[i]).wf()
}

/// The first field of a document with the stored name `name`.
pub open spec fn find_field(fields: Seq<FieldView>, name: Seq<u8>) -> Option<FieldView>
    decreases fields.len(),
{
    if fields.len() == 0 {
        None
    } else if fields[0].name == name {
        Some(fields[0])
    } else {
        find_field(fields.drop_first(), name)
    }
}

/// The list handed to the encoder stands for the document it was made of.
pub proof fn lemma_plain_round_trip(fields: Seq<FieldView>)
    requires
        fields_wf(fields),
    ensures
        fields_of_plain(plain_fields(fields)) == Some(fields),
{
    let plain = plain_fields(fields);
    assert forall|i: int| 0 <= i < plain.len() implies (#[trigger] field_of_plain(plain[i]))
        == Some(fields[i]) by {
        assert(fields[i].wf());
        lemma_c_string_parts(fields[i].name);
        field::fieldtype::lemma_tag_round_trip(fields[i].field_type, 0);
    }
    assert(fields_of_plain(plain)->0 =~= fields);
}

/// A document whose bytes were read back is the document that was encoded,
/// where the decoder reads what the encoder wrote.
pub proof fn lemma_document_round_trip(fields: Seq<FieldView>, bytes: Seq<u8>)
    requires
        fields_wf(fields),
        bincode_fields_read(bytes) == Some(plain_fields(fields)),
    ensures
        document_decoding(bytes) == Some(fields),
{
    lemma_plain_round_trip(fields);
}

/// The bytes of a vector are its deep view.
pub proof fn lemma_bytes_deep_view(bytes: Vec<u8>)
    ensures
        bytes.deep_view() == bytes@,
{
    assert(bytes.deep_view() =~= bytes@);
}

/// An ordered list of named, typed fields.
#[derive(Debug, PartialEq, Eq)]
pub struct Document {
    fields: Vec<Field>,
}

impl View for Document {
    type V = Seq<FieldView>;

    closed spec fn view(&self) -> Seq<FieldView> {
        self.fields.deep_view()
    }
}

impl Clone for Document {
    fn clone(&self) -> (copy: Document)
        ensures
            copy@ == self@,
    {
        let mut fields: Vec<Field> = Vec::new();
        let mut i: usize = 0;
        while i < self.fields.len()
            invariant
                i <= self.fields.len(),
                fields.deep_view() == self.fields.deep_view().subrange(0, i as int),
            decreases self.fields.len() - i,
        {
            let ghost before = fields.deep_view();
            let field = self.fields[i].clone();
            fields.push(field);
            proof {
                assert(fields.deep_view() =~= before.push(field@));
                assert(fields.deep_view() =~= self.fields.deep_view().subrange(0, i + 1));
            }
            i += 1;
        }
        proof {
            assert(fields.deep_view() =~= self.fields.deep_view());
        }
        Document { fields }
    }
}

impl Document {
    /// The document of the given fields, in their order.
    pub fn new(fields: Vec<Field>) -> (document: Document)
        ensures
            document@ == fields.deep_view(),
    {
        Self { fields }
    }

    /// The first field with the name `key`, if there is one.
    pub fn read_field(&self, key: &str) -> (field: Option<&Field>)
        ensures
            field is Some <==> find_field(self@, c_string(key.spec_bytes())) is Some,
            field matches Some(f) ==> find_field(self@, c_string(key.spec_bytes())) == Some(f@),
    {
        let stored = to_c_string(key.as_bytes());
        let ghost all = self@;
        let mut i: usize = 0;
        proof {
            assert(all.subrange(0, all.len() as int) =~= all);
        }
        while i < self.fields.len()
            invariant
                i <= self.fields.len(),
                all == self.fields.deep_view(),
                stored@ == c_string(key.spec_bytes()),
                find_field(all, stored@) == find_field(all.subrange(i as int, all.len() as int), stored@),
            decreases self.fields.len() - i,
        {
            let f = &self.fields[i];
            let ghost rest = all.subrange(i as int, all.len() as int);
            proof {
                assert(rest[0] == f@);
                assert(rest.drop_first() =~= all.subrange(i + 1, all.len() as int));
            }
            if bytes_equal(f.get_key(), stored.as_slice()) {
                return Some(f);
            }
            i += 1;
        }
        None
    }

    /// The fields of the document, in their order.
    pub fn get_fields(&self) -> (fields: &Vec<Field>)
        ensures
            fields.deep_view() == self@,
    {
        &self.fields
    }

    /// The number of fields of the document.
    pub fn len(&self) -> (n: usize)
        ensures
            n == self@.len(),
    {
        self.fields.len()
    }

    /// The fields as they are handed to the encoder.
    fn to_plain(&self) -> (plain: Vec<(Vec<u8>, u32, Vec<u8>)>)
        ensures
            plain.deep_view() == plain_fields(self@),
            fields_wf(self@),
    {
        let mut plain: Vec<(Vec<u8>, u32, Vec<u8>)> = Vec::new();
        let ghost all = self@;
        let mut i: usize = 0;
        while i < self.fields.len()
            invariant
                i <= self.fields.len(),
                all == self.fields.deep_view(),
                plain.deep_view() == plain_fields(all).subrange(0, i as int),
                forall|k: int| 0 <= k < i ==> (#[trigger] all[k]).wf(),
            decreases self.fields.len() - i,
        {
            let f = &self.fields[i];
            let key = f.get_key();
            let name = copy_range(key, 0, key.len() - 1);
            let data = slice_to_vec(f.get_data());
            let tag = f.get_type().tag();
            proof {
                lemma_bytes_deep_view(name);
                lemma_bytes_deep_view(data);
                assert(key@.drop_last() =~= key@.subrange(0, key@.len() - 1));
            }
            let ghost before = plain.deep_view();
            plain.push((name, tag, data));
            proof {
                assert(plain.deep_view() =~= before.push(plain_field(all[i as int])));
                assert(plain.deep_view() =~= plain_fields(all).subrange(0, i + 1));
            }
            i += 1;
        }
        proof {
            assert(plain.deep_view() =~= plain_fields(all));
        }
        plain
    }

    /// The bytes of the document. Decoding them gives the document back.
    pub fn serialize(&self) -> (r: Result<Vec<u8>, DbError>)
        ensures
            r is Ok <==> document_encoding(self@) is Some,
            r matches Ok(bytes) ==> document_encoding(self@) == Some(bytes@),
            r matches Ok(bytes) ==> document_decoding(bytes@) == Some(self@),
            r matches Err(e) ==> e is CodecFailure,
    {
        let plain = self.to_plain();
        match encode_fields(&plain) {
            Ok(bytes) => {
                proof {
                    lemma_document_round_trip(self@, bytes@);
                }
                Ok(bytes)
            },
            Err(reason) => Err(DbError::CodecFailure(reason)),
        }
    }

    /// The document that bytes hold: the list that the decoder reads, where
    /// each of its names is free of zero bytes and each of its type numbers
    /// names a type.
    pub fn deserialize(bytes: &[u8]) -> (r: Result<Document, DbError>)
        ensures
            r is Ok <==> document_decoding(bytes@) is Some,
            r matches Ok(document) ==> document_decoding(bytes@) == Some(document@),
            r matches Err(e) ==> e is CodecFailure,
    {
        let plain = match decode_fields(bytes) {
            Ok(plain) => plain,
            Err(reason) => {
                return Err(DbError::CodecFailure(reason));
            },
        };
        let ghost all = plain.deep_view();
        let mut fields: Vec<Field> = Vec::new();
        let mut i: usize = 0;
        while i < plain.len()
            invariant
                i <= plain.len(),
                all == plain.deep_view(),
                bincode_fields_read(bytes@) == Some(all),
                fields.deep_view().len() == i,
                forall|k: int|
                    0 <= k < i ==> (#[trigger] field_of_plain(all[k])) == Some(
                        fields.deep_view()[k],
                    ),
            decreases plain.len() - i,
        {
            let name = &plain[i].0;
            let data = &plain[i].2;
            proof {
                lemma_bytes_deep_view(*name);
                lemma_bytes_deep_view(*data);
            }
            let field_type = match FieldType::from_tag(plain[i].1) {
                Some(field_type) => field_type,
                None => {
                    assert(field_of_plain(all[i as int]) is None);
                    return Err(DbError::CodecFailure("unknown field type".to_string()));
                },
            };
            if has_zero(name.as_slice()) {
                assert(field_of_plain(all[i as int]) is None);
                return Err(DbError::CodecFailure("zero byte in a field name".to_string()));
            }
            let stored = to_c_string(name.as_slice());
            proof {
                field::lemma_c_string(name@, name@);
            }
            let field = Field::from_parts(stored, field_type, slice_to_vec(data.as_slice())).unwrap();
            let ghost before = fields.deep_view();
            fields.push(field);
            proof {
                assert(fields.deep_view() =~= before.push(field@));
            }
            i += 1;
        }
        proof {
            assert(fields_of_plain(all)->0 =~= fields.deep_view());
        }
        Ok(Document { fields })
    }
}

/// Implemented on the values that are stored as documents.
pub trait DocumentConvert: Sized {
    type ConvertFrom;

    /// The fields of the document that a value is stored as, where it can be
    /// stored.
    spec fn spec_convert_to(&self) -> Option<Seq<FieldView>>;

    fn convert_to(self) -> (document: Option<Document>)
        ensures
            document is Some <==> self.spec_convert_to() is Some,
            document matches Some(d) ==> self.spec_convert_to() == Some(d@),
    ;

    /// Whether a document stores a value.
    spec fn convertible(doc: Seq<FieldView>) -> bool;

    /// Whether `out` is the value that a document stores.
    spec fn converts_from(doc: Seq<FieldView>, out: Self::ConvertFrom) -> bool;

    fn convert_from(doc: &Document) -> (value: Option<Self::ConvertFrom>)
        ensures
            value is Some <==> Self::convertible(doc@),
            value matches Some(out) ==> Self::converts_from(doc@, out),
    ;
}

} // verus!
