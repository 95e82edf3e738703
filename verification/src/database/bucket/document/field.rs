//! The fields of a document.
//!
//! A field is a name, a type and a payload. The name is stored as a C
//! string: its bytes, none of them zero, and one zero byte behind them, so
//! that two names are equal exactly when their stored bytes are.

pub mod descriptor;
pub mod fieldtype;

use crate::utils::bytes::has_zero;
use fieldtype::{ConvertFieldType, FieldType};
use vstd::prelude::*;
use vstd::slice::slice_to_vec;
use vstd::string::StringSliceAdditionalSpecFns;

verus! {

/// Whether bytes can be a name: none of them is zero.
pub open spec fn is_name(name: Seq<u8>) -> bool {
    !name.contains(0u8)
}

/// The stored form of a name: its bytes and a terminating zero.
pub open spec fn c_string(name: Seq<u8>) -> Seq<u8> {
    name.push(0u8)
}

/// Whether bytes are the stored form of a name.
pub open spec fn is_c_string(stored: Seq<u8>) -> bool {
    &&& stored.len() > 0
    &&& stored.last() == 0
    &&& is_name(stored.drop_last())
}

/// The stored form of a name is a C string, and only the name gives it.
pub proof fn lemma_c_string(name: Seq<u8>, other: Seq<u8>)
    requires
        is_name(name),
    ensures
        is_c_string(c_string(name)),
        c_string(name).drop_last() == name,
        c_string(name) == c_string(other) ==> name == other,
{
    assert(c_string(name).drop_last() =~= name);
    if c_string(name) == c_string(other) {
        assert(c_string(other).drop_last() =~= other);
    }
}

/// A stored name is the stored form of what stands before its last byte.
pub proof fn lemma_c_string_parts(stored: Seq<u8>)
    requires
        is_c_string(stored),
    ensures
        c_string(stored.drop_last()) == stored,
{
    assert(c_string(stored.drop_last()) =~= stored);
}

/// Whether a text can be a name: its UTF-8 bytes hold no zero.
pub fn is_valid_name(name: &str) -> (valid: bool)
    ensures
        valid == is_name(name.spec_bytes()),
{
    !has_zero(name.as_bytes())
}

/// The stored form of a name.
pub fn to_c_string(name: &[u8]) -> (stored: Vec<u8>)
    ensures
        stored@ == c_string(name@),
{
    let mut stored = slice_to_vec(name);
    stored.push(0u8);
    stored
}

/// A named, typed value of a document.
#[derive(Debug, PartialEq, Eq)]
pub struct Field {
    name: Vec<u8>,
    field_type: FieldType,
    data: Vec<u8>,
}

/// The mathematical value of a field: its stored name, its type and its
/// payload.
pub struct FieldView {
    pub name: Seq<u8>,
    pub field_type: FieldType,
    pub data: Seq<u8>,
}

impl FieldView {
    /// A field is well formed when its name is a C string.
    pub open spec fn wf(self) -> bool {
        is_c_string(self.name)
    }
}

impl View for Field {
    type V = FieldView;

    closed spec fn view(&self) -> FieldView {
        FieldView { name: self.name@, field_type: self.field_type, data: self.data@ }
    }
}

impl DeepView for Field {
    type V = FieldView;

    open spec fn deep_view(&self) -> FieldView {
        self@
    }
}

impl Clone for Field {
    fn clone(&self) -> (copy: Field)
        ensures
            copy@ == self@,
    {
        proof {
            use_type_invariant(self);
        }
        Field { name: self.name.clone(), field_type: self.field_type, data: self.data.clone() }
    }
}

impl Field {
    /// Every field is well formed.
    #[verifier::type_invariant]
    pub open spec fn well_formed(&self) -> bool {
        self@.wf()
    }

    /// The field `name` that holds `data`, under the type of `data`; `None`
    /// where `data` has no payload.
    pub fn new<'a, T: ConvertFieldType<'a, T>>(name: &'a str, data: T) -> (field: Option<Field>)
        requires
            is_name(name.spec_bytes()),
        ensures
            field is Some <==> data.spec_serialize() is Some,
            field matches Some(f) ==> f@ == (FieldView {
                name: c_string(name.spec_bytes()),
                field_type: data.spec_type(),
                data: data.spec_serialize()->0,
            }),
    {
        let field_type = data.get_type();
        let data = data.serialize();
        match data {
            Some(data) => {
                let stored = to_c_string(name.as_bytes());
                proof {
                    lemma_c_string(name.spec_bytes(), name.spec_bytes());
                }
                Some(Field { name: stored, field_type, data })
            },
            None => None,
        }
    }

    /// The field `name` of raw bytes, which are taken out of `bytes`.
    pub fn new_bytes(name: &str, bytes: &mut Vec<u8>) -> (field: Option<Field>)
        requires
            is_name(name.spec_bytes()),
        ensures
            final(bytes)@ == Seq::<u8>::empty(),
            field matches Some(f) && f@ == (FieldView {
                name: c_string(name.spec_bytes()),
                field_type: FieldType::Bytes,
                data: old(bytes)@,
            }),
    {
        let mut data: Vec<u8> = Vec::new();
        std::mem::swap(&mut data, bytes);
        let stored = to_c_string(name.as_bytes());
        proof {
            lemma_c_string(name.spec_bytes(), name.spec_bytes());
        }
        Some(Field { name: stored, field_type: FieldType::Bytes, data })
    }

    /// The field with a stored name, a type and a payload as given; `None`
    /// where the name is not a C string.
    pub fn from_parts(name: Vec<u8>, field_type: FieldType, data: Vec<u8>) -> (field: Option<Field>)
        ensures
            field is Some <==> is_c_string(name@),
            field matches Some(f) ==> f@ == (FieldView { name: name@, field_type, data: data@ }),
    {
        let n = name.len();
        if n == 0 || name[n - 1] != 0 {
            return None;
        }
        let bare = vstd::slice::slice_subrange(name.as_slice(), 0, n - 1);
        assert(bare@ == name@.drop_last());
        if has_zero(bare) {
            return None;
        }
        Some(Field { name, field_type, data })
    }

    /// The name of the field as it is stored: its bytes and a terminating
    /// zero.
    pub fn get_key(&self) -> (key: &[u8])
        ensures
            key@ == self@.name,
            is_c_string(key@),
    {
        proof {
            use_type_invariant(self);
        }
        self.name.as_slice()
    }

    /// The value of the field, read as a `T`; `None` where the payload holds
    /// no `T`.
    pub fn get_value<'a, T: ConvertFieldType<'a, T>>(&'a self) -> (value: Option<
        <T as ConvertFieldType<'a, T>>::Output,
    >)
        ensures
            value is Some <==> T::decodable(self@.data),
            value matches Some(out) ==> T::decodes_to(self@.data, out),
    {
        T::deserialize(&self.data)
    }

    /// The type of the field.
    pub fn get_type(&self) -> (field_type: &FieldType)
        ensures
            *field_type == self@.field_type,
    {
        &self.field_type
    }

    /// The payload of the field.
    pub fn get_data(&self) -> (data: &[u8])
        ensures
            data@ == self@.data,
    {
        self.data.as_slice()
    }
}

} // verus!
