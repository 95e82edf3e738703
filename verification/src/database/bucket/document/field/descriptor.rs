//! The declaration of a field in a schema.

use super::fieldtype::FieldType;
use super::{c_string, is_c_string, is_name, lemma_c_string, to_c_string, Field};
use crate::utils::bytes::{bytes_equal, has_zero};
use vstd::prelude::*;
use vstd::string::StringSliceAdditionalSpecFns;

verus! {

/// The name and the type that a schema declares for a field.
#[derive(Debug, PartialEq, Eq)]
pub struct FieldDescriptor {
    name: Vec<u8>,
    field_type: FieldType,
}

/// The mathematical value of a field descriptor: the stored name and the
/// type.
pub struct FieldDescriptorView {
    pub name: Seq<u8>,
    pub field_type: FieldType,
}

impl FieldDescriptorView {
    /// A descriptor is well formed when its name is a C string.
    pub open spec fn wf(self) -> bool {
        is_c_string(self.name)
    }
}

impl View for FieldDescriptor {
    type V = FieldDescriptorView;

    closed spec fn view(&self) -> FieldDescriptorView {
        FieldDescriptorView { name: self.name@, field_type: self.field_type }
    }
}

impl DeepView for FieldDescriptor {
    type V = FieldDescriptorView;

    open spec fn deep_view(&self) -> FieldDescriptorView {
        self@
    }
}

impl Clone for FieldDescriptor {
    fn clone(&self) -> (copy: FieldDescriptor)
        ensures
            copy@ == self@,
    {
        proof {
            use_type_invariant(self);
        }
        FieldDescriptor { name: self.name.clone(), field_type: self.field_type }
    }
}

impl FieldDescriptor {
    /// Every descriptor is well formed.
    #[verifier::type_invariant]
    pub open spec fn well_formed(&self) -> bool {
        self@.wf()
    }

    /// The descriptor of a field `name` of type `field_type`.
    pub fn new(name: &str, field_type: FieldType) -> (descriptor: FieldDescriptor)
        requires
            is_name(name.spec_bytes()),
        ensures
            descriptor@ == (FieldDescriptorView {
                name: c_string(name.spec_bytes()),
                field_type,
            }),
    {
        let stored = to_c_string(name.as_bytes());
        proof {
            lemma_c_string(name.spec_bytes(), name.spec_bytes());
        }
        FieldDescriptor { name: stored, field_type }
    }

    /// The descriptor with a stored name and a type as given; `None` where
    /// the name is not a C string.
    pub fn from_parts(name: Vec<u8>, field_type: FieldType) -> (descriptor: Option<FieldDescriptor>)
        ensures
            descriptor is Some <==> is_c_string(name@),
            descriptor matches Some(d) ==> d@ == (FieldDescriptorView { name: name@, field_type }),
    {
        let n = name.len();
        if n == 0 || name[n - 1] != 0 {
            return None;
        }
        let bare = vstd::slice::slice_subrange(name.as_slice(), 0, n - 1);
        assert(bare@ == name@.drop_last());
        if has_zero(bare) {
            return None;
        }
        Some(FieldDescriptor { name, field_type })
    }

    /// The name of the declared field as it is stored.
    pub fn get_key(&self) -> (key: &[u8])
        ensures
            key@ == self@.name,
            is_c_string(key@),
    {
        proof {
            use_type_invariant(self);
        }
        self.name.as_slice()
    }

    /// The type of the declared field.
    pub fn get_type(&self) -> (field_type: &FieldType)
        ensures
            *field_type == self@.field_type,
    {
        &self.field_type
    }

    /// Whether a field is the one declared: both its name and its type are
    /// those of the descriptor.
    pub fn is_match(&self, field: &Field) -> (matches: bool)
        ensures
            matches == self@.matches(field@),
    {
        bytes_equal(field.get_key(), self.name.as_slice()) && *field.get_type() == self.field_type
    }
}

impl FieldDescriptorView {
    /// Whether a field is the one declared.
    pub open spec fn matches(self, field: super::FieldView) -> bool {
        field.name == self.name && field.field_type == self.field_type
    }
}

} // verus!
