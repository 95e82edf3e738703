//! An account: a value that is stored as a document.

use crate::database::bucket::document::field::fieldtype::{
    bytes_encoding, lemma_text_round_trip, text_decoding, text_encoding, FieldType,
};
use crate::database::bucket::document::field::{c_string, is_name, Field, FieldView};
use crate::database::bucket::document::{find_field, Document, DocumentConvert};
use vstd::prelude::*;
use vstd::string::{is_ascii_spec_bytes, StringSliceAdditionalSpecFns};

verus! {

/// An account of a person, with data attached to it.
pub struct Account {
    first_name: String,
    last_name: String,
    email: String,
    data: Vec<u8>,
}

/// The names of the fields of an account are names.
pub proof fn lemma_account_names()
    ensures
        is_name("first_name".spec_bytes()),
        is_name("last_name".spec_bytes()),
        is_name("email".spec_bytes()),
        is_name("data".spec_bytes()),
{
    reveal_strlit("first_name");
    reveal_strlit("last_name");
    reveal_strlit("email");
    reveal_strlit("data");
    is_ascii_spec_bytes("first_name");
    is_ascii_spec_bytes("last_name");
    is_ascii_spec_bytes("email");
    is_ascii_spec_bytes("data");
}

impl Account {
    /// The first name of the account.
    pub closed spec fn spec_first_name(&self) -> Seq<char> {
        self.first_name@
    }

    /// The last name of the account.
    pub closed spec fn spec_last_name(&self) -> Seq<char> {
        self.last_name@
    }

    /// The e-mail address of the account.
    pub closed spec fn spec_email(&self) -> Seq<char> {
        self.email@
    }

    /// The data attached to the account.
    pub closed spec fn spec_data(&self) -> Seq<u8> {
        self.data@
    }

    /// The document that stores the account: its first name, last name and
    /// e-mail address as text and its data as bytes, in this order.
    pub open spec fn fields(&self) -> Seq<FieldView> {
        seq![
            FieldView {
                name: c_string("first_name".spec_bytes()),
                field_type: FieldType::Text,
                data: text_encoding(self.spec_first_name()),
            },
            FieldView {
                name: c_string("last_name".spec_bytes()),
                field_type: FieldType::Text,
                data: text_encoding(self.spec_last_name()),
            },
            FieldView {
                name: c_string("email".spec_bytes()),
                field_type: FieldType::Text,
                data: text_encoding(self.spec_email()),
            },
            FieldView {
                name: c_string("data".spec_bytes()),
                field_type: FieldType::Bytes,
                data: bytes_encoding(self.spec_data()),
            },
        ]
    }

    /// An account of the given names, e-mail address and data.
    pub fn new(first_name: &str, last_name: &str, email: &str, data: Vec<u8>) -> (account: Account)
        ensures
            account.spec_first_name() == first_name@,
            account.spec_last_name() == last_name@,
            account.spec_email() == email@,
            account.spec_data() == data@,
    {
        Account {
            first_name: first_name.to_string(),
            last_name: last_name.to_string(),
            email: email.to_string(),
            data,
        }
    }

    /// The first name of the account.
    pub fn get_first_name(&self) -> (name: &str)
        ensures
            name@ == self.spec_first_name(),
    {
        self.first_name.as_str()
    }

    /// The last name of the account.
    pub fn get_last_name(&self) -> (name: &str)
        ensures
            name@ == self.spec_last_name(),
    {
        self.last_name.as_str()
    }

    /// The e-mail address of the account.
    pub fn get_email(&self) -> (email: &str)
        ensures
            email@ == self.spec_email(),
    {
        self.email.as_str()
    }

    /// The data attached to the account.
    pub fn get_data(&self) -> (data: &[u8])
        ensures
            data@ == self.spec_data(),
    {
        self.data.as_slice()
    }
}

/// The document of an account stores the account: reading it back gives
/// the names, the e-mail address and the data of the account.
pub proof fn lemma_account_round_trip(account: Account, out: Account)
    ensures
        Account::convertible(account.fields()),
        Account::converts_from(account.fields(), out) ==> {
            &&& out.spec_first_name() == account.spec_first_name()
            &&& out.spec_last_name() == account.spec_last_name()
            &&& out.spec_email() == account.spec_email()
            &&& out.spec_data() == account.spec_data()
        },
{
    reveal_strlit("first_name");
    reveal_strlit("last_name");
    reveal_strlit("email");
    reveal_strlit("data");
    is_ascii_spec_bytes("first_name");
    is_ascii_spec_bytes("last_name");
    is_ascii_spec_bytes("email");
    is_ascii_spec_bytes("data");
    lemma_text_round_trip(account.spec_first_name());
    lemma_text_round_trip(account.spec_last_name());
    lemma_text_round_trip(account.spec_email());
    let doc = account.fields();
    let first = c_string("first_name".spec_bytes());
    let last = c_string("last_name".spec_bytes());
    let email = c_string("email".spec_bytes());
    let data = c_string("data".spec_bytes());
    assert(first.len() == 11 && last.len() == 10 && email.len() == 6 && data.len() == 5);
    let d1 = doc.drop_first();
    let d2 = d1.drop_first();
    let d3 = d2.drop_first();
    assert(d1[0] == doc[1] && d2[0] == doc[2] && d3[0] == doc[3]);
    assert(find_field(doc, first) == Some(doc[0]));
    assert(find_field(d1, last) == Some(doc[1]));
    assert(find_field(doc, last) == Some(doc[1]));
    assert(find_field(d2, email) == Some(doc[2]));
    assert(find_field(d1, email) == Some(doc[2]));
    assert(find_field(doc, email) == Some(doc[2]));
    assert(find_field(d3, data) == Some(doc[3]));
    assert(find_field(d2, data) == Some(doc[3]));
    assert(find_field(d1, data) == Some(doc[3]));
    assert(find_field(doc, data) == Some(doc[3]));
}

impl DocumentConvert for Account {
    type ConvertFrom = Account;

    open spec fn spec_convert_to(&self) -> Option<Seq<FieldView>> {
        Some(self.fields())
    }

    fn convert_to(self) -> (document: Option<Document>) {
        proof {
            lemma_account_names();
        }
        let first_name = Field::new("first_name", self.first_name.as_str())?;
        let last_name = Field::new("last_name", self.last_name.as_str())?;
        let email = Field::new("email", self.email.as_str())?;
        let data = Field::new("data", self.data.as_slice())?;
        let mut fields: Vec<Field> = Vec::new();
        fields.push(first_name);
        fields.push(last_name);
        fields.push(email);
        fields.push(data);
        proof {
            assert(fields.deep_view() =~= self.fields());
        }
        Some(Document::new(fields))
    }

    open spec fn convertible(doc: Seq<FieldView>) -> bool {
        &&& find_field(doc, c_string("first_name".spec_bytes())) matches Some(f) && text_decoding(
            f.data,
        ) is Some
        &&& find_field(doc, c_string("last_name".spec_bytes())) matches Some(f) && text_decoding(
            f.data,
        ) is Some
        &&& find_field(doc, c_string("email".spec_bytes())) matches Some(f) && text_decoding(
            f.data,
        ) is Some
        &&& find_field(doc, c_string("data".spec_bytes())) is Some
    }

    open spec fn converts_from(doc: Seq<FieldView>, out: Account) -> bool {
        &&& text_decoding(find_field(doc, c_string("first_name".spec_bytes()))->0.data) == Some(
            out.spec_first_name(),
        )
        &&& text_decoding(find_field(doc, c_string("last_name".spec_bytes()))->0.data) == Some(
            out.spec_last_name(),
        )
        &&& text_decoding(find_field(doc, c_string("email".spec_bytes()))->0.data) == Some(
            out.spec_email(),
        )
        &&& find_field(doc, c_string("data".spec_bytes()))->0.data == out.spec_data()
    }

    fn convert_from(doc: &Document) -> (value: Option<Account>) {
        let first_name = doc.read_field("first_name")?;
        let last_name = doc.read_field("last_name")?;
        let email = doc.read_field("email")?;
        let data = doc.read_field("data")?;
        Some(
            Account::new(
                first_name.get_value::<&str>()?,
                last_name.get_value::<&str>()?,
                email.get_value::<&str>()?,
                vstd::slice::slice_to_vec(data.get_value::<&[u8]>()?),
            ),
        )
    }
}

} // verus!
