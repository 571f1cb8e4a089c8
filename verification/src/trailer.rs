//! The trailer of a PDF file: after the cross-reference table, the trailer dictionary and
//! the offset of that table.
use vstd::prelude::*;
use vstd::utf8::encode_utf8;

use crate::decimal::{decimal_bytes, push_decimal, push_signed_decimal, signed_decimal_bytes};
use crate::encryption_ops::{
    bytes_to_pdf_hex_string, compute_data_hash, compute_encryption_values, encryption_key_spec,
    md5_digest, o_value_spec, permission_value, u_value_spec, EncryptionConfig,
};
use crate::error::PdfError;
use crate::hexfmt::{lower_hex, upper_hex};
use crate::keyed::{has_key, Keyed};
use crate::object::Object;
use crate::object_number::ObjectNumber;
use crate::object_ops::{write_bytes, Encode, Serialize, XRefEntry};
use crate::objects::pdf_array::PdfArrayObject;
use crate::objects::pdf_dictionary::{duplicate_key_message, entries_bytes, PdfDictionaryObject};
use crate::objects::pdf_name::PdfNameObject;
use crate::objects::pdf_reference::{reference_to, PdfReferenceObject};
use crate::version::Version;

verus! {

/// A newline, `trailer`, a newline, the dictionary's bytes, `startxref`, a newline, the
/// offset in decimal, a newline, `%%EOF` and a newline.
pub open spec fn trailer_spec(dictionary: Seq<u8>, position: u64) -> Seq<u8> {
    seq![10u8, 116u8, 114u8, 97u8, 105u8, 108u8, 101u8, 114u8, 10u8] + dictionary
        + seq![115u8, 116u8, 97u8, 114u8, 116u8, 120u8, 114u8, 101u8, 102u8, 10u8]
        + decimal_bytes(position as nat) + seq![10u8, 37u8, 37u8, 69u8, 79u8, 70u8, 10u8]
}

/// The bytes of the trailer, given the bytes of its dictionary and the offset of the
/// cross-reference table.
pub fn trailer_bytes(dictionary: &[u8], position: u64) -> (bytes: Vec<u8>)
    ensures
        bytes@ == trailer_spec(dictionary@, position),
{
    let mut bytes: Vec<u8> = Vec::new();
    bytes.push(10u8);
    bytes.push(116u8);
    bytes.push(114u8);
    bytes.push(97u8);
    bytes.push(105u8);
    bytes.push(108u8);
    bytes.push(101u8);
    bytes.push(114u8);
    bytes.push(10u8);
    let mut d = vstd::slice::slice_to_vec(dictionary);
    bytes.append(&mut d);
    bytes.push(115u8);
    bytes.push(116u8);
    bytes.push(97u8);
    bytes.push(114u8);
    bytes.push(116u8);
    bytes.push(120u8);
    bytes.push(114u8);
    bytes.push(101u8);
    bytes.push(102u8);
    bytes.push(10u8);
    push_decimal(&mut bytes, position);
    bytes.push(10u8);
    bytes.push(37u8);
    bytes.push(37u8);
    bytes.push(69u8);
    bytes.push(79u8);
    bytes.push(70u8);
    bytes.push(10u8);
    assert(bytes@ =~= trailer_spec(dictionary@, position));
    bytes
}

/// A value of the trailer dictionary, of its `/Encrypt` dictionary or of its `/ID` array.
pub enum PlainValue {
    /// A non-negative integer, such as `/Size`.
    Unsigned(u64),
    /// An integer, such as `/P`.
    Integer(i64),
    Name(PdfNameObject),
    Reference(PdfReferenceObject),
    /// A hex string, written as given: `<`, hex digits, `>`.
    HexString(String),
}

impl Encode for PlainValue {
    open spec fn encodable(&self) -> bool {
        match self {
            PlainValue::Reference(r) => r.encodable(),
            _ => true,
        }
    }

    open spec fn encoding(&self, version: Version) -> Seq<u8> {
        match self {
            PlainValue::Unsigned(u) => decimal_bytes(*u as nat),
            PlainValue::Integer(i) => signed_decimal_bytes(*i as int),
            PlainValue::Name(n) => n.encoding(version),
            PlainValue::Reference(r) => r.encoding(version),
            PlainValue::HexString(s) => encode_utf8(s@),
        }
    }

    fn encode(&self, version: Version) -> (r: Result<Vec<u8>, PdfError>) {
        match self {
            PlainValue::Unsigned(u) => {
                let mut v: Vec<u8> = Vec::new();
                push_decimal(&mut v, *u);
                assert(v@ =~= decimal_bytes(*u as nat));
                Ok(v)
            },
            PlainValue::Integer(i) => {
                let mut v: Vec<u8> = Vec::new();
                push_signed_decimal(&mut v, *i);
                assert(v@ =~= signed_decimal_bytes(*i as int));
                Ok(v)
            },
            PlainValue::Name(n) => n.encode(version),
            PlainValue::Reference(r) => r.encode(version),
            PlainValue::HexString(s) => Ok(vstd::slice::slice_to_vec(s.as_str().as_bytes())),
        }
    }
}

impl Serialize for PlainValue {
    open spec fn serialization(&self, version: Version) -> Seq<u8> {
        self.encoding(version)
    }

    open spec fn xref_entries(&self, version: Version, start: nat) -> Seq<XRefEntry> {
        Seq::empty()
    }

    fn serialize(&self, version: Version, xref: &mut Vec<XRefEntry>, file: &mut Vec<u8>) -> (r: Result<(), PdfError>) {
        let v = match self.encode(version) {
            Ok(v) => v,
            Err(_) => Vec::new(),
        };
        write_bytes(file, v);
        assert(xref@ =~= old(xref)@ + Seq::<XRefEntry>::empty());
        Ok(())
    }
}

/// A value of the trailer dictionary: a plain value, the `/Encrypt` dictionary or the
/// `/ID` array.
pub enum TrailerValue {
    Plain(PlainValue),
    Dictionary(PdfDictionaryObject<PlainValue>),
    Array(PdfArrayObject<PlainValue>),
}

impl Encode for TrailerValue {
    open spec fn encodable(&self) -> bool {
        match self {
            TrailerValue::Plain(v) => v.encodable(),
            TrailerValue::Dictionary(d) => d.encodable(),
            TrailerValue::Array(a) => a.encodable(),
        }
    }

    open spec fn encoding(&self, version: Version) -> Seq<u8> {
        match self {
            TrailerValue::Plain(v) => v.encoding(version),
            TrailerValue::Dictionary(d) => d.encoding(version),
            TrailerValue::Array(a) => a.encoding(version),
        }
    }

    fn encode(&self, version: Version) -> (r: Result<Vec<u8>, PdfError>) {
        match self {
            TrailerValue::Plain(v) => v.encode(version),
            TrailerValue::Dictionary(d) => d.encode(version),
            TrailerValue::Array(a) => a.encode(version),
        }
    }
}

impl Serialize for TrailerValue {
    open spec fn serialization(&self, version: Version) -> Seq<u8> {
        match self {
            TrailerValue::Plain(v) => v.serialization(version),
            TrailerValue::Dictionary(d) => d.serialization(version),
            TrailerValue::Array(a) => a.serialization(version),
        }
    }

    open spec fn xref_entries(&self, version: Version, start: nat) -> Seq<XRefEntry> {
        match self {
            TrailerValue::Plain(v) => v.xref_entries(version, start),
            TrailerValue::Dictionary(d) => d.xref_entries(version, start),
            TrailerValue::Array(a) => a.xref_entries(version, start),
        }
    }

    fn serialize(&self, version: Version, xref: &mut Vec<XRefEntry>, file: &mut Vec<u8>) -> (r: Result<(), PdfError>) {
        match self {
            TrailerValue::Plain(v) => v.serialize(version, xref, file),
            TrailerValue::Dictionary(d) => d.serialize(version, xref, file),
            TrailerValue::Array(a) => a.serialize(version, xref, file),
        }
    }
}

/// The value is a name of the UTF-8 bytes of `s`.
pub open spec fn is_plain_name(v: PlainValue, s: Seq<char>) -> bool {
    v matches PlainValue::Name(n) && n.value@ == encode_utf8(s)
}

/// `<`, the upper-case hex digits of the bytes, `>`.
pub open spec fn hex_string_chars(bytes: Seq<u8>) -> Seq<char> {
    seq!['<'] + upper_hex(bytes) + seq!['>']
}

/// The value is the hex string of `bytes`.
pub open spec fn is_hex_string(v: PlainValue, bytes: Seq<u8>) -> bool {
    v matches PlainValue::HexString(s) && s@ == hex_string_chars(bytes)
}

/// The file identifier: the lower-case hex digits, as bytes, of the MD5 digest of no data.
pub open spec fn file_id_spec() -> Seq<u8> {
    encode_utf8(lower_hex(md5_digest(Seq::empty())))
}

/// The `/Encrypt` dictionary of the standard security handler (`/V 1`, `/R 2`) for
/// `config`: its O and U values as hex strings and its permissions.
pub open spec fn is_encrypt_dict(d: Keyed<PlainValue>, config: EncryptionConfig) -> bool {
    let owner = encode_utf8(config.owner_password@);
    let user = encode_utf8(config.user_password@);
    let p = permission_value(config.permissions);
    let o = o_value_spec(owner, user);
    let key = encryption_key_spec(user, o, p as i32, file_id_spec());
    &&& d.len() == 6
    &&& d[0].0 == "Filter"@ && is_plain_name(d[0].1, "Standard"@)
    &&& d[1] == ("V"@, PlainValue::Integer(1))
    &&& d[2] == ("R"@, PlainValue::Integer(2))
    &&& d[3].0 == "O"@ && is_hex_string(d[3].1, o)
    &&& d[4].0 == "U"@ && is_hex_string(d[4].1, u_value_spec(key))
    &&& d[5] == ("P"@, PlainValue::Integer(p as i64))
}

/// The `/ID` array: the hex string of the file identifier, twice.
pub open spec fn is_id_array(a: Seq<PlainValue>) -> bool {
    &&& a.len() == 2
    &&& is_hex_string(a[0], file_id_spec())
    &&& is_hex_string(a[1], file_id_spec())
}

/// `e` is `old` with the `/Encrypt` dictionary for `config` appended.
pub open spec fn with_encrypt_entry(old: Keyed<TrailerValue>, e: Keyed<TrailerValue>, config: EncryptionConfig) -> bool {
    &&& e.len() == old.len() + 1
    &&& e.drop_last() == old
    &&& e.last().0 == "Encrypt"@
    &&& e.last().1 matches TrailerValue::Dictionary(d)
    &&& is_encrypt_dict(d@, config)
    &&& d.spec_object_number() is None
}

/// `e` is `old` with the `/Encrypt` dictionary for `config`, then the `/ID` array, appended.
pub open spec fn with_encryption(old: Keyed<TrailerValue>, e: Keyed<TrailerValue>, config: EncryptionConfig) -> bool {
    &&& e.len() == old.len() + 2
    &&& with_encrypt_entry(old, e.drop_last(), config)
    &&& e.last().0 == "ID"@
    &&& e.last().1 matches TrailerValue::Array(a)
    &&& is_id_array(a@)
    &&& a.spec_object_number() is None
}

/// The trailer dictionary.
pub struct Trailer {
    dictionary: PdfDictionaryObject<TrailerValue>,
}

impl Trailer {
    #[verifier::type_invariant]
    closed spec fn inv(&self) -> bool {
        &&& self.dictionary.encodable()
        &&& self.dictionary.spec_object_number() is None
    }

    /// The entries of the trailer dictionary.
    pub closed spec fn entries(&self) -> Keyed<TrailerValue> {
        self.dictionary@
    }

    /// `/Size`, one more than the last object number, and `/Root`, a reference to the
    /// catalog.
    pub fn new(last_object_number: ObjectNumber, catalog_object_number: ObjectNumber) -> (r: Result<Self, PdfError>)
        requires
            last_object_number.0 < u64::MAX,
        ensures
            r matches Ok(t) && t.entries() == seq![
                ("Size"@, TrailerValue::Plain(PlainValue::Unsigned((last_object_number.0 + 1) as u64))),
                ("Root"@, TrailerValue::Plain(PlainValue::Reference(reference_to(catalog_object_number)))),
            ],
    {
        proof {
            reveal_strlit("Size");
            reveal_strlit("Root");
        }
        let mut dictionary = PdfDictionaryObject::new();
        let _ = dictionary.add("Size", TrailerValue::Plain(PlainValue::Unsigned(last_object_number.value() + 1)));
        assert(dictionary@[0].0[0] != "Root"@[0]);
        let _ = dictionary.add("Root", TrailerValue::Plain(PlainValue::Reference(PdfReferenceObject::new(catalog_object_number))));
        assert(dictionary@ =~= seq![
            ("Size"@, TrailerValue::Plain(PlainValue::Unsigned((last_object_number.0 + 1) as u64))),
            ("Root"@, TrailerValue::Plain(PlainValue::Reference(reference_to(catalog_object_number)))),
        ]);
        Ok(Trailer { dictionary })
    }

    /// Adds `value` under `key` to the trailer dictionary; an error when the key is present.
    fn add_entry(&mut self, key: &str, value: TrailerValue) -> (r: Result<(), PdfError>)
        requires
            value.encodable(),
        ensures
            has_key(old(self).entries(), key@) ==> {
                &&& final(self).entries() == old(self).entries()
                &&& r matches Err(e) && e matches PdfError::StructureError(m) && m@ == duplicate_key_message(key@)
            },
            !has_key(old(self).entries(), key@) ==> {
                &&& r is Ok
                &&& final(self).entries() == old(self).entries().push((key@, value))
            },
    {
        proof { use_type_invariant(&*self); }
        let mut dict = PdfDictionaryObject::new();
        std::mem::swap(&mut dict, &mut self.dictionary);
        let r = dict.add(key, value);
        self.dictionary = dict;
        r
    }

    /// Adds the `/Encrypt` dictionary of the standard security handler for `config` and the
    /// `/ID` array, the file identifier being the hex digits of the MD5 digest of no data;
    /// an error, from the first of them already present, when one is.
    pub fn encrypted(&mut self, config: &EncryptionConfig) -> (r: Result<&mut Self, PdfError>)
        ensures
            r is Ok <==> !has_key(old(self).entries(), "Encrypt"@) && !has_key(old(self).entries(), "ID"@),
            r matches Ok(t) ==> with_encryption(old(self).entries(), t.entries(), *config) && *final(self) == *final(t),
            has_key(old(self).entries(), "Encrypt"@) ==> {
                &&& final(self).entries() == old(self).entries()
                &&& r matches Err(e) && e matches PdfError::StructureError(m)
                    && m@ == duplicate_key_message("Encrypt"@)
            },
            !has_key(old(self).entries(), "Encrypt"@) && has_key(old(self).entries(), "ID"@) ==> {
                &&& with_encrypt_entry(old(self).entries(), final(self).entries(), *config)
                &&& r matches Err(e) && e matches PdfError::StructureError(m) && m@ == duplicate_key_message("ID"@)
            },
    {
        proof {
            reveal_strlit("Filter");
            reveal_strlit("Standard");
            reveal_strlit("V");
            reveal_strlit("R");
            reveal_strlit("O");
            reveal_strlit("U");
            reveal_strlit("P");
            reveal_strlit("Encrypt");
            reveal_strlit("ID");
        }
        let empty: [Object; 0] = [];
        let (_hash_hex, file_id_bytes) = compute_data_hash(&empty);
        let vals = compute_encryption_values(config, &file_id_bytes);

        let mut encrypt_dict: PdfDictionaryObject<PlainValue> = PdfDictionaryObject::new();
        let _ = encrypt_dict.add("Filter", PlainValue::Name(PdfNameObject::new("Standard")));
        assert(!has_key(encrypt_dict@, "V"@)) by {
            assert(encrypt_dict@[0].0.len() != "V"@.len());
        }
        let _ = encrypt_dict.add("V", PlainValue::Integer(1));
        assert(!has_key(encrypt_dict@, "R"@)) by {
            assert(encrypt_dict@[0].0.len() != "R"@.len());
            assert(encrypt_dict@[1].0[0] != "R"@[0]);
        }
        let _ = encrypt_dict.add("R", PlainValue::Integer(2));
        assert(!has_key(encrypt_dict@, "O"@)) by {
            assert(encrypt_dict@[0].0.len() != "O"@.len());
            assert(encrypt_dict@[1].0[0] != "O"@[0]);
            assert(encrypt_dict@[2].0[0] != "O"@[0]);
        }
        let _ = encrypt_dict.add("O", PlainValue::HexString(bytes_to_pdf_hex_string(&vals.o_value)));
        assert(!has_key(encrypt_dict@, "U"@)) by {
            assert(encrypt_dict@[0].0.len() != "U"@.len());
            assert(encrypt_dict@[1].0[0] != "U"@[0]);
            assert(encrypt_dict@[2].0[0] != "U"@[0]);
            assert(encrypt_dict@[3].0[0] != "U"@[0]);
        }
        let _ = encrypt_dict.add("U", PlainValue::HexString(bytes_to_pdf_hex_string(&vals.u_value)));
        assert(!has_key(encrypt_dict@, "P"@)) by {
            assert(encrypt_dict@[0].0.len() != "P"@.len());
            assert(encrypt_dict@[1].0[0] != "P"@[0]);
            assert(encrypt_dict@[2].0[0] != "P"@[0]);
            assert(encrypt_dict@[3].0[0] != "P"@[0]);
            assert(encrypt_dict@[4].0[0] != "P"@[0]);
        }
        let _ = encrypt_dict.add("P", PlainValue::Integer(vals.permissions as i64));
        assert(file_id_bytes@ == file_id_spec());
        assert(is_encrypt_dict(encrypt_dict@, *config));
        let ghost before = self.entries();
        match self.add_entry("Encrypt", TrailerValue::Dictionary(encrypt_dict)) {
            Ok(()) => {},
            Err(e) => {
                assert(has_key(before, "Encrypt"@));
                return Err(e);
            },
        }

        let id_hex = bytes_to_pdf_hex_string(&file_id_bytes);
        let mut id_array: PdfArrayObject<PlainValue> = PdfArrayObject::new();
        id_array.push(PlainValue::HexString(crate::strbuf::owned(id_hex.as_str())));
        id_array.push(PlainValue::HexString(id_hex));
        let ghost with_encrypt = self.entries();
        assert(with_encrypt.drop_last() =~= before);
        match self.add_entry("ID", TrailerValue::Array(id_array)) {
            Ok(()) => {},
            Err(e) => {
                assert(has_key(before, "ID"@)) by {
                    let i = choose|i: int| 0 <= i < with_encrypt.len() && with_encrypt[i].0 == "ID"@;
                    if i == before.len() {
                        assert(with_encrypt[i].0[0] != "ID"@[0]);
                    }
                    assert(before[i].0 == "ID"@);
                }
                return Err(e);
            },
        }
        assert(self.entries().drop_last() =~= with_encrypt);
        Ok(self)
    }

    /// Appends the trailer to `file`: `trailer`, the dictionary, and `position`, the offset
    /// of the cross-reference table.
    pub fn serialize(&self, version: Version, position: u64, file: &mut Vec<u8>) -> (r: Result<(), PdfError>)
        ensures
            r is Ok,
            final(file)@ == old(file)@ + trailer_spec(
                seq![32u8, 60u8, 60u8, 10u8] + entries_bytes(self.entries(), version) + seq![62u8, 62u8, 10u8],
                position,
            ),
    {
        proof { use_type_invariant(self); }
        let mut xref: Vec<XRefEntry> = Vec::new();
        let mut dict: Vec<u8> = Vec::new();
        let _ = self.dictionary.serialize(version, &mut xref, &mut dict);
        assert(dict@ =~= seq![32u8, 60u8, 60u8, 10u8] + entries_bytes(self.entries(), version) + seq![62u8, 62u8, 10u8]);
        write_bytes(file, trailer_bytes(dict.as_slice(), position));
        Ok(())
    }
}

} // verus!
