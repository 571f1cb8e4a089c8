use vstd::prelude::*;
use vstd::utf8::encode_utf8;

use crate::error::PdfError;
use crate::object_ops::{write_bytes, Encode, Serialize, XRefEntry};
use crate::hexfmt::{upper_hex_char, upper_hex_digit};
use crate::version::Version;

verus! {

/// The encoding of one byte of a name: `#` and two upper-case hex digits for `#` and for
/// bytes outside the printable range 0x21..=0x7E, the byte itself otherwise.
pub open spec fn name_byte(b: u8) -> Seq<u8> {
    if b == 35 || !(0x21 <= b <= 0x7E) {
        seq![35u8, upper_hex_digit(b / 16) as u8, upper_hex_digit(b % 16) as u8]
    } else {
        seq![b]
    }
}

/// The encodings of the bytes of a name, in order.
pub open spec fn name_body(value: Seq<u8>) -> Seq<u8>
    decreases value.len(),
{
    if value.len() == 0 {
        Seq::empty()
    } else {
        name_body(value.drop_last()) + name_byte(value.last())
    }
}

/// Every byte of an escaped name is a printable character other than space: a name's
/// text never holds whitespace or control bytes.
pub proof fn lemma_name_body_printable(value: Seq<u8>)
    ensures
        forall|i: int| 0 <= i < name_body(value).len() ==> 0x21 <= #[trigger] name_body(value)[i] <= 0x7E,
    decreases value.len(),
{
    if value.len() > 0 {
        lemma_name_body_printable(value.drop_last());
        let a = name_body(value.drop_last());
        let b = name_byte(value.last());
        let x = value.last();
        assert(x / 16 < 16 && x % 16 < 16);
        assert(forall|i: int| 0 <= i < b.len() ==> 0x21 <= #[trigger] b[i] <= 0x7E);
        assert forall|i: int| 0 <= i < name_body(value).len() implies 0x21 <= #[trigger] name_body(value)[i] <= 0x7E by {
            if i < a.len() {
                assert(name_body(value)[i] == a[i]);
            } else {
                assert(name_body(value)[i] == b[i - a.len()]);
            }
        }
    }
}

/// A name object over arbitrary bytes.
#[derive(Clone, PartialEq)]
pub struct PdfNameObject {
    pub value: Vec<u8>,
}

impl PdfNameObject {
    /// A name of the UTF-8 bytes of `value`.
    pub fn new(value: &str) -> (o: Self)
        ensures
            o.value@ == encode_utf8(value@),
    {
        Self::from_bytes(value.as_bytes())
    }

    /// A name of the given bytes.
    pub fn from_bytes(value: &[u8]) -> (o: Self)
        ensures
            o.value@ == value@,
    {
        Self { value: vstd::slice::slice_to_vec(value) }
    }
}

impl Encode for PdfNameObject {
    open spec fn encodable(&self) -> bool {
        true
    }

    /// `/` followed by the escaped bytes of the name.
    open spec fn encoding(&self, version: Version) -> Seq<u8> {
        seq![47u8] + name_body(self.value@)
    }

    fn encode(&self, _version: Version) -> (r: Result<Vec<u8>, PdfError>) {
        let mut result: Vec<u8> = Vec::new();
        result.push(47u8);
        let mut i: usize = 0;
        while i < self.value.len()
            invariant
                i <= self.value@.len(),
                result@ == seq![47u8] + name_body(self.value@.take(i as int)),
            decreases self.value@.len() - i,
        {
            let byte = self.value[i];
            let ghost before = result@;
            if byte == 35u8 || !(0x21u8 <= byte && byte <= 0x7Eu8) {
                result.push(35u8);
                result.push(upper_hex_char(byte / 16) as u8);
                result.push(upper_hex_char(byte % 16) as u8);
            } else {
                if byte != 0u8 {
                    result.push(byte);
                }
            }
            assert(result@ =~= before + name_byte(byte));
            i = i + 1;
            assert(self.value@.take(i as int).drop_last() =~= self.value@.take(i - 1));
            assert(result@ =~= seq![47u8] + name_body(self.value@.take(i as int)));
        }
        assert(self.value@.take(i as int) =~= self.value@);
        Ok(result)
    }
}

impl Serialize for PdfNameObject {
    open spec fn serialization(&self, version: Version) -> Seq<u8> {
        self.encoding(version)
    }

    open spec fn xref_entries(&self, version: Version, start: nat) -> Seq<XRefEntry> {
        Seq::empty()
    }

    fn serialize(&self, version: Version, xref: &mut Vec<XRefEntry>, file: &mut Vec<u8>) -> (r: Result<(), PdfError>) {
        match self.encode(version) {
            Ok(v) => {
                write_bytes(file, v);
                assert(xref@ =~= old(xref)@ + Seq::<XRefEntry>::empty());
                Ok(())
            },
            Err(e) => Err(e),
        }
    }
}

} // verus!
