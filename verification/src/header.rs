//! The header of a PDF file: the version line and a comment line holding the four
//! characters `âãÏÓ` (eight UTF-8 bytes, each above 127), which marks the file as binary.
use vstd::prelude::*;
use vstd::utf8::encode_utf8;

use crate::version::{version_text, Version};

verus! {

/// `%PDF-<version>` and CR LF, then the UTF-8 bytes of `âãÏÓ` and CR LF.
pub open spec fn header_spec(version: Version) -> Seq<u8> {
    seq![37u8, 80u8, 68u8, 70u8, 45u8] + encode_utf8(version_text(version)) + seq![13u8, 10u8]
        + seq![0xC3u8, 0xA2u8, 0xC3u8, 0xA3u8, 0xC3u8, 0x8Fu8, 0xC3u8, 0x93u8, 13u8, 10u8]
}

/// The header's layout: `%PDF-`, the version's text character for character, CR LF, then
/// a comment line of eight bytes, each above 127, and CR LF.
pub proof fn lemma_header_layout(version: Version)
    ensures
        ({
            let h = header_spec(version);
            let t = version_text(version);
            let n = t.len() as int;
            &&& h.len() == n + 17
            &&& h.take(5) == seq![37u8, 80u8, 68u8, 70u8, 45u8]
            &&& forall|k: int| 0 <= k < t.len() ==> h[5 + k] == #[trigger] t[k] as u8
            &&& h[5 + n] == 13u8 && h[6 + n] == 10u8
            &&& forall|k: int| n + 7 <= k < n + 15 ==> #[trigger] h[k] > 127
            &&& h[n + 15] == 13u8 && h[n + 16] == 10u8
        }),
{
    reveal_strlit("1.0");
    reveal_strlit("1.1");
    reveal_strlit("1.2");
    reveal_strlit("1.3");
    reveal_strlit("1.4");
    reveal_strlit("1.5");
    reveal_strlit("1.6");
    reveal_strlit("1.7");
    reveal_strlit("1.7.1");
    reveal_strlit("1.7.3");
    reveal_strlit("1.7.5");
    reveal_strlit("1.7.6");
    reveal_strlit("1.7.8");
    reveal_strlit("2.2017");
    reveal_strlit("2.2020");
    let t = version_text(version);
    assert(vstd::utf8::is_ascii_chars(t));
    vstd::utf8::is_ascii_chars_encode_utf8(t);
    let h = header_spec(version);
    assert(h.take(5) =~= seq![37u8, 80u8, 68u8, 70u8, 45u8]);
    assert forall|k: int| 0 <= k < t.len() implies h[5 + k] == #[trigger] t[k] as u8 by {
        assert(h[5 + k] == encode_utf8(t)[k]);
    }
}

/// The bytes of the header of a file of the given version.
pub fn header_bytes(version: Version) -> (arr: Vec<u8>)
    ensures
        arr@ == header_spec(version),
{
    let mut arr: Vec<u8> = Vec::new();
    arr.push(37u8);
    arr.push(80u8);
    arr.push(68u8);
    arr.push(70u8);
    arr.push(45u8);
    let v = version.as_bytes();
    let mut i: usize = 0;
    while i < v.len()
        invariant
            i <= v@.len(),
            arr@ == seq![37u8, 80u8, 68u8, 70u8, 45u8] + v@.take(i as int),
        decreases v@.len() - i,
    {
        arr.push(v[i]);
        i = i + 1;
        assert(arr@ =~= seq![37u8, 80u8, 68u8, 70u8, 45u8] + v@.take(i as int));
    }
    assert(v@.take(i as int) =~= v@);
    arr.push(13u8);
    arr.push(10u8);
    arr.push(0xC3u8);
    arr.push(0xA2u8);
    arr.push(0xC3u8);
    arr.push(0xA3u8);
    arr.push(0xC3u8);
    arr.push(0x8Fu8);
    arr.push(0xC3u8);
    arr.push(0x93u8);
    arr.push(13u8);
    arr.push(10u8);
    assert(arr@ =~= header_spec(version));
    arr
}

} // verus!
