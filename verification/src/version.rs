use vstd::prelude::*;
use vstd::utf8::encode_utf8;

verus! {

/// The PDF versions that a document may declare in its header.
#[derive(Debug, Clone, Copy, PartialEq, Eq, PartialOrd, Ord, Structural)]
pub enum Version {
    V1_0,
    V1_1,
    V1_2,
    V1_3,
    V1_4,
    V1_5,
    V1_6,
    V1_7,
    V1_7_1,
    V1_7_3,
    V1_7_5,
    V1_7_6,
    V1_7_8,
    V2_2017,
    V2_2020,
}

/// Position of a version in release order (`V1_0` is 0, `V2_2020` is 14).
pub open spec fn version_rank(v: Version) -> nat {
    match v {
        Version::V1_0 => 0,
        Version::V1_1 => 1,
        Version::V1_2 => 2,
        Version::V1_3 => 3,
        Version::V1_4 => 4,
        Version::V1_5 => 5,
        Version::V1_6 => 6,
        Version::V1_7 => 7,
        Version::V1_7_1 => 8,
        Version::V1_7_3 => 9,
        Version::V1_7_5 => 10,
        Version::V1_7_6 => 11,
        Version::V1_7_8 => 12,
        Version::V2_2017 => 13,
        Version::V2_2020 => 14,
    }
}

/// The text written after `%PDF-` for a version.
pub open spec fn version_text(v: Version) -> Seq<char> {
    match v {
        Version::V1_0 => "1.0"@,
        Version::V1_1 => "1.1"@,
        Version::V1_2 => "1.2"@,
        Version::V1_3 => "1.3"@,
        Version::V1_4 => "1.4"@,
        Version::V1_5 => "1.5"@,
        Version::V1_6 => "1.6"@,
        Version::V1_7 => "1.7"@,
        Version::V1_7_1 => "1.7.1"@,
        Version::V1_7_3 => "1.7.3"@,
        Version::V1_7_5 => "1.7.5"@,
        Version::V1_7_6 => "1.7.6"@,
        Version::V1_7_8 => "1.7.8"@,
        Version::V2_2017 => "2.2017"@,
        Version::V2_2020 => "2.2020"@,
    }
}

/// A version's text spells its release: versions 1.0 to 1.7 are `1.` and the digit of
/// their rank, the 1.7 extension levels are `1.7.` and one digit above the rank's last,
/// and the two releases of PDF 2.0 are `2.` and their year. Distinct versions have distinct
/// ranks and distinct texts.
pub proof fn lemma_version_text_spells_rank(v: Version, w: Version)
    ensures
        version_rank(v) <= 7 ==> version_text(v).len() == 3 && version_text(v)[0] == '1'
            && version_text(v)[1] == '.' && version_text(v)[2] as u32 == 48 + version_rank(v),
        8 <= version_rank(v) <= 12 ==> version_text(v).len() == 5 && version_text(v).take(4) == "1.7."@,
        version_rank(v) >= 13 ==> version_text(v).take(2) == "2."@ && version_text(v).len() == 6,
        version_rank(v) <= 14,
        v != w ==> version_rank(v) != version_rank(w),
        v != w ==> version_text(v) != version_text(w),
{
    reveal_strlit("1.0");
    reveal_strlit("1.1");
    reveal_strlit("1.2");
    reveal_strlit("1.3");
    reveal_strlit("1.4");
    reveal_strlit("1.5");
    reveal_strlit("1.6");
    reveal_strlit("1.7");
    reveal_strlit("1.7.1");
    reveal_strlit("1.7.3");
    reveal_strlit("1.7.5");
    reveal_strlit("1.7.6");
    reveal_strlit("1.7.8");
    reveal_strlit("2.2017");
    reveal_strlit("2.2020");
    reveal_strlit("1.7.");
    reveal_strlit("2.");
    assert("1.7."@ =~= seq!['1', '.', '7', '.']);
    assert("2."@ =~= seq!['2', '.']);
    if v != w && version_text(v) == version_text(w) {
        let n = version_text(v).len() - 1;
        assert(version_text(v)[n] == version_text(w)[n]);
        assert(version_text(v)[2] == version_text(w)[2]);
    }
    match v {
        Version::V1_7_1 => assert(version_text(v).take(4) =~= "1.7."@),
        Version::V1_7_3 => assert(version_text(v).take(4) =~= "1.7."@),
        Version::V1_7_5 => assert(version_text(v).take(4) =~= "1.7."@),
        Version::V1_7_6 => assert(version_text(v).take(4) =~= "1.7."@),
        Version::V1_7_8 => assert(version_text(v).take(4) =~= "1.7."@),
        Version::V2_2017 => assert(version_text(v).take(2) =~= "2."@),
        Version::V2_2020 => assert(version_text(v).take(2) =~= "2."@),
        _ => {}
    }
}

impl Default for Version {
    fn default() -> (v: Self)
        ensures
            v == Version::V1_5,
    {
        Version::V1_5
    }
}

impl Version {
    /// Release-order position of the version; versions compare by it.
    pub fn rank(&self) -> (r: u8)
        ensures
            r == version_rank(*self),
    {
        match self {
            Version::V1_0 => 0,
            Version::V1_1 => 1,
            Version::V1_2 => 2,
            Version::V1_3 => 3,
            Version::V1_4 => 4,
            Version::V1_5 => 5,
            Version::V1_6 => 6,
            Version::V1_7 => 7,
            Version::V1_7_1 => 8,
            Version::V1_7_3 => 9,
            Version::V1_7_5 => 10,
            Version::V1_7_6 => 11,
            Version::V1_7_8 => 12,
            Version::V2_2017 => 13,
            Version::V2_2020 => 14,
        }
    }

    /// True when `self` is released no earlier than `other`.
    pub fn at_least(&self, other: Version) -> (b: bool)
        ensures
            b == (version_rank(*self) >= version_rank(other)),
    {
        self.rank() >= other.rank()
    }

    pub fn as_str(&self) -> (s: &'static str)
        ensures
            s@ == version_text(*self),
    {
        match self {
            Version::V1_0 => "1.0",
            Version::V1_1 => "1.1",
            Version::V1_2 => "1.2",
            Version::V1_3 => "1.3",
            Version::V1_4 => "1.4",
            Version::V1_5 => "1.5",
            Version::V1_6 => "1.6",
            Version::V1_7 => "1.7",
            Version::V1_7_1 => "1.7.1",
            Version::V1_7_3 => "1.7.3",
            Version::V1_7_5 => "1.7.5",
            Version::V1_7_6 => "1.7.6",
            Version::V1_7_8 => "1.7.8",
            Version::V2_2017 => "2.2017",
            Version::V2_2020 => "2.2020",
        }
    }

    pub fn as_bytes(&self) -> (b: &'static [u8])
        ensures
            b@ == encode_utf8(version_text(*self)),
    {
        self.as_str().as_bytes()
    }
}

} // verus!
