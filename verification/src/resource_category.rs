//! The categories of a Resources dictionary and the prefixes of their generated names.
use vstd::prelude::*;

verus! {

/// The keys of a Resources dictionary.
pub const STANDARD_RESOURCE_CATEGORIES: [&'static str; 8] = [
    "ColorSpace",
    "ExtGState",
    "Font",
    "Pattern",
    "Properties",
    "Shading",
    "XObject",
    "ProcSet",
];

#[derive(Debug, Clone, Copy, PartialEq, Eq, Hash, Structural)]
pub enum ResourceCategory {
    ColorSpace,
    ExtGState,
    Font,
    Pattern,
    Properties,
    Shading,
    XObject,
}

/// The key of a category in a Resources dictionary.
pub open spec fn category_key(c: ResourceCategory) -> Seq<char> {
    match c {
        ResourceCategory::ColorSpace => "ColorSpace"@,
        ResourceCategory::ExtGState => "ExtGState"@,
        ResourceCategory::Font => "Font"@,
        ResourceCategory::Pattern => "Pattern"@,
        ResourceCategory::Properties => "Properties"@,
        ResourceCategory::Shading => "Shading"@,
        ResourceCategory::XObject => "XObject"@,
    }
}

/// The prefix of the names generated for resources of a category.
pub open spec fn category_name_prefix(c: ResourceCategory) -> Seq<char> {
    match c {
        ResourceCategory::ColorSpace => "CS"@,
        ResourceCategory::ExtGState => "GS"@,
        ResourceCategory::Font => "F"@,
        ResourceCategory::Pattern => "P"@,
        ResourceCategory::Properties => "Pr"@,
        ResourceCategory::Shading => "Sh"@,
        ResourceCategory::XObject => "Im"@,
    }
}

/// Every category is keyed by one of the standard Resources keys, and distinct categories
/// have distinct keys and distinct prefixes for their generated names.
pub proof fn lemma_category_keys(c: ResourceCategory, d: ResourceCategory)
    ensures
        exists|i: int| 0 <= i < 7 && #[trigger] STANDARD_RESOURCE_CATEGORIES@[i]@ == category_key(c),
        c != d ==> category_key(c) != category_key(d),
        c != d ==> category_name_prefix(c) != category_name_prefix(d),
{
    reveal_strlit("ColorSpace");
    reveal_strlit("ExtGState");
    reveal_strlit("Font");
    reveal_strlit("Pattern");
    reveal_strlit("Properties");
    reveal_strlit("Shading");
    reveal_strlit("XObject");
    reveal_strlit("ProcSet");
    reveal_strlit("CS");
    reveal_strlit("GS");
    reveal_strlit("F");
    reveal_strlit("P");
    reveal_strlit("Pr");
    reveal_strlit("Sh");
    reveal_strlit("Im");
    let i: int = match c {
        ResourceCategory::ColorSpace => 0,
        ResourceCategory::ExtGState => 1,
        ResourceCategory::Font => 2,
        ResourceCategory::Pattern => 3,
        ResourceCategory::Properties => 4,
        ResourceCategory::Shading => 5,
        ResourceCategory::XObject => 6,
    };
    assert(STANDARD_RESOURCE_CATEGORIES@[i]@ == category_key(c));
    if c != d && category_key(c) == category_key(d) {
        assert(category_key(c).len() == category_key(d).len());
        assert(category_key(c)[0] == category_key(d)[0]);
        assert(category_key(c)[1] == category_key(d)[1]);
    }
    if c != d && category_name_prefix(c) == category_name_prefix(d) {
        assert(category_name_prefix(c).len() == category_name_prefix(d).len());
        assert(category_name_prefix(c)[0] == category_name_prefix(d)[0]);
    }
}

impl ResourceCategory {
    pub fn as_str(&self) -> (s: &'static str)
        ensures
            s@ == category_key(*self),
    {
        match self {
            ResourceCategory::ColorSpace => "ColorSpace",
            ResourceCategory::ExtGState => "ExtGState",
            ResourceCategory::Font => "Font",
            ResourceCategory::Pattern => "Pattern",
            ResourceCategory::Properties => "Properties",
            ResourceCategory::Shading => "Shading",
            ResourceCategory::XObject => "XObject",
        }
    }

    pub fn category_prefix(category: ResourceCategory) -> (s: &'static str)
        ensures
            s@ == category_name_prefix(category),
    {
        match category {
            ResourceCategory::ColorSpace => "CS",
            ResourceCategory::ExtGState => "GS",
            ResourceCategory::Font => "F",
            ResourceCategory::Pattern => "P",
            ResourceCategory::Properties => "Pr",
            ResourceCategory::Shading => "Sh",
            ResourceCategory::XObject => "Im",
        }
    }
}

} // verus!
