//! The standard fonts that every document's resources offer.
use vstd::prelude::*;
use vstd::utf8::encode_utf8;

use crate::keyed::{has_key, Keyed};
use crate::objects::pdf_dictionary::PdfDictionaryObject;
use crate::objects::pdf_name::PdfNameObject;

verus! {

/// The name object holds the UTF-8 bytes of `s`.
pub open spec fn is_name_of(n: PdfNameObject, s: Seq<char>) -> bool {
    n.value@ == encode_utf8(s)
}

/// A Type1 font dictionary: `/Type /Font`, `/Subtype /Type1`, `/BaseFont /<base>`.
pub open spec fn is_font_dict(e: Keyed<PdfNameObject>, base: Seq<char>) -> bool {
    &&& e.len() == 3
    &&& e[0].0 == "Type"@ && is_name_of(e[0].1, "Font"@)
    &&& e[1].0 == "Subtype"@ && is_name_of(e[1].1, "Type1"@)
    &&& e[2].0 == "BaseFont"@ && is_name_of(e[2].1, base)
}

/// Helvetica, Helvetica-Bold and Courier, in this order, each under its name as a Type1 font.
pub open spec fn is_standard_fonts(d: Keyed<PdfDictionaryObject<PdfNameObject>>) -> bool {
    &&& d.len() == 3
    &&& d[0].0 == "Helvetica"@ && is_font_dict(d[0].1@, "Helvetica"@)
    &&& d[1].0 == "Helvetica-Bold"@ && is_font_dict(d[1].1@, "Helvetica-Bold"@)
    &&& d[2].0 == "Courier"@ && is_font_dict(d[2].1@, "Courier"@)
}

/// Constructors of font resources.
pub struct Fonts {}

impl Fonts {
    /// The dictionary of a Type1 font.
    fn font_dict(base: &str) -> (d: PdfDictionaryObject<PdfNameObject>)
        ensures
            is_font_dict(d@, base@),
    {
        proof {
            reveal_strlit("Type");
            reveal_strlit("Subtype");
            reveal_strlit("BaseFont");
        }
        let mut d = PdfDictionaryObject::new();
        let _ = d.add("Type", PdfNameObject::new("Font"));
        assert(d@[0].0.len() != "Subtype"@.len());
        assert(!has_key(d@, "Subtype"@));
        let _ = d.add("Subtype", PdfNameObject::new("Type1"));
        assert(d@[0].0.len() != "BaseFont"@.len());
        assert(d@[1].0.len() != "BaseFont"@.len());
        assert(!has_key(d@, "BaseFont"@));
        let _ = d.add("BaseFont", PdfNameObject::new(base));
        d
    }

    /// Helvetica, Helvetica-Bold and Courier, each under its name as a Type1 font.
    pub fn get_standard_fonts_dict() -> (d: PdfDictionaryObject<PdfDictionaryObject<PdfNameObject>>)
        ensures
            is_standard_fonts(d@),
    {
        proof {
            reveal_strlit("Helvetica");
            reveal_strlit("Helvetica-Bold");
            reveal_strlit("Courier");
        }
        let mut fonts_dict = PdfDictionaryObject::new();
        let _ = fonts_dict.add("Helvetica", Self::font_dict("Helvetica"));
        assert(fonts_dict@[0].0.len() != "Helvetica-Bold"@.len());
        assert(!has_key(fonts_dict@, "Helvetica-Bold"@));
        let _ = fonts_dict.add("Helvetica-Bold", Self::font_dict("Helvetica-Bold"));
        assert(fonts_dict@[0].0[0] != "Courier"@[0]);
        assert(fonts_dict@[1].0[0] != "Courier"@[0]);
        assert(!has_key(fonts_dict@, "Courier"@));
        let _ = fonts_dict.add("Courier", Self::font_dict("Courier"));
        fonts_dict
    }
}

} // verus!
