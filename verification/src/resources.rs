//! The Resources dictionary of a page: named references to graphics states, patterns,
//! fonts, shadings and external objects.
use vstd::prelude::*;
use vstd::utf8::encode_utf8;

use crate::decimal::{decimal_bytes, push_decimal};
use crate::keyed::{
    distinct_keys, keyed_extend, keyed_insert, keyed_map, lemma_keyed_extend, lemma_keyed_insert,
    lemma_keyed_map_len,
};

verus! {

/// Names with object numbers, in insertion order.
pub type Entries = Seq<(Seq<char>, usize)>;

/// `/<name> <num> 0 R ` for each entry, in order.
pub open spec fn entries_body(e: Entries) -> Seq<u8>
    decreases e.len(),
{
    if e.len() == 0 {
        Seq::empty()
    } else {
        entries_body(e.drop_last()) + seq![47u8] + encode_utf8(e.last().0) + seq![32u8]
            + decimal_bytes(e.last().1 as nat) + seq![32u8, 48u8, 32u8, 82u8, 32u8]
    }
}

/// The dictionary text of one category: `<<`, the entries, `>>`.
pub open spec fn category_bytes(e: Entries) -> Seq<u8> {
    seq![60u8, 60u8] + entries_body(e) + seq![62u8, 62u8]
}

/// The reference `/<name> <num> 0 R ` to object `num`, generation 0, under `name`.
pub open spec fn named_reference_bytes(name: Seq<char>, num: usize) -> Seq<u8> {
    seq![47u8] + encode_utf8(name) + seq![32u8] + decimal_bytes(num as nat) + seq![32u8, 48u8, 32u8, 82u8, 32u8]
}

/// The text of two runs of entries is the text of the first, then that of the second.
pub proof fn lemma_entries_body_concat(a: Entries, b: Entries)
    ensures
        entries_body(a + b) == entries_body(a) + entries_body(b),
    decreases b.len(),
{
    if b.len() == 0 {
        assert(a + b =~= a);
        assert(entries_body(b) =~= Seq::<u8>::empty());
        assert(entries_body(a) + entries_body(b) =~= entries_body(a));
    } else {
        assert((a + b).drop_last() =~= a + b.drop_last());
        assert((a + b).last() == b.last());
        lemma_entries_body_concat(a, b.drop_last());
        assert(entries_body(a + b) =~= entries_body(a) + entries_body(b));
    }
}

/// A category's text lists every entry, in order, as a reference to its object: the text of
/// the entries before it, `/<name> <num> 0 R `, then the text of the entries after it.
pub proof fn lemma_category_lists_entries(e: Entries, k: int)
    requires
        0 <= k < e.len(),
    ensures
        category_bytes(e) == seq![60u8, 60u8] + entries_body(e.take(k)) + named_reference_bytes(e[k].0, e[k].1)
            + entries_body(e.skip(k + 1)) + seq![62u8, 62u8],
{
    let one = seq![e[k]];
    assert(e =~= e.take(k) + one + e.skip(k + 1));
    lemma_entries_body_concat(e.take(k) + one, e.skip(k + 1));
    lemma_entries_body_concat(e.take(k), one);
    assert(one.drop_last() =~= Seq::<(Seq<char>, usize)>::empty());
    assert(entries_body(one.drop_last()) =~= Seq::<u8>::empty());
    assert(entries_body(one) =~= named_reference_bytes(e[k].0, e[k].1));
}

/// One category of resources: names mapped to object numbers, kept in insertion order.
pub struct ResourceMap {
    entries: Vec<(String, usize)>,
}

impl View for ResourceMap {
    type V = Entries;

    closed spec fn view(&self) -> Entries {
        self.entries@.map_values(|p: (String, usize)| (p.0@, p.1))
    }
}

impl ResourceMap {
    #[verifier::type_invariant]
    closed spec fn inv(&self) -> bool {
        distinct_keys(self@)
    }

    pub fn new() -> (m: Self)
        ensures
            m@ == Seq::<(Seq<char>, usize)>::empty(),
    {
        let m = ResourceMap { entries: Vec::new() };
        assert(m@ =~= Seq::<(Seq<char>, usize)>::empty());
        m
    }

    /// Maps `name` to `obj_num`, replacing the number of a name already present.
    pub fn insert(&mut self, name: String, obj_num: usize)
        ensures
            final(self)@ == keyed_insert(old(self)@, name@, obj_num),
            keyed_map(final(self)@) == keyed_map(old(self)@).insert(name@, obj_num),
    {
        proof { use_type_invariant(&*self); }
        let ghost name_view = name@;
        let mut i: usize = 0;
        while i < self.entries.len()
            invariant
                i <= self.entries@.len(),
                forall|k: int| 0 <= k < i ==> self@[k].0 != name_view,
                name@ == name_view,
                distinct_keys(self@),
                self@ == old(self)@,
            decreases self.entries@.len() - i,
        {
            if self.entries[i].0 == name {
                let ghost pre = self@;
                assert(pre[i as int].0 == name_view);
                proof {
                    let j = choose|j: int| 0 <= j < pre.len() && pre[j].0 == name_view;
                    if j != i as int {
                        if j > i as int {
                            assert(pre[i as int].0 != pre[j].0);
                        }
                    }
                    lemma_keyed_insert(pre, name_view, obj_num);
                }
                let mut entries: Vec<(String, usize)> = Vec::new();
                std::mem::swap(&mut entries, &mut self.entries);
                entries.set(i, (name, obj_num));
                assert(entries@.map_values(|p: (String, usize)| (p.0@, p.1)) =~= keyed_insert(pre, name_view, obj_num));
                self.entries = entries;
                return;
            }
            i = i + 1;
        }
        let ghost pre = self@;
        proof { lemma_keyed_insert(pre, name_view, obj_num); }
        let mut entries: Vec<(String, usize)> = Vec::new();
        std::mem::swap(&mut entries, &mut self.entries);
        entries.push((name, obj_num));
        assert(entries@.map_values(|p: (String, usize)| (p.0@, p.1)) =~= keyed_insert(pre, name_view, obj_num));
        self.entries = entries;
    }

    pub fn len(&self) -> (n: usize)
        ensures
            n == self@.len(),
            distinct_keys(self@),
    {
        proof { use_type_invariant(self); }
        self.entries.len()
    }

    pub fn is_empty(&self) -> (b: bool)
        ensures
            b == (self@.len() == 0),
    {
        self.entries.len() == 0
    }

    pub fn clear(&mut self)
        ensures
            final(self)@ == Seq::<(Seq<char>, usize)>::empty(),
    {
        self.entries = Vec::new();
        assert(self@ =~= Seq::<(Seq<char>, usize)>::empty());
    }

    /// Inserts every entry of `other`, in its order.
    pub fn extend(&mut self, other: &ResourceMap)
        ensures
            final(self)@ == keyed_extend(old(self)@, other@),
            keyed_map(final(self)@) == keyed_map(old(self)@).union_prefer_right(keyed_map(other@)),
    {
        proof {
            use_type_invariant(&*self);
            lemma_keyed_extend(self@, other@);
        }
        let mut i: usize = 0;
        while i < other.entries.len()
            invariant
                i <= other@.len(),
                self@ == keyed_extend(old(self)@, other@.take(i as int)),
            decreases other@.len() - i,
        {
            let name = other.entries[i].0.clone();
            let num = other.entries[i].1;
            self.insert(name, num);
            i = i + 1;
            assert(other@.take(i as int).drop_last() =~= other@.take(i - 1));
        }
        assert(other@.take(i as int) =~= other@);
    }

    /// `<<`, then `/<name> <num> 0 R ` for each entry, then `>>`.
    pub fn build_bytes(&self) -> (v: Vec<u8>)
        ensures
            v@ == category_bytes(self@),
    {
        let mut v: Vec<u8> = Vec::new();
        v.push(60u8);
        v.push(60u8);
        let mut i: usize = 0;
        while i < self.entries.len()
            invariant
                i <= self@.len(),
                v@ == seq![60u8, 60u8] + entries_body(self@.take(i as int)),
            decreases self@.len() - i,
        {
            let ghost before = v@;
            v.push(47u8);
            let bytes = self.entries[i].0.as_str().as_bytes();
            let mut k: usize = 0;
            while k < bytes.len()
                invariant
                    k <= bytes@.len(),
                    v@ == before + seq![47u8] + bytes@.take(k as int),
                decreases bytes@.len() - k,
            {
                v.push(bytes[k]);
                k = k + 1;
                assert(v@ =~= before + seq![47u8] + bytes@.take(k as int));
            }
            assert(bytes@.take(k as int) =~= bytes@);
            v.push(32u8);
            push_decimal(&mut v, self.entries[i].1 as u64);
            v.push(32u8);
            v.push(48u8);
            v.push(32u8);
            v.push(82u8);
            v.push(32u8);
            i = i + 1;
            assert(self@.take(i as int).drop_last() =~= self@.take(i - 1));
            assert(v@ =~= seq![60u8, 60u8] + entries_body(self@.take(i as int)));
        }
        v.push(62u8);
        v.push(62u8);
        assert(self@.take(i as int) =~= self@);
        assert(v@ =~= category_bytes(self@));
        v
    }
}

} // verus!

verus! {

/// The five categories of a resource dictionary, each as its entries in insertion order.
pub struct ResourcesView {
    pub extgstates: Entries,
    pub patterns: Entries,
    pub fonts: Entries,
    pub shadings: Entries,
    pub xobjects: Entries,
}

/// The non-empty categories, in the order ExtGState, Pattern, Font, Shading, XObject, each
/// with its dictionary text.
pub open spec fn built_categories(r: ResourcesView) -> Seq<(Seq<char>, Seq<u8>)> {
    let a = if r.extgstates.len() > 0 { seq![("ExtGState"@, category_bytes(r.extgstates))] } else { Seq::empty() };
    let b = if r.patterns.len() > 0 { seq![("Pattern"@, category_bytes(r.patterns))] } else { Seq::empty() };
    let c = if r.fonts.len() > 0 { seq![("Font"@, category_bytes(r.fonts))] } else { Seq::empty() };
    let d = if r.shadings.len() > 0 { seq![("Shading"@, category_bytes(r.shadings))] } else { Seq::empty() };
    let e = if r.xobjects.len() > 0 { seq![("XObject"@, category_bytes(r.xobjects))] } else { Seq::empty() };
    a + b + c + d + e
}

/// Some built category has the name `name`.
pub open spec fn has_category(c: Seq<(Seq<char>, Seq<u8>)>, name: Seq<char>) -> bool {
    exists|i: int| 0 <= i < c.len() && #[trigger] c[i].0 == name
}

/// A category is among the built ones exactly when it has entries: the built dictionary
/// names a category if and only if that category's count is not zero.
pub proof fn lemma_built_category_present(r: ResourcesView)
    ensures
        has_category(built_categories(r), "ExtGState"@) <==> r.extgstates.len() > 0,
        has_category(built_categories(r), "Pattern"@) <==> r.patterns.len() > 0,
        has_category(built_categories(r), "Font"@) <==> r.fonts.len() > 0,
        has_category(built_categories(r), "Shading"@) <==> r.shadings.len() > 0,
        has_category(built_categories(r), "XObject"@) <==> r.xobjects.len() > 0,
{
    reveal_strlit("ExtGState");
    reveal_strlit("Pattern");
    reveal_strlit("Font");
    reveal_strlit("Shading");
    reveal_strlit("XObject");
    let a = optional_category(r.extgstates.len() > 0, "ExtGState"@, category_bytes(r.extgstates));
    let b = optional_category(r.patterns.len() > 0, "Pattern"@, category_bytes(r.patterns));
    let c = optional_category(r.fonts.len() > 0, "Font"@, category_bytes(r.fonts));
    let d = optional_category(r.shadings.len() > 0, "Shading"@, category_bytes(r.shadings));
    let e = optional_category(r.xobjects.len() > 0, "XObject"@, category_bytes(r.xobjects));
    assert(built_categories(r) == a + b + c + d + e);
    lemma_has_category_concat(a, b);
    lemma_has_category_concat(a + b, c);
    lemma_has_category_concat(a + b + c, d);
    lemma_has_category_concat(a + b + c + d, e);
    assert("Pattern"@[0] != "Shading"@[0]);
    assert("Pattern"@[0] != "XObject"@[0]);
    assert("Shading"@[0] != "XObject"@[0]);
    assert("ExtGState"@.len() != "Pattern"@.len());
    assert("Font"@.len() != "Pattern"@.len());
    assert("ExtGState"@.len() != "Font"@.len());
    assert("ExtGState"@.len() != "Shading"@.len());
    assert("ExtGState"@.len() != "XObject"@.len());
    assert("Font"@.len() != "Shading"@.len());
    assert("Font"@.len() != "XObject"@.len());
    let names = seq!["ExtGState"@, "Pattern"@, "Font"@, "Shading"@, "XObject"@];
    assert forall|n: Seq<char>| #[trigger] names.contains(n) implies {
        &&& has_category(a, n) <==> r.extgstates.len() > 0 && n == "ExtGState"@
        &&& has_category(b, n) <==> r.patterns.len() > 0 && n == "Pattern"@
        &&& has_category(c, n) <==> r.fonts.len() > 0 && n == "Font"@
        &&& has_category(d, n) <==> r.shadings.len() > 0 && n == "Shading"@
        &&& has_category(e, n) <==> r.xobjects.len() > 0 && n == "XObject"@
    } by {
        lemma_optional_category(r.extgstates.len() > 0, "ExtGState"@, category_bytes(r.extgstates), n);
        lemma_optional_category(r.patterns.len() > 0, "Pattern"@, category_bytes(r.patterns), n);
        lemma_optional_category(r.fonts.len() > 0, "Font"@, category_bytes(r.fonts), n);
        lemma_optional_category(r.shadings.len() > 0, "Shading"@, category_bytes(r.shadings), n);
        lemma_optional_category(r.xobjects.len() > 0, "XObject"@, category_bytes(r.xobjects), n);
    }
    assert(names.contains("ExtGState"@)) by { assert(names[0] == "ExtGState"@); }
    assert(names.contains("Pattern"@)) by { assert(names[1] == "Pattern"@); }
    assert(names.contains("Font"@)) by { assert(names[2] == "Font"@); }
    assert(names.contains("Shading"@)) by { assert(names[3] == "Shading"@); }
    assert(names.contains("XObject"@)) by { assert(names[4] == "XObject"@); }
}

/// Each built category carries its own entries: the text under `ExtGState` is the
/// dictionary of the graphics states, the one under `Pattern` that of the patterns, and
/// likewise for `Font`, `Shading` and `XObject`.
pub proof fn lemma_built_category_text(r: ResourcesView)
    ensures
        forall|i: int| 0 <= i < built_categories(r).len() ==> category_matches(r, #[trigger] built_categories(r)[i]),
{
    reveal_strlit("ExtGState");
    reveal_strlit("Pattern");
    reveal_strlit("Font");
    reveal_strlit("Shading");
    reveal_strlit("XObject");
    assert("Pattern"@[0] != "Shading"@[0]);
    assert("Pattern"@[0] != "XObject"@[0]);
    assert("Shading"@[0] != "XObject"@[0]);
    assert("ExtGState"@.len() != "Pattern"@.len());
    assert("Font"@.len() != "Pattern"@.len());
    assert("ExtGState"@.len() != "Font"@.len());
    assert("ExtGState"@.len() != "Shading"@.len());
    assert("ExtGState"@.len() != "XObject"@.len());
    assert("Font"@.len() != "Shading"@.len());
    assert("Font"@.len() != "XObject"@.len());
    let gs = optional_category(r.extgstates.len() > 0, "ExtGState"@, category_bytes(r.extgstates));
    let pat = optional_category(r.patterns.len() > 0, "Pattern"@, category_bytes(r.patterns));
    let fnt = optional_category(r.fonts.len() > 0, "Font"@, category_bytes(r.fonts));
    let sh = optional_category(r.shadings.len() > 0, "Shading"@, category_bytes(r.shadings));
    let xo = optional_category(r.xobjects.len() > 0, "XObject"@, category_bytes(r.xobjects));
    let all = gs + pat + fnt + sh + xo;
    assert(built_categories(r) == all);
    assert forall|i: int| 0 <= i < all.len() implies category_matches(r, #[trigger] all[i]) by {
        let k1 = gs.len();
        let k2 = k1 + pat.len();
        let k3 = k2 + fnt.len();
        let k4 = k3 + sh.len();
        if i < k1 {
            assert(all[i] == gs[i]);
        } else if i < k2 {
            assert(all[i] == pat[i - k1]);
        } else if i < k3 {
            assert(all[i] == fnt[i - k2]);
        } else if i < k4 {
            assert(all[i] == sh[i - k3]);
        } else {
            assert(all[i] == xo[i - k4]);
        }
    }
}

/// A category named after one of the five kinds holds the text of that kind's entries.
pub open spec fn category_matches(r: ResourcesView, cat: (Seq<char>, Seq<u8>)) -> bool {
    &&& cat.0 == "ExtGState"@ ==> cat.1 == category_bytes(r.extgstates)
    &&& cat.0 == "Pattern"@ ==> cat.1 == category_bytes(r.patterns)
    &&& cat.0 == "Font"@ ==> cat.1 == category_bytes(r.fonts)
    &&& cat.0 == "Shading"@ ==> cat.1 == category_bytes(r.shadings)
    &&& cat.0 == "XObject"@ ==> cat.1 == category_bytes(r.xobjects)
}

/// The one category named `name` when `present`, none otherwise.
pub open spec fn optional_category(present: bool, name: Seq<char>, bytes: Seq<u8>) -> Seq<(Seq<char>, Seq<u8>)> {
    if present {
        seq![(name, bytes)]
    } else {
        Seq::empty()
    }
}

proof fn lemma_optional_category(present: bool, name: Seq<char>, bytes: Seq<u8>, n: Seq<char>)
    ensures
        has_category(optional_category(present, name, bytes), n) <==> present && name == n,
{
    if present && name == n {
        assert(optional_category(present, name, bytes)[0].0 == n);
    }
}

/// A name is among two sequences of categories exactly when it is among one of them.
proof fn lemma_has_category_concat(s: Seq<(Seq<char>, Seq<u8>)>, t: Seq<(Seq<char>, Seq<u8>)>)
    ensures
        forall|n: Seq<char>| #[trigger] has_category(s + t, n) <==> has_category(s, n) || has_category(t, n),
{
    assert forall|n: Seq<char>| #[trigger] has_category(s + t, n) <==> has_category(s, n) || has_category(t, n) by {
        if has_category(s + t, n) {
            let i = choose|i: int| 0 <= i < (s + t).len() && #[trigger] (s + t)[i].0 == n;
            if i < s.len() {
                assert(s[i] == (s + t)[i]);
            } else {
                assert(t[i - s.len()] == (s + t)[i]);
            }
        }
        if has_category(s, n) {
            let i = choose|i: int| 0 <= i < s.len() && #[trigger] s[i].0 == n;
            assert((s + t)[i] == s[i]);
        }
        if has_category(t, n) {
            let i = choose|i: int| 0 <= i < t.len() && #[trigger] t[i].0 == n;
            assert((s + t)[i + s.len()] == t[i]);
        }
    }
}

/// ` /<key> <value>` for each category.
pub open spec fn categories_body(c: Seq<(Seq<char>, Seq<u8>)>) -> Seq<u8>
    decreases c.len(),
{
    if c.len() == 0 {
        Seq::empty()
    } else {
        categories_body(c.drop_last()) + seq![32u8, 47u8] + encode_utf8(c.last().0) + seq![32u8] + c.last().1
    }
}

/// Nothing when every category is empty; otherwise `<<`, the categories, ` >>`.
pub open spec fn resources_bytes(r: ResourcesView) -> Seq<u8> {
    let c = built_categories(r);
    if c.len() == 0 {
        Seq::empty()
    } else {
        seq![60u8, 60u8] + categories_body(c) + seq![32u8, 62u8, 62u8]
    }
}

/// The resources of a page, by category.
pub struct ResourceDictionary {
    extgstates: ResourceMap,
    patterns: ResourceMap,
    fonts: ResourceMap,
    shadings: ResourceMap,
    xobjects: ResourceMap,
}

impl View for ResourceDictionary {
    type V = ResourcesView;

    closed spec fn view(&self) -> ResourcesView {
        ResourcesView {
            extgstates: self.extgstates@,
            patterns: self.patterns@,
            fonts: self.fonts@,
            shadings: self.shadings@,
            xobjects: self.xobjects@,
        }
    }
}

/// Every category of `r` is empty.
pub open spec fn resources_empty(r: ResourcesView) -> bool {
    r.extgstates.len() == 0 && r.patterns.len() == 0 && r.fonts.len() == 0 && r.shadings.len() == 0
        && r.xobjects.len() == 0
}

impl ResourceDictionary {
    pub fn new() -> (r: Self)
        ensures
            resources_empty(r@),
    {
        ResourceDictionary {
            extgstates: ResourceMap::new(),
            patterns: ResourceMap::new(),
            fonts: ResourceMap::new(),
            shadings: ResourceMap::new(),
            xobjects: ResourceMap::new(),
        }
    }

    pub fn add_extgstate(&mut self, name: String, obj_num: usize)
        ensures
            final(self)@ == (ResourcesView { extgstates: keyed_insert(old(self)@.extgstates, name@, obj_num), ..old(self)@ }),
            keyed_map(final(self)@.extgstates) == keyed_map(old(self)@.extgstates).insert(name@, obj_num),
    {
        self.extgstates.insert(name, obj_num);
    }

    pub fn add_pattern(&mut self, name: String, obj_num: usize)
        ensures
            final(self)@ == (ResourcesView { patterns: keyed_insert(old(self)@.patterns, name@, obj_num), ..old(self)@ }),
            keyed_map(final(self)@.patterns) == keyed_map(old(self)@.patterns).insert(name@, obj_num),
    {
        self.patterns.insert(name, obj_num);
    }

    pub fn add_font(&mut self, name: String, obj_num: usize)
        ensures
            final(self)@ == (ResourcesView { fonts: keyed_insert(old(self)@.fonts, name@, obj_num), ..old(self)@ }),
            keyed_map(final(self)@.fonts) == keyed_map(old(self)@.fonts).insert(name@, obj_num),
    {
        self.fonts.insert(name, obj_num);
    }

    pub fn add_shading(&mut self, name: String, obj_num: usize)
        ensures
            final(self)@ == (ResourcesView { shadings: keyed_insert(old(self)@.shadings, name@, obj_num), ..old(self)@ }),
            keyed_map(final(self)@.shadings) == keyed_map(old(self)@.shadings).insert(name@, obj_num),
    {
        self.shadings.insert(name, obj_num);
    }

    pub fn add_xobject(&mut self, name: String, obj_num: usize)
        ensures
            final(self)@ == (ResourcesView { xobjects: keyed_insert(old(self)@.xobjects, name@, obj_num), ..old(self)@ }),
            keyed_map(final(self)@.xobjects) == keyed_map(old(self)@.xobjects).insert(name@, obj_num),
    {
        self.xobjects.insert(name, obj_num);
    }

    /// The non-empty categories with their dictionary texts.
    pub fn build(&self) -> (dict: Vec<(String, Vec<u8>)>)
        ensures
            dict@.map_values(|p: (String, Vec<u8>)| (p.0@, p.1@)) == built_categories(self@),
    {
        let mut dict: Vec<(String, Vec<u8>)> = Vec::new();
        if !self.extgstates.is_empty() {
            dict.push((crate::strbuf::owned("ExtGState"), self.extgstates.build_bytes()));
        }
        if !self.patterns.is_empty() {
            dict.push((crate::strbuf::owned("Pattern"), self.patterns.build_bytes()));
        }
        if !self.fonts.is_empty() {
            dict.push((crate::strbuf::owned("Font"), self.fonts.build_bytes()));
        }
        if !self.shadings.is_empty() {
            dict.push((crate::strbuf::owned("Shading"), self.shadings.build_bytes()));
        }
        if !self.xobjects.is_empty() {
            dict.push((crate::strbuf::owned("XObject"), self.xobjects.build_bytes()));
        }
        assert(dict@.map_values(|p: (String, Vec<u8>)| (p.0@, p.1@)) =~= built_categories(self@));
        dict
    }

    /// The whole Resources dictionary as bytes; nothing when there are no resources.
    pub fn build_bytes(&self) -> (result: Vec<u8>)
        ensures
            result@ == resources_bytes(self@),
    {
        let dict = self.build();
        let ghost cats = dict@.map_values(|p: (String, Vec<u8>)| (p.0@, p.1@));
        if dict.len() == 0 {
            return Vec::new();
        }
        let mut result: Vec<u8> = Vec::new();
        result.push(60u8);
        result.push(60u8);
        let mut i: usize = 0;
        while i < dict.len()
            invariant
                i <= dict@.len(),
                cats == dict@.map_values(|p: (String, Vec<u8>)| (p.0@, p.1@)),
                result@ == seq![60u8, 60u8] + categories_body(cats.take(i as int)),
            decreases dict@.len() - i,
        {
            let ghost before = result@;
            result.push(32u8);
            result.push(47u8);
            let key = dict[i].0.as_str().as_bytes();
            let mut k: usize = 0;
            while k < key.len()
                invariant
                    k <= key@.len(),
                    result@ == before + seq![32u8, 47u8] + key@.take(k as int),
                decreases key@.len() - k,
            {
                result.push(key[k]);
                k = k + 1;
                assert(result@ =~= before + seq![32u8, 47u8] + key@.take(k as int));
            }
            assert(key@.take(k as int) =~= key@);
            result.push(32u8);
            let ghost mid = result@;
            let value = &dict[i].1;
            let mut k: usize = 0;
            while k < value.len()
                invariant
                    k <= value@.len(),
                    result@ == mid + value@.take(k as int),
                decreases value@.len() - k,
            {
                result.push(value[k]);
                k = k + 1;
                assert(result@ =~= mid + value@.take(k as int));
            }
            assert(value@.take(k as int) =~= value@);
            i = i + 1;
            assert(cats.take(i as int).drop_last() =~= cats.take(i - 1));
            assert(result@ =~= seq![60u8, 60u8] + categories_body(cats.take(i as int)));
        }
        result.push(32u8);
        result.push(62u8);
        result.push(62u8);
        assert(cats.take(i as int) =~= cats);
        assert(result@ =~= resources_bytes(self@));
        result
    }

    pub fn is_empty(&self) -> (b: bool)
        ensures
            b == resources_empty(self@),
    {
        self.extgstates.is_empty() && self.patterns.is_empty() && self.fonts.is_empty()
            && self.shadings.is_empty() && self.xobjects.is_empty()
    }

    pub fn clear(&mut self)
        ensures
            resources_empty(final(self)@),
    {
        self.extgstates.clear();
        self.patterns.clear();
        self.fonts.clear();
        self.shadings.clear();
        self.xobjects.clear();
    }

    /// Adds every entry of `other`, its numbers replacing those of names present in both.
    pub fn merge(&mut self, other: &ResourceDictionary)
        ensures
            final(self)@ == (ResourcesView {
                extgstates: keyed_extend(old(self)@.extgstates, other@.extgstates),
                patterns: keyed_extend(old(self)@.patterns, other@.patterns),
                fonts: keyed_extend(old(self)@.fonts, other@.fonts),
                shadings: keyed_extend(old(self)@.shadings, other@.shadings),
                xobjects: keyed_extend(old(self)@.xobjects, other@.xobjects),
            }),
            keyed_map(final(self)@.extgstates) == keyed_map(old(self)@.extgstates).union_prefer_right(keyed_map(other@.extgstates)),
            keyed_map(final(self)@.patterns) == keyed_map(old(self)@.patterns).union_prefer_right(keyed_map(other@.patterns)),
            keyed_map(final(self)@.fonts) == keyed_map(old(self)@.fonts).union_prefer_right(keyed_map(other@.fonts)),
            keyed_map(final(self)@.shadings) == keyed_map(old(self)@.shadings).union_prefer_right(keyed_map(other@.shadings)),
            keyed_map(final(self)@.xobjects) == keyed_map(old(self)@.xobjects).union_prefer_right(keyed_map(other@.xobjects)),
    {
        self.extgstates.extend(&other.extgstates);
        self.patterns.extend(&other.patterns);
        self.fonts.extend(&other.fonts);
        self.shadings.extend(&other.shadings);
        self.xobjects.extend(&other.xobjects);
    }

    /// The number of distinct graphics state names.
    pub fn extgstate_count(&self) -> (n: usize)
        ensures
            n == self@.extgstates.len(),
            n == keyed_map(self@.extgstates).len(),
    {
        let n = self.extgstates.len();
        proof { lemma_keyed_map_len(self@.extgstates); }
        n
    }

    /// The number of distinct pattern names.
    pub fn pattern_count(&self) -> (n: usize)
        ensures
            n == self@.patterns.len(),
            n == keyed_map(self@.patterns).len(),
    {
        let n = self.patterns.len();
        proof { lemma_keyed_map_len(self@.patterns); }
        n
    }

    /// The number of distinct font names.
    pub fn font_count(&self) -> (n: usize)
        ensures
            n == self@.fonts.len(),
            n == keyed_map(self@.fonts).len(),
    {
        let n = self.fonts.len();
        proof { lemma_keyed_map_len(self@.fonts); }
        n
    }
}

impl Default for ResourceDictionary {
    fn default() -> (r: Self)
        ensures
            resources_empty(r@),
    {
        Self::new()
    }
}

} // verus!
