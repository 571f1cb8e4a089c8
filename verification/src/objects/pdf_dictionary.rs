//! Dictionary objects: values under distinct names, kept in insertion order.
use vstd::prelude::*;
use vstd::utf8::encode_utf8;

use crate::error::PdfError;
use crate::keyed::{
    distinct_keys, has_key, keyed_insert, keyed_map, keyed_remove, lemma_keyed_insert,
    lemma_keyed_insert_at, lemma_keyed_map_contains, lemma_keyed_map_len, lemma_keyed_map_value,
    lemma_keyed_remove, Keyed,
};
use crate::object_number::ObjectNumber;
use crate::object_ops::{
    indirect_end_bytes, indirect_start_bytes, indirect_start_xref, lemma_points_at_objects_concat,
    lemma_points_at_objects_extend, points_at_objects, try_indirect_end, try_indirect_start, Encode,
    Serialize, XRefEntry,
};
use crate::objects::pdf_name::{name_body, PdfNameObject};
use crate::strbuf::{owned, push_str};
use crate::version::Version;

verus! {

/// `Key '<key>' not found`
pub open spec fn not_found_message(key: Seq<char>) -> Seq<char> {
    "Key '"@ + key + "' not found"@
}

/// `Key '<key>' already exists`
pub open spec fn duplicate_key_message(key: Seq<char>) -> Seq<char> {
    "Key '"@ + key + "' already exists"@
}

fn not_found_error(key: &str) -> (e: PdfError)
    ensures
        e matches PdfError::StructureError(m) && m@ == not_found_message(key@),
{
    let mut m = owned("Key '");
    push_str(&mut m, key);
    push_str(&mut m, "' not found");
    PdfError::StructureError(m)
}

fn duplicate_key_error(key: &str) -> (e: PdfError)
    ensures
        e matches PdfError::StructureError(m) && m@ == duplicate_key_message(key@),
{
    let mut m = owned("Key '");
    push_str(&mut m, key);
    push_str(&mut m, "' already exists");
    PdfError::StructureError(m)
}

/// A dictionary: values under distinct names, in the order they were added, and the
/// object number of the dictionary when it is an indirect object.
pub struct PdfDictionaryObject<V> {
    keys: Vec<String>,
    values: Vec<V>,
    object_number: Option<ObjectNumber>,
}

/// The entries that names and values at the same positions make.
spec fn pairs<V>(keys: Seq<String>, values: Seq<V>) -> Keyed<V> {
    Seq::new(keys.len(), |i: int| (keys[i]@, values[i]))
}

/// No name occurs twice.
spec fn distinct_names(keys: Seq<String>) -> bool {
    forall|i: int, j: int| 0 <= i < j < keys.len() ==> #[trigger] keys[i]@ != #[trigger] keys[j]@
}

/// The entries have distinct names exactly when the names are distinct.
proof fn lemma_pairs_distinct<V>(keys: Seq<String>, values: Seq<V>)
    ensures
        distinct_keys(pairs(keys, values)) <==> distinct_names(keys),
{
    let e = pairs(keys, values);
    if distinct_names(keys) {
        assert forall|i: int, j: int| 0 <= i < j < e.len() implies #[trigger] e[i].0 != #[trigger] e[j].0 by {
            assert(e[i].0 == keys[i]@ && e[j].0 == keys[j]@);
        }
    }
    if distinct_keys(e) {
        assert forall|i: int, j: int| 0 <= i < j < keys.len() implies #[trigger] keys[i]@ != #[trigger] keys[j]@ by {
            assert(e[i].0 == keys[i]@ && e[j].0 == keys[j]@);
        }
    }
}

impl<V> View for PdfDictionaryObject<V> {
    type V = Keyed<V>;

    closed spec fn view(&self) -> Keyed<V> {
        pairs(self.keys@, self.values@)
    }
}

impl<V> PdfDictionaryObject<V> {
    #[verifier::type_invariant]
    closed spec fn inv(&self) -> bool {
        &&& self.keys@.len() == self.values@.len()
        &&& distinct_names(self.keys@)
    }

    /// The names and values, in order; the dictionary is left empty, with its object number.
    fn take_parts(&mut self) -> (r: (Vec<String>, Vec<V>))
        ensures
            r.0@.len() == r.1@.len(),
            pairs(r.0@, r.1@) == old(self)@,
            distinct_keys(old(self)@),
            final(self).spec_object_number() == old(self).spec_object_number(),
    {
        proof {
            use_type_invariant(&*self);
            lemma_pairs_distinct(self.keys@, self.values@);
        }
        let mut whole = PdfDictionaryObject { keys: Vec::new(), values: Vec::new(), object_number: self.object_number };
        std::mem::swap(&mut whole, self);
        proof { use_type_invariant(&whole); }
        let PdfDictionaryObject { keys, values, object_number: _ } = whole;
        (keys, values)
    }

    /// Makes the dictionary hold the given names and values.
    fn put_parts(&mut self, keys: Vec<String>, values: Vec<V>)
        requires
            keys@.len() == values@.len(),
            distinct_keys(pairs(keys@, values@)),
        ensures
            final(self)@ == pairs(keys@, values@),
            final(self).spec_object_number() == old(self).spec_object_number(),
    {
        proof { lemma_pairs_distinct(keys@, values@); }
        let object_number = self.object_number;
        *self = PdfDictionaryObject { keys, values, object_number };
    }

    /// The names are distinct and there is a value for each.
    proof fn lemma_inv(&self)
        requires
            self.inv(),
        ensures
            distinct_keys(self@),
            self@.len() == self.keys@.len(),
            self@.len() == self.values@.len(),
            forall|i: int| 0 <= i < self@.len() ==> #[trigger] self@[i] == (self.keys@[i]@, self.values@[i]),
    {
        lemma_pairs_distinct(self.keys@, self.values@);
    }

    pub closed spec fn spec_object_number(&self) -> Option<ObjectNumber> {
        self.object_number
    }

    /// The index of the entry named `key`, if any.
    fn find(&self, key: &String) -> (r: Option<usize>)
        ensures
            match r {
                Some(i) => i < self@.len() && self@[i as int].0 == key@,
                None => !has_key(self@, key@),
            },
    {
        proof { use_type_invariant(self); }
        let mut i: usize = 0;
        while i < self.keys.len()
            invariant
                i <= self@.len(),
                self@.len() == self.keys@.len(),
                forall|k: int| 0 <= k < i ==> self@[k].0 != key@,
            decreases self.keys@.len() - i,
        {
            if self.keys[i] == *key {
                return Some(i);
            }
            i = i + 1;
        }
        None
    }

    pub fn new() -> (d: Self)
        ensures
            d@ == Seq::<(Seq<char>, V)>::empty(),
            d.spec_object_number() is None,
    {
        let d = PdfDictionaryObject { keys: Vec::new(), values: Vec::new(), object_number: None };
        assert(d@ =~= Seq::<(Seq<char>, V)>::empty());
        d
    }

    pub fn with_object_number(self, value: ObjectNumber) -> (d: Self)
        ensures
            d@ == self@,
            d.spec_object_number() == Some(value),
    {
        proof { use_type_invariant(&self); }
        let PdfDictionaryObject { keys, values, object_number: _ } = self;
        PdfDictionaryObject { keys, values, object_number: Some(value) }
    }

    /// The object number, when the dictionary is an indirect object.
    pub fn object_number(&self) -> (n: Option<ObjectNumber>)
        ensures
            n == self.spec_object_number(),
    {
        self.object_number
    }

    /// The number of entries, which is the number of distinct names.
    pub fn len(&self) -> (n: usize)
        ensures
            n == self@.len(),
            n == keyed_map(self@).len(),
            distinct_keys(self@),
    {
        proof {
            use_type_invariant(self);
            self.lemma_inv();
            lemma_keyed_map_len(self@);
        }
        self.keys.len()
    }

    pub fn is_empty(&self) -> (b: bool)
        ensures
            b == (self@.len() == 0),
    {
        self.keys.len() == 0
    }

    pub fn contains_key(&self, key: &str) -> (b: bool)
        ensures
            b == has_key(self@, key@),
            b == keyed_map(self@).contains_key(key@),
    {
        proof { lemma_keyed_map_contains(self@, key@); }
        let k = owned(key);
        self.find(&k).is_some()
    }

    /// The value under `key`, if there is one.
    pub fn get(&self, key: &str) -> (r: Option<&V>)
        ensures
            match r {
                Some(v) => keyed_map(self@).contains_key(key@) && keyed_map(self@)[key@] == *v,
                None => !keyed_map(self@).contains_key(key@),
            },
    {
        proof {
            use_type_invariant(self);
            self.lemma_inv();
            lemma_keyed_map_contains(self@, key@);
        }
        let k = owned(key);
        match self.find(&k) {
            Some(i) => {
                proof { lemma_keyed_map_value(self@, i as int); }
                Some(&self.values[i])
            },
            None => None,
        }
    }

    /// The value under `key`, to change in place, if there is one; the entry keeps its place.
    pub fn get_mut(&mut self, key: &str) -> (r: Option<&mut V>)
        ensures
            has_key(old(self)@, key@) ==> {
                &&& r matches Some(v)
                &&& *v == keyed_map(old(self)@)[key@]
                &&& final(self)@ == keyed_insert(old(self)@, key@, *final(v))
            },
            !has_key(old(self)@, key@) ==> r is None && final(self)@ == old(self)@,
            final(self).spec_object_number() == old(self).spec_object_number(),
    {
        proof {
            use_type_invariant(&*self);
            self.lemma_inv();
            lemma_keyed_map_contains(self@, key@);
        }
        let ghost pre = self@;
        let k = owned(key);
        match self.find(&k) {
            Some(i) => {
                proof {
                    lemma_keyed_map_value(pre, i as int);
                    lemma_keyed_insert_at(pre, i as int, key@);
                }
                Some(&mut self.values[i])
            },
            None => None,
        }
    }

    /// Adds `value` under `key`; an error when the key is already present.
    pub fn add(&mut self, key: &str, value: V) -> (r: Result<(), PdfError>)
        ensures
            has_key(old(self)@, key@) ==> {
                &&& final(self)@ == old(self)@
                &&& r matches Err(e) && e matches PdfError::StructureError(m)
                    && m@ == duplicate_key_message(key@)
            },
            !has_key(old(self)@, key@) ==> {
                &&& r is Ok
                &&& final(self)@ == old(self)@.push((key@, value))
            },
            keyed_map(final(self)@) == (if has_key(old(self)@, key@) {
                keyed_map(old(self)@)
            } else {
                keyed_map(old(self)@).insert(key@, value)
            }),
            final(self).spec_object_number() == old(self).spec_object_number(),
    {
        proof { use_type_invariant(&*self); }
        let k = owned(key);
        if self.find(&k).is_some() {
            return Err(duplicate_key_error(key));
        }
        let ghost pre = self@;
        proof { lemma_keyed_insert(pre, key@, value); }
        let (mut keys, mut values) = self.take_parts();
        keys.push(k);
        values.push(value);
        assert(pairs(keys@, values@) =~= pre.push((key@, value)));
        self.put_parts(keys, values);
        Ok(())
    }

    /// Sets the value under `key`, replacing the present one or adding the entry.
    pub fn update_or_add(&mut self, key: &str, value: V)
        ensures
            final(self)@ == keyed_insert(old(self)@, key@, value),
            keyed_map(final(self)@) == keyed_map(old(self)@).insert(key@, value),
            final(self).spec_object_number() == old(self).spec_object_number(),
    {
        proof { use_type_invariant(&*self); }
        let ghost pre = self@;
        proof { lemma_keyed_insert(pre, key@, value); }
        let k = owned(key);
        match self.find(&k) {
            Some(i) => {
                self.replace_at(i, k, value);
            },
            None => {
                let (mut keys, mut values) = self.take_parts();
                keys.push(k);
                values.push(value);
                assert(pairs(keys@, values@) =~= keyed_insert(pre, key@, value));
                self.put_parts(keys, values);
            },
        }
    }

    /// Replaces the entry at `i`, which has the name `key`.
    fn replace_at(&mut self, i: usize, key: String, value: V)
        requires
            i < old(self)@.len(),
            old(self)@[i as int].0 == key@,
        ensures
            final(self)@ == keyed_insert(old(self)@, key@, value),
            final(self).spec_object_number() == old(self).spec_object_number(),
    {
        proof { use_type_invariant(&*self); }
        let ghost pre = self@;
        proof {
            let j = choose|j: int| 0 <= j < pre.len() && pre[j].0 == key@;
            if j != i as int {
                if j < i as int {
                    assert(pre[j].0 != pre[i as int].0);
                } else {
                    assert(pre[i as int].0 != pre[j].0);
                }
            }
            lemma_keyed_insert(pre, key@, value);
        }
        let (keys, mut values) = self.take_parts();
        values.set(i, value);
        assert(pairs(keys@, values@) =~= keyed_insert(pre, key@, value));
        self.put_parts(keys, values);
    }

    /// Replaces the value under `key`; an error when the key is absent.
    pub fn update(&mut self, key: &str, value: V) -> (r: Result<(), PdfError>)
        ensures
            has_key(old(self)@, key@) ==> {
                &&& r is Ok
                &&& final(self)@ == keyed_insert(old(self)@, key@, value)
                &&& keyed_map(final(self)@) == keyed_map(old(self)@).insert(key@, value)
            },
            !has_key(old(self)@, key@) ==> {
                &&& final(self)@ == old(self)@
                &&& r matches Err(e) && e matches PdfError::StructureError(m)
                    && m@ == not_found_message(key@)
            },
            final(self).spec_object_number() == old(self).spec_object_number(),
    {
        proof {
            use_type_invariant(&*self);
            lemma_keyed_insert(self@, key@, value);
        }
        let k = owned(key);
        match self.find(&k) {
            Some(i) => {
                self.replace_at(i, k, value);
                Ok(())
            },
            None => Err(not_found_error(key)),
        }
    }

    /// Removes the entry under `key`; an error when the key is absent.
    pub fn del(&mut self, key: &str) -> (r: Result<(), PdfError>)
        ensures
            has_key(old(self)@, key@) ==> {
                &&& r is Ok
                &&& final(self)@ == keyed_remove(old(self)@, key@)
                &&& keyed_map(final(self)@) == keyed_map(old(self)@).remove(key@)
            },
            !has_key(old(self)@, key@) ==> {
                &&& final(self)@ == old(self)@
                &&& r matches Err(e) && e matches PdfError::StructureError(m)
                    && m@ == not_found_message(key@)
            },
            final(self).spec_object_number() == old(self).spec_object_number(),
    {
        proof {
            use_type_invariant(&*self);
            lemma_keyed_remove(self@, key@);
        }
        let ghost pre = self@;
        let k = owned(key);
        match self.find(&k) {
            Some(i) => {
                proof {
                    let j = choose|j: int| 0 <= j < pre.len() && pre[j].0 == key@;
                    if j != i as int {
                        if j < i as int {
                            assert(pre[j].0 != pre[i as int].0);
                        } else {
                            assert(pre[i as int].0 != pre[j].0);
                        }
                    }
                }
                let (mut keys, mut values) = self.take_parts();
                let _name = keys.remove(i);
                let _value = values.remove(i);
                assert(pairs(keys@, values@) =~= keyed_remove(pre, key@));
                self.put_parts(keys, values);
                Ok(())
            },
            None => Err(not_found_error(key)),
        }
    }
}

impl<V: Clone> Clone for PdfDictionaryObject<V> {
    /// The same names in the same order, each value cloned.
    fn clone(&self) -> (r: Self)
        ensures
            r@.len() == self@.len(),
            forall|i: int| 0 <= i < self@.len() ==> r@[i].0 == self@[i].0 && cloned::<V>(self@[i].1, r@[i].1),
            r.spec_object_number() == self.spec_object_number(),
    {
        proof {
            use_type_invariant(self);
            self.lemma_inv();
        }
        let mut keys: Vec<String> = Vec::new();
        let mut values: Vec<V> = Vec::new();
        let mut i: usize = 0;
        while i < self.keys.len()
            invariant
                i <= self@.len(),
                self@.len() == self.keys@.len(),
                self@.len() == self.values@.len(),
                forall|k: int| 0 <= k < self@.len() ==> #[trigger] self@[k] == (self.keys@[k]@, self.values@[k]),
                distinct_keys(self@),
                keys@.len() == i,
                values@.len() == i,
                forall|k: int| 0 <= k < i ==> keys@[k]@ == self@[k].0 && cloned::<V>(self@[k].1, #[trigger] values@[k]),
            decreases self@.len() - i,
        {
            let name = self.keys[i].clone();
            let value = self.values[i].clone();
            assert(self@[i as int] == (self.keys@[i as int]@, self.values@[i as int]));
            let ghost old_keys = keys@;
            let ghost old_values = values@;
            keys.push(name);
            values.push(value);
            assert(forall|k: int| 0 <= k < i ==> keys@[k] == old_keys[k] && values@[k] == old_values[k]);
            i = i + 1;
        }
        let ghost view = pairs(keys@, values@);
        assert(distinct_keys(view)) by {
            assert forall|a: int, b: int| 0 <= a < b < view.len() implies #[trigger] view[a].0 != #[trigger] view[b].0 by {
                assert(view[a].0 == self@[a].0);
                assert(view[b].0 == self@[b].0);
            }
        }
        proof { lemma_pairs_distinct(keys@, values@); }
        PdfDictionaryObject { keys, values, object_number: self.object_number }
    }
}

/// A key written as a name: `/` and its escaped UTF-8 bytes.
pub open spec fn key_bytes(k: Seq<char>) -> Seq<u8> {
    seq![47u8] + name_body(encode_utf8(k))
}

/// Each entry written as its key, a space, its value and a newline.
pub open spec fn entries_bytes<V: Serialize>(e: Keyed<V>, version: Version) -> Seq<u8>
    decreases e.len(),
{
    if e.len() == 0 {
        Seq::empty()
    } else {
        entries_bytes(e.drop_last(), version) + key_bytes(e.last().0) + seq![32u8]
            + e.last().1.serialization(version) + seq![10u8]
    }
}

/// The cross-reference entries recorded while the entries are written from offset `start`.
pub open spec fn entries_xref<V: Serialize>(e: Keyed<V>, version: Version, start: nat) -> Seq<XRefEntry>
    decreases e.len(),
{
    if e.len() == 0 {
        Seq::empty()
    } else {
        entries_xref(e.drop_last(), version, start) + e.last().1.xref_entries(
            version,
            start + entries_bytes(e.drop_last(), version).len() + key_bytes(e.last().0).len() + 1,
        )
    }
}

/// The names of the entries, in order.
pub open spec fn keys_of<V>(e: Keyed<V>) -> Seq<Seq<char>> {
    e.map_values(|p: (Seq<char>, V)| p.0)
}

/// Each name written as a key, a space, the given bytes of its value and a newline.
pub open spec fn entries_bytes_with(keys: Seq<Seq<char>>, values: Seq<Seq<u8>>) -> Seq<u8>
    decreases keys.len(),
{
    if keys.len() == 0 {
        Seq::empty()
    } else {
        entries_bytes_with(keys.drop_last(), values.drop_last()) + key_bytes(keys.last()) + seq![32u8]
            + values.last() + seq![10u8]
    }
}

impl<V> PdfDictionaryObject<V> {
    /// Writes the dictionary as `serialize` does, each value written as the bytes that
    /// `encode_value` gives for it.
    pub fn serialize_with<F: Fn(&V) -> Vec<u8>>(
        &self,
        encode_value: F,
        xref: &mut Vec<XRefEntry>,
        file: &mut Vec<u8>,
    ) -> (r: Result<(), PdfError>)
        requires
            forall|i: int| 0 <= i < self@.len() ==> call_requires(encode_value, (&#[trigger] self@[i].1,)),
        ensures
            r is Ok,
            exists|values: Seq<Vec<u8>>| {
                &&& values.len() == self@.len()
                &&& forall|i: int| 0 <= i < self@.len() ==> call_ensures(encode_value, (&self@[i].1,), #[trigger] values[i])
                &&& final(file)@ == old(file)@ + indirect_start_bytes(self.spec_object_number())
                    + seq![32u8, 60u8, 60u8, 10u8]
                    + entries_bytes_with(keys_of(self@), values.map_values(|v: Vec<u8>| v@))
                    + seq![62u8, 62u8, 10u8] + indirect_end_bytes(self.spec_object_number())
            },
            final(xref)@ == old(xref)@ + indirect_start_xref(self.spec_object_number(), old(file)@.len()),
            points_at_objects(final(file)@, indirect_start_xref(self.spec_object_number(), old(file)@.len())),
    {
        proof {
            use_type_invariant(self);
            self.lemma_inv();
        }
        let ghost f0 = file@;
        let ghost on = self.spec_object_number();
        let _ = try_indirect_start(xref, file, self.object_number);
        let ghost f_start = file@;
        file.push(32u8);
        file.push(60u8);
        file.push(60u8);
        file.push(10u8);
        let ghost mut values: Seq<Vec<u8>> = Seq::empty();
        let ghost head = file@;
        assert(head == f0 + indirect_start_bytes(on) + seq![32u8, 60u8, 60u8, 10u8]);
        let mut i: usize = 0;
        while i < self.keys.len()
            invariant
                i <= self@.len(),
                self@.len() == self.keys@.len(),
                self@.len() == self.values@.len(),
                forall|k: int| 0 <= k < self@.len() ==> #[trigger] self@[k] == (self.keys@[k]@, self.values@[k]),
                forall|k: int| 0 <= k < self@.len() ==> call_requires(encode_value, (&#[trigger] self@[k].1,)),
                values.len() == i,
                forall|k: int| 0 <= k < i ==> call_ensures(encode_value, (&self@[k].1,), #[trigger] values[k]),
                file@ == head + entries_bytes_with(keys_of(self@).take(i as int), values.map_values(|v: Vec<u8>| v@)),
                xref@ == old(xref)@ + indirect_start_xref(on, f0.len()),
            decreases self@.len() - i,
        {
            let ghost before = file@;
            let name_obj = PdfNameObject::new(self.keys[i].as_str());
            let name_bytes = match name_obj.encode(Version::default()) {
                Ok(b) => b,
                Err(_) => Vec::new(),
            };
            assert(self@[i as int].1 == self.values@[i as int]);
            let mut value_bytes = encode_value(&self.values[i]);
            let ghost produced = value_bytes;
            let mut name_bytes = name_bytes;
            file.append(&mut name_bytes);
            file.push(32u8);
            let ghost vb = value_bytes@;
            file.append(&mut value_bytes);
            file.push(10u8);
            proof {
                let old_values = values;
                values = values.push(produced);
                assert(values[i as int] == produced);
                assert(self@[i as int].0 == self.keys@[i as int]@);
                let keys = keys_of(self@).take(i + 1);
                assert(keys.drop_last() =~= keys_of(self@).take(i as int));
                assert(keys.last() == self@[i as int].0);
                let vals = values.map_values(|v: Vec<u8>| v@);
                assert(vals.drop_last() =~= old_values.map_values(|v: Vec<u8>| v@));
                assert(vals.last() == vb);
                assert(forall|k: int| 0 <= k < i ==> values[k] == old_values[k]);
            }
            i = i + 1;
            assert(file@ =~= head + entries_bytes_with(keys_of(self@).take(i as int), values.map_values(|v: Vec<u8>| v@)));
        }
        assert(keys_of(self@).take(i as int) =~= keys_of(self@));
        file.push(62u8);
        file.push(62u8);
        file.push(10u8);
        let _ = try_indirect_end(file, self.object_number);
        assert(file@ =~= f0 + indirect_start_bytes(on) + seq![32u8, 60u8, 60u8, 10u8]
            + entries_bytes_with(keys_of(self@), values.map_values(|v: Vec<u8>| v@))
            + seq![62u8, 62u8, 10u8] + indirect_end_bytes(on));
        proof {
            lemma_points_at_objects_extend(f_start, file@.subrange(f_start.len() as int, file@.len() as int), indirect_start_xref(on, f0.len()));
            assert(f_start + file@.subrange(f_start.len() as int, file@.len() as int) =~= file@);
        }
        Ok(())
    }
}

impl<V: Serialize> Encode for PdfDictionaryObject<V> {
    /// Every value can be encoded.
    open spec fn encodable(&self) -> bool {
        forall|i: int| 0 <= i < self@.len() ==> #[trigger] self@[i].1.encodable()
    }

    /// A dictionary is only written by serialisation; its encoding is empty.
    open spec fn encoding(&self, version: Version) -> Seq<u8> {
        Seq::empty()
    }

    fn encode(&self, _version: Version) -> (r: Result<Vec<u8>, PdfError>) {
        Ok(Vec::new())
    }
}

impl<V: Serialize> Serialize for PdfDictionaryObject<V> {
    /// ` <<`, a newline, the entries, `>>` and a newline, between `<number> 0 obj` and
    /// `endobj` for an indirect dictionary.
    open spec fn serialization(&self, version: Version) -> Seq<u8> {
        indirect_start_bytes(self.spec_object_number()) + seq![32u8, 60u8, 60u8, 10u8]
            + entries_bytes(self@, version) + seq![62u8, 62u8, 10u8]
            + indirect_end_bytes(self.spec_object_number())
    }

    open spec fn xref_entries(&self, version: Version, start: nat) -> Seq<XRefEntry> {
        indirect_start_xref(self.spec_object_number(), start) + entries_xref(
            self@,
            version,
            start + indirect_start_bytes(self.spec_object_number()).len() + 4,
        )
    }

    fn serialize(&self, version: Version, xref: &mut Vec<XRefEntry>, file: &mut Vec<u8>) -> (r: Result<(), PdfError>) {
        proof {
            use_type_invariant(self);
            self.lemma_inv();
        }
        let ghost f0 = file@;
        let ghost x0 = xref@;
        let ghost on = self.spec_object_number();
        let _ = try_indirect_start(xref, file, self.object_number);
        file.push(32u8);
        file.push(60u8);
        file.push(60u8);
        file.push(10u8);
        let ghost base: nat = f0.len() + indirect_start_bytes(on).len() + 4;
        assert(file@ =~= f0 + indirect_start_bytes(on) + seq![32u8, 60u8, 60u8, 10u8] + entries_bytes(self@.take(0), version));
        assert(xref@ =~= x0 + indirect_start_xref(on, f0.len()) + entries_xref(self@.take(0), version, base));
        proof {
            let f1 = f0 + indirect_start_bytes(on);
            lemma_points_at_objects_extend(f1, seq![32u8, 60u8, 60u8, 10u8], indirect_start_xref(on, f0.len()));
            assert(file@ =~= f1 + seq![32u8, 60u8, 60u8, 10u8]);
            assert(indirect_start_xref(on, f0.len()) + entries_xref(self@.take(0), version, base)
                =~= indirect_start_xref(on, f0.len()));
        }
        let mut i: usize = 0;
        while i < self.keys.len()
            invariant
                i <= self@.len(),
                self@.len() == self.keys@.len(),
                self@.len() == self.values@.len(),
                forall|k: int| 0 <= k < self@.len() ==> #[trigger] self@[k] == (self.keys@[k]@, self.values@[k]),
                self.encodable(),
                on == self.spec_object_number(),
                base == f0.len() + indirect_start_bytes(on).len() + 4,
                file@ == f0 + indirect_start_bytes(on) + seq![32u8, 60u8, 60u8, 10u8] + entries_bytes(self@.take(i as int), version),
                xref@ == x0 + indirect_start_xref(on, f0.len()) + entries_xref(self@.take(i as int), version, base),
                points_at_objects(file@, indirect_start_xref(on, f0.len()) + entries_xref(self@.take(i as int), version, base)),
            decreases self@.len() - i,
        {
            let ghost fi = file@;
            let ghost xi = xref@;
            let ghost before = indirect_start_xref(on, f0.len()) + entries_xref(self@.take(i as int), version, base);
            let name_obj = PdfNameObject::new(self.keys[i].as_str());
            let _ = name_obj.serialize(version, xref, file);
            file.push(32u8);
            let ghost value_start = file@.len();
            proof { lemma_points_at_objects_extend(fi, file@.subrange(fi.len() as int, file@.len() as int), before); }
            assert(fi + file@.subrange(fi.len() as int, file@.len() as int) =~= file@);
            let ghost fv = file@;
            assert(self@[i as int].1 == self.values@[i as int]);
            assert(self@[i as int].1.encodable());
            let _ = self.values[i].serialize(version, xref, file);
            let ghost fw = file@;
            file.push(10u8);
            proof {
                let value_entries = self@[i as int].1.xref_entries(version, value_start as nat);
                lemma_points_at_objects_extend(fv, fw.subrange(fv.len() as int, fw.len() as int), before);
                assert(fv + fw.subrange(fv.len() as int, fw.len() as int) =~= fw);
                lemma_points_at_objects_concat(fw, before, value_entries);
                lemma_points_at_objects_extend(fw, seq![10u8], before + value_entries);
                assert(fw + seq![10u8] =~= file@);
            }
            proof {
                let t = self@.take(i + 1);
                assert(t.drop_last() =~= self@.take(i as int));
                assert(t.last() == self@[i as int]);
                assert(self@[i as int].0 == self.keys@[i as int]@);
                assert(value_start == base + entries_bytes(self@.take(i as int), version).len()
                    + key_bytes(self@[i as int].0).len() + 1);
            }
            i = i + 1;
            assert(file@ =~= f0 + indirect_start_bytes(on) + seq![32u8, 60u8, 60u8, 10u8] + entries_bytes(self@.take(i as int), version));
            assert(xref@ =~= x0 + indirect_start_xref(on, f0.len()) + entries_xref(self@.take(i as int), version, base));
            assert(indirect_start_xref(on, f0.len()) + entries_xref(self@.take(i as int), version, base)
                =~= before + self@[i - 1].1.xref_entries(version, value_start as nat));
        }
        assert(self@.take(i as int) =~= self@);
        let ghost fi_end = file@;
        file.push(62u8);
        file.push(62u8);
        file.push(10u8);
        let _ = try_indirect_end(file, self.object_number);
        proof {
            assert(indirect_start_xref(on, f0.len()) + entries_xref(self@.take(i as int), version, base)
                == self.xref_entries(version, f0.len()));
            lemma_points_at_objects_extend(fi_end, file@.subrange(fi_end.len() as int, file@.len() as int), self.xref_entries(version, f0.len()));
            assert(fi_end + file@.subrange(fi_end.len() as int, file@.len() as int) =~= file@);
        }
        assert(file@ =~= f0 + self.serialization(version));
        assert(xref@ =~= x0 + self.xref_entries(version, f0.len()));
        Ok(())
    }
}

} // verus!
