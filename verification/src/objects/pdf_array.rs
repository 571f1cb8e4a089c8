//! Array objects: `[ `, each element followed by a space, `]`.
use vstd::prelude::*;

use crate::error::PdfError;
use crate::object_number::ObjectNumber;
use crate::object_ops::{
    indirect_end_bytes, indirect_start_bytes, indirect_start_xref, lemma_points_at_objects_concat,
    lemma_points_at_objects_extend, points_at_objects, try_indirect_end, try_indirect_start, Encode,
    Serialize, XRefEntry,
};
use crate::version::Version;

verus! {

/// An array of objects, and its object number when it is an indirect object.
#[derive(Clone)]
pub struct PdfArrayObject<V> {
    object_number: Option<ObjectNumber>,
    elements: Vec<V>,
}

impl<V> View for PdfArrayObject<V> {
    type V = Seq<V>;

    closed spec fn view(&self) -> Seq<V> {
        self.elements@
    }
}

impl<V> PdfArrayObject<V> {
    pub closed spec fn spec_object_number(&self) -> Option<ObjectNumber> {
        self.object_number
    }

    pub fn new() -> (a: Self)
        ensures
            a@ == Seq::<V>::empty(),
            a.spec_object_number() is None,
    {
        PdfArrayObject { object_number: None, elements: Vec::new() }
    }

    pub fn with_object_number(self, value: ObjectNumber) -> (a: Self)
        ensures
            a@ == self@,
            a.spec_object_number() == Some(value),
    {
        PdfArrayObject { object_number: Some(value), elements: self.elements }
    }

    /// Appends an element.
    pub fn push(&mut self, value: V)
        ensures
            final(self)@ == old(self)@.push(value),
            final(self).spec_object_number() == old(self).spec_object_number(),
    {
        self.elements.push(value);
    }

    pub fn len(&self) -> (n: usize)
        ensures
            n == self@.len(),
    {
        self.elements.len()
    }

    /// The element at `index`, if there is one.
    pub fn get(&self, index: usize) -> (r: Option<&V>)
        ensures
            index < self@.len() ==> r == Some(&self@[index as int]),
            index >= self@.len() ==> r is None,
    {
        if index < self.elements.len() {
            Some(&self.elements[index])
        } else {
            None
        }
    }
}

/// Each element written followed by a space.
pub open spec fn elements_bytes<V: Serialize>(e: Seq<V>, version: Version) -> Seq<u8>
    decreases e.len(),
{
    if e.len() == 0 {
        Seq::empty()
    } else {
        elements_bytes(e.drop_last(), version) + e.last().serialization(version) + seq![32u8]
    }
}

/// The cross-reference entries recorded while the elements are written from offset `start`.
pub open spec fn elements_xref<V: Serialize>(e: Seq<V>, version: Version, start: nat) -> Seq<XRefEntry>
    decreases e.len(),
{
    if e.len() == 0 {
        Seq::empty()
    } else {
        elements_xref(e.drop_last(), version, start) + e.last().xref_entries(
            version,
            start + elements_bytes(e.drop_last(), version).len(),
        )
    }
}

/// Each of the given element bytes followed by a space.
pub open spec fn elements_bytes_with(values: Seq<Seq<u8>>) -> Seq<u8>
    decreases values.len(),
{
    if values.len() == 0 {
        Seq::empty()
    } else {
        elements_bytes_with(values.drop_last()) + values.last() + seq![32u8]
    }
}

impl<V> PdfArrayObject<V> {
    /// Writes the array as `serialize` does, each element written as the bytes that
    /// `encode_element` gives for it.
    pub fn serialize_with<F: Fn(&V) -> Vec<u8>>(
        &self,
        encode_element: F,
        xref: &mut Vec<XRefEntry>,
        file: &mut Vec<u8>,
    ) -> (r: Result<(), PdfError>)
        requires
            forall|i: int| 0 <= i < self@.len() ==> call_requires(encode_element, (&#[trigger] self@[i],)),
        ensures
            r is Ok,
            exists|values: Seq<Vec<u8>>| {
                &&& values.len() == self@.len()
                &&& forall|i: int| 0 <= i < self@.len() ==> call_ensures(encode_element, (&self@[i],), #[trigger] values[i])
                &&& final(file)@ == old(file)@ + indirect_start_bytes(self.spec_object_number()) + seq![91u8, 32u8]
                    + elements_bytes_with(values.map_values(|v: Vec<u8>| v@)) + seq![93u8]
                    + indirect_end_bytes(self.spec_object_number())
            },
            final(xref)@ == old(xref)@ + indirect_start_xref(self.spec_object_number(), old(file)@.len()),
            points_at_objects(final(file)@, indirect_start_xref(self.spec_object_number(), old(file)@.len())),
    {
        let ghost f0 = file@;
        let ghost on = self.spec_object_number();
        let _ = try_indirect_start(xref, file, self.object_number);
        let ghost f_start = file@;
        file.push(91u8);
        file.push(32u8);
        let ghost mut values: Seq<Vec<u8>> = Seq::empty();
        let ghost head = file@;
        let mut i: usize = 0;
        while i < self.elements.len()
            invariant
                i <= self@.len(),
                forall|k: int| 0 <= k < self@.len() ==> call_requires(encode_element, (&#[trigger] self@[k],)),
                values.len() == i,
                forall|k: int| 0 <= k < i ==> call_ensures(encode_element, (&self@[k],), #[trigger] values[k]),
                file@ == head + elements_bytes_with(values.map_values(|v: Vec<u8>| v@)),
                xref@ == old(xref)@ + indirect_start_xref(on, f0.len()),
            decreases self@.len() - i,
        {
            let mut element_bytes = encode_element(&self.elements[i]);
            let ghost produced = element_bytes;
            file.append(&mut element_bytes);
            file.push(32u8);
            proof {
                let old_values = values;
                values = values.push(produced);
                let vals = values.map_values(|v: Vec<u8>| v@);
                assert(vals.drop_last() =~= old_values.map_values(|v: Vec<u8>| v@));
                assert(vals.last() == produced@);
                assert(forall|k: int| 0 <= k < i ==> values[k] == old_values[k]);
            }
            i = i + 1;
            assert(file@ =~= head + elements_bytes_with(values.map_values(|v: Vec<u8>| v@)));
        }
        file.push(93u8);
        let _ = try_indirect_end(file, self.object_number);
        assert(file@ =~= f0 + indirect_start_bytes(on) + seq![91u8, 32u8]
            + elements_bytes_with(values.map_values(|v: Vec<u8>| v@)) + seq![93u8] + indirect_end_bytes(on));
        proof {
            lemma_points_at_objects_extend(f_start, file@.subrange(f_start.len() as int, file@.len() as int), indirect_start_xref(on, f0.len()));
            assert(f_start + file@.subrange(f_start.len() as int, file@.len() as int) =~= file@);
        }
        Ok(())
    }
}

impl<V: Serialize> Encode for PdfArrayObject<V> {
    /// Every element can be encoded.
    open spec fn encodable(&self) -> bool {
        forall|i: int| 0 <= i < self@.len() ==> #[trigger] self@[i].encodable()
    }

    /// An array is only written by serialisation; its encoding is empty.
    open spec fn encoding(&self, version: Version) -> Seq<u8> {
        Seq::empty()
    }

    fn encode(&self, _version: Version) -> (r: Result<Vec<u8>, PdfError>) {
        Ok(Vec::new())
    }
}

impl<V: Serialize> Serialize for PdfArrayObject<V> {
    /// `[ `, the elements, `]`, between `<number> 0 obj` and `endobj` for an indirect array.
    open spec fn serialization(&self, version: Version) -> Seq<u8> {
        indirect_start_bytes(self.spec_object_number()) + seq![91u8, 32u8] + elements_bytes(self@, version)
            + seq![93u8] + indirect_end_bytes(self.spec_object_number())
    }

    open spec fn xref_entries(&self, version: Version, start: nat) -> Seq<XRefEntry> {
        indirect_start_xref(self.spec_object_number(), start) + elements_xref(
            self@,
            version,
            start + indirect_start_bytes(self.spec_object_number()).len() + 2,
        )
    }

    fn serialize(&self, version: Version, xref: &mut Vec<XRefEntry>, file: &mut Vec<u8>) -> (r: Result<(), PdfError>) {
        let ghost f0 = file@;
        let ghost x0 = xref@;
        let ghost on = self.spec_object_number();
        let _ = try_indirect_start(xref, file, self.object_number);
        file.push(91u8);
        file.push(32u8);
        let ghost base: nat = f0.len() + indirect_start_bytes(on).len() + 2;
        assert(file@ =~= f0 + indirect_start_bytes(on) + seq![91u8, 32u8] + elements_bytes(self@.take(0), version));
        assert(xref@ =~= x0 + indirect_start_xref(on, f0.len()) + elements_xref(self@.take(0), version, base));
        proof {
            let f1 = f0 + indirect_start_bytes(on);
            lemma_points_at_objects_extend(f1, seq![91u8, 32u8], indirect_start_xref(on, f0.len()));
            assert(file@ =~= f1 + seq![91u8, 32u8]);
            assert(indirect_start_xref(on, f0.len()) + elements_xref(self@.take(0), version, base)
                =~= indirect_start_xref(on, f0.len()));
        }
        let mut i: usize = 0;
        while i < self.elements.len()
            invariant
                i <= self@.len(),
                self.encodable(),
                on == self.spec_object_number(),
                base == f0.len() + indirect_start_bytes(on).len() + 2,
                file@ == f0 + indirect_start_bytes(on) + seq![91u8, 32u8] + elements_bytes(self@.take(i as int), version),
                xref@ == x0 + indirect_start_xref(on, f0.len()) + elements_xref(self@.take(i as int), version, base),
                points_at_objects(file@, indirect_start_xref(on, f0.len()) + elements_xref(self@.take(i as int), version, base)),
            decreases self@.len() - i,
        {
            let ghost fv = file@;
            let ghost before = indirect_start_xref(on, f0.len()) + elements_xref(self@.take(i as int), version, base);
            assert(self@[i as int].encodable());
            let _ = self.elements[i].serialize(version, xref, file);
            let ghost fw = file@;
            file.push(32u8);
            proof {
                let element_entries = self@[i as int].xref_entries(version, fv.len() as nat);
                lemma_points_at_objects_extend(fv, fw.subrange(fv.len() as int, fw.len() as int), before);
                assert(fv + fw.subrange(fv.len() as int, fw.len() as int) =~= fw);
                lemma_points_at_objects_concat(fw, before, element_entries);
                lemma_points_at_objects_extend(fw, seq![32u8], before + element_entries);
                assert(fw + seq![32u8] =~= file@);
            }
            proof {
                let t = self@.take(i + 1);
                assert(t.drop_last() =~= self@.take(i as int));
                assert(t.last() == self@[i as int]);
            }
            i = i + 1;
            assert(file@ =~= f0 + indirect_start_bytes(on) + seq![91u8, 32u8] + elements_bytes(self@.take(i as int), version));
            assert(xref@ =~= x0 + indirect_start_xref(on, f0.len()) + elements_xref(self@.take(i as int), version, base));
            assert(indirect_start_xref(on, f0.len()) + elements_xref(self@.take(i as int), version, base)
                =~= before + self@[i - 1].xref_entries(version, fv.len() as nat));
        }
        assert(self@.take(i as int) =~= self@);
        let ghost fi_end = file@;
        file.push(93u8);
        let _ = try_indirect_end(file, self.object_number);
        proof {
            assert(indirect_start_xref(on, f0.len()) + elements_xref(self@.take(i as int), version, base)
                == self.xref_entries(version, f0.len()));
            lemma_points_at_objects_extend(fi_end, file@.subrange(fi_end.len() as int, file@.len() as int), self.xref_entries(version, f0.len()));
            assert(fi_end + file@.subrange(fi_end.len() as int, file@.len() as int) =~= file@);
        }
        assert(file@ =~= f0 + self.serialization(version));
        assert(xref@ =~= x0 + self.xref_entries(version, f0.len()));
        Ok(())
    }
}

} // verus!
