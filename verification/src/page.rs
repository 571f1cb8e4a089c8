//! Object identifiers of pages and page trees.
use vstd::prelude::*;

use crate::decimal::{decimal_chars, push_decimal_str};

verus! {

/// The object number of a page or page tree.
#[derive(Clone, Debug)]
pub struct ObjectId(u64);

impl ObjectId {
    pub closed spec fn value(&self) -> u64 {
        self.0
    }

    /// The number as decimal text.
    pub fn to_string(&self) -> (s: String)
        ensures
            s@ == decimal_chars(self.value() as nat),
    {
        let mut s = String::new();
        push_decimal_str(&mut s, self.0);
        s
    }

    /// The identifier whose number is the sum of the numbers of `ids`.
    pub fn sum(ids: &[ObjectId]) -> (r: ObjectId)
        requires
            sum_of_ids(ids@) <= u64::MAX,
        ensures
            r.value() == sum_of_ids(ids@),
    {
        let mut total: u64 = 0;
        let mut i: usize = 0;
        while i < ids.len()
            invariant
                i <= ids@.len(),
                sum_of_ids(ids@) <= u64::MAX,
                total == sum_of_ids(ids@.take(i as int)),
            decreases ids@.len() - i,
        {
            proof {
                lemma_sum_of_ids_prefix(ids@, i as int + 1);
                assert(ids@.take(i + 1).drop_last() =~= ids@.take(i as int));
            }
            total = total + ids[i].0;
            i = i + 1;
        }
        assert(ids@.take(i as int) =~= ids@);
        ObjectId(total)
    }
}

/// The sum of the numbers of a sequence of identifiers.
pub open spec fn sum_of_ids(ids: Seq<ObjectId>) -> nat
    decreases ids.len(),
{
    if ids.len() == 0 {
        0
    } else {
        sum_of_ids(ids.drop_last()) + ids.last().value() as nat
    }
}

/// A prefix sums to no more than the whole.
pub proof fn lemma_sum_of_ids_prefix(ids: Seq<ObjectId>, n: int)
    requires
        0 <= n <= ids.len(),
    ensures
        sum_of_ids(ids.take(n)) <= sum_of_ids(ids),
    decreases ids.len() - n,
{
    if n < ids.len() {
        lemma_sum_of_ids_prefix(ids, n + 1);
        assert(ids.take(n + 1).drop_last() =~= ids.take(n));
    } else {
        assert(ids.take(n) =~= ids);
    }
}

impl Default for ObjectId {
    fn default() -> (r: Self)
        ensures
            r.value() == 0,
    {
        ObjectId(0)
    }
}

impl From<u64> for ObjectId {
    fn from(value: u64) -> (r: Self) {
        ObjectId(value)
    }
}

impl vstd::std_specs::convert::FromSpecImpl<u64> for ObjectId {
    open spec fn obeys_from_spec() -> bool {
        true
    }

    closed spec fn from_spec(v: u64) -> Self {
        ObjectId(v)
    }
}

impl From<usize> for ObjectId {
    fn from(value: usize) -> (r: Self) {
        ObjectId(value as u64)
    }
}

impl vstd::std_specs::convert::FromSpecImpl<usize> for ObjectId {
    open spec fn obeys_from_spec() -> bool {
        true
    }

    closed spec fn from_spec(v: usize) -> Self {
        ObjectId(v as u64)
    }
}

impl From<ObjectId> for u64 {
    fn from(object_num: ObjectId) -> (r: u64) {
        object_num.0
    }
}

impl vstd::std_specs::convert::FromSpecImpl<ObjectId> for u64 {
    open spec fn obeys_from_spec() -> bool {
        true
    }

    closed spec fn from_spec(v: ObjectId) -> u64 {
        v.0
    }
}

/// Converting a number to an identifier and back gives the number.
pub proof fn lemma_object_id_round_trip(n: u64)
    ensures
        <u64 as vstd::std_specs::convert::FromSpec<ObjectId>>::from_spec(
            <ObjectId as vstd::std_specs::convert::FromSpec<u64>>::from_spec(n),
        ) == n,
        <ObjectId as vstd::std_specs::convert::FromSpec<u64>>::from_spec(n).value() == n,
{
}

} // verus!
