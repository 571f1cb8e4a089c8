//! Numbering of the font resources of a document.
use vstd::prelude::*;

verus! {

/// Takes the object number of the Font resource dictionary from `next_num_func` and
/// returns it.
pub fn add_font_resources<F: FnMut() -> u64>(next_num_func: F) -> (n: u64)
    requires
        call_requires(next_num_func, ()),
    ensures
        call_ensures(next_num_func, (), n),
{
    let mut next_num_func = next_num_func;
    let next_num = next_num_func();
    next_num
}

} // verus!
