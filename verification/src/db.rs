use vstd::prelude::*;

verus! {

/// Takes the first element out of `vec`, or `None` when it is empty.
pub fn extract_first<T>(vec: Vec<T>) -> (first: Option<T>)
    ensures
        vec@.len() == 0 ==> first is None,
        vec@.len() > 0 ==> first == Some(vec@[0]),
{
    let mut vec = vec;
    if vec.len() == 0 {
        return None;
    }
    Some(vec.remove(0))
}

} // verus!
