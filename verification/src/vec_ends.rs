use vstd::prelude::*;

verus! {

/// The first element of `v`, if any, without taking it out.
pub fn first<T>(v: &Vec<T>) -> (r: Option<&T>)
    ensures
        v.len() > 0 ==> r == Some(&v@[0]),
        v.len() == 0 ==> r is None,
{
    if v.len() > 0 {
        Some(&v[0])
    } else {
        None
    }
}

/// The last element of `v`, if any, without taking it out.
pub fn last<T>(v: &Vec<T>) -> (r: Option<&T>)
    ensures
        v.len() > 0 ==> r == Some(&v@[v.len() - 1]),
        v.len() == 0 ==> r is None,
{
    if v.len() > 0 {
        Some(&v[v.len() - 1])
    } else {
        None
    }
}

} // verus!
