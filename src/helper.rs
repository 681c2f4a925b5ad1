//! Small helpers on bytes and paths.
use vstd::prelude::*;

use crate::error::Error;

verus! {

/// `sep` occurs in `v` at index `i`.
pub open spec fn occurs_at(v: Seq<u8>, sep: Seq<u8>, i: int) -> bool {
    0 <= i && i + sep.len() <= v.len() && v.subrange(i, i + sep.len()) == sep
}

/// `s` with every `.tmp` removed, scanning from the left.
pub open spec fn without_tmp(s: Seq<char>) -> Seq<char>
    decreases s.len(),
{
    if s.len() == 0 {
        s
    } else if s.len() >= 4 && s.subrange(0, 4) == seq!['.', 't', 'm', 'p'] {
        without_tmp(s.subrange(4, s.len() as int))
    } else {
        seq![s[0]] + without_tmp(s.subrange(1, s.len() as int))
    }
}

/// Relies on `str::replace`, which replaces each non-overlapping match,
/// found from the left, by the replacement.
#[verifier::external_body]
fn remove_tmp(s: &str) -> (r: String)
    ensures
        r@ == without_tmp(s@),
{
    s.replace(".tmp", "")
}

fn matches_at(v: &Vec<u8>, sep: &[u8], i: usize) -> (r: bool)
    requires
        i <= v@.len(),
    ensures
        r == occurs_at(v@, sep@, i as int),
{
    if sep.len() > v.len() - i {
        return false;
    }
    let _n = v.len();
    let mut j: usize = 0;
    while j < sep.len()
        invariant
            j <= sep@.len(),
            i + sep@.len() <= v@.len() <= usize::MAX,
            forall|k: int| 0 <= k < j ==> v@[i + k] == sep@[k],
        decreases sep@.len() - j,
    {
        if v[i + j] != sep[j] {
            assert(v@.subrange(i as int, i + sep@.len())[j as int] != sep@[j as int]);
            return false;
        }
        j = j + 1;
    }
    assert(v@.subrange(i as int, i + sep@.len()) =~= sep@);
    true
}

fn copy_range(v: &Vec<u8>, from: usize, to: usize) -> (r: Vec<u8>)
    requires
        from <= to <= v@.len(),
    ensures
        r@ == v@.subrange(from as int, to as int),
{
    let mut r: Vec<u8> = Vec::new();
    let mut i: usize = from;
    while i < to
        invariant
            from <= i <= to,
            to <= v@.len(),
            r@ == v@.subrange(from as int, i as int),
        decreases to - i,
    {
        r.push(v[i]);
        i = i + 1;
        assert(r@ =~= v@.subrange(from as int, i as int));
    }
    r
}

/// Splits `vec` at the first occurrence of `sep`, which belongs to neither
/// part; without one, all of `vec` is the first part.
pub fn split_vec_once(vec: Vec<u8>, sep: &[u8]) -> (r: (Vec<u8>, Vec<u8>))
    ensures
        (forall|i: int| !occurs_at(vec@, sep@, i)) ==> r.0@ == vec@ && r.1@.len() == 0,
        (exists|i: int| occurs_at(vec@, sep@, i)) ==> exists|k: int|
            occurs_at(vec@, sep@, k) && (forall|j: int| 0 <= j < k ==> !occurs_at(vec@, sep@, j))
                && r.0@ == vec@.subrange(0, k) && r.1@ == vec@.subrange(k + sep@.len(), vec@.len() as int),
{
    let n = vec.len();
    let mut i: usize = 0;
    loop
        invariant
            i <= n,
            n == vec@.len(),
            forall|j: int| 0 <= j < i ==> !occurs_at(vec@, sep@, j),
        ensures
            i == n,
            forall|j: int| 0 <= j <= n ==> !occurs_at(vec@, sep@, j),
        decreases n - i,
    {
        if matches_at(&vec, sep, i) {
            let first = copy_range(&vec, 0, i);
            let second = copy_range(&vec, i + sep.len(), n);
            return (first, second);
        }
        if i == n {
            break;
        }
        i = i + 1;
    }
    assert forall|j: int| !occurs_at(vec@, sep@, j) by {
        if 0 <= j && j < i {
        }
    }
    let whole = copy_range(&vec, 0, vec.len());
    assert(whole@ =~= vec@);
    (whole, Vec::new())
}

/// The text of a path.
pub fn path_to_string(path: &str) -> (r: Option<String>)
    ensures
        r.is_some() && r.unwrap()@ == path@,
{
    Some(path.to_owned())
}

/// The path with every `.tmp` removed.
pub fn clean_path(path: &str) -> (r: Result<String, Error>)
    ensures
        r.is_ok() && r.unwrap()@ == without_tmp(path@),
{
    let path = match path_to_string(path) {
        Some(p) => p,
        None => return Err(Error::FailedToConvert),
    };
    Ok(remove_tmp(path.as_str()))
}

} // verus!
