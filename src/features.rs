use vstd::prelude::*;
use crate::error::Error;

verus! {

pub fn bytes_eq(a: &Vec<u8>, b: &Vec<u8>) -> (r: bool)
    ensures
        r == (a@ == b@),
{
    if a.len() != b.len() {
        return false;
    }
    let mut i: usize = 0;
    while i < a.len()
        invariant
            i <= a@.len(),
            a@.len() == b@.len(),
            forall|k: int| 0 <= k < i ==> a@[k] == b@[k],
        decreases a@.len() - i,
    {
        if a[i] != b[i] {
            return false;
        }
        i = i + 1;
    }
    assert(a@ =~= b@);
    true
}

/// `f` is one of the names in `allow`.
pub open spec fn known(allow: Seq<Vec<u8>>, f: Seq<u8>) -> bool {
    exists|i: int| 0 <= i < allow.len() && (#[trigger] allow[i])@ == f
}

fn is_known(allow: &Vec<Vec<u8>>, f: &Vec<u8>) -> (r: bool)
    ensures
        r == known(allow@, f@),
{
    let mut i: usize = 0;
    while i < allow.len()
        invariant
            i <= allow@.len(),
            forall|k: int| 0 <= k < i ==> (#[trigger] allow@[k])@ != f@,
        decreases allow@.len() - i,
    {
        if bytes_eq(&allow[i], f) {
            return true;
        }
        i = i + 1;
    }
    false
}

/// Checks the features that a file header declares as required against
/// those this reader is configured to implement; optional features are
/// not looked at.
pub fn check_features(required: &Vec<Vec<u8>>, allowlist: &Vec<Vec<u8>>) -> (r: Result<(), Error>)
    ensures
        r is Ok <==> forall|i: int| 0 <= i < required@.len() ==> known(allowlist@, (#[trigger] required@[i])@),
        r is Err ==> r == Err::<(), Error>(Error::UnsupportedFeature),
{
    let mut i: usize = 0;
    while i < required.len()
        invariant
            i <= required@.len(),
            forall|k: int| 0 <= k < i ==> known(allowlist@, (#[trigger] required@[k])@),
        decreases required@.len() - i,
    {
        if !is_known(allowlist, &required[i]) {
            return Err(Error::UnsupportedFeature);
        }
        i = i + 1;
    }
    Ok(())
}

} // verus!
