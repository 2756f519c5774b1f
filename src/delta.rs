use vstd::prelude::*;
use crate::error::Error;

verus! {

/// Sum of the first `n` deltas: the `n`-th decoded value counted from one.
pub open spec fn prefix_sum(d: Seq<i64>, n: int) -> int
    decreases n,
{
    if n <= 0 {
        0
    } else {
        prefix_sum(d, n - 1) + d[n - 1]
    }
}

pub open spec fn fits_i64(v: int) -> bool {
    i64::MIN <= v <= i64::MAX
}

/// Every running sum of the deltas fits in an `i64`.
pub open spec fn deltas_fit(d: Seq<i64>) -> bool {
    forall|n: int| 1 <= n <= d.len() ==> fits_i64(#[trigger] prefix_sum(d, n))
}

/// The decoded sequence: value `i` is the sum of deltas `0..=i`.
pub open spec fn delta_decoded(d: Seq<i64>) -> Seq<int> {
    Seq::new(d.len(), |i: int| prefix_sum(d, i + 1))
}

/// Decodes a delta-coded sequence by running sum; fails on a sum that
/// leaves the `i64` range.
pub fn delta_decode(d: &Vec<i64>) -> (r: Result<Vec<i64>, Error>)
    ensures
        r is Ok <==> deltas_fit(d@),
        r is Err ==> r == Err::<Vec<i64>, Error>(Error::FormatError),
        r matches Ok(v) ==> v@.len() == d@.len() && forall|i: int|
            0 <= i < d@.len() ==> v@[i] as int == #[trigger] delta_decoded(d@)[i],
{
    let mut out: Vec<i64> = Vec::new();
    let mut acc: i64 = 0;
    let mut i: usize = 0;
    while i < d.len()
        invariant
            i <= d@.len(),
            out@.len() == i,
            acc as int == prefix_sum(d@, i as int),
            forall|n: int| 1 <= n <= i ==> fits_i64(#[trigger] prefix_sum(d@, n)),
            forall|k: int| 0 <= k < i ==> out@[k] as int == prefix_sum(d@, k + 1),
        decreases d@.len() - i,
    {
        match acc.checked_add(d[i]) {
            Some(s) => {
                acc = s;
                out.push(s);
                i = i + 1;
            },
            None => {
                assert(!fits_i64(prefix_sum(d@, i as int + 1)));
                return Err(Error::FormatError);
            },
        }
    }
    Ok(out)
}

/// A scaled coordinate in nanodegrees: `offset + raw * granularity`.
pub open spec fn scaled(offset: i64, granularity: i32, raw: int) -> int {
    offset + raw * granularity
}

/// Scales a raw coordinate into nanodegrees; fails where the result leaves
/// the `i64` range.
pub fn scale(offset: i64, granularity: i32, raw: i64) -> (r: Result<i64, Error>)
    ensures
        r is Ok <==> fits_i64(scaled(offset, granularity, raw as int)),
        r is Err ==> r == Err::<i64, Error>(Error::FormatError),
        r matches Ok(v) ==> v as int == scaled(offset, granularity, raw as int),
{
    proof {
        let a = raw as int;
        let b = granularity as int;
        assert(-0x8000_0000_0000_0000int <= a <= 0x7fff_ffff_ffff_ffffint);
        assert(-0x8000_0000int <= b <= 0x7fff_ffffint);
        assert(-0x4000_0000_0000_0000_0000_0000int <= a * b <= 0x4000_0000_0000_0000_0000_0000int)
            by (nonlinear_arith)
            requires
                -0x8000_0000_0000_0000int <= a <= 0x7fff_ffff_ffff_ffffint,
                -0x8000_0000int <= b <= 0x7fff_ffffint,
        ;
    }
    let wide: i128 = raw as i128 * granularity as i128;
    let total: i128 = wide + offset as i128;
    if total < i64::MIN as i128 || total > i64::MAX as i128 {
        Err(Error::FormatError)
    } else {
        Ok(total as i64)
    }
}

} // verus!
