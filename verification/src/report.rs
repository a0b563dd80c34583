//! Text helpers for rendering the report.

use vstd::prelude::*;

verus! {

/// `c` repeated cyclically to `length` characters, as under a report
/// heading. An empty `c` yields the empty string.
pub fn repeat_char(c: &str, length: usize) -> (r: String)
    ensures
        c@.len() == 0 ==> r@.len() == 0,
        c@.len() > 0 ==> {
            &&& r@.len() == length
            &&& forall|i: int| 0 <= i < length ==> r@[i] == c@[i % c@.len() as int]
        },
{
    let n = c.unicode_len();
    let mut r = String::new();
    if n == 0 {
        return r;
    }
    let mut k: usize = 0;
    while k < length
        invariant
            0 < n == c@.len(),
            k <= length,
            r@.len() == k,
            forall|i: int| 0 <= i < k ==> r@[i] == c@[i % n as int],
        decreases length - k,
    {
        let j = k % n;
        let piece = c.substring_char(j, j + 1);
        r.append(piece);
        k += 1;
    }
    r
}

} // verus!
