//! Index bookkeeping of the preference-score computation.
use vstd::prelude::*;

verus! {

/// The first run of consecutive positions at the start of `s`: its length.
pub open spec fn run_length_from<T>(s: Seq<(usize, T)>, k: int) -> int
    decreases s.len() - k,
{
    if k <= 0 || k >= s.len() {
        if k <= 0 { 0 } else { s.len() as int }
    } else if s[k].0 == s[k - 1].0 + 1 {
        run_length_from(s, k + 1)
    } else {
        k
    }
}

/// The entries at the start of `s` whose positions follow one another
/// (each one more than the previous); empty for an empty `s`.
pub fn first_consecutive_run<T: Copy>(s: &Vec<(usize, T)>) -> (r: Vec<(usize, T)>)
    ensures
        s@.len() == 0 ==> r@.len() == 0,
        s@.len() > 0 ==> r@ == s@.take(run_length_from(s@, 1)),
{
    if s.len() == 0 {
        return Vec::new();
    }
    let mut r: Vec<(usize, T)> = Vec::new();
    r.push(s[0]);
    let mut prev = s[0].0;
    let mut k: usize = 1;
    while k < s.len()
        invariant
            1 <= k <= s.len(),
            prev == s@[k - 1].0,
            r@ == s@.take(k as int),
            run_length_from(s@, 1) == run_length_from(s@, k as int),
        decreases s.len() - k,
    {
        let (i, f) = s[k];
        if prev < usize::MAX && i == prev + 1 {
            r.push((i, f));
            proof {
                assert(s@.take(k + 1) =~= s@.take(k as int).push(s@[k as int]));
            }
            prev = i;
            k = k + 1;
        } else {
            return r;
        }
    }
    r
}

} // verus!
