use vstd::prelude::*;

verus! {

/// A vector that holds `value` `n` times.
pub fn filled<T: Copy>(value: T, n: usize) -> (v: Vec<T>)
    ensures
        v@ == Seq::new(n as nat, |i: int| value),
{
    let mut v: Vec<T> = Vec::new();
    let mut i: usize = 0;
    while i < n
        invariant
            i <= n,
            v@ == Seq::new(i as nat, |j: int| value),
        decreases n - i,
    {
        v.push(value);
        i += 1;
        proof {
            assert(v@ =~= Seq::new(i as nat, |j: int| value));
        }
    }
    v
}

} // verus!
