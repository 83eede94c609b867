//! The index work of the radix-2 transform: padding a sequence to a power
//! of two, and splitting it into its even- and odd-indexed halves. Both are
//! generic, so the transform's coefficient type is the caller's.

use vstd::prelude::*;

verus! {

/// Whether `n` is 1, 2, 4, 8, ...
pub open spec fn is_power_of_two(n: nat) -> bool
    decreases n,
{
    if n <= 1 {
        n == 1
    } else {
        n % 2 == 0 && is_power_of_two(n / 2)
    }
}

/// `data` followed by copies of `zero` up to the next power of two at or
/// above its length. A sequence whose length is already a power of two, and
/// the empty sequence, come back unchanged.
pub fn zero_pad<T: Copy>(data: &[T], zero: T) -> (r: Vec<T>)
    requires
        data@.len() <= usize::MAX / 2,
    ensures
        data@.len() == 0 ==> r@.len() == 0,
        data@.len() > 0 ==> is_power_of_two(r@.len()) && data@.len() <= r@.len() < 2 * data@.len(),
        r@.subrange(0, data@.len() as int) == data@,
        forall|i: int| data@.len() <= i < r@.len() ==> r@[i] == zero,
{
    let n: usize = data.len();
    let mut target: usize = 0;
    if n > 0 {
        target = 1;
        while target < n
            invariant
                n == data@.len(),
                0 < n <= usize::MAX / 2,
                is_power_of_two(target as nat),
                1 <= target,
                target < 2 * n,
            decreases 2 * n - target,
        {
            assert(is_power_of_two((2 * target) as nat)) by {
                assert((2 * target) as nat / 2 == target);
            }
            target = 2 * target;
        }
    }
    let mut out: Vec<T> = Vec::new();
    let mut i: usize = 0;
    while i < target
        invariant
            n == data@.len(),
            n <= target,
            i <= target,
            out@.len() == i,
            forall|k: int| 0 <= k < i && k < n ==> out@[k] == data@[k],
            forall|k: int| n <= k < i ==> out@[k] == zero,
        decreases target - i,
    {
        if i < n {
            out.push(data[i]);
        } else {
            out.push(zero);
        }
        i += 1;
    }
    assert(out@.subrange(0, n as int) =~= data@);
    out
}

/// The even-indexed and the odd-indexed elements of `data`, each in order.
pub fn split_even_odd<T: Copy>(data: &[T]) -> (r: (Vec<T>, Vec<T>))
    ensures
        r.0@.len() == (data@.len() + 1) / 2,
        r.1@.len() == data@.len() / 2,
        forall|i: int| 0 <= i < r.0@.len() ==> r.0@[i] == data@[2 * i],
        forall|i: int| 0 <= i < r.1@.len() ==> r.1@[i] == data@[2 * i + 1],
{
    let n: usize = data.len();
    let mut even: Vec<T> = Vec::new();
    let mut odd: Vec<T> = Vec::new();
    let mut i: usize = 0;
    while i < n
        invariant
            n == data@.len(),
            i <= n,
            even@.len() == (i + 1) / 2,
            odd@.len() == i / 2,
            forall|k: int| 0 <= k < even@.len() ==> even@[k] == data@[2 * k],
            forall|k: int| 0 <= k < odd@.len() ==> odd@[k] == data@[2 * k + 1],
        decreases n - i,
    {
        if i % 2 == 0 {
            even.push(data[i]);
        } else {
            odd.push(data[i]);
        }
        i += 1;
    }
    (even, odd)
}

} // verus!
