use crate::domain::{Domain, SignalError};
use vstd::prelude::*;

verus! {

/// `s` holds one sample for each integer of `d`, in increasing order of index.
pub open spec fn indexed_over<V>(s: Seq<(isize, V)>, d: Domain) -> bool {
    &&& s.len() == d.size()
    &&& forall|i: int| 0 <= i < s.len() ==> (#[trigger] s[i]).0 == d.start + i
}

/// `s` holds samples at consecutive indices, starting from its first one.
pub open spec fn consecutive<V>(s: Seq<(isize, V)>) -> bool {
    forall|i: int| 0 <= i < s.len() ==> (#[trigger] s[i]).0 == s[0].0 + i
}

/// Samples `sample` at every integer of `domain`, pairing each index with
/// its value. A reversed domain yields `InvalidDomain` and no samples.
pub fn generate<V, F: Fn(isize) -> V>(domain: Domain, sample: F) -> (r: Result<
    Vec<(isize, V)>,
    SignalError,
>)
    requires
        domain.valid() ==> domain.size() <= usize::MAX,
        forall|x: isize| domain.holds(x as int) ==> sample.requires((x,)),
    ensures
        r is Ok <==> domain.valid(),
        r is Err ==> r->Err_0 == SignalError::InvalidDomain,
        r is Ok ==> indexed_over(r->Ok_0@, domain),
        r is Ok ==> forall|i: int|
            0 <= i < r->Ok_0@.len() ==> sample.ensures(
                (r->Ok_0@[i].0,),
                (#[trigger] r->Ok_0@[i]).1,
            ),
{
    if !domain.is_valid() {
        return Err(SignalError::InvalidDomain);
    }
    let n = match domain.len() {
        Some(n) => n,
        None => 0,
    };
    let mut s: Vec<(isize, V)> = Vec::new();
    let mut i: usize = 0;
    while i < n
        invariant
            domain.valid(),
            n == domain.size(),
            i <= n,
            s@.len() == i,
            forall|x: isize| domain.holds(x as int) ==> sample.requires((x,)),
            forall|j: int| 0 <= j < i ==> (#[trigger] s@[j]).0 == domain.start + j,
            forall|j: int| 0 <= j < i ==> sample.ensures((s@[j].0,), (#[trigger] s@[j]).1),
        decreases n - i,
    {
        let x = (domain.start as i128 + i as i128) as isize;
        assert(domain.holds(x as int));
        let v = sample(x);
        s.push((x, v));
        i = i + 1;
    }
    Ok(s)
}

} // verus!
