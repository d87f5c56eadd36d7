use crate::domain::{Domain, SignalError};
use crate::signal::consecutive;
use vstd::prelude::*;

verus! {

/// How an index of a composite maps onto the index read from each source.
#[derive(Debug, Clone, Copy, PartialEq, Eq, Structural)]
pub enum Folding {
    /// Index `j` reads the source sample at `j`.
    Direct,
    /// Index `j` reads the source sample at `|j|`: a source sampled over
    /// non-negative indices is extended evenly to negative ones.
    Mirror,
}

/// The source index read for composite index `j`.
pub open spec fn folded(j: int, folding: Folding) -> int {
    match folding {
        Folding::Direct => j,
        Folding::Mirror => if j < 0 { -j } else { j },
    }
}

/// The value of the sample of a consecutive signal `s` at index `x`.
pub open spec fn value_at<V>(s: Seq<(isize, V)>, x: int) -> V {
    s[x - s[0].0].1
}

/// `s` has a sample at index `x`.
pub open spec fn has_index<V>(s: Seq<(isize, V)>, x: int) -> bool {
    s.len() > 0 && 0 <= x - s[0].0 < s.len()
}

/// Every index of `d` can be resolved in `s` under `folding`.
pub open spec fn covered<V>(s: Seq<(isize, V)>, d: Domain, folding: Folding) -> bool {
    forall|j: int| d.holds(j) ==> #[trigger] has_index(s, folded(j, folding))
}

/// The source index read for composite index `j`, exactly.
pub fn fold_index(j: isize, folding: Folding) -> (r: i128)
    ensures
        r == folded(j as int, folding),
{
    match folding {
        Folding::Direct => j as i128,
        Folding::Mirror => if j < 0 {
            -(j as i128)
        } else {
            j as i128
        },
    }
}

/// The position in `s` of the sample that composite index `j` reads, if
/// `s` has one.
pub fn position<V>(s: &Vec<(isize, V)>, j: isize, folding: Folding) -> (r: Option<usize>)
    ensures
        r is Some <==> has_index(s@, folded(j as int, folding)),
        r is Some ==> r->Some_0 == folded(j as int, folding) - s@[0].0,
{
    if s.len() == 0 {
        return None;
    }
    let p: i128 = fold_index(j, folding) - s[0].0 as i128;
    if 0 <= p && p < s.len() as i128 {
        Some(p as usize)
    } else {
        None
    }
}

/// Whether every index of `domain` resolves in `s` under `folding`.
pub fn covers<V>(s: &Vec<(isize, V)>, domain: Domain, folding: Folding) -> (r: bool)
    requires
        domain.valid() ==> domain.size() <= usize::MAX,
    ensures
        r == covered(s@, domain, folding),
{
    if !domain.is_valid() {
        return true;
    }
    let n = match domain.len() {
        Some(n) => n,
        None => 0,
    };
    let mut i: usize = 0;
    while i < n
        invariant
            domain.valid(),
            n == domain.size(),
            i <= n,
            forall|j: int|
                domain.start <= j < domain.start + i ==> #[trigger] has_index(
                    s@,
                    folded(j, folding),
                ),
        decreases n - i,
    {
        let j = (domain.start as i128 + i as i128) as isize;
        if position(s, j, folding).is_none() {
            assert(domain.holds(j as int));
            return false;
        }
        i = i + 1;
    }
    true
}

/// The values that feed composite index `j` under `folding`: one from each
/// source, in the order of `sources`.
pub open spec fn feeds<V>(sources: Seq<Vec<(isize, V)>>, j: int, folding: Folding) -> Seq<V> {
    Seq::new(sources.len(), |t: int| value_at(sources[t]@, folded(j, folding)))
}

/// `g` lists, for each index `j` of `domain` in increasing order, `j` and
/// the values that feed it.
pub open spec fn is_gathering<V>(
    sources: Seq<Vec<(isize, V)>>,
    domain: Domain,
    folding: Folding,
    g: Seq<(isize, Vec<V>)>,
) -> bool {
    &&& g.len() == domain.size()
    &&& forall|i: int|
        0 <= i < g.len() ==> (#[trigger] g[i]).0 == domain.start + i && g[i].1@ == feeds(
            sources,
            domain.start + i,
            folding,
        )
}

/// For each index `j` of `domain`, in increasing order, pairs `j` with the
/// sample of every source that `j` reads under `folding`. Summing each list
/// gives the composite signal. A reversed domain yields `InvalidDomain`.
pub fn gather<V: Copy>(sources: &Vec<Vec<(isize, V)>>, domain: Domain, folding: Folding) -> (r:
    Result<Vec<(isize, Vec<V>)>, SignalError>)
    requires
        domain.valid() ==> domain.size() <= usize::MAX,
        forall|t: int|
            0 <= t < sources.len() ==> consecutive(#[trigger] sources[t]@) && covered(
                sources[t]@,
                domain,
                folding,
            ),
    ensures
        r is Ok <==> domain.valid(),
        r is Err ==> r->Err_0 == SignalError::InvalidDomain,
        r is Ok ==> is_gathering(sources@, domain, folding, r->Ok_0@),
{
    if !domain.is_valid() {
        return Err(SignalError::InvalidDomain);
    }
    let n = match domain.len() {
        Some(n) => n,
        None => 0,
    };
    let mut out: Vec<(isize, Vec<V>)> = Vec::new();
    let mut i: usize = 0;
    while i < n
        invariant
            domain.valid(),
            n == domain.size(),
            i <= n,
            out@.len() == i,
            forall|t: int|
                0 <= t < sources.len() ==> consecutive(#[trigger] sources[t]@) && covered(
                    sources[t]@,
                    domain,
                    folding,
                ),
            forall|k: int|
                0 <= k < i ==> (#[trigger] out@[k]).0 == domain.start + k && out@[k].1@ == feeds(
                    sources@,
                    domain.start + k,
                    folding,
                ),
        decreases n - i,
    {
        let j = (domain.start as i128 + i as i128) as isize;
        assert(domain.holds(j as int));
        let mut vals: Vec<V> = Vec::new();
        let mut t: usize = 0;
        while t < sources.len()
            invariant
                domain.holds(j as int),
                t <= sources.len(),
                vals@.len() == t,
                forall|u: int|
                    0 <= u < sources.len() ==> consecutive(#[trigger] sources[u]@) && covered(
                        sources[u]@,
                        domain,
                        folding,
                    ),
                forall|u: int|
                    0 <= u < t ==> #[trigger] vals@[u] == value_at(
                        sources@[u]@,
                        folded(j as int, folding),
                    ),
            decreases sources.len() - t,
        {
            let s = &sources[t];
            assert(covered(s@, domain, folding));
            assert(has_index(s@, folded(j as int, folding)));
            match position(s, j, folding) {
                Some(p) => vals.push(s[p].1),
                None => {},
            }
            t = t + 1;
        }
        assert(vals@ =~= feeds(sources@, j as int, folding));
        out.push((j, vals));
        i = i + 1;
    }
    Ok(out)
}

/// With two sources, the values gathered for index `j` are the sample of
/// the first source at the folded index followed by that of the second:
/// their sum is the composite's value there.
pub proof fn lemma_two_sources<V>(
    s1: Vec<(isize, V)>,
    s2: Vec<(isize, V)>,
    domain: Domain,
    folding: Folding,
    g: Seq<(isize, Vec<V>)>,
    i: int,
)
    requires
        consecutive(s1@),
        consecutive(s2@),
        covered(s1@, domain, folding),
        covered(s2@, domain, folding),
        is_gathering(seq![s1, s2], domain, folding, g),
        0 <= i < g.len(),
    ensures
        ({
            let x = folded(g[i].0 as int, folding);
            let p1 = x - s1@[0].0;
            let p2 = x - s2@[0].0;
            &&& 0 <= p1 < s1@.len() && s1@[p1].0 == x
            &&& 0 <= p2 < s2@.len() && s2@[p2].0 == x
            &&& g[i].1@ == seq![s1@[p1].1, s2@[p2].1]
        }),
{
    let x = folded(g[i].0 as int, folding);
    assert(domain.holds(g[i].0 as int));
    assert(has_index(s1@, x));
    assert(has_index(s2@, x));
    assert(g[i].1@ =~= seq![value_at(s1@, x), value_at(s2@, x)]);
}

/// A gathering is determined by its sources, domain and folding: two
/// compositions of the same input agree index for index.
pub proof fn lemma_gathering_determined<V>(
    sources: Seq<Vec<(isize, V)>>,
    domain: Domain,
    folding: Folding,
    a: Seq<(isize, Vec<V>)>,
    b: Seq<(isize, Vec<V>)>,
)
    requires
        is_gathering(sources, domain, folding, a),
        is_gathering(sources, domain, folding, b),
    ensures
        a.len() == b.len(),
        forall|i: int| 0 <= i < a.len() ==> (#[trigger] a[i]).0 == b[i].0 && a[i].1@ == b[i].1@,
{
}

} // verus!
