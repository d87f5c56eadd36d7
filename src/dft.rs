use crate::domain::{Domain, SignalError};
use vstd::arithmetic::div_mod::{
    lemma_fundamental_div_mod, lemma_fundamental_div_mod_converse, lemma_small_mod,
};
use vstd::prelude::*;

verus! {

/// The term of bin `k` for the sample at index `x` of a signal of `n`
/// samples is multiplied by `exp(-2πi·k·x/n)`, which equals
/// `exp(-2πi·turn(k, x, n)/n)`: the phase reduced to one turn.
pub open spec fn turn(k: int, x: int, n: int) -> int {
    (k * x) % n
}

/// `turn(k, x, n)`, computed without rounding or overflow.
pub fn phase_index(k: isize, x: isize, n: usize) -> (r: usize)
    requires
        n > 0,
    ensures
        r == turn(k as int, x as int, n as int),
        r < n,
{
    let kk = k as i128;
    let xx = x as i128;
    assert(-0x8000_0000_0000_0000 <= kk <= 0x7fff_ffff_ffff_ffff);
    assert(-0x8000_0000_0000_0000 <= xx <= 0x7fff_ffff_ffff_ffff);
    assert(-0x4000_0000_0000_0000_0000_0000_0000_0000 <= kk * xx <= 0x4000_0000_0000_0000_0000_0000_0000_0000) by (nonlinear_arith)
        requires
            -0x8000_0000_0000_0000 <= kk <= 0x7fff_ffff_ffff_ffff,
            -0x8000_0000_0000_0000 <= xx <= 0x7fff_ffff_ffff_ffff,
    ;
    let p: i128 = kk * xx;
    let m: i128 = n as i128;
    let q: i128 = p % m;
    if q < 0 {
        proof {
            let a: int = -p;
            let d: int = a / (m as int);
            let r: int = a % (m as int);
            lemma_fundamental_div_mod(a, m as int);
            assert(q == -r);
            assert(p == (-d - 1) * m + (m - r)) by (nonlinear_arith)
                requires
                    a == -p,
                    a == m * d + r,
            ;
            lemma_fundamental_div_mod_converse(p as int, m as int, -d - 1, m - r);
        }
        (q + m) as usize
    } else {
        proof {
            if p < 0 {
                let a: int = -p;
                let d: int = a / (m as int);
                lemma_fundamental_div_mod(a, m as int);
                assert(p == (-d) * m + 0) by (nonlinear_arith)
                    requires
                        a == -p,
                        a == m * d + 0,
                ;
                lemma_fundamental_div_mod_converse(p as int, m as int, -d, 0);
            }
        }
        q as usize
    }
}

/// `table` gives, for each bin `k` of `out` in increasing order, the phase
/// index of every sample of `signal`, in the signal's order.
pub open spec fn is_phase_table<V>(
    signal: Seq<(isize, V)>,
    out: Domain,
    table: Seq<(isize, Vec<usize>)>,
) -> bool {
    &&& table.len() == out.size()
    &&& forall|i: int|
        0 <= i < table.len() ==> {
            &&& (#[trigger] table[i]).0 == out.start + i
            &&& table[i].1@.len() == signal.len()
            &&& forall|t: int|
                0 <= t < signal.len() ==> #[trigger] table[i].1@[t] == turn(
                    out.start + i,
                    signal[t].0 as int,
                    signal.len() as int,
                )
        }
}

/// The phase indices of a direct transform of `signal` at every bin of
/// `out`. The term of bin `k` for sample `(x, v)` is
/// `v · exp(-2πi·p/n)`, where `p` is the listed phase index and `n` the
/// number of samples of `signal` (not the number of bins). An empty signal
/// yields `EmptySignal`; otherwise a reversed `out` yields `InvalidDomain`.
pub fn phase_table<V>(signal: &Vec<(isize, V)>, out: Domain) -> (r: Result<
    Vec<(isize, Vec<usize>)>,
    SignalError,
>)
    requires
        out.valid() ==> out.size() <= usize::MAX,
    ensures
        r is Ok <==> signal.len() > 0 && out.valid(),
        signal.len() == 0 ==> r == Err::<Vec<(isize, Vec<usize>)>, SignalError>(
            SignalError::EmptySignal,
        ),
        signal.len() > 0 && !out.valid() ==> r == Err::<Vec<(isize, Vec<usize>)>, SignalError>(
            SignalError::InvalidDomain,
        ),
        r is Ok ==> is_phase_table(signal@, out, r->Ok_0@),
{
    let n = signal.len();
    if n == 0 {
        return Err(SignalError::EmptySignal);
    }
    if !out.is_valid() {
        return Err(SignalError::InvalidDomain);
    }
    let m = match out.len() {
        Some(m) => m,
        None => 0,
    };
    let mut table: Vec<(isize, Vec<usize>)> = Vec::new();
    let mut i: usize = 0;
    while i < m
        invariant
            n == signal.len(),
            n > 0,
            out.valid(),
            m == out.size(),
            i <= m,
            table@.len() == i,
            forall|a: int|
                0 <= a < i ==> {
                    &&& (#[trigger] table@[a]).0 == out.start + a
                    &&& table@[a].1@.len() == n
                    &&& forall|t: int|
                        0 <= t < n ==> #[trigger] table@[a].1@[t] == turn(
                            out.start + a,
                            signal@[t].0 as int,
                            n as int,
                        )
                },
        decreases m - i,
    {
        let k = (out.start as i128 + i as i128) as isize;
        let mut row: Vec<usize> = Vec::new();
        let mut t: usize = 0;
        while t < n
            invariant
                n == signal.len(),
                n > 0,
                k == out.start + i,
                t <= n,
                row@.len() == t,
                forall|u: int|
                    0 <= u < t ==> #[trigger] row@[u] == turn(k as int, signal@[u].0 as int, n as int),
            decreases n - t,
        {
            row.push(phase_index(k, signal[t].0, n));
            t = t + 1;
        }
        table.push((k, row));
        i = i + 1;
    }
    Ok(table)
}

/// At bin 0 every term has phase index 0: all terms of the sum point the same
/// way, so the magnitude there is the absolute value of the sum of the samples.
pub proof fn lemma_zero_bin_aligned<V>(signal: Seq<(isize, V)>, out: Domain, table: Seq<(isize, Vec<usize>)>, i: int, t: int)
    requires
        signal.len() > 0,
        is_phase_table(signal, out, table),
        0 <= i < table.len(),
        table[i].0 == 0,
        0 <= t < signal.len(),
    ensures
        table[i].1@[t] == 0,
{
    assert(table[i].1@[t] == turn(0, signal[t].0 as int, signal.len() as int));
    assert(0 * (signal[t].0 as int) == 0);
    lemma_small_mod(0, signal.len() as nat);
}

/// A phase table is determined by the signal's indices and the output domain:
/// two transforms of the same input agree bin for bin.
pub proof fn lemma_phase_table_determined<V>(
    signal: Seq<(isize, V)>,
    out: Domain,
    a: Seq<(isize, Vec<usize>)>,
    b: Seq<(isize, Vec<usize>)>,
)
    requires
        is_phase_table(signal, out, a),
        is_phase_table(signal, out, b),
    ensures
        a.len() == b.len(),
        forall|i: int| 0 <= i < a.len() ==> (#[trigger] a[i]).0 == b[i].0 && a[i].1@ == b[i].1@,
{
    assert forall|i: int| 0 <= i < a.len() implies (#[trigger] a[i]).0 == b[i].0 && a[i].1@ == b[i].1@ by {
        assert(a[i].1@ =~= b[i].1@);
    }
}

} // verus!
