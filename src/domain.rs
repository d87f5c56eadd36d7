use vstd::prelude::*;

verus! {

/// Why a computation refused its input.
#[derive(Debug, Clone, Copy, PartialEq, Eq, Structural)]
pub enum SignalError {
    /// A domain whose start lies after its end.
    InvalidDomain,
    /// A transform asked of a signal with no samples.
    EmptySignal,
}

/// The inclusive integer range `[start, end]`.
#[derive(Debug, Clone, Copy, PartialEq, Eq, Structural)]
pub struct Domain {
    pub start: isize,
    pub end: isize,
}

impl Domain {
    /// A domain is valid when it is not reversed.
    pub open spec fn valid(self) -> bool {
        self.start <= self.end
    }

    /// The number of integers in a valid domain.
    pub open spec fn size(self) -> int {
        self.end - self.start + 1
    }

    /// Whether `x` lies in the domain.
    pub open spec fn holds(self, x: int) -> bool {
        self.start <= x <= self.end
    }

    /// A valid domain whose integers can all be counted in a `usize`.
    pub open spec fn countable(self) -> bool {
        self.valid() && self.size() <= usize::MAX
    }

    pub fn new(start: isize, end: isize) -> (d: Domain)
        ensures
            d.start == start,
            d.end == end,
    {
        Domain { start, end }
    }

    pub fn is_valid(&self) -> (r: bool)
        ensures
            r == self.valid(),
    {
        self.start <= self.end
    }

    /// Accepts a valid domain and refuses a reversed one.
    pub fn check(&self) -> (r: Result<Domain, SignalError>)
        ensures
            r is Ok <==> self.valid(),
            r is Ok ==> r->Ok_0 == *self,
            r is Err ==> r->Err_0 == SignalError::InvalidDomain,
    {
        if self.start <= self.end {
            Ok(*self)
        } else {
            Err(SignalError::InvalidDomain)
        }
    }

    pub fn contains(&self, x: isize) -> (r: bool)
        ensures
            r == self.holds(x as int),
    {
        self.start <= x && x <= self.end
    }

    /// The number of integers in the domain; `None` when it exceeds `usize`.
    pub fn len(&self) -> (r: Option<usize>)
        requires
            self.valid(),
        ensures
            r is Some <==> self.size() <= usize::MAX,
            r is Some ==> r->Some_0 == self.size(),
    {
        let span: i128 = self.end as i128 - self.start as i128;
        if span < usize::MAX as i128 {
            Some((span + 1) as usize)
        } else {
            None
        }
    }

    /// The integers of the domain in increasing order.
    pub fn indices(&self) -> (r: Vec<isize>)
        requires
            self.countable(),
        ensures
            r@.len() == self.size(),
            forall|i: int| 0 <= i < r@.len() ==> #[trigger] r@[i] == self.start + i,
    {
        let n = match self.len() {
            Some(n) => n,
            None => 0,
        };
        let mut r: Vec<isize> = Vec::new();
        let mut i: usize = 0;
        while i < n
            invariant
                n == self.size(),
                i <= n,
                r@.len() == i,
                forall|j: int| 0 <= j < i ==> #[trigger] r@[j] == self.start + j,
            decreases n - i,
        {
            r.push((self.start as i128 + i as i128) as isize);
            i = i + 1;
        }
        r
    }
}

} // verus!
