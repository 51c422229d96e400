//! A simple arithmetic producer: `start, start + step, start + 2 * step, ...`,
//! optionally bounded by an exclusive upper limit.  It is the plain source the
//! adapters are driven from in tests and examples.

use vstd::prelude::*;

use crate::pull::Pull;

verus! {

/// Produces `start, start + step, start + 2 * step, ...`.
///
/// With `stop == Some(s)` the counter is exhausted as soon as the next value
/// would not satisfy `value < s`; with `stop == None` it runs until the next
/// value would leave the `i32` range.
#[derive(Clone)]
pub struct Counter {
    next: Option<i32>,
    step: i32,
    stop: Option<i32>,
    finished: bool,
    start: Ghost<i32>,
    hist: Ghost<Seq<i32>>,
}

impl Counter {
    /// The first value the counter produces.
    pub closed spec fn first(&self) -> i32 {
        self.start@
    }

    /// The distance between consecutive values.
    pub closed spec fn stride(&self) -> i32 {
        self.step
    }

    /// The exclusive upper limit, if any.
    pub closed spec fn limit(&self) -> Option<i32> {
        self.stop
    }

    /// The `i`-th value of the arithmetic sequence the counter produces.
    pub open spec fn value_at(&self, i: int) -> int {
        self.first() + i * self.stride()
    }

    /// Whether the counter has run out after producing `k` values: the next
    /// value would leave the `i32` range, or would reach the limit.
    pub open spec fn exhausted_at(&self, k: int) -> bool {
        ||| !(i32::MIN <= self.value_at(k) <= i32::MAX)
        ||| (self.limit() is Some && self.value_at(k) >= self.limit()->0)
    }

    /// A counter that has produced nothing yet.
    pub fn new(start: i32, step: i32, stop: Option<i32>) -> (r: Counter)
        ensures
            r.wf(),
            !r.done(),
            r.at_end() <==> (stop is Some && start >= stop->0),
            r.history() == Seq::<i32>::empty(),
            r.first() == start,
            r.stride() == step,
            r.limit() == stop,
    {
        Counter {
            next: Some(start),
            step,
            stop,
            finished: false,
            start: Ghost(start),
            hist: Ghost(Seq::empty()),
        }
    }
}

impl Pull for Counter {
    type Elem = i32;

    /// The produced values start at `first`, step by `stride`, and stay below
    /// the limit.
    closed spec fn wf(&self) -> bool {
        &&& self.hist@.len() > 0 ==> self.hist@[0] == self.start@
        &&& forall|i: int|
            0 < i < self.hist@.len() ==> #[trigger] self.hist@[i] as int == self.hist@[i - 1]
                + self.step
        &&& self.next is Some && self.hist@.len() > 0 ==> self.next->0 as int == self.hist@.last()
            + self.step
        &&& self.next is Some && self.hist@.len() == 0 ==> self.next->0 == self.start@
        &&& self.next is None ==> self.hist@.len() > 0 && !(i32::MIN <= self.hist@.last()
            + self.step <= i32::MAX)
        &&& self.stop is Some ==> forall|i: int|
            0 <= i < self.hist@.len() ==> #[trigger] self.hist@[i] < self.stop->0
    }

    closed spec fn done(&self) -> bool {
        self.finished
    }

    closed spec fn at_end(&self) -> bool {
        self.finished || match (self.next, self.stop) {
            (None, _) => true,
            (Some(v), Some(s)) => v >= s,
            (Some(_), None) => false,
        }
    }

    closed spec fn history(&self) -> Seq<i32> {
        self.hist@
    }

    open spec fn same_setup(&self, earlier: &Self) -> bool {
        &&& self.first() == earlier.first()
        &&& self.stride() == earlier.stride()
        &&& self.limit() == earlier.limit()
    }

    open spec fn stepped(&self, earlier: &Self, r: &Option<i32>) -> bool {
        match *r {
            Some(x) => x as int == earlier.value_at(earlier.history().len() as int),
            None => true,
        }
    }

    closed spec fn size_est(&self) -> (usize, Option<usize>) {
        if self.finished {
            (0usize, Some(0usize))
        } else {
            (0usize, None)
        }
    }

    fn pull(&mut self) -> (r: Option<i32>) {
        let ghost pre = *self;
        if self.finished {
            return None;
        }
        match self.next {
            None => {
                self.finished = true;
                None
            },
            Some(v) => {
                let within = match self.stop {
                    None => true,
                    Some(s) => v < s,
                };
                if !within {
                    self.finished = true;
                    None
                } else {
                    proof {
                        let k = pre.hist@.len() as int;
                        if k == 0 {
                            assert(0int * pre.stride() == 0) by (nonlinear_arith);
                        } else {
                            lemma_counter_values(&pre, k - 1);
                            assert((k - 1) * pre.stride() + pre.stride() == k * pre.stride())
                                by (nonlinear_arith);
                        }
                        assert(v as int == pre.value_at(k));
                    }
                    self.next = v.checked_add(self.step);
                    self.hist = Ghost(self.hist@.push(v));
                    Some(v)
                }
            },
        }
    }

    fn size_estimate(&self) -> (r: (usize, Option<usize>)) {
        if self.finished {
            (0, Some(0))
        } else {
            (0, None)
        }
    }
}

/// A well-formed counter has produced exactly the arithmetic sequence: its
/// `i`-th value is `first + i * stride`, and every value is below the limit.
pub proof fn lemma_counter_values(c: &Counter, i: int)
    requires
        c.wf(),
        0 <= i < c.history().len(),
    ensures
        c.history()[i] as int == c.first() + i * c.stride(),
        c.limit() is Some ==> c.history()[i] < c.limit()->0,
    decreases i,
{
    if i > 0 {
        lemma_counter_values(c, i - 1);
        assert((i - 1) * c.stride() + c.stride() == i * c.stride()) by (nonlinear_arith);
    }
}

/// A well-formed counter is at its end exactly when it has signalled
/// exhaustion, or when its next value would leave the `i32` range or reach
/// the limit.
pub proof fn lemma_counter_at_end(c: &Counter)
    requires
        c.wf(),
    ensures
        c.at_end() <==> (c.done() || c.exhausted_at(c.history().len() as int)),
{
    let k = c.history().len() as int;
    if k > 0 {
        lemma_counter_values(c, k - 1);
        assert((k - 1) * c.stride() + c.stride() == k * c.stride()) by (nonlinear_arith);
    }
}

} // verus!
