//! The sliding-window adapter: for every upstream element, emit a snapshot of
//! the most recent `n` elements seen so far (fewer than `n` at the start).

use std::collections::VecDeque;

use vstd::prelude::*;

use crate::pull::Pull;

verus! {

/// The last `min(s.len(), n)` elements of `s`, in order: the window over `s`
/// for capacity `n`.
pub open spec fn last_window<T>(s: Seq<T>, n: nat) -> Seq<T> {
    if s.len() <= n {
        s
    } else {
        s.subrange(s.len() - n, s.len() as int)
    }
}

/// `w` holds, position by position, clones of the elements of `model`.
pub open spec fn all_cloned<T: Clone>(model: Seq<T>, w: Seq<T>) -> bool {
    &&& w.len() == model.len()
    &&& forall|i: int| 0 <= i < w.len() ==> cloned::<T>(model[i], #[trigger] w[i])
}

/// A producer that wraps an upstream producer and, for each upstream element,
/// emits a snapshot of the window of the last `n` elements.
#[derive(Clone)]
#[must_use]
pub struct LastN<I, T> {
    iter: I,
    n: usize,
    last_n: VecDeque<T>,
    base: Ghost<int>,
    emitted: Ghost<Seq<VecDeque<T>>>,
}

impl<I, T> LastN<I, T> where I: Pull<Elem = T> {
    /// The elements pulled from the upstream through this adapter so far.
    pub closed spec fn inputs(&self) -> Seq<T> {
        self.iter.history().skip(self.base@)
    }

    /// The window capacity.
    pub closed spec fn capacity(&self) -> nat {
        self.n as nat
    }

    /// The elements currently held in the window, oldest first.
    pub closed spec fn window(&self) -> Seq<T> {
        self.last_n@
    }

    /// The wrapped upstream producer.
    pub closed spec fn upstream(&self) -> I {
        self.iter
    }

    /// How much of the upstream's history precedes this adapter: the inputs
    /// are the upstream's elements from this index on.
    pub closed spec fn start_index(&self) -> int {
        self.base@
    }
}

impl<I, T> Pull for LastN<I, T> where I: Pull<Elem = T>, T: Clone {
    type Elem = VecDeque<T>;

    /// The upstream is well-formed, the window holds exactly the last
    /// `min(inputs, capacity)` inputs, and every emitted snapshot holds clones
    /// of the window as it stood right after the corresponding input.
    closed spec fn wf(&self) -> bool {
        &&& self.iter.wf()
        &&& 0 <= self.base@ <= self.iter.history().len()
        &&& self.last_n@ == last_window(self.inputs(), self.n as nat)
        &&& self.emitted@.len() == self.inputs().len()
        &&& forall|i: int|
            0 <= i < self.emitted@.len() ==> all_cloned(
                last_window(self.inputs().take(i + 1), self.n as nat),
                (#[trigger] self.emitted@[i])@,
            )
    }

    closed spec fn done(&self) -> bool {
        self.iter.done()
    }

    closed spec fn at_end(&self) -> bool {
        self.iter.at_end()
    }

    closed spec fn history(&self) -> Seq<VecDeque<T>> {
        self.emitted@
    }

    open spec fn same_setup(&self, earlier: &Self) -> bool {
        &&& self.capacity() == earlier.capacity()
        &&& self.start_index() == earlier.start_index()
        &&& self.upstream().same_setup(&earlier.upstream())
    }

    open spec fn stepped(&self, earlier: &Self, r: &Option<VecDeque<T>>) -> bool {
        match *r {
            Some(v) => {
                &&& self.inputs().len() == earlier.inputs().len() + 1
                &&& earlier.inputs() == self.inputs().take(earlier.inputs().len() as int)
                &&& self.upstream().history() == earlier.upstream().history().push(
                    self.inputs().last(),
                )
                &&& self.window() == if earlier.window().len() < self.capacity() {
                    earlier.window().push(self.inputs().last())
                } else {
                    earlier.window().push(self.inputs().last()).drop_first()
                }
                &&& all_cloned(self.window(), v@)
            },
            None => {
                &&& self.inputs() == earlier.inputs()
                &&& self.window() == earlier.window()
                &&& self.upstream().history() == earlier.upstream().history()
            },
        }
    }

    closed spec fn size_est(&self) -> (usize, Option<usize>) {
        self.iter.size_est()
    }

    fn pull(&mut self) -> (r: Option<VecDeque<T>>) {
        let ghost prior: Seq<T> = self.inputs();
        match self.iter.pull() {
            Some(x) => {
                proof {
                    assert(self.inputs() =~= prior.push(x));
                    lemma_last_window_push(prior, x, self.n as nat);
                }
                self.last_n.push_back(x);
                if self.last_n.len() > self.n {
                    let _popped = self.last_n.pop_front();
                }
                let snap = self.last_n.clone();
                proof {
                    assert(self.inputs().take(self.inputs().len() as int) =~= self.inputs());
                    assert forall|i: int| 0 <= i < self.emitted@.len() implies all_cloned(
                        last_window(self.inputs().take(i + 1), self.n as nat),
                        (#[trigger] self.emitted@[i])@,
                    ) by {
                        assert(self.inputs().take(i + 1) =~= prior.take(i + 1));
                    }
                }
                self.emitted = Ghost(self.emitted@.push(snap));
                proof {
                    assert(prior =~= self.inputs().take(prior.len() as int));
                    assert(self.inputs().last() == x);
                }
                Some(snap)
            },
            None => None,
        }
    }

    fn size_estimate(&self) -> (r: (usize, Option<usize>)) {
        self.iter.size_estimate()
    }
}

/// How one more element changes the window: it is appended, and when the
/// window was already full the oldest element leaves.
proof fn lemma_last_window_push<T>(s: Seq<T>, x: T, n: nat)
    ensures
        last_window(s.push(x), n) == if last_window(s, n).len() < n {
            last_window(s, n).push(x)
        } else {
            last_window(s, n).push(x).drop_first()
        },
{
    if s.len() < n {
        assert(last_window(s.push(x), n) =~= last_window(s, n).push(x));
    } else {
        assert(last_window(s.push(x), n) =~= last_window(s, n).push(x).drop_first());
    }
}

/// The window over the first `k` elements, written as a subrange: the last
/// `min(k, n)` of them.
proof fn lemma_last_window_take<T>(s: Seq<T>, n: nat, k: int)
    requires
        0 <= k <= s.len(),
    ensures
        last_window(s.take(k), n) == s.subrange(if k <= n { 0int } else { k - n }, k),
{
    assert(last_window(s.take(k), n) =~= s.subrange(if k <= n { 0int } else { k - n }, k));
}

/// A well-formed window adapter is a faithful view of its upstream: the
/// upstream is well-formed, the inputs are the upstream's elements from the
/// adapter's start index on, one window has been emitted per input, and
/// exhaustion, progress and the size estimate are the upstream's own.
pub proof fn lemma_window_upstream<I, T>(w: &LastN<I, T>) where I: Pull<Elem = T>, T: Clone
    requires
        w.wf(),
    ensures
        w.upstream().wf(),
        0 <= w.start_index() <= w.upstream().history().len(),
        w.inputs() == w.upstream().history().skip(w.start_index()),
        w.history().len() == w.inputs().len(),
        w.done() == w.upstream().done(),
        w.at_end() == w.upstream().at_end(),
        w.size_est() == w.upstream().size_est(),
{
}

/// The live window never exceeds the capacity, and always holds exactly the
/// last `min(inputs, capacity)` inputs.
pub proof fn lemma_window_invariant<I, T>(w: &LastN<I, T>) where I: Pull<Elem = T>, T: Clone
    requires
        w.wf(),
    ensures
        w.window().len() <= w.capacity(),
        w.window() == last_window(w.inputs(), w.capacity()),
{
}

/// The `i`-th emitted window (0-indexed) has length `min(i + 1, capacity)`
/// and holds, position by position, clones of the last `min(i + 1, capacity)`
/// inputs in arrival order; one window is emitted per input.
pub proof fn lemma_window_contents<I, T>(w: &LastN<I, T>, i: int) where
    I: Pull<Elem = T>,
    T: Clone,

    requires
        w.wf(),
        0 <= i < w.history().len(),
    ensures
        w.history().len() == w.inputs().len(),
        w.history()[i]@.len() == if i + 1 <= w.capacity() {
            i + 1
        } else {
            w.capacity() as int
        },
        forall|j: int|
            0 <= j < w.history()[i]@.len() ==> cloned::<T>(
                w.inputs()[i + 1 - w.history()[i]@.len() + j],
                #[trigger] w.history()[i]@[j],
            ),
{
    lemma_last_window_take(w.inputs(), w.capacity(), i + 1);
}

/// For an element type whose clones are equal to their originals, the `i`-th
/// emitted window is exactly the last `min(i + 1, capacity)` inputs.
pub proof fn lemma_window_contents_exact<I, T>(w: &LastN<I, T>, i: int) where
    I: Pull<Elem = T>,
    T: Clone,

    requires
        w.wf(),
        0 <= i < w.history().len(),
        forall|a: T, b: T| cloned::<T>(a, b) ==> a == b,
    ensures
        w.history()[i]@ == w.inputs().subrange(
            if i + 1 <= w.capacity() {
                0int
            } else {
                i + 1 - w.capacity()
            },
            i + 1,
        ),
{
    lemma_window_contents(w, i);
    assert(w.history()[i]@ =~= w.inputs().subrange(
        if i + 1 <= w.capacity() {
            0int
        } else {
            i + 1 - w.capacity()
        },
        i + 1,
    ));
}

/// With capacity 0 every emitted window is empty, and there is still one
/// window per input.
pub proof fn lemma_window_capacity_zero<I, T>(w: &LastN<I, T>) where
    I: Pull<Elem = T>,
    T: Clone,

    requires
        w.wf(),
        w.capacity() == 0,
    ensures
        w.history().len() == w.inputs().len(),
        forall|i: int| 0 <= i < w.history().len() ==> (#[trigger] w.history()[i])@.len() == 0,
{
    assert forall|i: int|
        0 <= i < w.history().len() implies (#[trigger] w.history()[i])@.len() == 0 by {
        lemma_window_contents(w, i);
    }
}

/// With a capacity no smaller than the number of inputs nothing is ever
/// evicted: the live window is exactly the whole input sequence, and the
/// last emitted window holds clones of all of it.
pub proof fn lemma_window_no_eviction<I, T>(w: &LastN<I, T>) where
    I: Pull<Elem = T>,
    T: Clone,

    requires
        w.wf(),
        w.inputs().len() <= w.capacity(),
    ensures
        w.window() == w.inputs(),
        w.history().len() == w.inputs().len(),
        w.history().len() > 0 ==> all_cloned(w.inputs(), w.history().last()@),
{
    if w.history().len() > 0 {
        assert(w.inputs().take(w.inputs().len() as int) =~= w.inputs());
    }
}

/// Attaches the sliding-window view to any pull-based producer.
pub trait LastNIter: Pull {
    /// Wrap `self` so that each pull emits the window of the last `n`
    /// elements pulled so far.  The new adapter starts with an empty window
    /// and an empty history of its own.
    fn last_n(self, n: usize) -> (r: LastN<Self, Self::Elem>) where
        Self: Sized,
        Self::Elem: Clone,

        requires
            self.wf(),
        ensures
            r.wf(),
            r.capacity() == n as nat,
            r.upstream() == self,
            r.start_index() == self.history().len(),
            r.inputs() == Seq::<Self::Elem>::empty(),
            r.window() == Seq::<Self::Elem>::empty(),
            r.history() == Seq::<VecDeque<Self::Elem>>::empty(),
            r.done() == self.done(),
            r.at_end() == self.at_end(),
            r.size_est() == self.size_est(),
    {
        let ghost b: int = self.history().len() as int;
        let r = LastN {
            iter: self,
            n,
            last_n: VecDeque::with_capacity(n),
            base: Ghost(b),
            emitted: Ghost(Seq::empty()),
        };
        proof {
            assert(r.inputs() =~= Seq::<Self::Elem>::empty());
        }
        r
    }
}

impl<I: Pull> LastNIter for I {}

} // verus!
