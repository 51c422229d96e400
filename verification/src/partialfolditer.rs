//! The running-fold adapter: for every upstream element, fold it into an
//! internally held accumulator and emit the pair of (accumulated value so
//! far, element).

use vstd::prelude::*;

use crate::pull::Pull;

verus! {

/// A combine step for the running fold: fold one element into an
/// accumulator.
///
/// Every closure of shape `Fn(&Acc, &T) -> Acc` is a combiner through the
/// blanket implementation below, so ordinary callers pass a plain closure;
/// a verified caller may instead implement the trait on a type of its own
/// and give `accepts` and `allows` exact definitions.
pub trait Combiner<Acc, T> {
    /// Which argument pairs the combiner accepts.
    spec fn accepts(&self, a: Acc, x: T) -> bool;

    /// Which results the combiner may return for an argument pair.
    spec fn allows(&self, a: Acc, x: T, b: Acc) -> bool;

    /// Fold the element `x` into the accumulator `a`.
    fn combine(&self, a: &Acc, x: &T) -> (b: Acc)
        requires
            self.accepts(*a, *x),
        ensures
            self.allows(*a, *x, b),
    ;
}

impl<Acc, T, F: Fn(&Acc, &T) -> Acc> Combiner<Acc, T> for F {
    open spec fn accepts(&self, a: Acc, x: T) -> bool {
        call_requires(*self, (&a, &x))
    }

    open spec fn allows(&self, a: Acc, x: T, b: Acc) -> bool {
        call_ensures(*self, (&a, &x), b)
    }

    fn combine(&self, a: &Acc, x: &T) -> (b: Acc) {
        (self)(a, x)
    }
}

/// A closure combiner accepts exactly the argument pairs the closure's
/// precondition admits, and may return exactly the results the closure's
/// postcondition allows.
pub proof fn lemma_closure_combiner<Acc, T, F: Fn(&Acc, &T) -> Acc>(f: F)
    ensures
        forall|a: Acc, x: T| #[trigger] f.accepts(a, x) <==> call_requires(f, (&a, &x)),
        forall|a: Acc, x: T, b: Acc| #[trigger] f.allows(a, x, b) <==> call_ensures(
            f,
            (&a, &x),
            b,
        ),
{
}

/// The accumulator standing before step `i` of a fold: the initial value for
/// `i == 0`, otherwise the accumulator produced by step `i - 1`.
pub open spec fn acc_before<Acc>(init: Acc, accs: Seq<Acc>, i: int) -> Acc {
    if i == 0 {
        init
    } else {
        accs[i - 1]
    }
}

/// `accs` is a chain of fold steps of `f` over the elements `xs`, starting
/// from `init`: each accumulator is a permitted result of combining its
/// predecessor with the element at the same position.
pub open spec fn fold_chain<Acc, T, F: Combiner<Acc, T>>(
    f: F,
    init: Acc,
    xs: Seq<T>,
    accs: Seq<Acc>,
) -> bool {
    &&& accs.len() == xs.len()
    &&& forall|i: int|
        0 <= i < xs.len() ==> f.allows(acc_before(init, accs, i), #[trigger] xs[i], accs[i])
}

/// A producer that wraps an upstream producer and a combiner; each pull
/// advances the upstream by one element, folds it into the retained
/// accumulator, and emits (accumulator snapshot, element).
#[derive(Clone)]
#[must_use]
pub struct PartialFold<I, Acc, F> where I: Pull {
    iter: I,
    current_acc: Acc,
    f: F,
    init: Ghost<Acc>,
    base: Ghost<int>,
    accs: Ghost<Seq<Acc>>,
    emitted: Ghost<Seq<(Acc, <I as Pull>::Elem)>>,
}

impl<I, Acc, F> PartialFold<I, Acc, F> where I: Pull {
    /// The elements pulled from the upstream through this adapter so far.
    pub closed spec fn inputs(&self) -> Seq<<I as Pull>::Elem> {
        self.iter.history().skip(self.base@)
    }

    /// The initial accumulator the adapter was given.
    pub closed spec fn initial(&self) -> Acc {
        self.init@
    }

    /// The combiner the adapter was given.
    pub closed spec fn combiner(&self) -> F {
        self.f
    }

    /// The accumulator currently retained: the fold of all inputs so far.
    pub closed spec fn accumulator(&self) -> Acc {
        self.current_acc
    }

    /// The accumulators the retained state went through, one per input.
    pub closed spec fn accumulators(&self) -> Seq<Acc> {
        self.accs@
    }

    /// The wrapped upstream producer.
    pub closed spec fn upstream(&self) -> I {
        self.iter
    }

    /// How much of the upstream's history precedes this adapter: the inputs
    /// are the upstream's elements from this index on.
    pub closed spec fn start_index(&self) -> int {
        self.base@
    }
}

impl<I, Acc, F> Pull for PartialFold<I, Acc, F> where
    I: Pull,
    Acc: Clone,
    F: Combiner<Acc, <I as Pull>::Elem>,
 {
    type Elem = (Acc, <I as Pull>::Elem);

    /// The upstream is well-formed, the combiner accepts every argument
    /// pair, the retained accumulators form a fold chain over the inputs,
    /// and each emitted pair carries the input element together with a clone
    /// of the accumulator that step produced.
    closed spec fn wf(&self) -> bool {
        &&& self.iter.wf()
        &&& 0 <= self.base@ <= self.iter.history().len()
        &&& forall|a: Acc, x: <I as Pull>::Elem| #[trigger] self.f.accepts(a, x)
        &&& fold_chain(self.f, self.init@, self.inputs(), self.accs@)
        &&& self.current_acc == acc_before(self.init@, self.accs@, self.accs@.len() as int)
        &&& self.emitted@.len() == self.inputs().len()
        &&& forall|i: int|
            0 <= i < self.emitted@.len() ==> (#[trigger] self.emitted@[i]).1 == self.inputs()[i]
        &&& forall|i: int|
            0 <= i < self.emitted@.len() ==> cloned::<Acc>(
                self.accs@[i],
                (#[trigger] self.emitted@[i]).0,
            )
    }

    closed spec fn done(&self) -> bool {
        self.iter.done()
    }

    closed spec fn at_end(&self) -> bool {
        self.iter.at_end()
    }

    closed spec fn history(&self) -> Seq<(Acc, <I as Pull>::Elem)> {
        self.emitted@
    }

    open spec fn same_setup(&self, earlier: &Self) -> bool {
        &&& self.initial() == earlier.initial()
        &&& self.combiner() == earlier.combiner()
        &&& self.start_index() == earlier.start_index()
        &&& self.upstream().same_setup(&earlier.upstream())
    }

    open spec fn stepped(&self, earlier: &Self, r: &Option<(Acc, <I as Pull>::Elem)>) -> bool {
        match *r {
            Some(p) => {
                &&& self.inputs().len() == earlier.inputs().len() + 1
                &&& earlier.inputs() == self.inputs().take(earlier.inputs().len() as int)
                &&& self.upstream().history() == earlier.upstream().history().push(p.1)
                &&& p.1 == self.inputs().last()
                &&& self.combiner().allows(earlier.accumulator(), p.1, self.accumulator())
                &&& self.accumulators() == earlier.accumulators().push(self.accumulator())
                &&& cloned::<Acc>(self.accumulator(), p.0)
            },
            None => {
                &&& self.inputs() == earlier.inputs()
                &&& self.upstream().history() == earlier.upstream().history()
                &&& self.accumulator() == earlier.accumulator()
                &&& self.accumulators() == earlier.accumulators()
            },
        }
    }

    closed spec fn size_est(&self) -> (usize, Option<usize>) {
        self.iter.size_est()
    }

    fn pull(&mut self) -> (r: Option<(Acc, <I as Pull>::Elem)>) {
        let ghost prior: Seq<<I as Pull>::Elem> = self.inputs();
        match self.iter.pull() {
            Some(x) => {
                proof {
                    assert(self.inputs() =~= prior.push(x));
                }
                let a = self.f.combine(&self.current_acc, &x);
                self.current_acc = a;
                self.accs = Ghost(self.accs@.push(self.current_acc));
                let out_acc = self.current_acc.clone();
                let out = (out_acc, x);
                self.emitted = Ghost(self.emitted@.push(out));
                proof {
                    assert(prior =~= self.inputs().take(prior.len() as int));
                    assert(self.inputs().last() == x);
                }
                proof {
                    assert forall|i: int|
                        0 <= i < self.inputs().len() implies self.f.allows(
                        acc_before(self.init@, self.accs@, i),
                        #[trigger] self.inputs()[i],
                        self.accs@[i],
                    ) by {
                        if i < prior.len() {
                            assert(self.f.allows(
                                acc_before(self.init@, self.accs@.drop_last(), i),
                                prior[i],
                                self.accs@.drop_last()[i],
                            ));
                        }
                    }
                }
                Some(out)
            },
            None => None,
        }
    }

    fn size_estimate(&self) -> (r: (usize, Option<usize>)) {
        self.iter.size_estimate()
    }
}

/// The left fold of the first `i` elements of `xs` under `g`, starting from
/// `init`.
pub open spec fn fold_prefix<Acc, T>(
    g: spec_fn(Acc, T) -> Acc,
    init: Acc,
    xs: Seq<T>,
    i: int,
) -> Acc
    decreases i,
{
    if i <= 0 {
        init
    } else {
        g(fold_prefix(g, init, xs, i - 1), xs[i - 1])
    }
}

/// In a fold chain of a deterministic combiner, the accumulator at position
/// `i` is the left fold of the elements up to and including `i`.
proof fn lemma_fold_chain_deterministic<Acc, T, F: Combiner<Acc, T>>(
    f: F,
    g: spec_fn(Acc, T) -> Acc,
    init: Acc,
    xs: Seq<T>,
    accs: Seq<Acc>,
    i: int,
)
    requires
        fold_chain(f, init, xs, accs),
        forall|a: Acc, x: T, b: Acc| #[trigger] f.allows(a, x, b) ==> b == g(a, x),
        0 <= i < xs.len(),
    ensures
        accs[i] == fold_prefix(g, init, xs, i + 1),
    decreases i,
{
    if i > 0 {
        lemma_fold_chain_deterministic(f, g, init, xs, accs, i - 1);
    }
    let prev = acc_before(init, accs, i);
    assert(f.allows(prev, xs[i], accs[i]));
    assert(accs[i] == g(prev, xs[i]));
    assert(prev == fold_prefix(g, init, xs, i));
    assert(fold_prefix(g, init, xs, i + 1) == g(fold_prefix(g, init, xs, i), xs[i]));
}

/// A running fold over inputs `x_0 .. x_{k-1}` emits exactly `k` pairs, and
/// the `i`-th pair is the `i`-th input together with the left fold of the
/// inputs up to and including index `i`.
///
/// This holds whenever the combiner implements a deterministic
/// specification `g` and the accumulator type clones to an equal value; with
/// a nondeterministic combiner only the fold-chain relation in the adapter's
/// well-formedness can be promised.
pub proof fn lemma_running_fold_accumulators<I, Acc, F>(
    pf: &PartialFold<I, Acc, F>,
    g: spec_fn(Acc, <I as Pull>::Elem) -> Acc,
    i: int,
) where I: Pull, Acc: Clone, F: Combiner<Acc, <I as Pull>::Elem>
    requires
        pf.wf(),
        forall|a: Acc, x: <I as Pull>::Elem, b: Acc|
            #[trigger] pf.combiner().allows(a, x, b) ==> b == g(a, x),
        forall|a: Acc, b: Acc| cloned::<Acc>(a, b) ==> a == b,
        0 <= i < pf.history().len(),
    ensures
        pf.history().len() == pf.inputs().len(),
        pf.history()[i].1 == pf.inputs()[i],
        pf.history()[i].0 == fold_prefix(g, pf.initial(), pf.inputs(), i + 1),
{
    lemma_fold_chain_deterministic(
        pf.combiner(),
        g,
        pf.initial(),
        pf.inputs(),
        pf.accumulators(),
        i,
    );
}

/// A well-formed running fold is a faithful view of its upstream: the
/// upstream is well-formed, the inputs are the upstream's elements from the
/// adapter's start index on, one pair has been emitted per input, each pair
/// carries its input element and a clone of the accumulator its step
/// produced, the accumulators form a fold chain from the initial value, the
/// retained accumulator is the last of them, and exhaustion, progress and
/// the size estimate are the upstream's own.
pub proof fn lemma_running_fold_state<I, Acc, F>(pf: &PartialFold<I, Acc, F>) where
    I: Pull,
    Acc: Clone,
    F: Combiner<Acc, <I as Pull>::Elem>,

    requires
        pf.wf(),
    ensures
        pf.upstream().wf(),
        0 <= pf.start_index() <= pf.upstream().history().len(),
        pf.inputs() == pf.upstream().history().skip(pf.start_index()),
        pf.history().len() == pf.inputs().len(),
        forall|i: int|
            0 <= i < pf.history().len() ==> (#[trigger] pf.history()[i]).1 == pf.inputs()[i],
        forall|i: int|
            0 <= i < pf.history().len() ==> cloned::<Acc>(
                pf.accumulators()[i],
                (#[trigger] pf.history()[i]).0,
            ),
        fold_chain(pf.combiner(), pf.initial(), pf.inputs(), pf.accumulators()),
        pf.accumulator() == acc_before(
            pf.initial(),
            pf.accumulators(),
            pf.accumulators().len() as int,
        ),
        pf.done() == pf.upstream().done(),
        pf.at_end() == pf.upstream().at_end(),
        pf.size_est() == pf.upstream().size_est(),
{
}

/// The retained accumulator always reflects the fold of all inputs pulled so
/// far, for a combiner that implements a deterministic specification `g`.
pub proof fn lemma_running_fold_retained<I, Acc, F>(
    pf: &PartialFold<I, Acc, F>,
    g: spec_fn(Acc, <I as Pull>::Elem) -> Acc,
) where I: Pull, Acc: Clone, F: Combiner<Acc, <I as Pull>::Elem>
    requires
        pf.wf(),
        forall|a: Acc, x: <I as Pull>::Elem, b: Acc|
            #[trigger] pf.combiner().allows(a, x, b) ==> b == g(a, x),
    ensures
        pf.accumulator() == fold_prefix(g, pf.initial(), pf.inputs(), pf.inputs().len() as int),
{
    let k = pf.inputs().len() as int;
    if k > 0 {
        lemma_fold_chain_deterministic(
            pf.combiner(),
            g,
            pf.initial(),
            pf.inputs(),
            pf.accumulators(),
            k - 1,
        );
    }
}

/// A running fold over an empty upstream emits zero pairs and still retains
/// the initial accumulator.
pub proof fn lemma_running_fold_empty<I, Acc, F>(pf: &PartialFold<I, Acc, F>) where
    I: Pull,
    Acc: Clone,
    F: Combiner<Acc, <I as Pull>::Elem>,

    requires
        pf.wf(),
        pf.inputs().len() == 0,
    ensures
        pf.history().len() == 0,
        pf.accumulator() == pf.initial(),
{
}

/// Attaches the running-fold view to any pull-based producer.
pub trait PartialFoldIterator: Pull {
    /// Wrap `self` so that each pull folds the next element into the
    /// accumulator, starting from `init`, and emits (accumulator, element).
    /// The combiner must accept every argument pair, since the adapter hands
    /// it whatever the upstream produces.
    fn partial_fold<Acc, F>(self, init: Acc, f: F) -> (r: PartialFold<Self, Acc, F>) where
        Self: Sized,
        Acc: Clone,
        F: Combiner<Acc, Self::Elem>,

        requires
            self.wf(),
            forall|a: Acc, x: Self::Elem| #[trigger] f.accepts(a, x),
        ensures
            r.wf(),
            r.initial() == init,
            r.upstream() == self,
            r.start_index() == self.history().len(),
            r.combiner() == f,
            r.accumulator() == init,
            r.inputs() == Seq::<Self::Elem>::empty(),
            r.accumulators() == Seq::<Acc>::empty(),
            r.history() == Seq::<(Acc, Self::Elem)>::empty(),
            r.done() == self.done(),
            r.at_end() == self.at_end(),
            r.size_est() == self.size_est(),
    {
        let ghost b: int = self.history().len() as int;
        let ghost gi: Acc = init;
        let r = PartialFold {
            iter: self,
            current_acc: init,
            f,
            init: Ghost(gi),
            base: Ghost(b),
            accs: Ghost(Seq::empty()),
            emitted: Ghost(Seq::empty()),
        };
        proof {
            assert(r.inputs() =~= Seq::<Self::Elem>::empty());
        }
        r
    }
}

impl<I: Pull> PartialFoldIterator for I {}

} // verus!
