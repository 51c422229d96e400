//! The lazy-pull capability: a single-step producer of a finite or infinite
//! sequence of elements.

use vstd::prelude::*;

verus! {

/// A producer of a lazy sequence of elements.
///
/// A `Pull` value is driven by a single caller: each call of [`Pull::pull`]
/// either hands out the next element or signals exhaustion.  The producer has
/// two logical states, active and exhausted; the first `None` moves it to
/// exhausted, and from then on every pull returns `None` again.
///
/// The specification side is carried by spec functions every implementation
/// defines:
/// - [`Pull::wf`], the internal well-formedness that pulling preserves;
/// - [`Pull::history`], the sequence of elements handed out so far, in order;
/// - [`Pull::done`], whether exhaustion has already been signalled;
/// - [`Pull::at_end`], whether any element is still owed;
/// - [`Pull::same_setup`], the configuration that pulling never changes;
/// - [`Pull::stepped`], what one pull does to the implementation's own
///   specification state.
///
/// [`Pull::size_est`] names the size estimate the producer currently
/// advertises, so that adapters can state that they propagate it unchanged.
pub trait Pull {
    /// The type of the elements handed out.
    type Elem;

    /// Well-formedness of the producer's internal state.
    spec fn wf(&self) -> bool;

    /// Whether the producer has already signalled exhaustion.
    spec fn done(&self) -> bool;

    /// Whether the producer has run out of elements: the next pull is owed an
    /// element exactly when this is false.
    spec fn at_end(&self) -> bool;

    /// The elements handed out so far, oldest first.
    spec fn history(&self) -> Seq<Self::Elem>;

    /// The size estimate the producer currently advertises.
    spec fn size_est(&self) -> (usize, Option<usize>);

    /// Whether `self` still has the configuration it had as `earlier`:
    /// pulling mutates a producer's progress, never its parameters.
    spec fn same_setup(&self, earlier: &Self) -> bool;

    /// How one pull may change the producer: the relation between the state
    /// before the call (`earlier`), the state after it (`self`), and the
    /// result `r`.  Each implementation states here what a single step does
    /// to its own specification state.
    spec fn stepped(&self, earlier: &Self, r: &Option<Self::Elem>) -> bool;

    /// Hand out the next element, or signal exhaustion with `None`.
    ///
    /// An element comes exactly when the producer is not `at_end`, and it
    /// extends the history by exactly that element.  Exhaustion leaves the
    /// history unchanged and is irreversible: a producer that has signalled
    /// it stays `at_end`, so every later pull returns `None` again.
    fn pull(&mut self) -> (r: Option<Self::Elem>)
        requires
            old(self).wf(),
        ensures
            final(self).wf(),
            final(self).same_setup(old(self)),
            final(self).stepped(old(self), &r),
            r is Some <==> !old(self).at_end(),
            match r {
                Some(x) => {
                    &&& !old(self).done()
                    &&& !final(self).done()
                    &&& final(self).history() == old(self).history().push(x)
                },
                None => {
                    &&& final(self).done()
                    &&& final(self).at_end()
                    &&& final(self).history() == old(self).history()
                },
            },
    ;

    /// A hint of how many elements may still come: a lower bound and an
    /// optional upper bound.
    fn size_estimate(&self) -> (r: (usize, Option<usize>))
        requires
            self.wf(),
        ensures
            r == self.size_est(),
    ;
}

} // verus!
