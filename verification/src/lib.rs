//! Lazy sequence views: a running-fold adapter and a sliding-window adapter
//! over any pull-based producer of elements.
//!
//! The [`pull::Pull`] trait is the capability every producer offers: hand out
//! the next element, or signal exhaustion.  The two adapters wrap an upstream
//! producer, keep O(1) (fold) or O(capacity) (window) state, and emit exactly
//! one element per upstream element.  Extension traits attach the adapters to
//! any producer, so they compose in arbitrary chains.

pub mod counter;
pub mod lastniter;
pub mod partialfolditer;
pub mod pull;
