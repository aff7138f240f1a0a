//! What is stale on a flow, one latch for each concern, and how a reflow is
//! asked for.

use vstd::prelude::*;

verus! {

/// The layout work that is stale on one flow. Each field is a latch of its
/// own: whoever invalidates a result sets it, and the pass that redoes the
/// work clears it once the work on that flow is complete.
#[derive(Clone, Copy, Debug, PartialEq, Eq, Structural)]
pub struct RestyleDamage {
    /// The overflow rectangle has to be computed again.
    pub store_overflow: bool,
    /// The intrinsic inline sizes have to be computed again.
    pub bubble_isizes: bool,
    /// The flow is out of flow and has to be laid out again.
    pub reflow_out_of_flow: bool,
    /// The flow has to be laid out again.
    pub reflow: bool,
}

impl RestyleDamage {
    /// Every latch of `self` or of `other`.
    pub open spec fn with(self, other: RestyleDamage) -> RestyleDamage {
        RestyleDamage {
            store_overflow: self.store_overflow || other.store_overflow,
            bubble_isizes: self.bubble_isizes || other.bubble_isizes,
            reflow_out_of_flow: self.reflow_out_of_flow || other.reflow_out_of_flow,
            reflow: self.reflow || other.reflow,
        }
    }

    /// The latches of `self` that `other` does not hold.
    pub open spec fn without(self, other: RestyleDamage) -> RestyleDamage {
        RestyleDamage {
            store_overflow: self.store_overflow && !other.store_overflow,
            bubble_isizes: self.bubble_isizes && !other.bubble_isizes,
            reflow_out_of_flow: self.reflow_out_of_flow && !other.reflow_out_of_flow,
            reflow: self.reflow && !other.reflow,
        }
    }

    /// Whether `self` holds every latch of `other`.
    pub open spec fn has_all(self, other: RestyleDamage) -> bool {
        &&& other.store_overflow ==> self.store_overflow
        &&& other.bubble_isizes ==> self.bubble_isizes
        &&& other.reflow_out_of_flow ==> self.reflow_out_of_flow
        &&& other.reflow ==> self.reflow
    }

    /// Whether `self` holds some latch of `other`.
    pub open spec fn has_any(self, other: RestyleDamage) -> bool {
        ||| self.store_overflow && other.store_overflow
        ||| self.bubble_isizes && other.bubble_isizes
        ||| self.reflow_out_of_flow && other.reflow_out_of_flow
        ||| self.reflow && other.reflow
    }

    /// No latch set.
    pub open spec fn none() -> RestyleDamage {
        RestyleDamage { store_overflow: false, bubble_isizes: false, reflow_out_of_flow: false, reflow: false }
    }

    /// The store-overflow latch alone.
    pub open spec fn only_store_overflow() -> RestyleDamage {
        RestyleDamage { store_overflow: true, ..RestyleDamage::none() }
    }

    /// The bubble-inline-sizes latch alone.
    pub open spec fn only_bubble_isizes() -> RestyleDamage {
        RestyleDamage { bubble_isizes: true, ..RestyleDamage::none() }
    }

    /// The out-of-flow reflow latch alone.
    pub open spec fn only_reflow_out_of_flow() -> RestyleDamage {
        RestyleDamage { reflow_out_of_flow: true, ..RestyleDamage::none() }
    }

    /// The reflow latch alone.
    pub open spec fn only_reflow() -> RestyleDamage {
        RestyleDamage { reflow: true, ..RestyleDamage::none() }
    }

    /// Both reflow latches: what the size assignments look for.
    pub open spec fn any_reflow() -> RestyleDamage {
        RestyleDamage { reflow_out_of_flow: true, reflow: true, ..RestyleDamage::none() }
    }

    /// Every latch set.
    pub open spec fn everything() -> RestyleDamage {
        RestyleDamage { store_overflow: true, bubble_isizes: true, reflow_out_of_flow: true, reflow: true }
    }

    /// No damage.
    pub fn empty() -> (r: RestyleDamage)
        ensures
            r == RestyleDamage::none(),
    {
        RestyleDamage { store_overflow: false, bubble_isizes: false, reflow_out_of_flow: false, reflow: false }
    }

    /// Every latch set: the damage of a flow that was never laid out.
    pub fn all() -> (r: RestyleDamage)
        ensures
            r == RestyleDamage::everything(),
    {
        RestyleDamage { store_overflow: true, bubble_isizes: true, reflow_out_of_flow: true, reflow: true }
    }

    /// The store-overflow latch alone.
    pub fn store_overflow() -> (r: RestyleDamage)
        ensures
            r == RestyleDamage::only_store_overflow(),
    {
        RestyleDamage { store_overflow: true, bubble_isizes: false, reflow_out_of_flow: false, reflow: false }
    }

    /// The bubble-inline-sizes latch alone.
    pub fn bubble_isizes() -> (r: RestyleDamage)
        ensures
            r == RestyleDamage::only_bubble_isizes(),
    {
        RestyleDamage { store_overflow: false, bubble_isizes: true, reflow_out_of_flow: false, reflow: false }
    }

    /// The out-of-flow reflow latch alone.
    pub fn reflow_out_of_flow() -> (r: RestyleDamage)
        ensures
            r == RestyleDamage::only_reflow_out_of_flow(),
    {
        RestyleDamage { store_overflow: false, bubble_isizes: false, reflow_out_of_flow: true, reflow: false }
    }

    /// The reflow latch alone.
    pub fn reflow() -> (r: RestyleDamage)
        ensures
            r == RestyleDamage::only_reflow(),
    {
        RestyleDamage { store_overflow: false, bubble_isizes: false, reflow_out_of_flow: false, reflow: true }
    }

    /// Every latch of `self` or of `other`.
    pub fn union(self, other: RestyleDamage) -> (r: RestyleDamage)
        ensures
            r == self.with(other),
    {
        RestyleDamage {
            store_overflow: self.store_overflow || other.store_overflow,
            bubble_isizes: self.bubble_isizes || other.bubble_isizes,
            reflow_out_of_flow: self.reflow_out_of_flow || other.reflow_out_of_flow,
            reflow: self.reflow || other.reflow,
        }
    }

    /// Sets the latches of `other`.
    pub fn insert(&mut self, other: RestyleDamage)
        ensures
            *final(self) == old(self).with(other),
    {
        *self = self.union(other);
    }

    /// Clears the latches of `other`.
    pub fn remove(&mut self, other: RestyleDamage)
        ensures
            *final(self) == old(self).without(other),
    {
        *self = RestyleDamage {
            store_overflow: self.store_overflow && !other.store_overflow,
            bubble_isizes: self.bubble_isizes && !other.bubble_isizes,
            reflow_out_of_flow: self.reflow_out_of_flow && !other.reflow_out_of_flow,
            reflow: self.reflow && !other.reflow,
        };
    }

    /// Whether every latch of `other` is set.
    pub fn contains(&self, other: RestyleDamage) -> (r: bool)
        ensures
            r == self.has_all(other),
    {
        (!other.store_overflow || self.store_overflow)
            && (!other.bubble_isizes || self.bubble_isizes)
            && (!other.reflow_out_of_flow || self.reflow_out_of_flow)
            && (!other.reflow || self.reflow)
    }

    /// Whether some latch of `other` is set.
    pub fn intersects(&self, other: RestyleDamage) -> (r: bool)
        ensures
            r == self.has_any(other),
    {
        (self.store_overflow && other.store_overflow)
            || (self.bubble_isizes && other.bubble_isizes)
            || (self.reflow_out_of_flow && other.reflow_out_of_flow)
            || (self.reflow && other.reflow)
    }
}

/// How a reflow treats flows that carry no reflow damage.
#[derive(Clone, Copy, Debug, PartialEq, Eq, Structural)]
pub enum RelayoutMode {
    /// Lay out only what is damaged.
    Incremental,
    /// Lay out every flow of the subtree, damaged or not. This is how a
    /// subtree is corrected once a float speculation has turned out wrong.
    Force,
}

} // verus!
