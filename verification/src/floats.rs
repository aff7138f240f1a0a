//! The guess of how much inline size floats take beside a flow.

use vstd::prelude::*;

use crate::flow::{BaseFlow, FlowClass, FlowFlags, FlowNode, FormattingContextType, Fragment};
use crate::units::Au;

verus! {

/// The inline size that floats are guessed to take on each side. It is made
/// before any flow has its final size, and may be wrong.
#[derive(Clone, Copy, Debug, PartialEq, Eq, Structural)]
pub struct SpeculatedFloatPlacement {
    /// The inline size taken at the left.
    pub left: Au,
    /// The inline size taken at the right.
    pub right: Au,
}

/// `amount` less `by` but not below zero, where `by` is positive; `amount`
/// itself otherwise.
pub open spec fn narrowed(amount: Au, by: Au) -> Au {
    if by.0 > 0 {
        amount.minus(by).or_zero()
    } else {
        amount
    }
}

/// `amount` plus `by`, where `amount` is positive; `amount` itself
/// otherwise.
pub open spec fn widened(amount: Au, by: Au) -> Au {
    if amount.0 > 0 {
        amount.plus(by)
    } else {
        amount
    }
}

impl SpeculatedFloatPlacement {
    /// Whether every length is in range.
    pub open spec fn in_range(self) -> bool {
        self.left.in_range() && self.right.in_range()
    }

    /// Nothing taken on either side.
    pub open spec fn none() -> SpeculatedFloatPlacement {
        SpeculatedFloatPlacement { left: Au(0), right: Au(0) }
    }

    /// What flows into a flow with switches `flags`, when `self` flows out
    /// of what stands before it: a side that the flow clears starts empty.
    pub open spec fn entering(self, flags: FlowFlags) -> SpeculatedFloatPlacement {
        SpeculatedFloatPlacement {
            left: if flags.clears_left { Au(0) } else { self.left },
            right: if flags.clears_right { Au(0) } else { self.right },
        }
    }

    /// What flows into the first child of a flow: nothing, where the flow
    /// keeps floats out; else what flows into the flow, less the distance
    /// from its margin edge to its content edge on each side.
    pub open spec fn entering_first_child(
        class: FlowClass,
        base: BaseFlow,
        fragment: Fragment,
    ) -> SpeculatedFloatPlacement {
        if class != FlowClass::Block {
            base.speculated_float_placement_in
        } else if fragment.formatting_context != FormattingContextType::Inherited {
            SpeculatedFloatPlacement::none()
        } else {
            SpeculatedFloatPlacement {
                left: narrowed(base.speculated_float_placement_in.left, fragment.inline_start_offset()),
                right: narrowed(base.speculated_float_placement_in.right, fragment.inline_end_offset()),
            }
        }
    }

    /// What flows out of a flow, when `self` flows out of its last child.
    /// A block that keeps floats in lets out what came in; another block
    /// lets out what its children did, seen from its margin edge. A
    /// floating flow then adds its own preferred inline size on its side.
    pub open spec fn leaving(self, class: FlowClass, base: BaseFlow, fragment: Fragment) -> SpeculatedFloatPlacement {
        let through = if class != FlowClass::Block {
            self
        } else if fragment.formatting_context != FormattingContextType::Inherited {
            base.speculated_float_placement_in
        } else {
            SpeculatedFloatPlacement {
                left: widened(self.left, fragment.inline_start_offset()),
                right: widened(self.right, fragment.inline_end_offset()),
            }
        };
        let size = base.intrinsic_inline_sizes.preferred_inline_size;
        if base.flags.floats_left {
            SpeculatedFloatPlacement { left: through.left.plus(size), right: through.right }
        } else if base.flags.floats_right {
            SpeculatedFloatPlacement { left: through.left, right: through.right.plus(size) }
        } else {
            through
        }
    }

    /// Whether every length is in range.
    pub fn is_in_range(&self) -> (r: bool)
        ensures
            r == self.in_range(),
    {
        self.left.is_in_range() && self.right.is_in_range()
    }

    /// Nothing taken on either side.
    pub fn zero() -> (r: SpeculatedFloatPlacement)
        ensures
            r == SpeculatedFloatPlacement::none(),
    {
        SpeculatedFloatPlacement { left: Au(0), right: Au(0) }
    }

    /// Turns what flows out of the flow before `flow` into what flows into
    /// `flow`.
    pub fn compute_floats_in(&mut self, flow: &FlowNode)
        ensures
            *final(self) == old(self).entering(flow@.base.flags),
    {
        if flow.base.flags.clears_left {
            self.left = Au(0);
        }
        if flow.base.flags.clears_right {
            self.right = Au(0);
        }
    }

    /// Turns what flows out of the last child of `flow` into what flows out
    /// of `flow`.
    pub fn compute_floats_out(&mut self, flow: &FlowNode)
        requires
            old(self).in_range(),
            flow.base.in_range(),
            flow.fragment.in_range(),
        ensures
            *final(self) == old(self).leaving(flow@.class, flow@.base, flow@.fragment),
            final(self).in_range(),
    {
        if flow.class == FlowClass::Block {
            if flow.fragment.formatting_context != FormattingContextType::Inherited {
                *self = flow.base.speculated_float_placement_in;
            } else {
                if self.left.0 > 0 {
                    self.left = self.left.add(flow.fragment.inline_start_content_offset());
                }
                if self.right.0 > 0 {
                    self.right = self.right.add(flow.fragment.inline_end_content_offset());
                }
            }
        }
        let size = flow.base.intrinsic_inline_sizes.preferred_inline_size;
        if flow.base.flags.floats_left {
            self.left = self.left.add(size);
        } else if flow.base.flags.floats_right {
            self.right = self.right.add(size);
        }
    }

    /// What flows into the first child of `parent`.
    pub fn compute_floats_in_for_first_child(parent: &FlowNode) -> (r: SpeculatedFloatPlacement)
        requires
            parent.base.in_range(),
            parent.fragment.in_range(),
        ensures
            r == SpeculatedFloatPlacement::entering_first_child(parent@.class, parent@.base, parent@.fragment),
            r.in_range(),
    {
        if parent.class != FlowClass::Block {
            return parent.base.speculated_float_placement_in;
        }
        if parent.fragment.formatting_context != FormattingContextType::Inherited {
            return SpeculatedFloatPlacement::zero();
        }
        let mut placement = parent.base.speculated_float_placement_in;
        let start = parent.fragment.inline_start_content_offset();
        let end = parent.fragment.inline_end_content_offset();
        if start.0 > 0 {
            placement.left = placement.left.sub(start).positive_or_zero();
        }
        if end.0 > 0 {
            placement.right = placement.right.sub(end).positive_or_zero();
        }
        placement
    }
}

impl Fragment {
    /// The distance from the margin edge to the content edge at the inline
    /// start.
    pub open spec fn inline_start_offset(self) -> Au {
        self.margin.inline_start.plus(self.border_padding.inline_start)
    }

    /// The distance from the margin edge to the content edge at the inline
    /// end.
    pub open spec fn inline_end_offset(self) -> Au {
        self.margin.inline_end.plus(self.border_padding.inline_end)
    }

    /// The distance from the margin edge to the content edge at the inline
    /// start.
    pub fn inline_start_content_offset(&self) -> (r: Au)
        requires
            self.in_range(),
        ensures
            r == self.inline_start_offset(),
            r.in_range(),
    {
        self.margin.inline_start.add(self.border_padding.inline_start)
    }

    /// The distance from the margin edge to the content edge at the inline
    /// end.
    pub fn inline_end_content_offset(&self) -> (r: Au)
        requires
            self.in_range(),
        ensures
            r == self.inline_end_offset(),
            r.in_range(),
    {
        self.margin.inline_end.add(self.border_padding.inline_end)
    }
}

} // verus!
