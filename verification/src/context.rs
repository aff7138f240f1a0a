//! What a layout pass is told from outside the tree.

use vstd::prelude::*;

verus! {

/// The pipeline a layout belongs to.
#[derive(Clone, Copy, Debug, PartialEq, Eq, Structural)]
pub struct PipelineId(pub u32);

/// The settings shared by the passes of one layout.
#[derive(Clone, Copy, Debug, PartialEq, Eq, Structural)]
pub struct LayoutContext {
    /// The pipeline being laid out.
    pub id: PipelineId,
    /// Whether a reflow computes the intrinsic inline sizes in a pass of
    /// its own before it assigns sizes.
    pub bubble_inline_sizes_separately: bool,
}

impl LayoutContext {
    /// The settings of one layout.
    pub fn new(id: PipelineId, bubble_inline_sizes_separately: bool) -> (r: LayoutContext)
        ensures
            r == (LayoutContext { id, bubble_inline_sizes_separately }),
    {
        LayoutContext { id, bubble_inline_sizes_separately }
    }
}

} // verus!
