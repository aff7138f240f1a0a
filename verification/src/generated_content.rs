//! Content that style asks to be generated beside an element's own, and
//! the flows made for it.

use vstd::prelude::*;

use crate::flow::{
    BaseFlow, FlowClass, FlowNode, FlowTree, Fragment, GeneratedContentInfo, IntrinsicISizes, OpaqueNode,
    PseudoElementType,
};

verus! {

/// The flow that stands for generated content of `node`: an inline flow
/// never laid out, without children, as large as the content was measured.
pub open spec fn generated_flow(node: OpaqueNode, pseudo: PseudoElementType, info: GeneratedContentInfo) -> FlowTree {
    FlowTree {
        class: FlowClass::Inline,
        base: BaseFlow::fresh(),
        fragment: Fragment {
            intrinsic_inline_sizes: IntrinsicISizes {
                minimum_inline_size: info.inline_size,
                preferred_inline_size: info.inline_size,
            },
            intrinsic_block_size: info.block_size,
            ..Fragment::blank(node, pseudo, info.color)
        },
        children: Seq::empty(),
    }
}

impl FlowTree {
    /// The children of the flow once its generated content stands among
    /// them, when `own` are the children it has: the content generated
    /// before comes first, the content generated after comes last.
    pub open spec fn children_with_generated(self, own: Seq<FlowTree>) -> Seq<FlowTree> {
        let leading = match self.fragment.before {
            Some(info) => seq![generated_flow(self.fragment.node, PseudoElementType::Before, info)] + own,
            None => own,
        };
        match self.fragment.after {
            Some(info) => leading.push(generated_flow(self.fragment.node, PseudoElementType::After, info)),
            None => leading,
        }
    }

    /// The fragment of the flow with nothing left to generate.
    pub open spec fn fragment_resolved(self) -> Fragment {
        Fragment { before: None, after: None, ..self.fragment }
    }
}

impl FlowNode {
    /// The flow that stands for generated content of `node`.
    pub fn new_generated(node: OpaqueNode, pseudo: PseudoElementType, info: GeneratedContentInfo) -> (r: FlowNode)
        requires
            info.in_range(),
        ensures
            r@ == generated_flow(node, pseudo, info),
            r@.wf(),
    {
        let mut fragment = Fragment::new_pseudo(node, pseudo, info.color);
        fragment.intrinsic_inline_sizes = IntrinsicISizes {
            minimum_inline_size: info.inline_size,
            preferred_inline_size: info.inline_size,
        };
        fragment.intrinsic_block_size = info.block_size;
        let r = FlowNode { class: FlowClass::Inline, base: BaseFlow::new(), fragment, children: Vec::new() };
        assert(r@.children =~= Seq::empty());
        r
    }
}

} // verus!
