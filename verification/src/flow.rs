//! The tree of flows: what one flow holds, and the tree as a value.

use vstd::prelude::*;
use webrender_api::ColorF;

use crate::damage::RestyleDamage;
use crate::floats::SpeculatedFloatPlacement;
use crate::units::{Au, Point2D, Rect, Size2D, Vector2D};

verus! {

/// `webrender_api::ColorF`, a colour. The library carries colours from the
/// fragments to the display items and never looks inside one.
#[verifier::external_type_specification]
#[verifier::external_body]
pub struct ExColorF(webrender_api::ColorF);

/// The element a fragment was made for, as an opaque number.
#[derive(Clone, Copy, Debug, PartialEq, Eq, Structural)]
pub struct OpaqueNode(pub usize);

/// Which part of its element a fragment renders.
#[derive(Clone, Copy, Debug, PartialEq, Eq, Structural)]
pub enum PseudoElementType {
    /// The element itself.
    Normal,
    /// Content generated before the element's own.
    Before,
    /// Content generated after the element's own.
    After,
}

/// The kinds of flow.
#[derive(Clone, Copy, Debug, PartialEq, Eq, Structural)]
pub enum FlowClass {
    /// A block container: its children are stacked in the block direction.
    Block,
    /// A leaf of inline content.
    Inline,
}

/// Whether a flow lays out its contents apart from the floats around it.
#[derive(Clone, Copy, Debug, PartialEq, Eq, Structural)]
pub enum FormattingContextType {
    /// The flow shares the formatting context of its container.
    Inherited,
    /// The flow is a block formatting context: floats outside do not enter
    /// it, and it is sized to stand beside them.
    Block,
    /// The flow is a formatting context of another kind.
    Other,
}

/// Per-flow switches set by box construction.
#[derive(Clone, Copy, Debug, PartialEq, Eq, Structural)]
pub struct FlowFlags {
    pub is_absolutely_positioned: bool,
    pub floats_left: bool,
    pub floats_right: bool,
    pub clears_left: bool,
    pub clears_right: bool,
}

impl FlowFlags {
    /// Whether the flow floats to either side.
    pub open spec fn float(self) -> bool {
        self.floats_left || self.floats_right
    }

    /// Whether the flow takes no part in the block stacking of its siblings.
    pub open spec fn out_of_flow(self) -> bool {
        self.is_absolutely_positioned || self.float()
    }

    /// No switch set.
    pub fn empty() -> (r: FlowFlags)
        ensures
            r == (FlowFlags {
                is_absolutely_positioned: false,
                floats_left: false,
                floats_right: false,
                clears_left: false,
                clears_right: false,
            }),
    {
        FlowFlags {
            is_absolutely_positioned: false,
            floats_left: false,
            floats_right: false,
            clears_left: false,
            clears_right: false,
        }
    }

    /// Whether the flow floats to either side.
    pub fn is_float(&self) -> (r: bool)
        ensures
            r == self.float(),
    {
        self.floats_left || self.floats_right
    }

    /// Whether the flow takes no part in the block stacking of its siblings.
    pub fn is_out_of_flow(&self) -> (r: bool)
        ensures
            r == self.out_of_flow(),
    {
        self.is_absolutely_positioned || self.floats_left || self.floats_right
    }
}

/// Four lengths, one for each side of a box, named by flow direction.
#[derive(Clone, Copy, Debug, PartialEq, Eq, Structural)]
pub struct LogicalMargin {
    pub inline_start: Au,
    pub inline_end: Au,
    pub block_start: Au,
    pub block_end: Au,
}

impl LogicalMargin {
    /// Whether every length is in range.
    pub open spec fn in_range(self) -> bool {
        &&& self.inline_start.in_range()
        &&& self.inline_end.in_range()
        &&& self.block_start.in_range()
        &&& self.block_end.in_range()
    }

    /// Whether every length is in range.
    pub fn is_in_range(&self) -> (r: bool)
        ensures
            r == self.in_range(),
    {
        self.inline_start.is_in_range() && self.inline_end.is_in_range() && self.block_start.is_in_range()
            && self.block_end.is_in_range()
    }

    /// Every length zero.
    pub fn zero() -> (r: LogicalMargin)
        ensures
            r == (LogicalMargin { inline_start: Au(0), inline_end: Au(0), block_start: Au(0), block_end: Au(0) }),
    {
        LogicalMargin { inline_start: Au(0), inline_end: Au(0), block_start: Au(0), block_end: Au(0) }
    }
}

/// The least and the preferred inline size of some content.
#[derive(Clone, Copy, Debug, PartialEq, Eq, Structural)]
pub struct IntrinsicISizes {
    pub minimum_inline_size: Au,
    pub preferred_inline_size: Au,
}

impl IntrinsicISizes {
    /// Whether every length is in range.
    pub open spec fn in_range(self) -> bool {
        self.minimum_inline_size.in_range() && self.preferred_inline_size.in_range()
    }

    /// Whether every length is in range.
    pub fn is_in_range(&self) -> (r: bool)
        ensures
            r == self.in_range(),
    {
        self.minimum_inline_size.is_in_range() && self.preferred_inline_size.is_in_range()
    }

    /// Every length zero.
    pub fn zero() -> (r: IntrinsicISizes)
        ensures
            r == (IntrinsicISizes { minimum_inline_size: Au(0), preferred_inline_size: Au(0) }),
    {
        IntrinsicISizes { minimum_inline_size: Au(0), preferred_inline_size: Au(0) }
    }
}

/// Content that style asks to be generated beside an element's own, already
/// measured.
#[derive(Clone, Copy, Debug, PartialEq)]
pub struct GeneratedContentInfo {
    pub inline_size: Au,
    pub block_size: Au,
    pub color: ColorF,
}

impl GeneratedContentInfo {
    /// Whether every length is in range.
    pub open spec fn in_range(self) -> bool {
        self.inline_size.in_range() && self.block_size.in_range()
    }

    /// Whether every length is in range.
    pub fn is_in_range(&self) -> (r: bool)
        ensures
            r == self.in_range(),
    {
        self.inline_size.is_in_range() && self.block_size.is_in_range()
    }
}

/// The box of one flow's content and what style says about it.
#[derive(Clone, Copy, Debug, PartialEq)]
pub struct Fragment {
    /// The element the fragment was made for.
    pub node: OpaqueNode,
    pub pseudo: PseudoElementType,
    /// The border box, in the coordinates of the flow.
    pub border_box: Rect,
    pub margin: LogicalMargin,
    /// Border and padding together.
    pub border_padding: LogicalMargin,
    /// The intrinsic inline sizes of the content alone.
    pub intrinsic_inline_sizes: IntrinsicISizes,
    /// The block size of the content alone, for a flow without children.
    pub intrinsic_block_size: Au,
    pub formatting_context: FormattingContextType,
    pub establishes_stacking_context: bool,
    pub z_index: i32,
    /// Where the fragment's transform sends the origin, if it has one.
    pub transform: Option<Vector2D>,
    pub background_color: ColorF,
    /// Content still to be generated before the element's own.
    pub before: Option<GeneratedContentInfo>,
    /// Content still to be generated after the element's own.
    pub after: Option<GeneratedContentInfo>,
}

impl Fragment {
    /// Whether every length is in range.
    pub open spec fn in_range(self) -> bool {
        &&& self.border_box.in_range()
        &&& self.margin.in_range()
        &&& self.border_padding.in_range()
        &&& self.intrinsic_inline_sizes.in_range()
        &&& self.intrinsic_block_size.in_range()
        &&& (self.transform matches Some(t) ==> t.in_range())
        &&& (self.before matches Some(g) ==> g.in_range())
        &&& (self.after matches Some(g) ==> g.in_range())
    }

    /// An empty box for `node`, with nothing to generate.
    pub open spec fn blank(node: OpaqueNode, pseudo: PseudoElementType, color: ColorF) -> Fragment {
        Fragment {
            node,
            pseudo,
            border_box: Rect {
                origin: Point2D { x: Au(0), y: Au(0) },
                size: Size2D { width: Au(0), height: Au(0) },
            },
            margin: LogicalMargin { inline_start: Au(0), inline_end: Au(0), block_start: Au(0), block_end: Au(0) },
            border_padding: LogicalMargin {
                inline_start: Au(0),
                inline_end: Au(0),
                block_start: Au(0),
                block_end: Au(0),
            },
            intrinsic_inline_sizes: IntrinsicISizes { minimum_inline_size: Au(0), preferred_inline_size: Au(0) },
            intrinsic_block_size: Au(0),
            formatting_context: FormattingContextType::Inherited,
            establishes_stacking_context: false,
            z_index: 0,
            transform: None,
            background_color: color,
            before: None,
            after: None,
        }
    }

    /// Whether every length of the fragment is in range.
    pub fn is_in_range(&self) -> (r: bool)
        ensures
            r == self.in_range(),
    {
        let transform = match self.transform {
            Some(by) => by.is_in_range(),
            None => true,
        };
        let before = match self.before {
            Some(info) => info.is_in_range(),
            None => true,
        };
        let after = match self.after {
            Some(info) => info.is_in_range(),
            None => true,
        };
        self.border_box.is_in_range() && self.margin.is_in_range() && self.border_padding.is_in_range()
            && self.intrinsic_inline_sizes.is_in_range() && self.intrinsic_block_size.is_in_range() && transform
            && before && after
    }

    /// An empty box for `node`, with nothing to generate.
    pub fn new(node: OpaqueNode, color: ColorF) -> (r: Fragment)
        ensures
            r == Fragment::blank(node, PseudoElementType::Normal, color),
            r.in_range(),
    {
        Fragment::new_pseudo(node, PseudoElementType::Normal, color)
    }

    /// An empty box for one part of `node`, with nothing to generate.
    pub fn new_pseudo(node: OpaqueNode, pseudo: PseudoElementType, color: ColorF) -> (r: Fragment)
        ensures
            r == Fragment::blank(node, pseudo, color),
            r.in_range(),
    {
        Fragment {
            node,
            pseudo,
            border_box: Rect::zero(),
            margin: LogicalMargin::zero(),
            border_padding: LogicalMargin::zero(),
            intrinsic_inline_sizes: IntrinsicISizes::zero(),
            intrinsic_block_size: Au(0),
            formatting_context: FormattingContextType::Inherited,
            establishes_stacking_context: false,
            z_index: 0,
            transform: None,
            background_color: color,
            before: None,
            after: None,
        }
    }
}

/// The state every flow has, whatever its kind.
#[derive(Clone, Copy, Debug, PartialEq, Eq, Structural)]
pub struct BaseFlow {
    pub restyle_damage: RestyleDamage,
    pub flags: FlowFlags,
    /// The intrinsic inline sizes of the border box.
    pub intrinsic_inline_sizes: IntrinsicISizes,
    /// The inline size of the content box of the containing flow.
    pub block_container_inline_size: Au,
    /// The border box, relative to the content box of the containing flow.
    pub position: Rect,
    /// Where the flow stands in its stacking context.
    pub stacking_relative_position: Vector2D,
    /// How much inline size floats are guessed to take where the flow
    /// begins.
    pub speculated_float_placement_in: SpeculatedFloatPlacement,
    /// How much inline size floats are guessed to take where the flow ends.
    pub speculated_float_placement_out: SpeculatedFloatPlacement,
    /// What the flow and its descendants paint, in the coordinates of the
    /// flow's border box.
    pub overflow: Rect,
    /// The stacking context the flow paints into.
    pub stacking_context_id: usize,
}

impl BaseFlow {
    /// Whether every length is in range.
    pub open spec fn in_range(self) -> bool {
        &&& self.intrinsic_inline_sizes.in_range()
        &&& self.block_container_inline_size.in_range()
        &&& self.position.in_range()
        &&& self.stacking_relative_position.in_range()
        &&& self.speculated_float_placement_in.in_range()
        &&& self.speculated_float_placement_out.in_range()
        &&& self.overflow.in_range()
    }

    /// The state of a flow that was never laid out.
    pub open spec fn fresh() -> BaseFlow {
        BaseFlow {
            restyle_damage: RestyleDamage::everything(),
            flags: FlowFlags {
                is_absolutely_positioned: false,
                floats_left: false,
                floats_right: false,
                clears_left: false,
                clears_right: false,
            },
            intrinsic_inline_sizes: IntrinsicISizes { minimum_inline_size: Au(0), preferred_inline_size: Au(0) },
            block_container_inline_size: Au(0),
            position: Rect {
                origin: Point2D { x: Au(0), y: Au(0) },
                size: Size2D { width: Au(0), height: Au(0) },
            },
            stacking_relative_position: Vector2D { x: Au(0), y: Au(0) },
            speculated_float_placement_in: SpeculatedFloatPlacement { left: Au(0), right: Au(0) },
            speculated_float_placement_out: SpeculatedFloatPlacement { left: Au(0), right: Au(0) },
            overflow: Rect {
                origin: Point2D { x: Au(0), y: Au(0) },
                size: Size2D { width: Au(0), height: Au(0) },
            },
            stacking_context_id: 0,
        }
    }

    /// Whether every length of the base is in range.
    pub fn is_in_range(&self) -> (r: bool)
        ensures
            r == self.in_range(),
    {
        self.intrinsic_inline_sizes.is_in_range() && self.block_container_inline_size.is_in_range()
            && self.position.is_in_range() && self.stacking_relative_position.is_in_range()
            && self.speculated_float_placement_in.is_in_range() && self.speculated_float_placement_out.is_in_range()
            && self.overflow.is_in_range()
    }

    /// The state of a flow that was never laid out: every damage latch set,
    /// every length zero.
    pub fn new() -> (r: BaseFlow)
        ensures
            r == BaseFlow::fresh(),
            r.in_range(),
    {
        BaseFlow {
            restyle_damage: RestyleDamage::all(),
            flags: FlowFlags::empty(),
            intrinsic_inline_sizes: IntrinsicISizes::zero(),
            block_container_inline_size: Au(0),
            position: Rect::zero(),
            stacking_relative_position: Vector2D::zero(),
            speculated_float_placement_in: SpeculatedFloatPlacement::zero(),
            speculated_float_placement_out: SpeculatedFloatPlacement::zero(),
            overflow: Rect::zero(),
            stacking_context_id: 0,
        }
    }
}

/// A flow and the flows below it.
#[derive(Debug, PartialEq)]
pub struct FlowNode {
    pub class: FlowClass,
    pub base: BaseFlow,
    pub fragment: Fragment,
    /// The children, in document order.
    pub children: Vec<FlowNode>,
}

/// A tree of flows as a value: what [`FlowNode`] stands for in contracts.
pub ghost struct FlowTree {
    pub class: FlowClass,
    pub base: BaseFlow,
    pub fragment: Fragment,
    pub children: Seq<FlowTree>,
}

impl FlowNode {
    /// The tree that the flow and the flows below it stand for.
    pub open spec fn tree(self) -> FlowTree
        decreases self,
    {
        FlowTree {
            class: self.class,
            base: self.base,
            fragment: self.fragment,
            children: Seq::new(
                self.children@.len(),
                |i: int|
                    if 0 <= i < self.children@.len() {
                        self.children@[i].tree()
                    } else {
                        arbitrary()
                    },
            ),
        }
    }
}

impl View for FlowNode {
    type V = FlowTree;

    open spec fn view(&self) -> FlowTree {
        self.tree()
    }
}

impl FlowTree {
    /// Whether every length in the tree is in range.
    pub open spec fn wf(self) -> bool
        decreases self,
    {
        &&& self.base.in_range()
        &&& self.fragment.in_range()
        &&& forall|i: int| 0 <= i < self.children.len() ==> (#[trigger] self.children[i]).wf()
    }

    /// Whether the flow is a block container.
    pub open spec fn block(self) -> bool {
        self.class == FlowClass::Block
    }

    /// Whether floats outside the flow stay outside it.
    pub open spec fn contains_floats(self) -> bool {
        self.block() && self.fragment.formatting_context != FormattingContextType::Inherited
    }

    /// Whether descending into the flow enters a new stacking context.
    pub open spec fn opens_stacking_context(self) -> bool {
        self.block() && self.fragment.establishes_stacking_context
    }

    /// The border box in the coordinates of the stacking context that the
    /// flow paints into. A flow that opens a stacking context has its box
    /// at the origin of that context; any other flow has it where the flow
    /// stands in the context around it.
    pub open spec fn border_box_in_context(self) -> Rect {
        if self.opens_stacking_context() {
            Rect { origin: Point2D { x: Au(0), y: Au(0) }, size: self.fragment.border_box.size }
        } else {
            self.fragment.border_box.translated(self.base.stacking_relative_position)
        }
    }

    /// The flow with another base.
    pub open spec fn with_base(self, base: BaseFlow) -> FlowTree {
        FlowTree { base, ..self }
    }

    /// The flow with other children.
    pub open spec fn with_children(self, children: Seq<FlowTree>) -> FlowTree {
        FlowTree { children, ..self }
    }
}

impl FlowNode {
    /// A flow of the given kind for `node`, never laid out and without
    /// children.
    pub fn new(class: FlowClass, node: OpaqueNode, color: ColorF) -> (r: FlowNode)
        ensures
            r@ == (FlowTree {
                class,
                base: BaseFlow::fresh(),
                fragment: Fragment::blank(node, PseudoElementType::Normal, color),
                children: Seq::empty(),
            }),
            r@.wf(),
    {
        let r = FlowNode { class, base: BaseFlow::new(), fragment: Fragment::new(node, color), children: Vec::new() };
        assert(r@.children =~= Seq::empty());
        r
    }

    /// Appends `child` to the children.
    pub fn add_child(&mut self, child: FlowNode)
        ensures
            final(self)@ == old(self)@.with_children(old(self)@.children.push(child@)),
    {
        self.children.push(child);
        assert(self@.children =~= old(self)@.children.push(child@));
    }

    /// Whether every length in the tree is in range.
    pub fn is_well_formed(&self) -> (r: bool)
        ensures
            r == self@.wf(),
        decreases self,
    {
        if !self.base.is_in_range() || !self.fragment.is_in_range() {
            return false;
        }
        let n = self.children.len();
        let mut i: usize = 0;
        while i < n
            invariant
                0 <= i <= n,
                n == self.children.len(),
                self.base.in_range(),
                self.fragment.in_range(),
                forall|j: int| 0 <= j < i ==> (#[trigger] self@.children[j]).wf(),
            decreases n - i,
        {
            assert(self@.children[i as int] == self.children@[i as int]@);
            if !self.children[i].is_well_formed() {
                return false;
            }
            i += 1;
        }
        true
    }

    /// A copy of the flow and of all below it.
    pub fn duplicate(&self) -> (r: FlowNode)
        ensures
            r@ == self@,
        decreases self,
    {
        let mut children: Vec<FlowNode> = Vec::new();
        let n = self.children.len();
        let mut i: usize = 0;
        while i < n
            invariant
                0 <= i <= n,
                n == self.children.len(),
                children.len() == i,
                forall|j: int| 0 <= j < i ==> (#[trigger] children@[j])@ == self.children@[j]@,
            decreases n - i,
        {
            children.push(self.children[i].duplicate());
            i += 1;
        }
        let r = FlowNode { class: self.class, base: self.base, fragment: self.fragment, children };
        assert(r@.children =~= self@.children);
        r
    }

    /// Whether the flow is a block container.
    pub fn is_block_flow(&self) -> (r: bool)
        ensures
            r == self@.block(),
    {
        self.class == FlowClass::Block
    }

    /// Whether floats outside the flow stay outside it.
    pub fn is_formatting_context(&self) -> (r: bool)
        ensures
            r == self@.contains_floats(),
    {
        self.class == FlowClass::Block && self.fragment.formatting_context != FormattingContextType::Inherited
    }

    /// The border box in the coordinates of the stacking context that the
    /// flow paints into.
    pub fn stacking_relative_border_box(&self) -> (r: Rect)
        requires
            self.base.in_range(),
            self.fragment.in_range(),
        ensures
            r == self@.border_box_in_context(),
            r.in_range(),
    {
        if self.establishes_stacking_context() {
            Rect::new(Point2D::zero(), self.fragment.border_box.size)
        } else {
            self.fragment.border_box.translate(self.base.stacking_relative_position)
        }
    }

    /// Whether descending into the flow enters a new stacking context.
    pub fn establishes_stacking_context(&self) -> (r: bool)
        ensures
            r == self@.opens_stacking_context(),
    {
        self.class == FlowClass::Block && self.fragment.establishes_stacking_context
    }
}

/// Two flows with the same children have trees with the same children.
pub proof fn lemma_same_children(a: FlowNode, b: FlowNode)
    requires
        a.children == b.children,
    ensures
        a@.children == b@.children,
{
    assert(a@.children =~= b@.children);
}

/// A flow keeps its tree well formed when only lengths in range are put
/// in its base and fragment.
pub proof fn lemma_wf_with_same_children(a: FlowNode, b: FlowNode)
    requires
        a.children == b.children,
        a@.wf(),
        b.base.in_range(),
        b.fragment.in_range(),
    ensures
        b@.wf(),
{
    lemma_same_children(a, b);
    assert forall|j: int| 0 <= j < b@.children.len() implies (#[trigger] b@.children[j]).wf() by {
        assert(a@.children[j].wf());
    }
}

} // verus!
