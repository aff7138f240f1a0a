//! The passes of a layout, each run over a whole tree of flows, one flow
//! at a time.

use vstd::prelude::*;
use webrender_api::ColorF;

use crate::context::LayoutContext;
use crate::damage::{RelayoutMode, RestyleDamage};
use crate::display_list::{
    contexts_collected, flattened, item_of, items_of, items_of_first, lemma_first_painted, page_background, root_context,
    stacking_collected, DisplayItem, DisplayListBuildState, DisplayListSection, StackingContextCollectionState,
};
use crate::floats::SpeculatedFloatPlacement;
use crate::flow::{
    lemma_same_children, lemma_wf_with_same_children, BaseFlow, FlowNode, FlowTree, Fragment, PseudoElementType,
};
use crate::units::{Au, Point2D, Rect, Size2D, Vector2D};

verus! {

/// The tree after generated content is resolved: in every flow, parents
/// before children, the content that the fragment asks to be generated
/// stands among the children as a flow of its own, and the fragment asks
/// for nothing more.
pub open spec fn content_resolved(t: FlowTree) -> FlowTree
    decreases t,
{
    FlowTree {
        fragment: t.fragment_resolved(),
        children: t.children_with_generated(content_resolved_each(t.children)),
        ..t
    }
}

/// Each of `flows` after generated content is resolved in it.
pub open spec fn content_resolved_each(flows: Seq<FlowTree>) -> Seq<FlowTree>
    decreases flows,
{
    Seq::new(
        flows.len(),
        |i: int|
            if 0 <= i < flows.len() {
                content_resolved(flows[i])
            } else {
                arbitrary()
            },
    )
}

/// Turns the generated content that fragments ask for into flows, so that
/// every later pass works on the complete tree. The pass runs over every
/// flow, whatever its damage.
pub fn resolve_generated_content(root: &mut FlowNode, layout_context: &LayoutContext)
    requires
        old(root)@.wf(),
    ensures
        final(root)@ == content_resolved(old(root)@),
        final(root)@.wf(),
    decreases old(root).children,
{
    let n = root.children.len();
    let mut first: usize = 0;
    if let Some(info) = root.fragment.before {
        root.children.insert(0, FlowNode::new_generated(root.fragment.node, PseudoElementType::Before, info));
        first = 1;
    }
    if let Some(info) = root.fragment.after {
        root.children.push(FlowNode::new_generated(root.fragment.node, PseudoElementType::After, info));
    }
    root.fragment.before = None;
    root.fragment.after = None;
    let ghost own = *root;
    let total = root.children.len();
    let mut i: usize = 0;
    while i < n
        invariant
            0 <= i <= n,
            first <= 1,
            n == old(root).children.len(),
            total == root.children.len(),
            first + n <= total <= first + n + 1,
            root.class == own.class,
            root.base == own.base,
            root.fragment == own.fragment,
            old(root)@.wf(),
            forall|j: int| 0 <= j < first ==> (#[trigger] root.children@[j]) == own.children@[j],
            forall|j: int| first + n <= j < total ==> (#[trigger] root.children@[j]) == own.children@[j],
            forall|j: int|
                0 <= j < i ==> (#[trigger] root.children@[first + j])@ == content_resolved(old(root).children@[j]@),
            forall|j: int| 0 <= j < i ==> (#[trigger] root.children@[first + j])@.wf(),
            forall|j: int| i <= j < n ==> (#[trigger] root.children@[first + j]) == old(root).children@[j],
        decreases n - i,
    {
        assert(old(root)@.children[i as int].wf());
        assert(root.children@[first + i] == old(root).children@[i as int]);
        resolve_generated_content(&mut root.children[first + i], layout_context);
        assert(root.children@[first + i]@ == content_resolved(old(root).children@[i as int]@));
        assert forall|j: int| 0 <= j < i + 1 implies (#[trigger] root.children@[first + j])@ == content_resolved(
            old(root).children@[j]@,
        ) by {}
        i += 1;
    }
    proof {
        let resolved = content_resolved_each(old(root)@.children);
        let expected = old(root)@.children_with_generated(resolved);
        assert(root@.children.len() == expected.len());
        assert forall|j: int| 0 <= j < expected.len() implies root@.children[j] == expected[j] by {
            if j < first {
                assert(root.children@[j] == own.children@[j]);
            } else if j < first + n {
                assert(root.children@[first + (j - first)]@ == content_resolved(old(root).children@[j - first]@));
            } else {
                assert(root.children@[j] == own.children@[j]);
            }
        }
        assert(root@.children =~= expected);
        assert forall|j: int| 0 <= j < root@.children.len() implies (#[trigger] root@.children[j]).wf() by {
            if j < first {
                assert(root.children@[j] == own.children@[j]);
            } else if j < first + n {
                assert(root.children@[first + (j - first)]@.wf());
            } else {
                assert(root.children@[j] == own.children@[j]);
            }
        }
    }
}

/// The tree after the intrinsic inline sizes are computed, parents before
/// children, on every flow that asks for them.
pub open spec fn bubbled(t: FlowTree) -> FlowTree
    decreases t,
{
    let own = if t.base.restyle_damage.has_all(RestyleDamage::only_bubble_isizes()) {
        t.with_inline_sizes_bubbled()
    } else {
        t
    };
    own.with_children(bubbled_each(t.children))
}

/// Each of `flows` after the intrinsic inline sizes are computed in it.
pub open spec fn bubbled_each(flows: Seq<FlowTree>) -> Seq<FlowTree>
    decreases flows,
{
    Seq::new(
        flows.len(),
        |i: int|
            if 0 <= i < flows.len() {
                bubbled(flows[i])
            } else {
                arbitrary()
            },
    )
}

/// The damage a flow is laid out by: its own, and both reflow latches
/// besides when the reflow is forced.
pub open spec fn damage_for(damage: RestyleDamage, mode: RelayoutMode) -> RestyleDamage {
    if mode == RelayoutMode::Force {
        damage.with(RestyleDamage::any_reflow())
    } else {
        damage
    }
}

/// Whether the size assignments act on a flow with this damage.
pub open spec fn needs_sizes(damage: RestyleDamage) -> bool {
    damage.has_any(RestyleDamage::any_reflow())
}

/// The tree after its sizes are assigned, when its root stands in a
/// container of inline size `container`. On each flow, in this order: a
/// forced reflow sets both reflow latches; a flow with a reflow latch has
/// its inline size assigned; every child is laid out, in the inline size
/// of the flow's content box if the flow was just sized and in the one the
/// child had recorded otherwise; a flow with a reflow latch then has its
/// block size assigned from its children.
pub open spec fn reflowed(t: FlowTree, container: Au, mode: RelayoutMode) -> FlowTree
    decreases t,
{
    let damage = damage_for(t.base.restyle_damage, mode);
    let arrived = t.with_base(
        BaseFlow { restyle_damage: damage, block_container_inline_size: container, ..t.base },
    );
    if needs_sizes(damage) {
        let sized = arrived.with_inline_size_assigned();
        sized.with_children(
            reflowed_each(t.children, Some(sized.content_inline_size()), mode),
        ).with_block_size_assigned()
    } else {
        arrived.with_children(reflowed_each(t.children, None, mode))
    }
}

/// The inline size of the container that a child is laid out in: the one
/// its parent publishes, or else the one it had recorded.
pub open spec fn container_of(kid: FlowTree, published: Option<Au>) -> Au {
    match published {
        Some(inline_size) => inline_size,
        None => kid.base.block_container_inline_size,
    }
}

/// Each of `flows` after its sizes are assigned.
pub open spec fn reflowed_each(flows: Seq<FlowTree>, published: Option<Au>, mode: RelayoutMode) -> Seq<FlowTree>
    decreases flows,
{
    Seq::new(
        flows.len(),
        |i: int|
            if 0 <= i < flows.len() {
                reflowed(flows[i], container_of(flows[i], published), mode)
            } else {
                arbitrary()
            },
    )
}

/// Computes the intrinsic inline sizes of every flow that asks for them,
/// parents before children.
fn bubble_inline_sizes(flow: &mut FlowNode)
    requires
        old(flow)@.wf(),
    ensures
        final(flow)@ == bubbled(old(flow)@),
        final(flow)@.wf(),
    decreases old(flow).children,
{
    if flow.base.restyle_damage.contains(RestyleDamage::bubble_isizes()) {
        flow.bubble_inline_sizes();
    }
    let ghost own = *flow;
    let n = flow.children.len();
    let mut i: usize = 0;
    while i < n
        invariant
            0 <= i <= n,
            n == flow.children.len(),
            n == old(flow).children.len(),
            flow.class == own.class,
            flow.base == own.base,
            flow.fragment == own.fragment,
            old(flow)@.wf(),
            forall|j: int| 0 <= j < i ==> (#[trigger] flow.children@[j])@ == bubbled(old(flow).children@[j]@),
            forall|j: int| 0 <= j < i ==> (#[trigger] flow.children@[j])@.wf(),
            forall|j: int| i <= j < n ==> (#[trigger] flow.children@[j]) == old(flow).children@[j],
        decreases n - i,
    {
        assert(old(flow)@.children[i as int].wf());
        bubble_inline_sizes(&mut flow.children[i]);
        i += 1;
    }
    proof {
        assert(flow@.children =~= bubbled_each(old(flow)@.children));
        assert forall|j: int| 0 <= j < flow@.children.len() implies (#[trigger] flow@.children[j]).wf() by {
            assert(flow.children@[j]@.wf());
        }
    }
}

/// Assigns sizes in each child of `flow` and below it.
fn reflow_children(
    flow: &mut FlowNode,
    published: Option<Au>,
    layout_context: &LayoutContext,
    relayout_mode: RelayoutMode,
)
    requires
        old(flow)@.wf(),
        published matches Some(inline_size) ==> inline_size.in_range(),
    ensures
        final(flow)@ == old(flow)@.with_children(reflowed_each(old(flow)@.children, published, relayout_mode)),
        final(flow)@.wf(),
    decreases old(flow).children, 0nat,
{
    let n = flow.children.len();
    let mut i: usize = 0;
    while i < n
        invariant
            0 <= i <= n,
            n == flow.children.len(),
            n == old(flow).children.len(),
            flow.class == old(flow).class,
            flow.base == old(flow).base,
            flow.fragment == old(flow).fragment,
            old(flow)@.wf(),
            published matches Some(inline_size) ==> inline_size.in_range(),
            forall|j: int|
                0 <= j < i ==> (#[trigger] flow.children@[j])@ == reflowed(
                    old(flow).children@[j]@,
                    container_of(old(flow).children@[j]@, published),
                    relayout_mode,
                ),
            forall|j: int| 0 <= j < i ==> (#[trigger] flow.children@[j])@.wf(),
            forall|j: int| i <= j < n ==> (#[trigger] flow.children@[j]) == old(flow).children@[j],
        decreases n - i,
    {
        assert(old(flow)@.children[i as int].wf());
        let inline_size = match published {
            Some(inline_size) => inline_size,
            None => flow.children[i].base.block_container_inline_size,
        };
        reflow_from(&mut flow.children[i], inline_size, layout_context, relayout_mode);
        i += 1;
    }
    proof {
        assert(flow@.children =~= reflowed_each(old(flow)@.children, published, relayout_mode));
        assert forall|j: int| 0 <= j < flow@.children.len() implies (#[trigger] flow@.children[j]).wf() by {
            assert(flow.children@[j]@.wf());
        }
    }
}

/// Assigns sizes in `flow` and below, with `container` as the inline size
/// of the container of `flow`.
fn reflow_from(flow: &mut FlowNode, container: Au, layout_context: &LayoutContext, relayout_mode: RelayoutMode)
    requires
        old(flow)@.wf(),
        container.in_range(),
    ensures
        final(flow)@ == reflowed(old(flow)@, container, relayout_mode),
        final(flow)@.wf(),
    decreases old(flow).children, 1nat,
{
    flow.base.block_container_inline_size = container;
    if relayout_mode == RelayoutMode::Force {
        flow.base.restyle_damage.insert(RestyleDamage::reflow_out_of_flow().union(RestyleDamage::reflow()));
    }
    proof {
        lemma_wf_with_same_children(*old(flow), *flow);
        lemma_same_children(*old(flow), *flow);
    }
    if flow.base.restyle_damage.intersects(RestyleDamage::reflow_out_of_flow().union(RestyleDamage::reflow())) {
        flow.assign_inline_sizes(layout_context);
        let published = flow.content_inline_size();
        reflow_children(flow, Some(published), layout_context, relayout_mode);
        flow.assign_block_size(layout_context);
    } else {
        reflow_children(flow, None, layout_context, relayout_mode);
    }
}

/// Assigns an inline size and a block size to every flow of the tree that
/// carries a reflow latch, or to every flow if the reflow is forced. The
/// intrinsic inline sizes are computed in a pass of their own first where
/// the context asks for it. The root is laid out in the container inline
/// size it has recorded.
pub fn reflow(root: &mut FlowNode, layout_context: &LayoutContext, relayout_mode: RelayoutMode)
    requires
        old(root)@.wf(),
    ensures
        final(root)@ == reflowed(
            if layout_context.bubble_inline_sizes_separately {
                bubbled(old(root)@)
            } else {
                old(root)@
            },
            old(root)@.base.block_container_inline_size,
            relayout_mode,
        ),
        final(root)@.wf(),
{
    if layout_context.bubble_inline_sizes_separately {
        bubble_inline_sizes(root);
    }
    let container = root.base.block_container_inline_size;
    reflow_from(root, container, layout_context, relayout_mode);
}

/// The tree after overflow is stored. A flow without the store-overflow
/// latch is left as it is, with everything below it. Any other flow has
/// overflow stored in each child first, then its own overflow computed from
/// them, then its latch cleared.
pub open spec fn overflow_stored(t: FlowTree) -> FlowTree
    decreases t,
{
    if !t.base.restyle_damage.has_all(RestyleDamage::only_store_overflow()) {
        t
    } else {
        let below = t.with_children(overflow_stored_each(t.children)).with_overflow_computed();
        below.with_base(
            BaseFlow {
                restyle_damage: below.base.restyle_damage.without(RestyleDamage::only_store_overflow()),
                ..below.base
            },
        )
    }
}

/// Each of `flows` after overflow is stored in it.
pub open spec fn overflow_stored_each(flows: Seq<FlowTree>) -> Seq<FlowTree>
    decreases flows,
{
    Seq::new(
        flows.len(),
        |i: int|
            if 0 <= i < flows.len() {
                overflow_stored(flows[i])
            } else {
                arbitrary()
            },
    )
}

/// Computes the overflow of every flow that asks for it, children before
/// their parent, and leaves alone every subtree whose root does not ask.
pub fn store_overflow(layout_context: &LayoutContext, flow: &mut FlowNode)
    requires
        old(flow)@.wf(),
    ensures
        final(flow)@ == overflow_stored(old(flow)@),
        final(flow)@.wf(),
    decreases *old(flow),
{
    if !flow.base.restyle_damage.contains(RestyleDamage::store_overflow()) {
        return ;
    }
    let n = flow.children.len();
    let mut i: usize = 0;
    while i < n
        invariant
            0 <= i <= n,
            n == flow.children.len(),
            n == old(flow).children.len(),
            flow.class == old(flow).class,
            flow.base == old(flow).base,
            flow.fragment == old(flow).fragment,
            old(flow)@.wf(),
            forall|j: int| 0 <= j < i ==> (#[trigger] flow.children@[j])@ == overflow_stored(old(flow).children@[j]@),
            forall|j: int| 0 <= j < i ==> (#[trigger] flow.children@[j])@.wf(),
            forall|j: int| i <= j < n ==> (#[trigger] flow.children@[j]) == old(flow).children@[j],
        decreases n - i,
    {
        assert(old(flow)@.children[i as int].wf());
        store_overflow(layout_context, &mut flow.children[i]);
        i += 1;
    }
    let ghost below = flow@;
    proof {
        assert(below.children =~= overflow_stored_each(old(flow)@.children));
        assert forall|j: int| 0 <= j < below.children.len() implies (#[trigger] below.children[j]).wf() by {
            assert(flow.children@[j]@.wf());
        }
    }
    flow.store_overflow(layout_context);
    flow.base.restyle_damage.remove(RestyleDamage::store_overflow());
    proof {
        assert(flow@.children =~= below.children);
        assert forall|j: int| 0 <= j < flow@.children.len() implies (#[trigger] flow@.children[j]).wf() by {
            assert(below.children[j].wf());
        }
    }
}

/// Storing overflow twice in a row changes nothing the second time.
pub proof fn lemma_store_overflow_idempotent(t: FlowTree)
    ensures
        overflow_stored(overflow_stored(t)) == overflow_stored(t),
{
}

/// The tree after float placement is guessed in it, when `floats_in` flows
/// into its root. A flow without the reflow latch only records what flows
/// in. Any other flow hands its children, in order, what flows out of the
/// child before (the first child gets what the flow itself lets in), and
/// lets out what its last child does, adjusted by
/// [`SpeculatedFloatPlacement::leaving`]. An absolutely positioned child
/// stands outside that chain: it keeps what it had flowing in, and what
/// flows out of it reaches no sibling.
pub open spec fn floats_guessed(t: FlowTree, floats_in: SpeculatedFloatPlacement) -> FlowTree
    decreases t, 0nat,
{
    let base = BaseFlow { speculated_float_placement_in: floats_in, ..t.base };
    if !base.restyle_damage.has_any(RestyleDamage::only_reflow()) {
        t.with_base(base)
    } else {
        let first = SpeculatedFloatPlacement::entering_first_child(t.class, base, t.fragment);
        let last = floats_before(t.children, t.children.len(), first);
        FlowTree {
            base: BaseFlow { speculated_float_placement_out: last.leaving(t.class, base, t.fragment), ..base },
            children: floats_guessed_each(t.children, first),
            ..t
        }
    }
}

/// What flows out of the first `n` of `flows`, when `first` flows into the
/// first of them.
pub open spec fn floats_before(flows: Seq<FlowTree>, n: nat, first: SpeculatedFloatPlacement) -> SpeculatedFloatPlacement
    decreases flows, n,
{
    if n == 0 || n > flows.len() {
        first
    } else {
        let kid = flows[n - 1];
        let before = floats_before(flows, (n - 1) as nat, first);
        if kid.base.flags.is_absolutely_positioned {
            before
        } else {
            floats_guessed(kid, before.entering(kid.base.flags)).base.speculated_float_placement_out
        }
    }
}

/// What flows into the flow at `i` of `flows`, when `first` flows into the
/// first of them.
pub open spec fn floats_into(flows: Seq<FlowTree>, i: int, first: SpeculatedFloatPlacement) -> SpeculatedFloatPlacement
    recommends
        0 <= i < flows.len(),
    decreases flows, i + 1,
{
    if 0 <= i < flows.len() {
        if flows[i].base.flags.is_absolutely_positioned {
            flows[i].base.speculated_float_placement_in
        } else {
            floats_before(flows, i as nat, first).entering(flows[i].base.flags)
        }
    } else {
        first
    }
}

/// Each of `flows` after float placement is guessed in it, when `first`
/// flows into the first of them.
pub open spec fn floats_guessed_each(flows: Seq<FlowTree>, first: SpeculatedFloatPlacement) -> Seq<FlowTree>
    decreases flows, flows.len() + 2,
{
    Seq::new(
        flows.len(),
        |i: int|
            if 0 <= i < flows.len() {
                floats_guessed(flows[i], floats_into(flows, i, first))
            } else {
                arbitrary()
            },
    )
}

/// Guesses float placement in `flow` and below, with `floats_in` flowing
/// into `flow`.
fn guess_float_placement_from(flow: &mut FlowNode, floats_in: SpeculatedFloatPlacement)
    requires
        old(flow)@.wf(),
        floats_in.in_range(),
    ensures
        final(flow)@ == floats_guessed(old(flow)@, floats_in),
        final(flow)@.wf(),
    decreases *old(flow),
{
    flow.base.speculated_float_placement_in = floats_in;
    if !flow.base.restyle_damage.intersects(RestyleDamage::reflow()) {
        proof {
            assert(flow@.children =~= old(flow)@.children);
        }
        return ;
    }
    let mut floats_out = SpeculatedFloatPlacement::compute_floats_in_for_first_child(flow);
    let ghost first = floats_out;
    let ghost base = flow.base;
    let n = flow.children.len();
    let mut i: usize = 0;
    while i < n
        invariant
            0 <= i <= n,
            n == flow.children.len(),
            n == old(flow).children.len(),
            flow.class == old(flow).class,
            flow.base == base,
            flow.fragment == old(flow).fragment,
            old(flow)@.wf(),
            base.in_range(),
            first.in_range(),
            floats_out.in_range(),
            floats_out == floats_before(old(flow)@.children, i as nat, first),
            forall|j: int|
                0 <= j < i ==> (#[trigger] flow.children@[j])@ == floats_guessed_each(old(flow)@.children, first)[j],
            forall|j: int| 0 <= j < i ==> (#[trigger] flow.children@[j])@.wf(),
            forall|j: int| i <= j < n ==> (#[trigger] flow.children@[j]) == old(flow).children@[j],
        decreases n - i,
    {
        let ghost kid = old(flow)@.children[i as int];
        proof {
            assert(kid == flow.children@[i as int]@);
            assert(kid.wf());
        }
        if flow.children[i].base.flags.is_absolutely_positioned {
            let kept = flow.children[i].base.speculated_float_placement_in;
            guess_float_placement_from(&mut flow.children[i], kept);
        } else {
            floats_out.compute_floats_in(&flow.children[i]);
            guess_float_placement_from(&mut flow.children[i], floats_out);
            floats_out = flow.children[i].base.speculated_float_placement_out;
        }
        proof {
            assert(flow.children@[i as int]@ == floats_guessed(kid, floats_into(old(flow)@.children, i as int, first)));
        }
        i += 1;
    }
    floats_out.compute_floats_out(flow);
    flow.base.speculated_float_placement_out = floats_out;
    proof {
        assert(flow@.children =~= floats_guessed_each(old(flow)@.children, first));
    }
}

/// Guesses, before any size is final, how much inline size floats take
/// beside each flow. Flows without the reflow latch are skipped with all
/// that is below them.
pub fn guess_float_placement(flow: &mut FlowNode)
    requires
        old(flow)@.wf(),
    ensures
        final(flow)@ == floats_guessed(old(flow)@, old(flow)@.base.speculated_float_placement_in),
        final(flow)@.wf(),
{
    let floats_in = flow.base.speculated_float_placement_in;
    guess_float_placement_from(flow, floats_in);
}

/// What flows out of the first flows of a chain is the same with an
/// absolutely positioned flow standing at `k`, once that flow is passed,
/// and before it is reached.
proof fn lemma_floats_before_with_positioned(
    flows: Seq<FlowTree>,
    k: int,
    positioned: FlowTree,
    first: SpeculatedFloatPlacement,
    n: nat,
)
    requires
        0 <= k <= flows.len(),
        positioned.base.flags.is_absolutely_positioned,
        n <= flows.len() + 1,
    ensures
        n <= k ==> floats_before(flows.insert(k, positioned), n, first) == floats_before(flows, n, first),
        n > k ==> floats_before(flows.insert(k, positioned), n, first) == floats_before(
            flows,
            (n - 1) as nat,
            first,
        ),
    decreases n,
{
    let with = flows.insert(k, positioned);
    assert(with.len() == flows.len() + 1);
    if n > 0 {
        lemma_floats_before_with_positioned(flows, k, positioned, first, (n - 1) as nat);
        if n - 1 < k {
            assert(with[n - 1] == flows[n - 1]);
        } else if n - 1 == k {
            assert(with[n - 1] == positioned);
        } else {
            assert(with[n - 1] == flows[n - 2]);
        }
    }
}

/// What flows out of a chain of flows is the same whether or not an
/// absolutely positioned flow stands somewhere among them.
pub proof fn lemma_absolutely_positioned_excluded(
    flows: Seq<FlowTree>,
    k: int,
    positioned: FlowTree,
    first: SpeculatedFloatPlacement,
)
    requires
        0 <= k <= flows.len(),
        positioned.base.flags.is_absolutely_positioned,
    ensures
        floats_before(flows.insert(k, positioned), flows.len() + 1, first) == floats_before(
            flows,
            flows.len(),
            first,
        ),
{
    lemma_floats_before_with_positioned(flows, k, positioned, first, flows.len() + 1);
}

/// What flows out of a flow after a guess is the same whether or not an
/// absolutely positioned child stands somewhere among its children.
pub proof fn lemma_floats_out_ignores_absolutely_positioned(
    t: FlowTree,
    k: int,
    positioned: FlowTree,
    floats_in: SpeculatedFloatPlacement,
)
    requires
        0 <= k <= t.children.len(),
        positioned.base.flags.is_absolutely_positioned,
    ensures
        floats_guessed(
            t.with_children(t.children.insert(k, positioned)),
            floats_in,
        ).base.speculated_float_placement_out == floats_guessed(t, floats_in).base.speculated_float_placement_out,
{
    lemma_absolutely_positioned_excluded(
        t.children,
        k,
        positioned,
        SpeculatedFloatPlacement::entering_first_child(
            t.class,
            BaseFlow { speculated_float_placement_in: floats_in, ..t.base },
            t.fragment,
        ),
    );
}

/// One border box met on a walk over the tree.
#[derive(Clone, Copy, Debug, PartialEq)]
pub struct BorderBoxVisit {
    /// The fragment of the flow.
    pub fragment: Fragment,
    /// How far below the root of the walk the flow stands.
    pub level: i32,
    /// The border box, positioned absolutely.
    pub border_box: Rect,
}

impl FlowNode {
    /// Whether no flow of the tree stands more than `levels` below its
    /// root.
    pub fn is_no_deeper_than(&self, levels: i32) -> (r: bool)
        ensures
            r == self@.no_deeper_than(levels as int),
        decreases self,
    {
        if levels < 0 {
            return false;
        }
        let n = self.children.len();
        let mut i: usize = 0;
        while i < n
            invariant
                0 <= i <= n,
                n == self.children.len(),
                levels >= 0,
                forall|j: int| 0 <= j < i ==> (#[trigger] self@.children[j]).no_deeper_than(levels - 1),
            decreases n - i,
        {
            assert(self@.children[i as int] == self.children@[i as int]@);
            if !self.children[i].is_no_deeper_than(levels - 1) {
                return false;
            }
            i += 1;
        }
        true
    }
}

impl FlowTree {
    /// Whether no flow of the tree stands more than `levels` below its
    /// root.
    pub open spec fn no_deeper_than(self, levels: int) -> bool
        decreases self,
    {
        &&& levels >= 0
        &&& forall|i: int| 0 <= i < self.children.len() ==> (#[trigger] self.children[i]).no_deeper_than(levels - 1)
    }
}

/// Where the stacking context of `kid` begins, when `kid` is met in a
/// stacking context that begins at `position` and disregarding any
/// transform: the inline-start margin of `kid`, moved by where `kid`
/// stands in that context and then by `position`.
pub open spec fn stacking_context_origin(kid: FlowTree, position: Point2D) -> Point2D {
    Point2D { x: kid.fragment.margin.inline_start, y: Au(0) }.plus(kid.base.stacking_relative_position).plus(
        position.as_vector(),
    )
}

/// The position that the descendants of `kid` are placed against, when
/// `kid` is met in a stacking context that begins at `position`. A block
/// that establishes a stacking context begins a new one at
/// [`stacking_context_origin`], moved by where its transform sends the
/// origin if it has a transform. Any other flow hands `position` on.
pub open spec fn position_within(kid: FlowTree, position: Point2D) -> Point2D {
    if kid.opens_stacking_context() {
        match kid.fragment.transform {
            Some(by) => stacking_context_origin(kid, position).plus(by),
            None => stacking_context_origin(kid, position),
        }
    } else {
        position
    }
}

/// The border box of `t` as a walk reports it at `level`, in a stacking
/// context that begins at `position`.
pub open spec fn visit_of(t: FlowTree, level: int, position: Point2D) -> BorderBoxVisit {
    BorderBoxVisit {
        fragment: t.fragment,
        level: level as i32,
        border_box: t.border_box_in_context().translated(position.as_vector()),
    }
}

/// The border boxes of `t` and of all below it, depth first and in
/// document order, with `t` at `level` in a stacking context that begins
/// at `position`.
pub open spec fn border_boxes(t: FlowTree, level: int, position: Point2D) -> Seq<BorderBoxVisit>
    decreases t, 0nat,
{
    seq![visit_of(t, level, position)] + border_boxes_of_first(t.children, t.children.len(), level + 1, position)
}

/// The border boxes of the first `n` of `flows` and of all below them,
/// each of `flows` at `level` in a stacking context that begins at
/// `position`.
pub open spec fn border_boxes_of_first(flows: Seq<FlowTree>, n: nat, level: int, position: Point2D) -> Seq<
    BorderBoxVisit,
>
    decreases flows, n,
{
    if n == 0 || n > flows.len() {
        Seq::empty()
    } else {
        border_boxes_of_first(flows, (n - 1) as nat, level, position) + border_boxes(
            flows[n - 1],
            level,
            position_within(flows[n - 1], position),
        )
    }
}

/// Appends to `visits` the border boxes of `flow` and of all below it.
fn visit_border_boxes(flow: &FlowNode, level: i32, stacking_context_position: Point2D, visits: &mut Vec<BorderBoxVisit>)
    requires
        flow@.wf(),
        stacking_context_position.in_range(),
        0 <= level,
        flow@.no_deeper_than(i32::MAX - level),
    ensures
        final(visits)@ == old(visits)@ + border_boxes(flow@, level as int, stacking_context_position),
    decreases flow,
{
    let border_box = flow.stacking_relative_border_box().translate(stacking_context_position.to_vector());
    visits.push(BorderBoxVisit { fragment: flow.fragment, level, border_box });
    let n = flow.children.len();
    let mut i: usize = 0;
    while i < n
        invariant
            0 <= i <= n,
            n == flow.children.len(),
            flow@.wf(),
            stacking_context_position.in_range(),
            0 <= level,
            flow@.no_deeper_than(i32::MAX - level),
            visits@ == old(visits)@ + seq![visit_of(flow@, level as int, stacking_context_position)]
                + border_boxes_of_first(flow@.children, i as nat, level + 1, stacking_context_position),
        decreases n - i,
    {
        let kid = &flow.children[i];
        proof {
            assert(flow@.children[i as int] == kid@);
            assert(kid@.wf());
            assert(kid@.no_deeper_than(i32::MAX - level - 1));
        }
        let mut position = stacking_context_position;
        if kid.establishes_stacking_context() {
            position = Point2D::new(kid.fragment.margin.inline_start, Au::zero()).add_vector(
                kid.base.stacking_relative_position,
            ).add_vector(stacking_context_position.to_vector());
            if let Some(by) = kid.fragment.transform {
                position = position.add_vector(by);
            }
        }
        let ghost before = visits@;
        visit_border_boxes(kid, level + 1, position, visits);
        proof {
            let own = seq![visit_of(flow@, level as int, stacking_context_position)];
            let earlier = border_boxes_of_first(flow@.children, i as nat, level + 1, stacking_context_position);
            let here = border_boxes(kid@, level + 1, position);
            assert(visits@ =~= old(visits)@ + own + (earlier + here));
        }
        i += 1;
    }
    proof {
        let own = seq![visit_of(flow@, level as int, stacking_context_position)];
        let below = border_boxes_of_first(flow@.children, n as nat, level + 1, stacking_context_position);
        assert(visits@ =~= old(visits)@ + (own + below));
    }
}

/// Reports the border box of every flow of the tree, depth first and in
/// document order, each with its level below `root` and positioned
/// absolutely. The position that boxes are placed against starts at the
/// origin and changes only where the walk enters a block that establishes
/// a stacking context, as [`position_within`] says.
pub fn iterate_through_flow_tree_fragment_border_boxes(root: &FlowNode) -> (visits: Vec<BorderBoxVisit>)
    requires
        root@.wf(),
        root@.no_deeper_than(i32::MAX as int),
    ensures
        visits@ == border_boxes(root@, 0, Point2D { x: Au(0), y: Au(0) }),
{
    let mut visits: Vec<BorderBoxVisit> = Vec::new();
    visit_border_boxes(root, 0, Point2D::zero(), &mut visits);
    assert(visits@ =~= border_boxes(root@, 0, Point2D { x: Au(0), y: Au(0) }));
    visits
}

/// Descendants of a block that establishes a stacking context and has a
/// transform are placed against the origin of that context moved by where
/// the transform sends the origin, whatever else the transform does.
pub proof fn lemma_transform_folded(kid: FlowTree, position: Point2D, by: Vector2D)
    requires
        kid.opens_stacking_context(),
        kid.fragment.transform == Some(by),
    ensures
        position_within(kid, position) == stacking_context_origin(kid, position).plus(by),
        position_within(kid, position) == position_within(
            FlowTree { fragment: Fragment { transform: None, ..kid.fragment }, ..kid },
            position,
        ).plus(by),
{
}

/// Within a stacking context, the position that boxes are placed against
/// is handed on unchanged.
pub proof fn lemma_position_kept_within_context(kid: FlowTree, position: Point2D)
    requires
        !kid.opens_stacking_context(),
    ensures
        position_within(kid, position) == position,
{
}

/// Emits the items of `flow` and of all below it, in document order.
fn build_display_list_below(flow: &FlowNode, state: &mut DisplayListBuildState)
    requires
        flow@.wf(),
    ensures
        final(state).items@ == old(state).items@ + items_of(flow@),
        final(state).contexts == old(state).contexts,
        final(state).pipeline_id == old(state).pipeline_id,
    decreases flow,
{
    flow.build_display_list(state);
    let n = flow.children.len();
    let mut i: usize = 0;
    while i < n
        invariant
            0 <= i <= n,
            n == flow.children.len(),
            flow@.wf(),
            state.contexts == old(state).contexts,
            state.pipeline_id == old(state).pipeline_id,
            state.items@ == old(state).items@ + seq![item_of(flow@)] + items_of_first(
                flow@.children,
                i as nat,
            ),
        decreases n - i,
    {
        let kid = &flow.children[i];
        proof {
            assert(flow@.children[i as int] == kid@);
            assert(kid@.wf());
        }
        build_display_list_below(kid, state);
        proof {
            let own = seq![item_of(flow@)];
            let earlier = items_of_first(flow@.children, i as nat);
            assert(state.items@ =~= old(state).items@ + own + (earlier + items_of(kid@)));
        }
        i += 1;
    }
    proof {
        let own = seq![item_of(flow@)];
        assert(state.items@ =~= old(state).items@ + (own + items_of_first(flow@.children, n as nat)));
    }
}

/// Builds what is painted for the tree. A first walk records in every flow
/// the stacking context it paints into, numbering the contexts in
/// document order from the context of the page, number 0. Then the page
/// background is emitted, and after it one item for each flow, in
/// document order. The display list is read off the result by
/// [`DisplayListBuildState::to_display_list`], which orders the items by
/// stacking context; the page background is its first item.
pub fn build_display_list_for_subtree(
    flow_root: &mut FlowNode,
    layout_context: &LayoutContext,
    background_color: ColorF,
    client_size: Size2D,
) -> (state: DisplayListBuildState)
    requires
        old(flow_root)@.wf(),
    ensures
        final(flow_root)@ == stacking_collected(old(flow_root)@, 0, seq![root_context()]),
        final(flow_root)@.wf(),
        state.pipeline_id == layout_context.id,
        state.contexts@ == contexts_collected(old(flow_root)@, 0, seq![root_context()]),
        state.items@ == seq![page_background(old(flow_root)@.fragment.node, background_color, client_size)]
            + items_of(final(flow_root)@),
        state.items@[0] == page_background(old(flow_root)@.fragment.node, background_color, client_size),
        flattened(state.contexts@, state.items@, 0).len() >= 1,
        flattened(state.contexts@, state.items@, 0)[0] == page_background(
            old(flow_root)@.fragment.node,
            background_color,
            client_size,
        ),
{
    let mut state = StackingContextCollectionState::new(layout_context.id);
    flow_root.collect_stacking_contexts(&mut state);
    let mut state = DisplayListBuildState::new(layout_context, state);
    let bounds = Rect::new(Point2D::new(Au::new(0), Au::new(0)), client_size);
    let base = state.create_base_display_item(
        bounds,
        flow_root.fragment.node,
        DisplayListSection::BackgroundAndBorders,
    );
    state.add_display_item(DisplayItem { base, color: background_color });
    build_display_list_below(flow_root, &mut state);
    proof {
        let background = page_background(old(flow_root)@.fragment.node, background_color, client_size);
        assert(state.items@ =~= seq![background] + items_of(flow_root@));
        lemma_first_painted(state.contexts@, state.items@);
    }
    state
}

} // verus!
