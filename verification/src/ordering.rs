//! The order in which a reflow assigns sizes, told from its result.

use vstd::prelude::*;

use crate::damage::RelayoutMode;
use crate::flow::{BaseFlow, FlowTree};
use crate::sequential::{container_of, damage_for, needs_sizes, reflowed, reflowed_each};
use crate::sizing::lemma_block_end_same;
use crate::units::Au;

verus! {

/// Whether the sizes found in `after` are those that a reflow of `before`
/// assigns in the right order. On every flow that the reflow sized: its
/// inline size is the one assigned from what it has recorded of its
/// container; every child has recorded, as the inline size of its
/// container, the inline size of the flow's content box as it now is; and
/// its block size is the one assigned from its children as they now are.
pub open spec fn sized_in_order(before: FlowTree, after: FlowTree, mode: RelayoutMode) -> bool
    decreases before,
{
    &&& after.children.len() == before.children.len()
    &&& needs_sizes(damage_for(before.base.restyle_damage, mode)) ==> {
        &&& after.base.position.size.width == after.assigned_inline_size()
        &&& forall|i: int|
            0 <= i < after.children.len() ==> (#[trigger] after.children[i]).base.block_container_inline_size
                == after.content_inline_size()
        &&& after.base.position.size.height == after.assigned_block_size()
    }
    &&& forall|i: int|
        0 <= i < before.children.len() ==> sized_in_order(#[trigger] before.children[i], after.children[i], mode)
}

/// Moving a flow in the block direction leaves its sizes in order.
proof fn lemma_moved_in_order(before: FlowTree, after: FlowTree, block_start: Au, mode: RelayoutMode)
    requires
        sized_in_order(before, after, mode),
    ensures
        sized_in_order(before, after.moved_to(block_start), mode),
{
    let moved = after.moved_to(block_start);
    assert(moved.children == after.children);
    lemma_block_end_same(after, moved, after.children.len());
    assert forall|i: int| 0 <= i < before.children.len() implies sized_in_order(
        #[trigger] before.children[i],
        moved.children[i],
        mode,
    ) by {}
}

/// Assigning the inline size again, once it is assigned, finds the same
/// inline size.
proof fn lemma_inline_size_settled(arrived: FlowTree)
    ensures
        arrived.with_inline_size_assigned().base.position.size.width
            == arrived.with_inline_size_assigned().assigned_inline_size(),
{
}

/// A flow comes out of a reflow having recorded the container inline size
/// it was laid out in.
proof fn lemma_reflowed_container(t: FlowTree, container: Au, mode: RelayoutMode)
    ensures
        reflowed(t, container, mode).base.block_container_inline_size == container,
        reflowed(t, container, mode).children.len() == t.children.len(),
{
}

/// Assigning the block size keeps what the inline size rests on, hands
/// every child on with what it has recorded of its container, and leaves
/// a block size that is the one assigned from the children as they then
/// are.
proof fn lemma_block_size_settled(below: FlowTree)
    ensures
        below.with_block_size_assigned().children.len() == below.children.len(),
        below.with_block_size_assigned().base.position.size.width == below.base.position.size.width,
        below.with_block_size_assigned().assigned_inline_size() == below.assigned_inline_size(),
        below.with_block_size_assigned().content_inline_size() == below.content_inline_size(),
        forall|i: int|
            0 <= i < below.children.len() ==> (#[trigger] below.with_block_size_assigned().children[i]).base.block_container_inline_size
                == below.children[i].base.block_container_inline_size,
        below.with_block_size_assigned().base.position.size.height
            == below.with_block_size_assigned().assigned_block_size(),
{
    let after = below.with_block_size_assigned();
    assert(after.children == below.children_stacked());
    assert forall|i: int| 0 <= i < below.children.len() implies {
        &&& (#[trigger] below.children[i]).base.flags == after.children[i].base.flags
        &&& below.children[i].fragment.margin == after.children[i].fragment.margin
        &&& below.children[i].base.position.size == after.children[i].base.position.size
    } by {}
    lemma_block_end_same(below, after, below.children.len());
}

/// The children of a flow are in order once the flow's block size is
/// assigned, if they were before.
proof fn lemma_stacked_in_order(before: Seq<FlowTree>, below: FlowTree, mode: RelayoutMode)
    requires
        before.len() == below.children.len(),
        forall|i: int| 0 <= i < before.len() ==> sized_in_order(#[trigger] before[i], below.children[i], mode),
    ensures
        forall|i: int|
            0 <= i < before.len() ==> sized_in_order(
                #[trigger] before[i],
                below.with_block_size_assigned().children[i],
                mode,
            ),
{
    let after = below.with_block_size_assigned();
    assert(after.children == below.children_stacked());
    assert forall|i: int| 0 <= i < before.len() implies sized_in_order(
        #[trigger] before[i],
        after.children[i],
        mode,
    ) by {
        if below.block() {
            lemma_moved_in_order(before[i], below.children[i], below.block_start_of(i), mode);
        }
    }
}

/// A reflow sizes in order: no child is given an inline size before its
/// parent has its own, and no parent a block size before its children
/// have theirs.
pub proof fn lemma_reflow_in_order(t: FlowTree, container: Au, mode: RelayoutMode)
    ensures
        sized_in_order(t, reflowed(t, container, mode), mode),
    decreases t,
{
    let after = reflowed(t, container, mode);
    let damage = damage_for(t.base.restyle_damage, mode);
    let arrived = t.with_base(
        BaseFlow { restyle_damage: damage, block_container_inline_size: container, ..t.base },
    );
    if needs_sizes(damage) {
        let sized = arrived.with_inline_size_assigned();
        let published = Some(sized.content_inline_size());
        let kids = reflowed_each(t.children, published, mode);
        let below = sized.with_children(kids);
        assert(after == below.with_block_size_assigned());
        assert forall|i: int| 0 <= i < t.children.len() implies sized_in_order(
            #[trigger] t.children[i],
            below.children[i],
            mode,
        ) by {
            lemma_reflow_in_order(t.children[i], container_of(t.children[i], published), mode);
        }
        assert forall|i: int| 0 <= i < t.children.len() implies (#[trigger] below.children[i]).base.block_container_inline_size
            == sized.content_inline_size() by {
            lemma_reflowed_container(t.children[i], container_of(t.children[i], published), mode);
        }
        lemma_stacked_in_order(t.children, below, mode);
        lemma_inline_size_settled(arrived);
        lemma_block_size_settled(below);
        assert(below.assigned_inline_size() == sized.assigned_inline_size());
        assert(below.content_inline_size() == sized.content_inline_size());
    } else {
        let kids = reflowed_each(t.children, None, mode);
        assert(after == arrived.with_children(kids));
        assert forall|i: int| 0 <= i < t.children.len() implies sized_in_order(
            #[trigger] t.children[i],
            after.children[i],
            mode,
        ) by {
            lemma_reflow_in_order(t.children[i], container_of(t.children[i], None), mode);
        }
    }
}

} // verus!
