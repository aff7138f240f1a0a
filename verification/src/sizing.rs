//! What each pass does to one flow: intrinsic sizes, inline size, block
//! size and overflow.

use vstd::prelude::*;

use crate::context::LayoutContext;
use crate::damage::RestyleDamage;
use crate::flow::{
    lemma_same_children, lemma_wf_with_same_children, BaseFlow, FlowClass, FlowNode, FlowTree,
    FormattingContextType, Fragment, IntrinsicISizes,
};
use crate::units::{Au, Point2D, Rect, Size2D, Vector2D};

verus! {

impl Fragment {
    /// Where the content box begins, seen from the border box.
    pub open spec fn content_origin(self) -> Vector2D {
        Vector2D { x: self.border_padding.inline_start, y: self.border_padding.block_start }
    }
}

impl FlowTree {
    /// The flow's border box in its own coordinates.
    pub open spec fn own_box(self) -> Rect {
        Rect { origin: Point2D { x: Au(0), y: Au(0) }, size: self.base.position.size }
    }

    /// The overflow of the flow as its container sees it, when the
    /// container's content box begins at `content_origin`.
    pub open spec fn overflow_in_container(self, content_origin: Vector2D) -> Rect {
        self.base.overflow.translated(self.base.position.origin.as_vector()).translated(content_origin)
    }

    /// The union of the flow's border box with the overflow of its first
    /// `n` children.
    pub open spec fn overflow_of_first(self, n: nat) -> Rect
        decreases n,
    {
        if n == 0 {
            self.own_box()
        } else {
            self.overflow_of_first((n - 1) as nat).united(
                self.children[n - 1].overflow_in_container(self.fragment.content_origin()),
            )
        }
    }

    /// What the flow and its descendants paint: the union of its border box
    /// with the overflow of every child.
    pub open spec fn computed_overflow(self) -> Rect {
        self.overflow_of_first(self.children.len())
    }

    /// The flow with its overflow computed from its children as they stand.
    pub open spec fn with_overflow_computed(self) -> FlowTree {
        self.with_base(BaseFlow { overflow: self.computed_overflow(), ..self.base })
    }

    /// The intrinsic inline sizes of the border box: those of the content,
    /// each with border and padding added.
    pub open spec fn bubbled_inline_sizes(self) -> IntrinsicISizes {
        let surround = self.fragment.border_padding.inline_start.plus(self.fragment.border_padding.inline_end);
        IntrinsicISizes {
            minimum_inline_size: self.fragment.intrinsic_inline_sizes.minimum_inline_size.plus(surround),
            preferred_inline_size: self.fragment.intrinsic_inline_sizes.preferred_inline_size.plus(surround),
        }
    }

    /// The flow with its intrinsic inline sizes computed and the latch that
    /// asked for them cleared.
    pub open spec fn with_inline_sizes_bubbled(self) -> FlowTree {
        self.with_base(
            BaseFlow {
                intrinsic_inline_sizes: self.bubbled_inline_sizes(),
                restyle_damage: self.base.restyle_damage.without(RestyleDamage::only_bubble_isizes()),
                ..self.base
            },
        )
    }

    /// The inline size left for the border box once the margins are taken
    /// from the container.
    pub open spec fn available_inline_size(self) -> Au {
        self.base.block_container_inline_size.minus(self.fragment.margin.inline_start).minus(
            self.fragment.margin.inline_end,
        ).or_zero()
    }

    /// Whether the flow is as wide as its content asks, within what is
    /// available.
    pub open spec fn shrinks_to_fit(self) -> bool {
        self.base.flags.float() || self.class == FlowClass::Inline
    }

    /// Whether the flow is sized to stand beside the floats guessed to
    /// flow into it.
    pub open spec fn avoids_floats(self) -> bool {
        &&& self.class == FlowClass::Block
        &&& !self.base.flags.float()
        &&& self.fragment.formatting_context == FormattingContextType::Block
    }

    /// The inline size of the border box, from the container's inline
    /// size, the intrinsic inline sizes and the guessed floats.
    pub open spec fn assigned_inline_size(self) -> Au {
        let available = self.available_inline_size();
        if self.shrinks_to_fit() {
            available.max(self.base.intrinsic_inline_sizes.minimum_inline_size).min(
                self.base.intrinsic_inline_sizes.preferred_inline_size,
            )
        } else if self.avoids_floats() {
            available.minus(self.base.speculated_float_placement_in.left).minus(
                self.base.speculated_float_placement_in.right,
            ).or_zero()
        } else {
            available
        }
    }

    /// Where the border box begins in the inline direction, from the
    /// start of the container's content box.
    pub open spec fn assigned_inline_start(self) -> Au {
        if !self.shrinks_to_fit() && self.avoids_floats() {
            self.fragment.margin.inline_start.plus(self.base.speculated_float_placement_in.left)
        } else {
            self.fragment.margin.inline_start
        }
    }

    /// The flow with `position` as its border box, in its base and in its
    /// fragment.
    pub open spec fn with_position(self, position: Rect) -> FlowTree {
        FlowTree {
            base: BaseFlow { position, ..self.base },
            fragment: Fragment {
                border_box: Rect { origin: Point2D { x: Au(0), y: Au(0) }, size: position.size },
                ..self.fragment
            },
            ..self
        }
    }

    /// The flow with its inline size and inline position assigned. Where
    /// the intrinsic inline sizes are still asked for, they are computed
    /// first.
    pub open spec fn with_inline_size_assigned(self) -> FlowTree {
        let ready = if self.base.restyle_damage.bubble_isizes {
            self.with_inline_sizes_bubbled()
        } else {
            self
        };
        ready.with_position(
            Rect {
                origin: Point2D { x: ready.assigned_inline_start(), y: ready.base.position.origin.y },
                size: Size2D { width: ready.assigned_inline_size(), height: ready.base.position.size.height },
            },
        )
    }

    /// The inline size of the content box: what the children are laid out
    /// in.
    pub open spec fn content_inline_size(self) -> Au {
        self.base.position.size.width.minus(self.fragment.border_padding.inline_start).minus(
            self.fragment.border_padding.inline_end,
        ).or_zero()
    }

    /// How far the first `n` children reach in the block direction, from
    /// the start of the content box. Children out of flow take no room.
    pub open spec fn block_end_of_first(self, n: nat) -> Au
        decreases n,
    {
        if n == 0 {
            Au(0)
        } else {
            let kid = self.children[n - 1];
            let before = self.block_end_of_first((n - 1) as nat);
            if kid.base.flags.out_of_flow() {
                before
            } else {
                before.plus(kid.fragment.margin.block_start).plus(kid.base.position.size.height).plus(
                    kid.fragment.margin.block_end,
                )
            }
        }
    }

    /// Where the child at `i` begins in the block direction, from the
    /// start of the content box.
    pub open spec fn block_start_of(self, i: int) -> Au {
        self.block_end_of_first(i as nat).plus(self.children[i].fragment.margin.block_start)
    }

    /// The block size of the content box: the reach of the children for a
    /// block, the content's own block size for another flow.
    pub open spec fn content_block_size(self) -> Au {
        if self.class == FlowClass::Block {
            self.block_end_of_first(self.children.len())
        } else {
            self.fragment.intrinsic_block_size
        }
    }

    /// The block size of the border box.
    pub open spec fn assigned_block_size(self) -> Au {
        self.fragment.border_padding.block_start.plus(self.content_block_size()).plus(
            self.fragment.border_padding.block_end,
        )
    }

    /// The flow moved to begin at `block_start` in the block direction.
    pub open spec fn moved_to(self, block_start: Au) -> FlowTree {
        self.with_base(
            BaseFlow {
                position: Rect {
                    origin: Point2D { x: self.base.position.origin.x, y: block_start },
                    size: self.base.position.size,
                },
                ..self.base
            },
        )
    }

    /// The children, each moved to where it begins in the block direction
    /// if the flow is a block, and as they stand otherwise.
    pub open spec fn children_stacked(self) -> Seq<FlowTree> {
        if self.class == FlowClass::Block {
            Seq::new(self.children.len(), |i: int| self.children[i].moved_to(self.block_start_of(i)))
        } else {
            self.children
        }
    }

    /// The flow with its block size assigned from its children as they
    /// stand, its children stacked, and both reflow latches cleared.
    pub open spec fn with_block_size_assigned(self) -> FlowTree {
        let sized = self.with_position(
            Rect {
                origin: self.base.position.origin,
                size: Size2D { width: self.base.position.size.width, height: self.assigned_block_size() },
            },
        );
        FlowTree {
            base: BaseFlow {
                restyle_damage: sized.base.restyle_damage.without(RestyleDamage::any_reflow()),
                ..sized.base
            },
            children: self.children_stacked(),
            ..sized
        }
    }
}

/// How far children reach in the block direction depends on their flags,
/// their margins and their block sizes alone.
pub proof fn lemma_block_end_same(a: FlowTree, b: FlowTree, n: nat)
    requires
        n <= a.children.len() == b.children.len(),
        forall|i: int|
            0 <= i < a.children.len() ==> {
                &&& (#[trigger] a.children[i]).base.flags == b.children[i].base.flags
                &&& a.children[i].fragment.margin == b.children[i].fragment.margin
                &&& a.children[i].base.position.size == b.children[i].base.position.size
            },
    ensures
        a.block_end_of_first(n) == b.block_end_of_first(n),
    decreases n,
{
    if n > 0 {
        lemma_block_end_same(a, b, (n - 1) as nat);
        assert(a.children[n - 1].base.flags == b.children[n - 1].base.flags);
    }
}

impl FlowNode {
    /// Computes the intrinsic inline sizes of the border box and clears the
    /// latch that asked for them.
    pub fn bubble_inline_sizes(&mut self)
        requires
            old(self)@.wf(),
        ensures
            final(self)@ == old(self)@.with_inline_sizes_bubbled(),
            final(self)@.wf(),
            final(self).children == old(self).children,
    {
        let surround = self.fragment.border_padding.inline_start.add(self.fragment.border_padding.inline_end);
        self.base.intrinsic_inline_sizes = IntrinsicISizes {
            minimum_inline_size: self.fragment.intrinsic_inline_sizes.minimum_inline_size.add(surround),
            preferred_inline_size: self.fragment.intrinsic_inline_sizes.preferred_inline_size.add(surround),
        };
        self.base.restyle_damage.remove(RestyleDamage::bubble_isizes());
        proof {
            lemma_wf_with_same_children(*old(self), *self);
        }
    }

    /// Assigns the inline size and the inline position of the border box,
    /// from the inline size of the container and the guessed floats.
    pub fn assign_inline_sizes(&mut self, layout_context: &LayoutContext)
        requires
            old(self)@.wf(),
        ensures
            final(self)@ == old(self)@.with_inline_size_assigned(),
            final(self)@.wf(),
            final(self).children == old(self).children,
    {
        if self.base.restyle_damage.bubble_isizes {
            self.bubble_inline_sizes();
        }
        let ghost ready = self@;
        let margin = self.fragment.margin;
        let floats = self.base.speculated_float_placement_in;
        let available = self.base.block_container_inline_size.sub(margin.inline_start).sub(
            margin.inline_end,
        ).positive_or_zero();
        let shrinks = self.base.flags.is_float() || self.class == FlowClass::Inline;
        let avoids = self.class == FlowClass::Block && !self.base.flags.is_float()
            && self.fragment.formatting_context == FormattingContextType::Block;
        let mut inline_start = margin.inline_start;
        let inline_size = if shrinks {
            available.max_of(self.base.intrinsic_inline_sizes.minimum_inline_size).min_of(
                self.base.intrinsic_inline_sizes.preferred_inline_size,
            )
        } else if avoids {
            inline_start = margin.inline_start.add(floats.left);
            available.sub(floats.left).sub(floats.right).positive_or_zero()
        } else {
            available
        };
        self.set_position(
            Rect::new(
                Point2D::new(inline_start, self.base.position.origin.y),
                Size2D::new(inline_size, self.base.position.size.height),
            ),
        );
    }

    /// Puts `position` in the base, and its size in the fragment's border
    /// box.
    fn set_position(&mut self, position: Rect)
        requires
            old(self)@.wf(),
            position.in_range(),
        ensures
            final(self)@ == old(self)@.with_position(position),
            final(self)@.wf(),
            final(self).children == old(self).children,
    {
        self.base.position = position;
        self.fragment.border_box = Rect::new(Point2D::zero(), position.size);
        proof {
            lemma_wf_with_same_children(*old(self), *self);
        }
    }

    /// The inline size of the content box.
    pub fn content_inline_size(&self) -> (r: Au)
        requires
            self@.wf(),
        ensures
            r == self@.content_inline_size(),
            r.in_range(),
    {
        self.base.position.size.width.sub(self.fragment.border_padding.inline_start).sub(
            self.fragment.border_padding.inline_end,
        ).positive_or_zero()
    }

    /// Assigns the block size of the border box from the children as they
    /// stand, stacks the children of a block, and clears both reflow
    /// latches.
    pub fn assign_block_size(&mut self, layout_context: &LayoutContext)
        requires
            old(self)@.wf(),
        ensures
            final(self)@ == old(self)@.with_block_size_assigned(),
            final(self)@.wf(),
    {
        let mut content = self.fragment.intrinsic_block_size;
        if self.class == FlowClass::Block {
            content = Au::zero();
            let n = self.children.len();
            let mut i: usize = 0;
            while i < n
                invariant
                    0 <= i <= n,
                    n == self.children.len(),
                    n == old(self).children.len(),
                    self.class == old(self).class,
                    self.class == FlowClass::Block,
                    self.base == old(self).base,
                    self.fragment == old(self).fragment,
                    old(self)@.wf(),
                    content == old(self)@.block_end_of_first(i as nat),
                    content.in_range(),
                    forall|j: int| 0 <= j < i ==> (#[trigger] self.children@[j])@ == old(self)@.children_stacked()[j],
                    forall|j: int| 0 <= j < i ==> (#[trigger] self.children@[j])@.wf(),
                    forall|j: int| i <= j < n ==> (#[trigger] self.children@[j]) == old(self).children@[j],
                decreases n - i,
            {
                let ghost before = self.children@[i as int];
                proof {
                    assert(old(self)@.children[i as int] == before@);
                    assert(before@.wf());
                }
                let kid = &mut self.children[i];
                let block_start = content.add(kid.fragment.margin.block_start);
                kid.base.position.origin.y = block_start;
                if !kid.base.flags.is_out_of_flow() {
                    content = block_start.add(kid.base.position.size.height).add(kid.fragment.margin.block_end);
                }
                proof {
                    lemma_wf_with_same_children(before, self.children@[i as int]);
                    lemma_same_children(before, self.children@[i as int]);
                }
                i += 1;
            }
        }
        let block_size = self.fragment.border_padding.block_start.add(content).add(
            self.fragment.border_padding.block_end,
        );
        let ghost stacked = self@;
        proof {
            assert(stacked.children =~= old(self)@.children_stacked());
            assert forall|j: int| 0 <= j < stacked.children.len() implies (#[trigger] stacked.children[j]).wf() by {
                if self.class == FlowClass::Block {
                    assert(self.children@[j]@.wf());
                } else {
                    assert(old(self)@.children[j].wf());
                }
            }
        }
        self.set_position(
            Rect::new(self.base.position.origin, Size2D::new(self.base.position.size.width, block_size)),
        );
        self.base.restyle_damage.remove(RestyleDamage::reflow_out_of_flow().union(RestyleDamage::reflow()));
        proof {
            assert(self@.children =~= stacked.children);
            assert forall|j: int| 0 <= j < self@.children.len() implies (#[trigger] self@.children[j]).wf() by {
                assert(stacked.children[j].wf());
            }
        }
    }

    /// Computes the overflow of this flow from its border box and the
    /// overflow of its children as they stand.
    pub fn store_overflow(&mut self, layout_context: &LayoutContext)
        requires
            old(self)@.wf(),
        ensures
            final(self)@ == old(self)@.with_overflow_computed(),
            final(self)@.wf(),
            final(self).children == old(self).children,
    {
        let origin = Vector2D::new(self.fragment.border_padding.inline_start, self.fragment.border_padding.block_start);
        let mut overflow = Rect::new(Point2D::zero(), self.base.position.size);
        let n = self.children.len();
        let mut i: usize = 0;
        while i < n
            invariant
                0 <= i <= n,
                n == self.children.len(),
                *self == *old(self),
                self@.wf(),
                origin == self@.fragment.content_origin(),
                overflow == self@.overflow_of_first(i as nat),
                overflow.in_range(),
            decreases n - i,
        {
            proof {
                let kid_tree = self@.children[i as int];
                assert(kid_tree == self.children@[i as int]@);
                assert(kid_tree.wf());
                assert(kid_tree.base.in_range());
            }
            let kid = &self.children[i];
            let seen = kid.base.overflow.translate(kid.base.position.origin.to_vector()).translate(origin);
            overflow = overflow.union(seen);
            i += 1;
        }
        self.base.overflow = overflow;
        proof {
            assert(self@.children =~= old(self)@.children);
            assert forall|j: int| 0 <= j < self@.children.len() implies (#[trigger] self@.children[j]).wf() by {
                assert(old(self)@.children[j].wf());
            }
        }
    }
}

} // verus!
