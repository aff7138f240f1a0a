//! What a guess of float placement can and cannot change in the sizes
//! that a reflow assigns.

use vstd::prelude::*;

use crate::damage::{RelayoutMode, RestyleDamage};
use crate::floats::SpeculatedFloatPlacement;
use crate::flow::{BaseFlow, FlowTree};
use crate::sequential::{
    container_of, damage_for, floats_guessed, floats_into, needs_sizes, reflowed, reflowed_each,
};
use crate::sizing::lemma_block_end_same;
use crate::units::Au;

verus! {

/// Whether two bases agree in all but the guessed float placement.
pub open spec fn same_but_floats(a: BaseFlow, b: BaseFlow) -> bool {
    a == (BaseFlow {
        speculated_float_placement_in: a.speculated_float_placement_in,
        speculated_float_placement_out: a.speculated_float_placement_out,
        ..b
    })
}

/// Whether two trees agree in all but the guessed float placement of
/// their flows.
pub open spec fn same_geometry(a: FlowTree, b: FlowTree) -> bool
    decreases a,
{
    &&& a.class == b.class
    &&& a.fragment == b.fragment
    &&& same_but_floats(a.base, b.base)
    &&& a.children.len() == b.children.len()
    &&& forall|i: int| 0 <= i < a.children.len() ==> same_geometry(#[trigger] a.children[i], b.children[i])
}

/// Whether no flow below the root of `t` is sized to stand beside the
/// floats guessed to flow into it.
pub open spec fn no_float_avoidance_below(t: FlowTree) -> bool
    decreases t,
{
    forall|i: int|
        0 <= i < t.children.len() ==> !(#[trigger] t.children[i]).avoids_floats() && no_float_avoidance_below(
            t.children[i],
        )
}

/// A guess of float placement changes nothing but the guessed float
/// placement.
pub proof fn lemma_guess_keeps_geometry(t: FlowTree, floats_in: SpeculatedFloatPlacement)
    ensures
        same_geometry(floats_guessed(t, floats_in), t),
    decreases t,
{
    let after = floats_guessed(t, floats_in);
    assert(after.children.len() == t.children.len());
    assert forall|i: int| 0 <= i < after.children.len() implies same_geometry(
        #[trigger] after.children[i],
        t.children[i],
    ) by {
        let base = BaseFlow { speculated_float_placement_in: floats_in, ..t.base };
        if base.restyle_damage.has_any(RestyleDamage::only_reflow()) {
            let first = SpeculatedFloatPlacement::entering_first_child(t.class, base, t.fragment);
            lemma_guess_keeps_geometry(t.children[i], floats_into(t.children, i, first));
        } else {
            lemma_same_geometry_reflexive(t.children[i]);
        }
    }
}

/// Every tree agrees with itself.
pub proof fn lemma_same_geometry_reflexive(t: FlowTree)
    ensures
        same_geometry(t, t),
    decreases t,
{
    assert forall|i: int| 0 <= i < t.children.len() implies same_geometry(#[trigger] t.children[i], t.children[i]) by {
        lemma_same_geometry_reflexive(t.children[i]);
    }
}

/// Which flows are sized beside floats does not depend on the guess.
proof fn lemma_float_avoidance_same(a: FlowTree, b: FlowTree)
    requires
        same_geometry(a, b),
        no_float_avoidance_below(b),
    ensures
        no_float_avoidance_below(a),
        a.avoids_floats() == b.avoids_floats(),
    decreases a,
{
    assert forall|i: int| 0 <= i < a.children.len() implies !(#[trigger] a.children[i]).avoids_floats()
        && no_float_avoidance_below(a.children[i]) by {
        assert(same_geometry(a.children[i], b.children[i]));
        assert(!b.children[i].avoids_floats());
        lemma_float_avoidance_same(a.children[i], b.children[i]);
    }
}

/// Two flows that agree in all but the guess get the same inline size,
/// unless they are sized beside floats guessed differently.
proof fn lemma_inline_size_same(a: FlowTree, b: FlowTree)
    requires
        a.class == b.class,
        a.fragment == b.fragment,
        same_but_floats(a.base, b.base),
        a.avoids_floats() ==> a.base.speculated_float_placement_in == b.base.speculated_float_placement_in,
    ensures
        a.with_inline_size_assigned().class == b.with_inline_size_assigned().class,
        a.with_inline_size_assigned().fragment == b.with_inline_size_assigned().fragment,
        same_but_floats(a.with_inline_size_assigned().base, b.with_inline_size_assigned().base),
        a.with_inline_size_assigned().content_inline_size() == b.with_inline_size_assigned().content_inline_size(),
        a.with_inline_size_assigned().children == a.children,
        b.with_inline_size_assigned().children == b.children,
{
}

/// Two flows that agree in all but the guess, children included, get the
/// same block size and stack their children alike.
proof fn lemma_block_size_same(a: FlowTree, b: FlowTree)
    requires
        same_geometry(a, b),
    ensures
        same_geometry(a.with_block_size_assigned(), b.with_block_size_assigned()),
{
    let after_a = a.with_block_size_assigned();
    let after_b = b.with_block_size_assigned();
    assert forall|i: int| 0 <= i < a.children.len() implies {
        &&& (#[trigger] a.children[i]).base.flags == b.children[i].base.flags
        &&& a.children[i].fragment.margin == b.children[i].fragment.margin
        &&& a.children[i].base.position.size == b.children[i].base.position.size
    } by {
        assert(same_geometry(a.children[i], b.children[i]));
    }
    lemma_block_end_same(a, b, a.children.len());
    assert(after_a.children == a.children_stacked());
    assert(after_b.children == b.children_stacked());
    assert forall|i: int| 0 <= i < after_a.children.len() implies same_geometry(
        #[trigger] after_a.children[i],
        after_b.children[i],
    ) by {
        assert(same_geometry(a.children[i], b.children[i]));
        if a.block() {
            lemma_block_end_same(a, b, i as nat);
        }
    }
}

/// Two trees that agree in all but the guess come out of a reflow
/// agreeing in all but the guess, where no flow below the root is sized
/// beside guessed floats and the root, if it is, has the same guess in
/// both.
proof fn lemma_reflow_same_geometry(a: FlowTree, b: FlowTree, container: Au, mode: RelayoutMode)
    requires
        same_geometry(a, b),
        no_float_avoidance_below(b),
        a.avoids_floats() ==> a.base.speculated_float_placement_in == b.base.speculated_float_placement_in,
    ensures
        same_geometry(reflowed(a, container, mode), reflowed(b, container, mode)),
    decreases a, 1nat,
{
    let damage = damage_for(a.base.restyle_damage, mode);
    assert(damage == damage_for(b.base.restyle_damage, mode));
    let arrived_a = a.with_base(
        BaseFlow { restyle_damage: damage, block_container_inline_size: container, ..a.base },
    );
    let arrived_b = b.with_base(
        BaseFlow { restyle_damage: damage, block_container_inline_size: container, ..b.base },
    );
    if needs_sizes(damage) {
        lemma_inline_size_same(arrived_a, arrived_b);
        let sized_a = arrived_a.with_inline_size_assigned();
        let sized_b = arrived_b.with_inline_size_assigned();
        let published = Some(sized_a.content_inline_size());
        let below_a = sized_a.with_children(reflowed_each(a.children, published, mode));
        let below_b = sized_b.with_children(reflowed_each(b.children, published, mode));
        assert forall|i: int| 0 <= i < below_a.children.len() implies same_geometry(
            #[trigger] below_a.children[i],
            below_b.children[i],
        ) by {
            lemma_kid_reflow_same_geometry(a, b, i, published, mode);
        }
        lemma_block_size_same(below_a, below_b);
    } else {
        let after_a = arrived_a.with_children(reflowed_each(a.children, None, mode));
        let after_b = arrived_b.with_children(reflowed_each(b.children, None, mode));
        assert forall|i: int| 0 <= i < after_a.children.len() implies same_geometry(
            #[trigger] after_a.children[i],
            after_b.children[i],
        ) by {
            lemma_kid_reflow_same_geometry(a, b, i, None, mode);
        }
    }
}

/// The step of [`lemma_reflow_same_geometry`] for the child at `i`.
proof fn lemma_kid_reflow_same_geometry(a: FlowTree, b: FlowTree, i: int, published: Option<Au>, mode: RelayoutMode)
    requires
        same_geometry(a, b),
        no_float_avoidance_below(b),
        0 <= i < a.children.len(),
    ensures
        same_geometry(
            reflowed_each(a.children, published, mode)[i],
            reflowed_each(b.children, published, mode)[i],
        ),
    decreases a, 0nat,
{
    assert(same_geometry(a.children[i], b.children[i]));
    assert(!b.children[i].avoids_floats());
    lemma_float_avoidance_same(a.children[i], b.children[i]);
    assert(container_of(a.children[i], published) == container_of(b.children[i], published));
    lemma_reflow_same_geometry(a.children[i], b.children[i], container_of(a.children[i], published), mode);
}

/// Guessing float placement before a reflow changes no size and no
/// position that the reflow assigns, in a tree where no flow below the
/// root is sized to stand beside guessed floats.
pub proof fn lemma_speculation_keeps_geometry(t: FlowTree, container: Au, mode: RelayoutMode)
    requires
        no_float_avoidance_below(t),
    ensures
        same_geometry(
            reflowed(floats_guessed(t, t.base.speculated_float_placement_in), container, mode),
            reflowed(t, container, mode),
        ),
{
    lemma_guess_keeps_geometry(t, t.base.speculated_float_placement_in);
    lemma_reflow_same_geometry(floats_guessed(t, t.base.speculated_float_placement_in), t, container, mode);
}

} // verus!
