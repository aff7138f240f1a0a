use flow_layout::damage::RestyleDamage;
use flow_layout::floats::SpeculatedFloatPlacement;
use flow_layout::flow::{FlowClass, FlowNode, FormattingContextType, OpaqueNode};
use flow_layout::sequential::guess_float_placement;
use flow_layout::units::Au;
use webrender_api::ColorF;

fn flow(class: FlowClass, node: usize) -> FlowNode {
    FlowNode::new(class, OpaqueNode(node), ColorF::new(0.0, 0.0, 0.0, 1.0))
}

fn placement(left: i32, right: i32) -> SpeculatedFloatPlacement {
    SpeculatedFloatPlacement { left: Au(left), right: Au(right) }
}

fn left_float(node: usize, preferred: i32) -> FlowNode {
    let mut float = flow(FlowClass::Block, node);
    float.base.flags.floats_left = true;
    float.base.intrinsic_inline_sizes.preferred_inline_size = Au(preferred);
    float
}

fn right_float(node: usize, preferred: i32) -> FlowNode {
    let mut float = flow(FlowClass::Block, node);
    float.base.flags.floats_right = true;
    float.base.intrinsic_inline_sizes.preferred_inline_size = Au(preferred);
    float
}

#[test]
fn floats_in_starts_empty_on_a_cleared_side() {
    let mut clears_left = flow(FlowClass::Block, 1);
    clears_left.base.flags.clears_left = true;
    let mut floats = placement(30, 40);
    floats.compute_floats_in(&clears_left);
    assert_eq!(floats, placement(0, 40));

    let mut clears_both = flow(FlowClass::Block, 2);
    clears_both.base.flags.clears_left = true;
    clears_both.base.flags.clears_right = true;
    let mut floats = placement(30, 40);
    floats.compute_floats_in(&clears_both);
    assert_eq!(floats, placement(0, 0));

    let plain = flow(FlowClass::Block, 3);
    let mut floats = placement(30, 40);
    floats.compute_floats_in(&plain);
    assert_eq!(floats, placement(30, 40));
}

#[test]
fn floats_in_for_first_child_loses_the_edge_offsets() {
    let mut parent = flow(FlowClass::Block, 1);
    parent.base.speculated_float_placement_in = placement(100, 50);
    parent.fragment.margin.inline_start = Au(10);
    parent.fragment.border_padding.inline_start = Au(5);
    assert_eq!(SpeculatedFloatPlacement::compute_floats_in_for_first_child(&parent), placement(85, 50));

    parent.fragment.margin.inline_end = Au(60);
    assert_eq!(SpeculatedFloatPlacement::compute_floats_in_for_first_child(&parent), placement(85, 0));
}

#[test]
fn floats_in_for_first_child_of_a_formatting_context_is_empty() {
    let mut parent = flow(FlowClass::Block, 1);
    parent.base.speculated_float_placement_in = placement(100, 50);
    parent.fragment.formatting_context = FormattingContextType::Block;
    assert_eq!(SpeculatedFloatPlacement::compute_floats_in_for_first_child(&parent), placement(0, 0));
}

#[test]
fn floats_in_for_first_child_of_an_inline_flow_passes_through() {
    let mut parent = flow(FlowClass::Inline, 1);
    parent.base.speculated_float_placement_in = placement(100, 50);
    parent.fragment.margin.inline_start = Au(10);
    assert_eq!(SpeculatedFloatPlacement::compute_floats_in_for_first_child(&parent), placement(100, 50));
}

#[test]
fn floats_out_adds_the_edge_offsets_and_the_float() {
    let mut float = left_float(1, 200);
    float.fragment.margin.inline_start = Au(10);
    float.fragment.border_padding.inline_start = Au(5);
    let mut floats = placement(20, 0);
    floats.compute_floats_out(&float);
    assert_eq!(floats, placement(235, 0));

    let float = right_float(2, 30);
    let mut floats = placement(20, 0);
    floats.compute_floats_out(&float);
    assert_eq!(floats, placement(20, 30));
}

#[test]
fn floats_out_of_a_formatting_context_is_what_came_in() {
    let mut block = flow(FlowClass::Block, 1);
    block.fragment.formatting_context = FormattingContextType::Block;
    block.base.speculated_float_placement_in = placement(11, 12);
    let mut floats = placement(500, 600);
    floats.compute_floats_out(&block);
    assert_eq!(floats, placement(11, 12));
}

#[test]
fn guess_chains_floats_through_siblings() {
    let mut root = flow(FlowClass::Block, 1);
    root.add_child(left_float(2, 100));
    root.add_child(flow(FlowClass::Block, 3));
    root.add_child(right_float(4, 30));
    guess_float_placement(&mut root);

    assert_eq!(root.children[0].base.speculated_float_placement_in, placement(0, 0));
    assert_eq!(root.children[0].base.speculated_float_placement_out, placement(100, 0));
    assert_eq!(root.children[1].base.speculated_float_placement_in, placement(100, 0));
    assert_eq!(root.children[1].base.speculated_float_placement_out, placement(100, 0));
    assert_eq!(root.children[2].base.speculated_float_placement_in, placement(100, 0));
    assert_eq!(root.children[2].base.speculated_float_placement_out, placement(100, 30));
    assert_eq!(root.base.speculated_float_placement_in, placement(0, 0));
    assert_eq!(root.base.speculated_float_placement_out, placement(100, 30));
}

#[test]
fn guess_descends_into_grandchildren() {
    let mut middle = flow(FlowClass::Block, 2);
    middle.fragment.margin.inline_start = Au(10);
    middle.add_child(flow(FlowClass::Block, 3));
    let mut root = flow(FlowClass::Block, 1);
    root.add_child(left_float(4, 100));
    root.add_child(middle);
    guess_float_placement(&mut root);

    let middle = &root.children[1];
    assert_eq!(middle.base.speculated_float_placement_in, placement(100, 0));
    assert_eq!(middle.children[0].base.speculated_float_placement_in, placement(90, 0));
    assert_eq!(middle.children[0].base.speculated_float_placement_out, placement(90, 0));
    assert_eq!(middle.base.speculated_float_placement_out, placement(100, 0));
    assert_eq!(root.base.speculated_float_placement_out, placement(100, 0));
}

#[test]
fn guess_respects_clearance() {
    let mut cleared = flow(FlowClass::Block, 3);
    cleared.base.flags.clears_left = true;
    let mut root = flow(FlowClass::Block, 1);
    root.add_child(left_float(2, 100));
    root.add_child(cleared);
    guess_float_placement(&mut root);
    assert_eq!(root.children[1].base.speculated_float_placement_in, placement(0, 0));
    assert_eq!(root.base.speculated_float_placement_out, placement(0, 0));
}

#[test]
fn guess_skips_a_flow_without_reflow_damage() {
    let mut root = flow(FlowClass::Block, 1);
    root.base.restyle_damage.remove(RestyleDamage::reflow());
    root.base.speculated_float_placement_out = placement(7, 8);
    root.add_child(left_float(2, 100));
    let before = root.duplicate();
    guess_float_placement(&mut root);
    assert_eq!(root, before);
}

#[test]
fn guess_skips_a_subtree_without_reflow_damage() {
    let mut clean = flow(FlowClass::Block, 3);
    clean.base.restyle_damage = RestyleDamage::store_overflow();
    clean.base.speculated_float_placement_out = placement(1, 2);
    clean.add_child(left_float(4, 999));
    let mut root = flow(FlowClass::Block, 1);
    root.add_child(left_float(2, 100));
    root.add_child(clean);
    guess_float_placement(&mut root);
    assert_eq!(root.children[1].base.speculated_float_placement_in, placement(100, 0));
    assert_eq!(root.children[1].base.speculated_float_placement_out, placement(1, 2));
    assert_eq!(root.children[1].children[0].base.speculated_float_placement_out, placement(0, 0));
    assert_eq!(root.base.speculated_float_placement_out, placement(1, 2));
}

#[test]
fn absolutely_positioned_sibling_is_outside_the_float_chain() {
    let mut without = flow(FlowClass::Block, 1);
    without.add_child(left_float(2, 100));
    without.add_child(flow(FlowClass::Block, 3));
    guess_float_placement(&mut without);

    let mut positioned = left_float(9, 500);
    positioned.base.flags.is_absolutely_positioned = true;
    positioned.base.speculated_float_placement_in = placement(3, 4);
    let mut with = flow(FlowClass::Block, 1);
    with.add_child(left_float(2, 100));
    with.add_child(positioned);
    with.add_child(flow(FlowClass::Block, 3));
    guess_float_placement(&mut with);

    assert_eq!(with.base.speculated_float_placement_out, without.base.speculated_float_placement_out);
    assert_eq!(with.base.speculated_float_placement_out, placement(100, 0));
    assert_eq!(with.children[2].base.speculated_float_placement_in, placement(100, 0));
    assert_eq!(with.children[2], without.children[1]);
    assert_eq!(with.children[1].base.speculated_float_placement_in, placement(3, 4));
    assert_eq!(with.children[1].base.speculated_float_placement_out, placement(503, 4));
}

#[test]
fn absolutely_positioned_first_and_last_children_are_outside_the_float_chain() {
    let mut without = flow(FlowClass::Block, 1);
    without.add_child(right_float(2, 40));
    guess_float_placement(&mut without);

    let mut first = flow(FlowClass::Block, 8);
    first.base.flags.is_absolutely_positioned = true;
    let mut last = right_float(9, 77);
    last.base.flags.is_absolutely_positioned = true;
    let mut with = flow(FlowClass::Block, 1);
    with.add_child(first);
    with.add_child(right_float(2, 40));
    with.add_child(last);
    guess_float_placement(&mut with);

    assert_eq!(without.base.speculated_float_placement_out, placement(0, 40));
    assert_eq!(with.base.speculated_float_placement_out, placement(0, 40));
}
