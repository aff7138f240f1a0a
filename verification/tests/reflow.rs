use flow_layout::context::{LayoutContext, PipelineId};
use flow_layout::damage::{RelayoutMode, RestyleDamage};
use flow_layout::floats::SpeculatedFloatPlacement;
use flow_layout::flow::{FlowClass, FlowNode, FormattingContextType, IntrinsicISizes, OpaqueNode};
use flow_layout::sequential::{guess_float_placement, reflow};
use flow_layout::units::{Au, Point2D, Rect, Size2D};
use webrender_api::ColorF;

fn context(bubble_separately: bool) -> LayoutContext {
    LayoutContext::new(PipelineId(1), bubble_separately)
}

fn flow(class: FlowClass, node: usize) -> FlowNode {
    FlowNode::new(class, OpaqueNode(node), ColorF::new(0.0, 0.0, 0.0, 1.0))
}

fn rect(x: i32, y: i32, width: i32, height: i32) -> Rect {
    Rect { origin: Point2D { x: Au(x), y: Au(y) }, size: Size2D { width: Au(width), height: Au(height) } }
}

fn sizes(minimum: i32, preferred: i32) -> IntrinsicISizes {
    IntrinsicISizes { minimum_inline_size: Au(minimum), preferred_inline_size: Au(preferred) }
}

fn leaf(node: usize, minimum: i32, preferred: i32, block_size: i32) -> FlowNode {
    let mut leaf = flow(FlowClass::Inline, node);
    leaf.fragment.intrinsic_inline_sizes = sizes(minimum, preferred);
    leaf.fragment.intrinsic_block_size = Au(block_size);
    leaf
}

fn three_levels() -> FlowNode {
    let mut middle = flow(FlowClass::Block, 2);
    middle.fragment.margin.inline_start = Au(20);
    middle.fragment.margin.inline_end = Au(30);
    middle.fragment.margin.block_start = Au(7);
    middle.fragment.margin.block_end = Au(3);
    middle.add_child(leaf(3, 50, 600, 40));
    let mut root = flow(FlowClass::Block, 1);
    root.base.block_container_inline_size = Au(1000);
    root.fragment.border_padding.inline_start = Au(10);
    root.fragment.border_padding.inline_end = Au(10);
    root.fragment.border_padding.block_start = Au(5);
    root.fragment.border_padding.block_end = Au(5);
    root.add_child(middle);
    root
}

fn same_geometry(a: &FlowNode, b: &FlowNode) -> bool {
    a.class == b.class
        && a.fragment == b.fragment
        && a.base.position == b.base.position
        && a.base.block_container_inline_size == b.base.block_container_inline_size
        && a.base.intrinsic_inline_sizes == b.base.intrinsic_inline_sizes
        && a.base.overflow == b.base.overflow
        && a.base.restyle_damage == b.base.restyle_damage
        && a.base.flags == b.base.flags
        && a.children.len() == b.children.len()
        && a.children.iter().zip(b.children.iter()).all(|(x, y)| same_geometry(x, y))
}

#[test]
fn reflow_sizes_three_levels() {
    let mut root = three_levels();
    reflow(&mut root, &context(false), RelayoutMode::Incremental);

    assert_eq!(root.base.position, rect(0, 0, 1000, 60));
    assert_eq!(root.fragment.border_box, rect(0, 0, 1000, 60));
    let middle = &root.children[0];
    assert_eq!(middle.base.block_container_inline_size, Au(980));
    assert_eq!(middle.base.position, rect(20, 7, 930, 40));
    assert_eq!(middle.fragment.border_box, rect(0, 0, 930, 40));
    let leaf = &middle.children[0];
    assert_eq!(leaf.base.block_container_inline_size, Au(930));
    assert_eq!(leaf.base.position, rect(0, 0, 600, 40));
    assert_eq!(leaf.fragment.border_box, rect(0, 0, 600, 40));
}

#[test]
fn reflow_computes_intrinsic_sizes_on_the_way() {
    let mut root = three_levels();
    reflow(&mut root, &context(false), RelayoutMode::Incremental);
    assert_eq!(root.base.intrinsic_inline_sizes, sizes(20, 20));
    assert_eq!(root.children[0].base.intrinsic_inline_sizes, sizes(0, 0));
    assert_eq!(root.children[0].children[0].base.intrinsic_inline_sizes, sizes(50, 600));
}

#[test]
fn reflow_clears_what_it_has_done() {
    let mut root = three_levels();
    reflow(&mut root, &context(false), RelayoutMode::Incremental);
    assert_eq!(root.base.restyle_damage, RestyleDamage::store_overflow());
    assert_eq!(root.children[0].base.restyle_damage, RestyleDamage::store_overflow());
    assert_eq!(root.children[0].children[0].base.restyle_damage, RestyleDamage::store_overflow());
}

#[test]
fn children_are_sized_in_the_new_inline_size_of_their_parent() {
    let mut root = three_levels();
    reflow(&mut root, &context(false), RelayoutMode::Incremental);
    root.base.block_container_inline_size = Au(500);
    reflow(&mut root, &context(false), RelayoutMode::Force);

    assert_eq!(root.base.position, rect(0, 0, 500, 60));
    let middle = &root.children[0];
    assert_eq!(middle.base.block_container_inline_size, Au(480));
    assert_eq!(middle.base.position, rect(20, 7, 430, 40));
    let leaf = &middle.children[0];
    assert_eq!(leaf.base.block_container_inline_size, Au(430));
    assert_eq!(leaf.base.position, rect(0, 0, 430, 40));
}

#[test]
fn parents_are_sized_from_the_new_block_size_of_their_children() {
    let mut root = three_levels();
    reflow(&mut root, &context(false), RelayoutMode::Incremental);
    root.children[0].children[0].fragment.intrinsic_block_size = Au(100);
    reflow(&mut root, &context(false), RelayoutMode::Force);

    assert_eq!(root.children[0].children[0].base.position, rect(0, 0, 600, 100));
    assert_eq!(root.children[0].base.position, rect(20, 7, 930, 100));
    assert_eq!(root.base.position, rect(0, 0, 1000, 120));
}

#[test]
fn incremental_reflow_leaves_clean_flows_alone() {
    let mut root = three_levels();
    reflow(&mut root, &context(false), RelayoutMode::Incremental);
    root.base.block_container_inline_size = Au(500);
    root.children[0].children[0].fragment.intrinsic_block_size = Au(100);
    let before = root.duplicate();
    reflow(&mut root, &context(false), RelayoutMode::Incremental);
    assert_eq!(root, before);
}

#[test]
fn incremental_reflow_sizes_a_damaged_leaf_only() {
    let mut root = three_levels();
    reflow(&mut root, &context(false), RelayoutMode::Incremental);
    root.children[0].children[0].fragment.intrinsic_inline_sizes = sizes(50, 100);
    root.children[0].children[0].fragment.intrinsic_block_size = Au(90);
    root.children[0].children[0].base.restyle_damage.insert(RestyleDamage::reflow().union(RestyleDamage::bubble_isizes()));
    reflow(&mut root, &context(false), RelayoutMode::Incremental);

    assert_eq!(root.children[0].children[0].base.position, rect(0, 0, 100, 90));
    assert_eq!(root.children[0].base.position, rect(20, 7, 930, 40));
    assert_eq!(root.base.position, rect(0, 0, 1000, 60));
}

#[test]
fn incremental_reflow_of_a_damaged_parent_publishes_to_clean_children() {
    let mut root = three_levels();
    reflow(&mut root, &context(false), RelayoutMode::Incremental);
    root.base.block_container_inline_size = Au(500);
    root.base.restyle_damage.insert(RestyleDamage::reflow());
    reflow(&mut root, &context(false), RelayoutMode::Incremental);

    assert_eq!(root.base.position, rect(0, 0, 500, 60));
    assert_eq!(root.children[0].base.block_container_inline_size, Au(480));
    assert_eq!(root.children[0].base.position, rect(20, 7, 930, 40));
    assert_eq!(root.children[0].children[0].base.block_container_inline_size, Au(930));
    assert!(!root.base.restyle_damage.intersects(RestyleDamage::reflow()));
}

#[test]
fn out_of_flow_reflow_damage_is_enough() {
    let mut leaf = leaf(1, 10, 20, 30);
    leaf.base.restyle_damage = RestyleDamage::reflow_out_of_flow();
    leaf.base.block_container_inline_size = Au(15);
    leaf.base.intrinsic_inline_sizes = sizes(10, 20);
    reflow(&mut leaf, &context(false), RelayoutMode::Incremental);
    assert_eq!(leaf.base.position, rect(0, 0, 15, 30));
    assert_eq!(leaf.base.restyle_damage, RestyleDamage::empty());
}

#[test]
fn forced_reflow_sizes_clean_flows() {
    let mut root = three_levels();
    root.base.restyle_damage = RestyleDamage::empty();
    root.children[0].base.restyle_damage = RestyleDamage::empty();
    root.children[0].children[0].base.restyle_damage = RestyleDamage::empty();
    root.children[0].children[0].base.intrinsic_inline_sizes = sizes(50, 600);
    reflow(&mut root, &context(false), RelayoutMode::Force);
    assert_eq!(root.base.position, rect(0, 0, 1000, 60));
    assert_eq!(root.children[0].base.position, rect(20, 7, 930, 40));
    assert_eq!(root.children[0].children[0].base.position, rect(0, 0, 600, 40));
    assert_eq!(root.base.restyle_damage, RestyleDamage::empty());
}

#[test]
fn separate_bubble_pass_reaches_flows_without_reflow_damage() {
    let mut child = flow(FlowClass::Block, 2);
    child.base.restyle_damage = RestyleDamage::bubble_isizes();
    child.fragment.intrinsic_inline_sizes = sizes(10, 20);
    child.fragment.border_padding.inline_start = Au(1);
    child.fragment.border_padding.inline_end = Au(2);
    let mut root = flow(FlowClass::Block, 1);
    root.add_child(child);

    let mut lazily = root.duplicate();
    reflow(&mut lazily, &context(false), RelayoutMode::Incremental);
    assert_eq!(lazily.children[0].base.intrinsic_inline_sizes, sizes(0, 0));
    assert_eq!(lazily.children[0].base.restyle_damage, RestyleDamage::bubble_isizes());

    reflow(&mut root, &context(true), RelayoutMode::Incremental);
    assert_eq!(root.children[0].base.intrinsic_inline_sizes, sizes(13, 23));
    assert_eq!(root.children[0].base.restyle_damage, RestyleDamage::empty());
}

#[test]
fn separate_bubble_pass_gives_the_same_sizes_on_a_fresh_tree() {
    let mut lazily = three_levels();
    reflow(&mut lazily, &context(false), RelayoutMode::Incremental);
    let mut separately = three_levels();
    reflow(&mut separately, &context(true), RelayoutMode::Incremental);
    assert_eq!(lazily, separately);
}

#[test]
fn floats_and_inline_flows_shrink_to_fit() {
    let mut float = flow(FlowClass::Block, 2);
    float.base.flags.floats_left = true;
    float.fragment.intrinsic_inline_sizes = sizes(40, 100);
    float.fragment.border_padding.inline_start = Au(5);
    let mut root = flow(FlowClass::Block, 1);
    root.base.block_container_inline_size = Au(800);
    root.add_child(float);
    root.add_child(leaf(3, 900, 950, 10));
    root.add_child(leaf(4, 10, 2000, 10));
    reflow(&mut root, &context(false), RelayoutMode::Incremental);

    assert_eq!(root.children[0].base.position.size.width, Au(105));
    assert_eq!(root.children[1].base.position.size.width, Au(900));
    assert_eq!(root.children[2].base.position.size.width, Au(800));
}

#[test]
fn out_of_flow_children_take_no_room() {
    let mut positioned = leaf(2, 0, 0, 30);
    positioned.base.flags.is_absolutely_positioned = true;
    positioned.fragment.margin.block_start = Au(4);
    let mut float = leaf(3, 0, 0, 50);
    float.base.flags.floats_right = true;
    let mut root = flow(FlowClass::Block, 1);
    root.add_child(leaf(4, 0, 0, 10));
    root.add_child(positioned);
    root.add_child(float);
    root.add_child(leaf(5, 0, 0, 40));
    reflow(&mut root, &context(false), RelayoutMode::Incremental);

    assert_eq!(root.children[0].base.position.origin.y, Au(0));
    assert_eq!(root.children[1].base.position.origin.y, Au(14));
    assert_eq!(root.children[1].base.position.size.height, Au(30));
    assert_eq!(root.children[2].base.position.origin.y, Au(10));
    assert_eq!(root.children[3].base.position.origin.y, Au(10));
    assert_eq!(root.base.position.size.height, Au(50));
}

#[test]
fn negative_available_inline_size_is_zero() {
    let mut block = flow(FlowClass::Block, 1);
    block.base.block_container_inline_size = Au(10);
    block.fragment.margin.inline_start = Au(30);
    block.fragment.border_padding.inline_end = Au(5);
    block.add_child(flow(FlowClass::Block, 2));
    reflow(&mut block, &context(false), RelayoutMode::Incremental);
    assert_eq!(block.base.position, rect(30, 0, 0, 0));
    assert_eq!(block.children[0].base.block_container_inline_size, Au(0));
}

#[test]
fn formatting_context_stands_beside_guessed_floats() {
    let mut context_flow = flow(FlowClass::Block, 1);
    context_flow.fragment.formatting_context = FormattingContextType::Block;
    context_flow.fragment.margin.inline_start = Au(3);
    context_flow.base.block_container_inline_size = Au(800);
    context_flow.base.speculated_float_placement_in = SpeculatedFloatPlacement { left: Au(100), right: Au(50) };
    reflow(&mut context_flow, &context(false), RelayoutMode::Incremental);
    assert_eq!(context_flow.base.position, rect(103, 0, 647, 0));
}

fn floats_and_a_block(block_is_formatting_context: bool) -> FlowNode {
    let mut left = flow(FlowClass::Block, 2);
    left.base.flags.floats_left = true;
    left.fragment.intrinsic_inline_sizes = sizes(100, 100);
    left.base.intrinsic_inline_sizes = sizes(100, 100);
    let mut right = flow(FlowClass::Block, 3);
    right.base.flags.floats_right = true;
    right.fragment.intrinsic_inline_sizes = sizes(50, 50);
    right.base.intrinsic_inline_sizes = sizes(50, 50);
    let mut block = flow(FlowClass::Block, 4);
    if block_is_formatting_context {
        block.fragment.formatting_context = FormattingContextType::Block;
    }
    block.add_child(leaf(5, 10, 20, 30));
    let mut root = flow(FlowClass::Block, 1);
    root.fragment.formatting_context = FormattingContextType::Block;
    root.base.block_container_inline_size = Au(800);
    root.add_child(left);
    root.add_child(right);
    root.add_child(block);
    root
}

#[test]
fn speculation_then_forced_reflow_is_direct_layout() {
    let mut speculated = floats_and_a_block(false);
    guess_float_placement(&mut speculated);
    reflow(&mut speculated, &context(false), RelayoutMode::Force);

    let mut direct = floats_and_a_block(false);
    reflow(&mut direct, &context(false), RelayoutMode::Force);

    assert!(same_geometry(&speculated, &direct));
    assert_eq!(
        speculated.children[2].base.speculated_float_placement_in,
        SpeculatedFloatPlacement { left: Au(100), right: Au(50) }
    );
    assert_eq!(direct.children[2].base.speculated_float_placement_in, SpeculatedFloatPlacement::zero());
    assert_eq!(direct.base.position, rect(0, 0, 800, 30));
    assert_eq!(direct.children[0].base.position, rect(0, 0, 100, 0));
    assert_eq!(direct.children[1].base.position, rect(0, 0, 50, 0));
    assert_eq!(direct.children[2].base.position, rect(0, 0, 800, 30));
    assert_eq!(direct.children[2].children[0].base.position, rect(0, 0, 20, 30));
}

#[test]
fn speculation_narrows_a_formatting_context_beside_floats() {
    let mut speculated = floats_and_a_block(true);
    guess_float_placement(&mut speculated);
    reflow(&mut speculated, &context(false), RelayoutMode::Force);
    assert_eq!(speculated.children[2].base.position, rect(100, 0, 650, 30));

    let mut direct = floats_and_a_block(true);
    reflow(&mut direct, &context(false), RelayoutMode::Force);
    assert_eq!(direct.children[2].base.position, rect(0, 0, 800, 30));
}

#[test]
fn well_formed_trees_are_recognised() {
    let mut root = three_levels();
    assert!(root.is_well_formed());
    reflow(&mut root, &context(false), RelayoutMode::Incremental);
    assert!(root.is_well_formed());
    root.children[0].children[0].base.position.size.width = Au(i32::MAX);
    assert!(!root.is_well_formed());
}

#[test]
fn duplicate_copies_the_whole_tree() {
    let root = three_levels();
    let copy = root.duplicate();
    assert_eq!(copy, root);
    assert_eq!(copy.children[0].children[0].fragment.node, OpaqueNode(3));
}
