use flow_layout::context::{LayoutContext, PipelineId};
use flow_layout::display_list::{
    BaseDisplayItem, DisplayItem, DisplayListBuildState, DisplayListSection, StackingContextCollectionState,
    StackingContextInfo,
};
use flow_layout::flow::{FlowClass, FlowNode, OpaqueNode};
use flow_layout::sequential::build_display_list_for_subtree;
use flow_layout::units::{Au, Point2D, Rect, Size2D, Vector2D};
use webrender_api::ColorF;

fn context() -> LayoutContext {
    LayoutContext::new(PipelineId(7), false)
}

fn grey(level: f32) -> ColorF {
    ColorF::new(level, level, level, 1.0)
}

fn white() -> ColorF {
    ColorF::new(1.0, 1.0, 1.0, 1.0)
}

fn rect(x: i32, y: i32, width: i32, height: i32) -> Rect {
    Rect { origin: Point2D { x: Au(x), y: Au(y) }, size: Size2D { width: Au(width), height: Au(height) } }
}

fn flow(class: FlowClass, node: usize) -> FlowNode {
    FlowNode::new(class, OpaqueNode(node), grey(0.5))
}

fn layer(node: usize, z_index: i32) -> FlowNode {
    let mut layer = flow(FlowClass::Block, node);
    layer.fragment.establishes_stacking_context = true;
    layer.fragment.z_index = z_index;
    layer
}

fn client() -> Size2D {
    Size2D { width: Au(48000), height: Au(36000) }
}

fn nodes(list: &[DisplayItem]) -> Vec<usize> {
    list.iter().map(|item| item.base.node.0).collect()
}

fn painted(root: &mut FlowNode) -> Vec<DisplayItem> {
    build_display_list_for_subtree(root, &context(), white(), client()).to_display_list()
}

#[test]
fn page_background_is_emitted_first() {
    let mut root = flow(FlowClass::Block, 1);
    root.add_child(flow(FlowClass::Block, 2));
    let color = ColorF::new(0.25, 0.5, 0.75, 1.0);
    let size = Size2D { width: Au(1234), height: Au(5678) };
    let state = build_display_list_for_subtree(&mut root, &context(), color, size);
    let background = DisplayItem {
        base: BaseDisplayItem {
            bounds: rect(0, 0, 1234, 5678),
            node: OpaqueNode(1),
            section: DisplayListSection::BackgroundAndBorders,
            stacking_context_id: 0,
        },
        color,
    };
    assert_eq!(state.items[0], background);
    assert_eq!(state.to_display_list()[0], background);
    assert_eq!(state.pipeline_id, PipelineId(7));
}

#[test]
fn page_background_is_first_even_below_negative_layers() {
    let mut root = flow(FlowClass::Block, 1);
    root.add_child(layer(2, -3));
    let list = painted(&mut root);
    assert_eq!(list[0].base.bounds, rect(0, 0, 48000, 36000));
    assert_eq!(list[0].color, white());
    assert_eq!(nodes(&list), vec![1, 2, 1]);
}

#[test]
fn items_are_emitted_in_document_order() {
    let mut first = flow(FlowClass::Block, 2);
    first.add_child(flow(FlowClass::Inline, 3));
    let mut root = flow(FlowClass::Block, 1);
    root.add_child(first);
    root.add_child(flow(FlowClass::Block, 4));
    let state = build_display_list_for_subtree(&mut root, &context(), white(), client());
    assert_eq!(nodes(&state.items), vec![1, 1, 2, 3, 4]);
    assert_eq!(state.contexts, vec![StackingContextInfo { z_index: 0, parent: 0 }]);
}

#[test]
fn item_covers_the_border_box_where_the_flow_stands() {
    let mut child = flow(FlowClass::Block, 2);
    child.fragment.border_box = rect(0, 0, 10, 20);
    child.base.stacking_relative_position = Vector2D { x: Au(3), y: Au(4) };
    child.fragment.background_color = grey(0.125);
    let mut root = flow(FlowClass::Block, 1);
    root.add_child(child);
    let state = build_display_list_for_subtree(&mut root, &context(), white(), client());
    assert_eq!(
        state.items[2],
        DisplayItem {
            base: BaseDisplayItem {
                bounds: rect(3, 4, 10, 20),
                node: OpaqueNode(2),
                section: DisplayListSection::BlockBackgroundsAndBorders,
                stacking_context_id: 0,
            },
            color: grey(0.125),
        }
    );
}

#[test]
fn item_of_a_layer_stands_at_the_origin_of_the_layer() {
    let mut above = layer(2, 1);
    above.fragment.border_box = rect(0, 0, 10, 20);
    above.base.stacking_relative_position = Vector2D { x: Au(3), y: Au(4) };
    let mut inside = flow(FlowClass::Inline, 3);
    inside.fragment.border_box = rect(1, 1, 2, 2);
    inside.base.stacking_relative_position = Vector2D { x: Au(5), y: Au(6) };
    above.add_child(inside);
    let mut root = flow(FlowClass::Block, 1);
    root.add_child(above);
    let state = build_display_list_for_subtree(&mut root, &context(), white(), client());
    assert_eq!(state.items[2].base.bounds, rect(0, 0, 10, 20));
    assert_eq!(state.items[2].base.section, DisplayListSection::BackgroundAndBorders);
    assert_eq!(state.items[2].base.stacking_context_id, 1);
    assert_eq!(state.items[3].base.bounds, rect(6, 7, 2, 2));
    assert_eq!(state.items[3].base.stacking_context_id, 1);
}

#[test]
fn layer_earlier_in_the_document_paints_above_a_later_sibling() {
    let mut root = flow(FlowClass::Block, 1);
    root.add_child(layer(2, 5));
    root.add_child(flow(FlowClass::Block, 3));
    let list = painted(&mut root);
    assert_eq!(nodes(&list), vec![1, 1, 3, 2]);
}

#[test]
fn layers_paint_by_z_index() {
    let mut root = flow(FlowClass::Block, 1);
    root.add_child(layer(2, 2));
    root.add_child(layer(3, -1));
    root.add_child(layer(4, 1));
    root.add_child(layer(5, -7));
    root.add_child(flow(FlowClass::Block, 6));
    let list = painted(&mut root);
    assert_eq!(nodes(&list), vec![1, 5, 3, 1, 6, 4, 2]);
}

#[test]
fn layers_of_one_z_index_paint_in_document_order() {
    let mut root = flow(FlowClass::Block, 1);
    root.add_child(layer(2, 1));
    root.add_child(layer(3, 0));
    root.add_child(layer(4, 1));
    root.add_child(layer(5, 0));
    let list = painted(&mut root);
    assert_eq!(nodes(&list), vec![1, 1, 3, 5, 2, 4]);
}

#[test]
fn a_layer_paints_all_of_its_contents_together() {
    let mut above = layer(2, 5);
    above.add_child(flow(FlowClass::Inline, 3));
    above.add_child(layer(4, -1));
    above.add_child(flow(FlowClass::Block, 5));
    let mut root = flow(FlowClass::Block, 1);
    root.add_child(above);
    root.add_child(layer(6, 1));
    root.add_child(flow(FlowClass::Inline, 7));
    let list = painted(&mut root);
    assert_eq!(nodes(&list), vec![1, 1, 7, 6, 2, 4, 5, 3]);
}

#[test]
fn layers_within_a_context_paint_in_the_order_of_the_layers() {
    let mut float = flow(FlowClass::Block, 2);
    float.base.flags.floats_left = true;
    let mut root = flow(FlowClass::Block, 1);
    root.add_child(flow(FlowClass::Inline, 3));
    root.add_child(float);
    root.add_child(flow(FlowClass::Block, 4));
    let list = painted(&mut root);
    assert_eq!(nodes(&list), vec![1, 1, 4, 2, 3]);
    assert_eq!(list[2].base.section, DisplayListSection::BlockBackgroundsAndBorders);
    assert_eq!(list[3].base.section, DisplayListSection::Floats);
    assert_eq!(list[4].base.section, DisplayListSection::Content);
}

#[test]
fn stacking_contexts_are_numbered_in_document_order() {
    let mut first = layer(2, 5);
    first.add_child(layer(3, -2));
    first.add_child(flow(FlowClass::Block, 4));
    let mut root = flow(FlowClass::Block, 1);
    root.add_child(first);
    root.add_child(layer(5, 9));
    let state = build_display_list_for_subtree(&mut root, &context(), white(), client());
    assert_eq!(
        state.contexts,
        vec![
            StackingContextInfo { z_index: 0, parent: 0 },
            StackingContextInfo { z_index: 5, parent: 0 },
            StackingContextInfo { z_index: -2, parent: 1 },
            StackingContextInfo { z_index: 9, parent: 0 },
        ]
    );
    assert_eq!(root.base.stacking_context_id, 0);
    assert_eq!(root.children[0].base.stacking_context_id, 1);
    assert_eq!(root.children[0].children[0].base.stacking_context_id, 2);
    assert_eq!(root.children[0].children[1].base.stacking_context_id, 1);
    assert_eq!(root.children[1].base.stacking_context_id, 3);
    assert_eq!(state.children_of(0), vec![1, 3]);
    assert_eq!(state.children_of(1), vec![2]);
    assert_eq!(state.children_of(2), Vec::<usize>::new());
}

#[test]
fn an_inline_flow_opens_no_stacking_context() {
    let mut inline = flow(FlowClass::Inline, 2);
    inline.fragment.establishes_stacking_context = true;
    inline.fragment.z_index = 5;
    let mut root = flow(FlowClass::Block, 1);
    root.add_child(inline);
    let state = build_display_list_for_subtree(&mut root, &context(), white(), client());
    assert_eq!(state.contexts.len(), 1);
    assert_eq!(state.items[2].base.section, DisplayListSection::Content);
    assert_eq!(state.items[2].base.stacking_context_id, 0);
}

#[test]
fn a_root_that_establishes_a_context_paints_inside_the_page() {
    let mut root = layer(1, 0);
    root.add_child(flow(FlowClass::Block, 2));
    let state = build_display_list_for_subtree(&mut root, &context(), white(), client());
    assert_eq!(state.contexts.len(), 2);
    assert_eq!(root.base.stacking_context_id, 1);
    let list = state.to_display_list();
    assert_eq!(nodes(&list), vec![1, 1, 2]);
    assert_eq!(list[0].base.stacking_context_id, 0);
    assert_eq!(list[1].base.stacking_context_id, 1);
}

#[test]
fn display_list_of_hand_made_state() {
    let item = |node: usize, context: usize, section: DisplayListSection| DisplayItem {
        base: BaseDisplayItem { bounds: rect(0, 0, 1, 1), node: OpaqueNode(node), section, stacking_context_id: context },
        color: white(),
    };
    let collected = StackingContextCollectionState::new(PipelineId(7));
    let mut state = DisplayListBuildState::new(&context(), collected);
    state.contexts.push(StackingContextInfo { z_index: -1, parent: 0 });
    state.contexts.push(StackingContextInfo { z_index: 3, parent: 7 });
    state.add_display_item(item(10, 0, DisplayListSection::Outlines));
    state.add_display_item(item(11, 1, DisplayListSection::Content));
    state.add_display_item(item(12, 0, DisplayListSection::Content));
    state.add_display_item(item(13, 2, DisplayListSection::Content));
    state.add_display_item(item(14, 0, DisplayListSection::BackgroundAndBorders));
    state.add_display_item(item(15, 9, DisplayListSection::Content));
    assert_eq!(nodes(&state.to_display_list()), vec![14, 11, 12, 10]);
    assert_eq!(state.z_index_of(1), -1);
    assert_eq!(state.z_index_of(5), 0);
}
