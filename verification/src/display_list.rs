//! Display items, the stacking contexts they are painted in, and the
//! order in which a finished layout is painted.
//!
//! Painting takes two walks over the tree. The first gives every flow the
//! stacking context it paints into and records, for each context, its
//! z-index and the context around it. The second emits one item for each
//! flow, in document order. The display list is then read off context by
//! context: a context paints its own background, the contexts inside it
//! that lie below, its contents, and the contexts inside it that lie
//! level or above.

use vstd::prelude::*;
use webrender_api::ColorF;

use crate::context::{LayoutContext, PipelineId};
use crate::flow::{BaseFlow, FlowClass, FlowNode, FlowTree, OpaqueNode, lemma_same_children, lemma_wf_with_same_children};
use crate::units::{Au, Point2D, Rect, Size2D};

verus! {

/// The layer of a stacking context that an item is painted in. Layers are
/// painted in the order in which they are listed here, and the contexts
/// inside a context between them.
#[derive(Clone, Copy, Debug, PartialEq, Eq, Structural)]
pub enum DisplayListSection {
    /// The background and borders of what establishes the context.
    BackgroundAndBorders,
    /// The backgrounds and borders of the blocks in the context.
    BlockBackgroundsAndBorders,
    /// The floats in the context.
    Floats,
    /// Inline content.
    Content,
    /// Outlines.
    Outlines,
}

/// What every display item carries.
#[derive(Clone, Copy, Debug, PartialEq, Eq, Structural)]
pub struct BaseDisplayItem {
    /// What the item covers, in the coordinates of its stacking context.
    pub bounds: Rect,
    /// The element the item paints.
    pub node: OpaqueNode,
    pub section: DisplayListSection,
    /// The stacking context the item is painted in.
    pub stacking_context_id: usize,
}

/// A paint command: fill the bounds with a colour.
#[derive(Clone, Copy, Debug, PartialEq)]
pub struct DisplayItem {
    pub base: BaseDisplayItem,
    pub color: ColorF,
}

/// A stacking context. Contexts are numbered in the order in which the
/// tree opens them; the context of the page is number 0.
#[derive(Clone, Copy, Debug, PartialEq, Eq, Structural)]
pub struct StackingContextInfo {
    pub z_index: i32,
    /// The number of the context around this one.
    pub parent: usize,
}

/// What the first walk has found so far.
#[derive(Debug, PartialEq)]
pub struct StackingContextCollectionState {
    pub pipeline_id: PipelineId,
    /// The contexts opened so far, each at its number.
    pub contexts: Vec<StackingContextInfo>,
    /// The context that the flow being visited stands in.
    pub current_stacking_context_id: usize,
}

/// What the second walk has emitted so far, with what the first found.
#[derive(Debug, PartialEq)]
pub struct DisplayListBuildState {
    pub pipeline_id: PipelineId,
    /// The contexts of the tree, each at its number.
    pub contexts: Vec<StackingContextInfo>,
    /// The items emitted so far, in the order of emission.
    pub items: Vec<DisplayItem>,
    /// The context that new items are painted in.
    pub current_stacking_context_id: usize,
}

/// The context of the page: at level zero, and around itself.
pub open spec fn root_context() -> StackingContextInfo {
    StackingContextInfo { z_index: 0, parent: 0 }
}

/// The number of the context that `t` paints into, when it is met in
/// context `current` with `contexts` opened so far: a new one if `t` is a
/// block that establishes a stacking context, else `current`.
pub open spec fn context_of(t: FlowTree, current: usize, contexts: Seq<StackingContextInfo>) -> usize {
    if t.opens_stacking_context() {
        contexts.len() as usize
    } else {
        current
    }
}

/// The contexts opened once `t` is entered.
pub open spec fn contexts_entering(t: FlowTree, current: usize, contexts: Seq<StackingContextInfo>) -> Seq<
    StackingContextInfo,
> {
    if t.opens_stacking_context() {
        contexts.push(StackingContextInfo { z_index: t.fragment.z_index, parent: current })
    } else {
        contexts
    }
}

/// The contexts opened once `t` and all below it are walked.
pub open spec fn contexts_collected(t: FlowTree, current: usize, contexts: Seq<StackingContextInfo>) -> Seq<
    StackingContextInfo,
>
    decreases t, 0nat,
{
    contexts_collected_first(
        t.children,
        t.children.len(),
        context_of(t, current, contexts),
        contexts_entering(t, current, contexts),
    )
}

/// The contexts opened once the first `n` of `flows` and all below them
/// are walked, each of `flows` met in context `current`.
pub open spec fn contexts_collected_first(
    flows: Seq<FlowTree>,
    n: nat,
    current: usize,
    contexts: Seq<StackingContextInfo>,
) -> Seq<StackingContextInfo>
    decreases flows, n,
{
    if n == 0 || n > flows.len() {
        contexts
    } else {
        contexts_collected(flows[n - 1], current, contexts_collected_first(flows, (n - 1) as nat, current, contexts))
    }
}

/// The tree after the first walk: every flow records the context it
/// paints into.
pub open spec fn stacking_collected(t: FlowTree, current: usize, contexts: Seq<StackingContextInfo>) -> FlowTree
    decreases t, 0nat,
{
    FlowTree {
        base: BaseFlow { stacking_context_id: context_of(t, current, contexts), ..t.base },
        children: stacking_collected_each(
            t.children,
            context_of(t, current, contexts),
            contexts_entering(t, current, contexts),
        ),
        ..t
    }
}

/// Each of `flows` after the first walk, each met in context `current`.
pub open spec fn stacking_collected_each(flows: Seq<FlowTree>, current: usize, contexts: Seq<StackingContextInfo>) -> Seq<
    FlowTree,
>
    decreases flows, flows.len() + 1,
{
    Seq::new(
        flows.len(),
        |i: int|
            if 0 <= i < flows.len() {
                stacking_collected(flows[i], current, contexts_collected_first(flows, i as nat, current, contexts))
            } else {
                arbitrary()
            },
    )
}

/// The layer that the item of `t` is painted in.
pub open spec fn section_of(t: FlowTree) -> DisplayListSection {
    if t.opens_stacking_context() {
        DisplayListSection::BackgroundAndBorders
    } else if t.class == FlowClass::Inline {
        DisplayListSection::Content
    } else if t.base.flags.float() {
        DisplayListSection::Floats
    } else {
        DisplayListSection::BlockBackgroundsAndBorders
    }
}

/// The item that `t` emits: its border box in the coordinates of the
/// stacking context it paints into, filled with its background colour.
pub open spec fn item_of(t: FlowTree) -> DisplayItem {
    DisplayItem {
        base: BaseDisplayItem {
            bounds: t.border_box_in_context(),
            node: t.fragment.node,
            section: section_of(t),
            stacking_context_id: t.base.stacking_context_id,
        },
        color: t.fragment.background_color,
    }
}

/// The items that `t` and all below it emit, in document order.
pub open spec fn items_of(t: FlowTree) -> Seq<DisplayItem>
    decreases t, 0nat,
{
    seq![item_of(t)] + items_of_first(t.children, t.children.len())
}

/// The items that the first `n` of `flows` and all below them emit.
pub open spec fn items_of_first(flows: Seq<FlowTree>, n: nat) -> Seq<DisplayItem>
    decreases flows, n,
{
    if n == 0 || n > flows.len() {
        Seq::empty()
    } else {
        items_of_first(flows, (n - 1) as nat) + items_of(flows[n - 1])
    }
}

/// Among the first `n` of `items`, those painted in context `context` and
/// layer `section`, in the order of emission.
pub open spec fn items_in(items: Seq<DisplayItem>, n: nat, context: usize, section: DisplayListSection) -> Seq<
    DisplayItem,
>
    decreases n,
{
    if n == 0 || n > items.len() {
        Seq::empty()
    } else {
        let before = items_in(items, (n - 1) as nat, context, section);
        let item = items[n - 1];
        if item.base.stacking_context_id == context && item.base.section == section {
            before.push(item)
        } else {
            before
        }
    }
}

/// The z-index of context `id`.
pub open spec fn z_of(contexts: Seq<StackingContextInfo>, id: usize) -> int {
    if id < contexts.len() {
        contexts[id as int].z_index as int
    } else {
        0
    }
}

/// Where a context of z-index `z` goes among the first `n` of `sorted`:
/// behind the last of them that is not above it.
pub open spec fn insertion_point(contexts: Seq<StackingContextInfo>, sorted: Seq<usize>, n: nat, z: int) -> nat
    decreases n,
{
    if n == 0 || n > sorted.len() {
        0
    } else if z_of(contexts, sorted[n - 1]) <= z {
        n
    } else {
        insertion_point(contexts, sorted, (n - 1) as nat, z)
    }
}

/// The contexts numbered below `n` that stand directly inside `context`,
/// from the lowest z-index to the highest; of two at one level the one
/// opened first comes first.
pub open spec fn children_by_z(contexts: Seq<StackingContextInfo>, context: usize, n: nat) -> Seq<usize>
    decreases n,
{
    if n == 0 || n > contexts.len() {
        Seq::empty()
    } else {
        let before = children_by_z(contexts, context, (n - 1) as nat);
        let id = (n - 1) as usize;
        if id != 0 && contexts[id as int].parent == context {
            before.insert(insertion_point(contexts, before, before.len(), z_of(contexts, id)) as int, id)
        } else {
            before
        }
    }
}

/// What context `context` paints: its background and borders, the
/// contexts inside it with a negative z-index, its block backgrounds, its
/// floats, its content, the contexts inside it with another z-index, and
/// its outlines.
pub open spec fn flattened(contexts: Seq<StackingContextInfo>, items: Seq<DisplayItem>, context: usize) -> Seq<
    DisplayItem,
>
    decreases contexts.len() - context, 1nat, 0nat,
{
    let inside = children_by_z(contexts, context, contexts.len());
    items_in(items, items.len(), context, DisplayListSection::BackgroundAndBorders) + flattened_children(
        contexts,
        items,
        context,
        inside,
        inside.len(),
        true,
    ) + items_in(items, items.len(), context, DisplayListSection::BlockBackgroundsAndBorders) + items_in(
        items,
        items.len(),
        context,
        DisplayListSection::Floats,
    ) + items_in(items, items.len(), context, DisplayListSection::Content) + flattened_children(
        contexts,
        items,
        context,
        inside,
        inside.len(),
        false,
    ) + items_in(items, items.len(), context, DisplayListSection::Outlines)
}

/// What the first `n` of `inside` paint, one after the other, taking
/// those with a negative z-index if `negative` and the others if not.
/// Every one of `inside` is a context opened after `context`.
pub open spec fn flattened_children(
    contexts: Seq<StackingContextInfo>,
    items: Seq<DisplayItem>,
    context: usize,
    inside: Seq<usize>,
    n: nat,
    negative: bool,
) -> Seq<DisplayItem>
    decreases contexts.len() - context, 0nat, n,
{
    if n == 0 || n > inside.len() {
        Seq::empty()
    } else {
        let before = flattened_children(contexts, items, context, inside, (n - 1) as nat, negative);
        let id = inside[n - 1];
        if context < id < contexts.len() && (contexts[id as int].z_index < 0) == negative {
            before + flattened(contexts, items, id)
        } else {
            before
        }
    }
}

impl StackingContextCollectionState {
    /// The state before the walk: the context of the page alone.
    pub fn new(pipeline_id: PipelineId) -> (r: StackingContextCollectionState)
        ensures
            r.pipeline_id == pipeline_id,
            r.contexts@ == seq![root_context()],
            r.current_stacking_context_id == 0,
    {
        let mut contexts: Vec<StackingContextInfo> = Vec::new();
        contexts.push(StackingContextInfo { z_index: 0, parent: 0 });
        assert(contexts@ =~= seq![root_context()]);
        StackingContextCollectionState { pipeline_id, contexts, current_stacking_context_id: 0 }
    }
}

impl FlowNode {
    /// Records in every flow of the subtree the stacking context it
    /// paints into, and in `state` every context that the subtree opens.
    pub fn collect_stacking_contexts(&mut self, state: &mut StackingContextCollectionState)
        requires
            old(self)@.wf(),
        ensures
            final(self)@ == stacking_collected(
                old(self)@,
                old(state).current_stacking_context_id,
                old(state).contexts@,
            ),
            final(state).contexts@ == contexts_collected(
                old(self)@,
                old(state).current_stacking_context_id,
                old(state).contexts@,
            ),
            final(state).current_stacking_context_id == old(state).current_stacking_context_id,
            final(state).pipeline_id == old(state).pipeline_id,
            final(self)@.wf(),
        decreases old(self).children,
    {
        let around = state.current_stacking_context_id;
        if self.establishes_stacking_context() {
            let id = state.contexts.len();
            state.contexts.push(StackingContextInfo { z_index: self.fragment.z_index, parent: around });
            state.current_stacking_context_id = id;
        }
        self.base.stacking_context_id = state.current_stacking_context_id;
        let ghost own = state.current_stacking_context_id;
        let ghost entered = state.contexts@;
        let ghost base = self.base;
        proof {
            lemma_wf_with_same_children(*old(self), *self);
            lemma_same_children(*old(self), *self);
        }
        let n = self.children.len();
        let mut i: usize = 0;
        while i < n
            invariant
                0 <= i <= n,
                n == self.children.len(),
                n == old(self).children.len(),
                self.class == old(self).class,
                self.base == base,
                self.fragment == old(self).fragment,
                old(self)@.wf(),
                state.current_stacking_context_id == own,
                state.pipeline_id == old(state).pipeline_id,
                state.contexts@ == contexts_collected_first(old(self)@.children, i as nat, own, entered),
                forall|j: int|
                    0 <= j < i ==> (#[trigger] self.children@[j])@ == stacking_collected_each(
                        old(self)@.children,
                        own,
                        entered,
                    )[j],
                forall|j: int| 0 <= j < i ==> (#[trigger] self.children@[j])@.wf(),
                forall|j: int| i <= j < n ==> (#[trigger] self.children@[j]) == old(self).children@[j],
            decreases n - i,
        {
            proof {
                assert(old(self)@.children[i as int] == self.children@[i as int]@);
                assert(old(self)@.children[i as int].wf());
            }
            self.children[i].collect_stacking_contexts(state);
            i += 1;
        }
        state.current_stacking_context_id = around;
        proof {
            assert(self@.children =~= stacking_collected_each(old(self)@.children, own, entered));
            assert forall|j: int| 0 <= j < self@.children.len() implies (#[trigger] self@.children[j]).wf() by {
                assert(self.children@[j]@.wf());
            }
        }
    }

    /// The layer that the item of this flow is painted in.
    pub fn display_list_section(&self) -> (r: DisplayListSection)
        ensures
            r == section_of(self@),
    {
        if self.establishes_stacking_context() {
            DisplayListSection::BackgroundAndBorders
        } else if self.class == FlowClass::Inline {
            DisplayListSection::Content
        } else if self.base.flags.is_float() {
            DisplayListSection::Floats
        } else {
            DisplayListSection::BlockBackgroundsAndBorders
        }
    }

    /// Emits the item of this flow into the stacking context that the
    /// flow has recorded.
    pub fn build_display_list(&self, state: &mut DisplayListBuildState)
        requires
            self@.wf(),
        ensures
            final(state).items@ == old(state).items@.push(item_of(self@)),
            final(state).contexts == old(state).contexts,
            final(state).pipeline_id == old(state).pipeline_id,
            final(state).current_stacking_context_id == self@.base.stacking_context_id,
    {
        state.current_stacking_context_id = self.base.stacking_context_id;
        let bounds = self.stacking_relative_border_box();
        let base = state.create_base_display_item(bounds, self.fragment.node, self.display_list_section());
        state.add_display_item(DisplayItem { base, color: self.fragment.background_color });
    }
}

impl DisplayListBuildState {
    /// The state before the second walk: the contexts that the first walk
    /// found, and no item.
    pub fn new(layout_context: &LayoutContext, state: StackingContextCollectionState) -> (r: DisplayListBuildState)
        ensures
            r.pipeline_id == layout_context.id,
            r.contexts == state.contexts,
            r.items@ == Seq::<DisplayItem>::empty(),
            r.current_stacking_context_id == 0,
    {
        DisplayListBuildState {
            pipeline_id: layout_context.id,
            contexts: state.contexts,
            items: Vec::new(),
            current_stacking_context_id: 0,
        }
    }

    /// What an item painted in the current context carries.
    pub fn create_base_display_item(&self, bounds: Rect, node: OpaqueNode, section: DisplayListSection) -> (r:
        BaseDisplayItem)
        ensures
            r == (BaseDisplayItem {
                bounds,
                node,
                section,
                stacking_context_id: self.current_stacking_context_id,
            }),
    {
        BaseDisplayItem { bounds, node, section, stacking_context_id: self.current_stacking_context_id }
    }

    /// Emits `item`.
    pub fn add_display_item(&mut self, item: DisplayItem)
        ensures
            final(self).items@ == old(self).items@.push(item),
            final(self).contexts == old(self).contexts,
            final(self).pipeline_id == old(self).pipeline_id,
            final(self).current_stacking_context_id == old(self).current_stacking_context_id,
    {
        self.items.push(item);
    }

    /// The contexts that stand directly inside `context`, in the order in
    /// which they are painted.
    pub fn children_of(&self, context: usize) -> (inside: Vec<usize>)
        ensures
            inside@ == children_by_z(self.contexts@, context, self.contexts@.len()),
    {
        let mut inside: Vec<usize> = Vec::new();
        let n = self.contexts.len();
        let mut id: usize = 0;
        while id < n
            invariant
                0 <= id <= n,
                n == self.contexts.len(),
                inside@ == children_by_z(self.contexts@, context, id as nat),
            decreases n - id,
        {
            if id != 0 && self.contexts[id].parent == context {
                let z = self.contexts[id].z_index;
                let mut at: usize = inside.len();
                while at > 0 && self.z_index_of(inside[at - 1]) > z
                    invariant
                        0 <= at <= inside.len(),
                        insertion_point(self.contexts@, inside@, inside@.len(), z as int) == insertion_point(
                            self.contexts@,
                            inside@,
                            at as nat,
                            z as int,
                        ),
                    decreases at,
                {
                    at -= 1;
                }
                inside.insert(at, id);
            }
            id += 1;
        }
        inside
    }

    /// The z-index of context `id`, or zero if there is no such context.
    pub fn z_index_of(&self, id: usize) -> (z: i32)
        ensures
            z == z_of(self.contexts@, id),
    {
        if id < self.contexts.len() {
            self.contexts[id].z_index
        } else {
            0
        }
    }

    /// Appends to `list` the items of one layer of `context`.
    fn push_items_in(&self, context: usize, section: DisplayListSection, list: &mut Vec<DisplayItem>)
        ensures
            final(list)@ == old(list)@ + items_in(self.items@, self.items@.len(), context, section),
    {
        let n = self.items.len();
        let mut i: usize = 0;
        while i < n
            invariant
                0 <= i <= n,
                n == self.items.len(),
                list@ == old(list)@ + items_in(self.items@, i as nat, context, section),
            decreases n - i,
        {
            let item = self.items[i];
            let ghost before = items_in(self.items@, i as nat, context, section);
            if item.base.stacking_context_id == context && item.base.section == section {
                list.push(item);
                assert(list@ =~= old(list)@ + before.push(item));
            }
            i += 1;
        }
    }

    /// Appends to `list` what the contexts of `inside` paint, taking those
    /// with a negative z-index if `negative` and the others if not.
    fn push_children(&self, context: usize, inside: &Vec<usize>, negative: bool, list: &mut Vec<DisplayItem>)
        ensures
            final(list)@ == old(list)@ + flattened_children(
                self.contexts@,
                self.items@,
                context,
                inside@,
                inside@.len(),
                negative,
            ),
        decreases self.contexts.len() - context, 0nat,
    {
        let n = inside.len();
        let mut i: usize = 0;
        while i < n
            invariant
                0 <= i <= n,
                n == inside.len(),
                list@ == old(list)@ + flattened_children(
                    self.contexts@,
                    self.items@,
                    context,
                    inside@,
                    i as nat,
                    negative,
                ),
            decreases n - i,
        {
            let id = inside[i];
            let ghost before = flattened_children(self.contexts@, self.items@, context, inside@, i as nat, negative);
            if context < id && id < self.contexts.len() && (self.contexts[id].z_index < 0) == negative {
                self.push_context(id, list);
                assert(list@ =~= old(list)@ + (before + flattened(self.contexts@, self.items@, id)));
            }
            i += 1;
        }
    }

    /// Appends to `list` what `context` paints.
    fn push_context(&self, context: usize, list: &mut Vec<DisplayItem>)
        ensures
            final(list)@ == old(list)@ + flattened(self.contexts@, self.items@, context),
        decreases self.contexts.len() - context, 1nat,
    {
        let inside = self.children_of(context);
        let ghost a = items_in(self.items@, self.items@.len(), context, DisplayListSection::BackgroundAndBorders);
        let ghost b = flattened_children(self.contexts@, self.items@, context, inside@, inside@.len(), true);
        let ghost c = items_in(self.items@, self.items@.len(), context, DisplayListSection::BlockBackgroundsAndBorders);
        let ghost d = items_in(self.items@, self.items@.len(), context, DisplayListSection::Floats);
        let ghost e = items_in(self.items@, self.items@.len(), context, DisplayListSection::Content);
        let ghost f = flattened_children(self.contexts@, self.items@, context, inside@, inside@.len(), false);
        let ghost g = items_in(self.items@, self.items@.len(), context, DisplayListSection::Outlines);
        self.push_items_in(context, DisplayListSection::BackgroundAndBorders, list);
        self.push_children(context, &inside, true, list);
        self.push_items_in(context, DisplayListSection::BlockBackgroundsAndBorders, list);
        self.push_items_in(context, DisplayListSection::Floats, list);
        self.push_items_in(context, DisplayListSection::Content, list);
        self.push_children(context, &inside, false, list);
        self.push_items_in(context, DisplayListSection::Outlines, list);
        assert(list@ =~= old(list)@ + (a + b + c + d + e + f + g));
    }

    /// The display list: what the context of the page paints.
    pub fn to_display_list(&self) -> (list: Vec<DisplayItem>)
        ensures
            list@ == flattened(self.contexts@, self.items@, 0),
    {
        let mut list: Vec<DisplayItem> = Vec::new();
        self.push_context(0, &mut list);
        assert(list@ =~= flattened(self.contexts@, self.items@, 0));
        list
    }
}

/// The item that paints the page behind everything else: a rectangle of
/// the size of the client area at the origin, in the background layer of
/// the context of the page, tagged with the element of the root flow.
pub open spec fn page_background(node: OpaqueNode, color: ColorF, client_size: Size2D) -> DisplayItem {
    DisplayItem {
        base: BaseDisplayItem {
            bounds: Rect { origin: Point2D { x: Au(0), y: Au(0) }, size: client_size },
            node,
            section: DisplayListSection::BackgroundAndBorders,
            stacking_context_id: 0,
        },
        color,
    }
}

/// The first item emitted is the first item of its layer and context.
proof fn lemma_items_in_first(items: Seq<DisplayItem>, n: nat)
    requires
        1 <= n <= items.len(),
    ensures
        items_in(items, n, items[0].base.stacking_context_id, items[0].base.section).len() >= 1,
        items_in(items, n, items[0].base.stacking_context_id, items[0].base.section)[0] == items[0],
    decreases n,
{
    let before = items_in(items, (n - 1) as nat, items[0].base.stacking_context_id, items[0].base.section);
    if n > 1 {
        lemma_items_in_first(items, (n - 1) as nat);
        assert(before.push(items[n - 1])[0] == before[0]);
    } else {
        assert(before.len() == 0);
        assert(before.push(items[0])[0] == items[0]);
    }
}

/// Where the first item emitted belongs to the background layer of the
/// context of the page, it is the first item of the display list.
pub proof fn lemma_first_painted(contexts: Seq<StackingContextInfo>, items: Seq<DisplayItem>)
    requires
        items.len() >= 1,
        items[0].base.stacking_context_id == 0,
        items[0].base.section == DisplayListSection::BackgroundAndBorders,
    ensures
        flattened(contexts, items, 0).len() >= 1,
        flattened(contexts, items, 0)[0] == items[0],
{
    lemma_items_in_first(items, items.len());
}

/// Behind the insertion point every context is above `z`, and the one just
/// before it is not.
proof fn lemma_insertion_point(contexts: Seq<StackingContextInfo>, sorted: Seq<usize>, n: nat, z: int)
    requires
        n <= sorted.len(),
    ensures
        insertion_point(contexts, sorted, n, z) <= n,
        forall|i: int| insertion_point(contexts, sorted, n, z) <= i < n ==> z_of(contexts, #[trigger] sorted[i]) > z,
        insertion_point(contexts, sorted, n, z) > 0 ==> z_of(
            contexts,
            sorted[insertion_point(contexts, sorted, n, z) - 1],
        ) <= z,
    decreases n,
{
    if n > 0 && z_of(contexts, sorted[n - 1]) > z {
        lemma_insertion_point(contexts, sorted, (n - 1) as nat, z);
    }
}

/// Whether `ids` go from the lowest z-index to the highest, and by number
/// where the z-index is the same.
pub open spec fn ordered_by_z(contexts: Seq<StackingContextInfo>, ids: Seq<usize>) -> bool {
    forall|i: int, j: int|
        0 <= i < j < ids.len() ==> {
            ||| z_of(contexts, #[trigger] ids[i]) < z_of(contexts, #[trigger] ids[j])
            ||| z_of(contexts, ids[i]) == z_of(contexts, ids[j]) && ids[i] < ids[j]
        }
}

/// The contexts inside a context are painted from the lowest z-index to
/// the highest, and in the order in which the tree opens them where the
/// z-index is the same. Each of them stands directly inside that context.
pub proof fn lemma_children_by_z_ordered(contexts: Seq<StackingContextInfo>, context: usize, n: nat)
    requires
        n <= contexts.len() <= usize::MAX,
    ensures
        ordered_by_z(contexts, children_by_z(contexts, context, n)),
        forall|i: int|
            0 <= i < children_by_z(contexts, context, n).len() ==> {
                &&& 0 < (#[trigger] children_by_z(contexts, context, n)[i]) < n
                &&& contexts[children_by_z(contexts, context, n)[i] as int].parent == context
            },
    decreases n,
{
    if n > 0 {
        lemma_children_by_z_ordered(contexts, context, (n - 1) as nat);
        let before = children_by_z(contexts, context, (n - 1) as nat);
        let id = (n - 1) as usize;
        if id != 0 && contexts[id as int].parent == context {
            let z = z_of(contexts, id);
            let at = insertion_point(contexts, before, before.len(), z) as int;
            lemma_insertion_point(contexts, before, before.len(), z);
            let after = before.insert(at, id);
            assert(after == children_by_z(contexts, context, n));
            assert(after.len() == before.len() + 1);
            assert forall|i: int| 0 <= i < after.len() implies {
                &&& 0 < (#[trigger] after[i]) < n
                &&& contexts[after[i] as int].parent == context
            } by {
                if i < at {
                    assert(after[i] == before[i]);
                } else if i > at {
                    assert(after[i] == before[i - 1]);
                }
            }
            assert forall|i: int, j: int| 0 <= i < j < after.len() implies {
                ||| z_of(contexts, #[trigger] after[i]) < z_of(contexts, #[trigger] after[j])
                ||| z_of(contexts, after[i]) == z_of(contexts, after[j]) && after[i] < after[j]
            } by {
                if j < at {
                    assert(after[i] == before[i] && after[j] == before[j]);
                } else if j == at {
                    assert(after[i] == before[i]);
                    assert(after[j] == id);
                    assert(before[i] < n - 1);
                    if i < at - 1 {
                        assert(z_of(contexts, before[i]) <= z_of(contexts, before[at - 1]));
                    }
                } else if i < at {
                    assert(after[i] == before[i] && after[j] == before[j - 1]);
                } else if i == at {
                    assert(after[i] == id);
                    assert(after[j] == before[j - 1]);
                } else {
                    assert(after[i] == before[i - 1] && after[j] == before[j - 1]);
                }
            }
        }
    }
}

} // verus!
