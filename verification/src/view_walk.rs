//! Snapshots of the views on screen.
//!
//! What a view says of itself comes in as a `LiveView`; a snapshot of it is a `ViewNode`, with the
//! views of a SwiftUI hosting view put below it.
use crate::swiftui_debug::{
    counted, dump_hosting_view, dumped, hosts_swiftui, is_hosting_view_class, payload_bytes, FilterCounters,
    Tally,
};
use crate::view_tree::{
    children_tree, node_trees, optional_text, row_texts, Frame, NodeView, Opacity, ViewNode,
};
use vstd::prelude::*;

verus! {

/// What a view on screen says of itself.
#[derive(Debug)]
pub struct LiveView {
    /// The name of its class, where that is text.
    pub class_name: Option<String>,
    pub frame: Frame,
    pub is_hidden: bool,
    pub alpha: Opacity,
    pub tag: i64,
    pub accessibility_id: Option<String>,
    pub subviews: Vec<LiveView>,
    /// What was captured of the views that it hosts.
    pub payload: Option<Vec<u8>>,
}

/// The name of a view's class.
pub open spec fn class_of(view: LiveView) -> Seq<char> {
    match view.class_name {
        Some(name) => name@,
        None => "<unknown>"@,
    }
}

/// The views that are put below a view beside its subviews.
pub open spec fn spliced(view: LiveView, disabled: bool) -> Seq<NodeView> {
    if hosts_swiftui(class_of(view)) {
        dumped(payload_bytes(view.payload), disabled)
    } else {
        seq![]
    }
}

/// The snapshots of the subviews of a view.
pub open spec fn subviews_walked(view: LiveView, disabled: bool) -> Seq<NodeView>
    decreases view, 0nat,
{
    Seq::new(
        view.subviews@.len(),
        |i: int|
            if 0 <= i < view.subviews@.len() {
                walked(view.subviews@[i], disabled)
            } else {
                arbitrary()
            },
    )
}

/// The snapshot of a view.
pub open spec fn walked(view: LiveView, disabled: bool) -> NodeView
    decreases view, 1nat,
{
    NodeView {
        class_name: class_of(view),
        frame: view.frame@,
        is_hidden: view.is_hidden,
        alpha: view.alpha@,
        tag: view.tag as int,
        accessibility_id: optional_text(view.accessibility_id),
        modifiers: seq![],
        style_rows: seq![],
        children: subviews_walked(view, disabled) + spliced(view, disabled),
    }
}

/// What the counters hold after the snapshot of a view was taken.
pub open spec fn walk_counts(view: LiveView, disabled: bool, before: Tally) -> Tally
    decreases view, 0nat,
{
    let after = list_counts(view.subviews@, disabled, before);
    if hosts_swiftui(class_of(view)) {
        counted(payload_bytes(view.payload), disabled, after)
    } else {
        after
    }
}

/// What the counters hold after the snapshots of views were taken, one after the other.
pub open spec fn list_counts(views: Seq<LiveView>, disabled: bool, before: Tally) -> Tally
    decreases views, views.len(),
{
    if views.len() == 0 {
        before
    } else {
        walk_counts(
            views[views.len() - 1],
            disabled,
            list_counts(views.subrange(0, views.len() - 1), disabled, before),
        )
    }
}

/// Takes the snapshot of a view and everything below it.
pub fn walk_view(view: &LiveView, disabled: bool, counters: &mut FilterCounters) -> (node: ViewNode)
    ensures
        node@ == walked(*view, disabled),
        final(counters)@ == walk_counts(*view, disabled, old(counters)@),
    decreases view,
{
    broadcast use children_tree;

    let class_name = match &view.class_name {
        Some(name) => name.clone(),
        None => "<unknown>".to_owned(),
    };
    let mut children: Vec<ViewNode> = Vec::new();
    let ghost before = counters@;
    let ghost all = view.subviews@;
    let mut i: usize = 0;
    assert(all.subrange(0, 0).len() == 0);
    while i < view.subviews.len()
        invariant
            i <= view.subviews.len(),
            all == view.subviews@,
            counters@ == list_counts(all.subrange(0, i as int), disabled, before),
            children@.len() == i,
            forall|j: int|
                0 <= j < i ==> (#[trigger] children@[j])@ == walked(view.subviews@[j], disabled),
        decreases view.subviews.len() - i,
    {
        assert(decreases_to!(*view => view.subviews));
        assert(decreases_to!(view.subviews@ => view.subviews@[i as int]));
        children.push(walk_view(&view.subviews[i], disabled, counters));
        assert(all.subrange(0, i + 1).subrange(0, i as int) =~= all.subrange(0, i as int));
        assert(all.subrange(0, i + 1)[i as int] == all[i as int]);
        i = i + 1;
    }
    assert(all.subrange(0, i as int) =~= all);
    assert(node_trees(children@) =~= subviews_walked(*view, disabled));
    if is_hosting_view_class(class_name.as_str()) {
        let mut more = dump_hosting_view(&view.payload, disabled, counters);
        let ghost plain = children@;
        let ghost added = more@;
        children.append(&mut more);
        assert(node_trees(children@) =~= node_trees(plain) + node_trees(added));
    } else {
        assert(node_trees(children@) + Seq::<NodeView>::empty() =~= node_trees(children@));
    }
    let accessibility_id = match &view.accessibility_id {
        Some(id) => Some(id.clone()),
        None => None,
    };
    let node = ViewNode {
        class_name,
        frame: view.frame.copy(),
        is_hidden: view.is_hidden,
        alpha: view.alpha.copy(),
        tag: view.tag,
        accessibility_id,
        modifiers: Vec::new(),
        style_rows: Vec::new(),
        children,
    };
    assert(crate::text::texts(node.modifiers@) =~= seq![]);
    assert(row_texts(node.style_rows@) =~= seq![]);
    node
}

/// The place of the first window that is the key window, where one is.
pub fn key_window(windows: &Vec<bool>) -> (at: Option<usize>)
    ensures
        at is None == (forall|i: int| 0 <= i < windows@.len() ==> !#[trigger] windows@[i]),
        at matches Some(i) ==> i < windows@.len() && windows@[i as int] && forall|j: int|
            0 <= j < i ==> !#[trigger] windows@[j],
{
    let mut i: usize = 0;
    while i < windows.len()
        invariant
            i <= windows.len(),
            forall|j: int| 0 <= j < i ==> !#[trigger] windows@[j],
        decreases windows.len() - i,
    {
        if windows[i] {
            return Some(i);
        }
        i = i + 1;
    }
    None
}

/// A view that hosts nothing, or of which nothing was captured, or whose payload could not be
/// decoded, is shown with just its subviews.
pub proof fn plain_views_keep_their_children(view: LiveView, disabled: bool)
    requires
        !hosts_swiftui(class_of(view)) || dumped(payload_bytes(view.payload), disabled).len() == 0,
    ensures
        walked(view, disabled).children == subviews_walked(view, disabled),
        walked(view, disabled).children.len() == view.subviews@.len(),
{
    assert(walked(view, disabled).children =~= subviews_walked(view, disabled));
}

/// The snapshot of a view tells what the view says of itself, and has the snapshots of its subviews
/// as its first children, in order; what it hosts follows.
pub proof fn snapshots_tell_of_the_view(view: LiveView, disabled: bool)
    ensures
        ({
            let node = walked(view, disabled);
            &&& view.class_name matches Some(name) ==> node.class_name == name@
            &&& view.class_name is None ==> node.class_name == "<unknown>"@
            &&& node.frame == view.frame@
            &&& node.is_hidden == view.is_hidden
            &&& node.alpha == view.alpha@
            &&& node.tag == view.tag
            &&& view.accessibility_id matches Some(id) ==> node.accessibility_id == Some(id@)
            &&& view.accessibility_id is None ==> node.accessibility_id is None
            &&& node.modifiers.len() == 0
            &&& node.style_rows.len() == 0
            &&& node.children.len() >= view.subviews@.len()
            &&& forall|i: int|
                0 <= i < view.subviews@.len() ==> #[trigger] node.children[i] == walked(
                    view.subviews@[i],
                    disabled,
                )
        }),
        hosts_swiftui(class_of(view)) ==> walked(view, disabled).children.skip(
            view.subviews@.len() as int,
        ) == dumped(payload_bytes(view.payload), disabled),
{
    let plain = subviews_walked(view, disabled);
    let more = spliced(view, disabled);
    assert((plain + more).skip(plain.len() as int) =~= more);
}

/// What is counted of views is counted of one after the other, and of a view after its subviews; a
/// view that hosts nothing counts for nothing itself.
pub proof fn views_are_counted_in_turn(
    front: Seq<LiveView>,
    back: Seq<LiveView>,
    view: LiveView,
    disabled: bool,
    before: Tally,
)
    ensures
        list_counts(front + back, disabled, before) == list_counts(
            back,
            disabled,
            list_counts(front, disabled, before),
        ),
        !hosts_swiftui(class_of(view)) ==> walk_counts(view, disabled, before) == list_counts(
            view.subviews@,
            disabled,
            before,
        ),
        hosts_swiftui(class_of(view)) ==> walk_counts(view, disabled, before) == counted(
            payload_bytes(view.payload),
            disabled,
            list_counts(view.subviews@, disabled, before),
        ),
        list_counts(seq![view], disabled, before) == walk_counts(view, disabled, before),
    decreases back.len(),
{
    reveal_with_fuel(list_counts, 2);
    assert(seq![view].subrange(0, 0) =~= seq![]);
    if back.len() == 0 {
        assert(front + back =~= front);
    } else {
        let all = front + back;
        let less = back.subrange(0, back.len() - 1);
        views_are_counted_in_turn(front, less, view, disabled, before);
        assert(all.subrange(0, all.len() - 1) =~= front + less);
    }
}

} // verus!
