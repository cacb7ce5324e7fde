//! The `DOM`, `CSS` and `Overlay` domains: a view hierarchy as a debugger's element tree.
//!
//! The tree is a snapshot: it is taken when the document is asked for, and its nodes keep their
//! ids until the next time.
use crate::decimal::{decimal, decimal_reads_back, decimal_value, write_signed, write_unsigned};
use crate::dispatcher::{event_frame, failure, CdpReply, CdpRequest, EventSink, ReplyView};
use crate::domain_remo::{array_of_texts, text_array};
use crate::domain_storage::USERDEFAULTS_ORIGIN;
use crate::json::{
    field_items_are_smaller, no_entries, no_fields, trees, whole, with_fields, with_then_field,
    Json, JsonView,
};
use crate::remote_object::{remote_object, remote_view};
use crate::text::{join, join_texts, joined, joined3, push_text, same_text, texts};
use crate::view_tree::{children_tree, node_trees, push_row, row_texts, NodeView, ViewNode};
use vstd::prelude::*;

verus! {

/// The address of the one document there is.
pub const MAIN_ORIGIN: &'static str = "remo://native";

/// How many nodes a document holds at first, roughly; deeper levels are asked for.
pub const MAX_EAGER_NODES: i128 = 2000;

/// The id of the document itself.
pub const DOCUMENT_NODE_ID: u64 = 1;

/// The id of the first view.
pub const FIRST_VIEW_NODE_ID: u64 = 2;

/// What a table of views holds.
pub uninterp spec fn views(table: dashmap::DashMap<u64, ViewNode>) -> Map<u64, NodeView>;

/// `dashmap::DashMap::new` makes an empty table.
#[verifier::external_body]
fn new_views() -> (table: dashmap::DashMap<u64, ViewNode>)
    ensures
        views(table).dom() == Set::<u64>::empty(),
{
    dashmap::DashMap::new()
}

/// `dashmap::DashMap::insert` puts a value under a key, in the place of the one that was there.
#[verifier::external_body]
fn insert_view(table: &mut dashmap::DashMap<u64, ViewNode>, id: u64, view: ViewNode)
    ensures
        views(*final(table)) == views(*old(table)).insert(id, view@),
{
    table.insert(id, view);
}

/// `dashmap::DashMap::get` gives the value under a key, where there is one; it is copied out.
#[verifier::external_body]
fn get_view(table: &dashmap::DashMap<u64, ViewNode>, id: u64) -> (view: Option<ViewNode>)
    ensures
        view is Some == views(*table).contains_key(id),
        view matches Some(v) ==> v@ == views(*table)[id],
{
    table.get(&id).map(|entry| entry.value().copy())
}

/// `dashmap::DashMap::contains_key` tells whether there is a value under a key.
#[verifier::external_body]
fn has_view(table: &dashmap::DashMap<u64, ViewNode>, id: u64) -> (found: bool)
    ensures
        found == views(*table).contains_key(id),
{
    table.contains_key(&id)
}

/// `dashmap::DashMap::clear` takes everything out of the table.
#[verifier::external_body]
fn clear_views(table: &mut dashmap::DashMap<u64, ViewNode>)
    ensures
        views(*final(table)).dom() == Set::<u64>::empty(),
{
    table.clear();
}

/// `dashmap::DashMap::len` gives the number of values.
#[verifier::external_body]
fn count_views(table: &dashmap::DashMap<u64, ViewNode>) -> (count: usize)
    ensures
        count == views(*table).dom().len(),
{
    table.len()
}

/// Where a walk over a view hierarchy stands: which id each view was given, the next id, and how
/// many more nodes may be listed.
#[verifier::ext_equal]
pub struct Walk {
    pub table: Map<u64, NodeView>,
    pub next: u64,
    pub budget: int,
}

/// The id after an id.
pub open spec fn id_after(id: u64) -> u64 {
    if id == u64::MAX {
        0
    } else {
        (id + 1) as u64
    }
}

/// The walk after a view was given an id.
pub open spec fn registered(walk: Walk, view: NodeView) -> Walk {
    Walk { table: walk.table.insert(walk.next, view), next: id_after(walk.next), ..walk }
}

/// The attributes of a view: names and values in turn.
pub open spec fn attribute_texts(view: NodeView) -> Seq<Seq<char>> {
    let id = match view.accessibility_id {
        Some(id) => if id.len() > 0 {
            seq!["id"@, id]
        } else {
            seq![]
        },
        None => seq![],
    };
    let hidden = if view.is_hidden {
        seq!["hidden"@, "true"@]
    } else {
        seq![]
    };
    let alpha = if view.alpha.translucent {
        seq!["alpha"@, view.alpha.text]
    } else {
        seq![]
    };
    let frame = seq![
        "frame"@,
        view.frame.x.rounded + ","@ + view.frame.y.rounded + " "@ + view.frame.width.rounded + "x"@
            + view.frame.height.rounded,
    ];
    let modifiers = if view.modifiers.len() > 0 {
        seq!["modifiers"@, join(view.modifiers, ", "@)]
    } else {
        seq![]
    };
    id + hidden + alpha + frame + modifiers
}

/// A whole length in CSS.
pub open spec fn pixels(length: int) -> Seq<char> {
    decimal(length) + "px"@
}

/// What a view shows as its style: its geometry, and the rows of a SwiftUI view.
pub open spec fn style_texts(view: NodeView) -> Seq<(Seq<char>, Seq<char>)> {
    seq![
        ("class"@, view.class_name),
        ("left"@, pixels(view.frame.x.whole)),
        ("top"@, pixels(view.frame.y.whole)),
        ("width"@, pixels(view.frame.width.whole)),
        ("height"@, pixels(view.frame.height.whole)),
        ("opacity"@, view.alpha.text),
        (
            "visibility"@,
            if view.is_hidden {
                "hidden"@
            } else {
                "visible"@
            },
        ),
        ("tag"@, decimal(view.tag)),
        ("subviews"@, decimal(view.children.len() as int)),
    ] + Seq::new(
        view.style_rows.len(),
        |i: int| ("--swiftui-"@ + view.style_rows[i].0, view.style_rows[i].1),
    )
}

/// A view as a node of the tree, with the nodes of its children where they are listed.
pub open spec fn node_object(
    view: NodeView,
    id: u64,
    parent: u64,
    list: Seq<JsonView>,
) -> JsonView {
    let node = no_entries().with("nodeId"@, whole(id as int)).with(
        "parentId"@,
        whole(parent as int),
    ).with("backendNodeId"@, whole(id as int)).with("nodeType"@, whole(1)).with(
        "nodeName"@,
        JsonView::Text(view.class_name),
    ).with("localName"@, JsonView::Text(view.class_name)).with(
        "nodeValue"@,
        JsonView::Text(""@),
    ).with("attributes"@, text_array(attribute_texts(view))).with(
        "childNodeCount"@,
        whole(view.children.len() as int),
    );
    if list.len() > 0 {
        node.with("children"@, JsonView::Array(list))
    } else {
        node
    }
}

/// The depth for the children of a node: a negative depth has no end.
pub open spec fn depth_below(depth: int) -> int {
    if depth < 0 {
        depth
    } else {
        depth - 1
    }
}

/// The node of a view, and where the walk stands after it. Every view that is reached gets an id,
/// a view before its children; the children are reached where the depth and the budget allow.
pub open spec fn node_walk(view: NodeView, parent: u64, depth: int, walk: Walk) -> (JsonView, Walk)
    decreases view, 0nat,
{
    let id = walk.next;
    let known = registered(walk, view);
    if depth != 0 && walk.budget > 0 {
        let paid = Walk { budget: known.budget - view.children.len(), ..known };
        let (list, after) = list_walk(view.children, id, depth_below(depth), paid);
        (node_object(view, id, parent, list), after)
    } else {
        (node_object(view, id, parent, seq![]), known)
    }
}

/// The nodes of a list of views, and where the walk stands after them.
pub open spec fn list_walk(
    list: Seq<NodeView>,
    parent: u64,
    depth: int,
    walk: Walk,
) -> (Seq<JsonView>, Walk)
    decreases list, list.len(),
{
    if list.len() == 0 {
        (seq![], walk)
    } else {
        let (front, between) = list_walk(list.subrange(0, list.len() - 1), parent, depth, walk);
        let (last, after) = node_walk(list[list.len() - 1], parent, depth, between);
        (front.push(last), after)
    }
}

/// How many views a hierarchy holds.
pub open spec fn size(view: NodeView) -> nat
    decreases view, 0nat,
{
    1 + total(view.children)
}

/// How many views a list of hierarchies holds.
pub open spec fn total(list: Seq<NodeView>) -> nat
    decreases list, list.len(),
{
    if list.len() == 0 {
        0
    } else {
        total(list.subrange(0, list.len() - 1)) + size(list[list.len() - 1])
    }
}

/// Whether one walk goes on from another: what had an id keeps it, and the ids given since are the
/// ones between the two, each of them once.
pub open spec fn goes_on(before: Walk, after: Walk) -> bool {
    &&& before.next <= after.next
    &&& after.budget <= before.budget
    &&& forall|id: u64| #[trigger]
        after.table.contains_key(id) == (before.table.contains_key(id) || before.next <= id
            < after.next)
    &&& forall|id: u64|
        before.table.contains_key(id) && !(before.next <= id < after.next)
            ==> #[trigger] after.table[id] == before.table[id]
}

/// A walk gives fresh ids, each to one view, as long as the ids do not run out; the view itself
/// gets the first.
pub proof fn node_walk_is_fresh(view: NodeView, parent: u64, depth: int, walk: Walk)
    requires
        walk.next + size(view) <= u64::MAX,
    ensures
        goes_on(walk, node_walk(view, parent, depth, walk).1),
        node_walk(view, parent, depth, walk).1.next > walk.next,
        node_walk(view, parent, depth, walk).1.next <= walk.next + size(view),
        node_walk(view, parent, depth, walk).1.table[walk.next] == view,
    decreases view, 0nat,
{
    let known = registered(walk, view);
    if depth != 0 && walk.budget > 0 {
        let paid = Walk { budget: known.budget - view.children.len(), ..known };
        list_walk_is_fresh(view.children, walk.next, depth_below(depth), paid);
    }
}

proof fn list_walk_is_fresh(list: Seq<NodeView>, parent: u64, depth: int, walk: Walk)
    requires
        walk.next + total(list) <= u64::MAX,
    ensures
        goes_on(walk, list_walk(list, parent, depth, walk).1),
        list_walk(list, parent, depth, walk).1.next <= walk.next + total(list),
    decreases list, list.len(),
{
    if list.len() > 0 {
        let front = list.subrange(0, list.len() - 1);
        list_walk_is_fresh(front, parent, depth, walk);
        let between = list_walk(front, parent, depth, walk).1;
        node_walk_is_fresh(list[list.len() - 1], parent, depth, between);
    }
}

/// Without a limit on the depth, a hierarchy that the budget covers is walked whole: every view in
/// it gets an id.
pub proof fn node_walk_is_whole(view: NodeView, parent: u64, depth: int, walk: Walk)
    requires
        depth < 0,
        walk.budget >= size(view),
        walk.next + size(view) <= u64::MAX,
    ensures
        node_walk(view, parent, depth, walk).1.next == walk.next + size(view),
        node_walk(view, parent, depth, walk).1.budget == walk.budget - (size(view) - 1),
    decreases view, 0nat,
{
    let known = registered(walk, view);
    let paid = Walk { budget: known.budget - view.children.len(), ..known };
    list_walk_is_whole(view.children, walk.next, depth, paid);
}

proof fn list_walk_is_whole(list: Seq<NodeView>, parent: u64, depth: int, walk: Walk)
    requires
        depth < 0,
        walk.budget + list.len() >= 1 + total(list),
        walk.next + total(list) <= u64::MAX,
    ensures
        list_walk(list, parent, depth, walk).1.next == walk.next + total(list),
        list_walk(list, parent, depth, walk).1.budget == walk.budget - (total(list) - list.len()),
    decreases list, list.len(),
{
    if list.len() > 0 {
        let front = list.subrange(0, list.len() - 1);
        assert(size(list[list.len() - 1]) >= 1);
        list_walk_is_whole(front, parent, depth, walk);
        let between = list_walk(front, parent, depth, walk).1;
        node_walk_is_whole(list[list.len() - 1], parent, depth, between);
    }
}

/// Whether a node tells of a view as a table has it: the node bears an id under which the table
/// holds the view, the id of its parent, and the number of its children; where it lists children,
/// it lists all of them, each in this way and with this node as its parent.
pub open spec fn tells_of(
    node: JsonView,
    parent: int,
    view: NodeView,
    table: Map<u64, NodeView>,
) -> bool
    decreases view, 0nat,
{
    &&& node.unsigned_field("nodeId"@) matches Some(id) && 0 <= id <= u64::MAX
        && table.contains_key(id as u64) && table[id as u64] == view
    &&& node.field("backendNodeId"@) == node.field("nodeId"@)
    &&& node.field("parentId"@) == Some(whole(parent))
    &&& node.field("nodeName"@) == Some(JsonView::Text(view.class_name))
    &&& node.field("childNodeCount"@) == Some(whole(view.children.len() as int))
    &&& match node.field("children"@) {
        Some(JsonView::Array(list)) => all_tell_of(
            list,
            node.unsigned_field("nodeId"@)->0,
            view.children,
            table,
        ),
        Some(_) => false,
        None => true,
    }
}

/// Whether the nodes of a list, with one parent, tell of the views of another, one by one.
pub open spec fn all_tell_of(
    nodes: Seq<JsonView>,
    parent: int,
    list: Seq<NodeView>,
    table: Map<u64, NodeView>,
) -> bool
    decreases list, list.len(),
{
    &&& nodes.len() == list.len()
    &&& list.len() > 0 ==> {
        &&& all_tell_of(nodes.drop_last(), parent, list.subrange(0, list.len() - 1), table)
        &&& tells_of(nodes.last(), parent, list[list.len() - 1], table)
    }
}

proof fn node_fields(view: NodeView, id: u64, parent: u64, list: Seq<JsonView>)
    ensures
        node_object(view, id, parent, list).field("nodeId"@) == Some(whole(id as int)),
        node_object(view, id, parent, list).field("backendNodeId"@) == Some(whole(id as int)),
        node_object(view, id, parent, list).field("parentId"@) == Some(whole(parent as int)),
        node_object(view, id, parent, list).field("nodeName"@) == Some(
            JsonView::Text(view.class_name),
        ),
        node_object(view, id, parent, list).field("childNodeCount"@) == Some(
            whole(view.children.len() as int),
        ),
        node_object(view, id, parent, list).field("children"@) == if list.len() > 0 {
            Some(JsonView::Array(list))
        } else {
            None
        },
{
    node_names();
    let class_name = JsonView::Text(view.class_name);
    let o1 = no_entries().with("nodeId"@, whole(id as int));
    let o2 = o1.with("parentId"@, whole(parent as int));
    let o3 = o2.with("backendNodeId"@, whole(id as int));
    let o4 = o3.with("nodeType"@, whole(1));
    let o5 = o4.with("nodeName"@, class_name);
    let o6 = o5.with("localName"@, class_name);
    let o7 = o6.with("nodeValue"@, JsonView::Text(""@));
    let o8 = o7.with("attributes"@, text_array(attribute_texts(view)));
    let o9 = o8.with("childNodeCount"@, whole(view.children.len() as int));
    assert forall|asked: Seq<char>|
        asked == "nodeId"@ || asked == "backendNodeId"@ || asked == "parentId"@ || asked
            == "nodeName"@ || asked == "children"@ implies #[trigger] o9.field(asked) == if asked
        == "nodeName"@ {
        Some(class_name)
    } else if asked == "parentId"@ {
        Some(whole(parent as int))
    } else if asked == "children"@ {
        None
    } else {
        Some(whole(id as int))
    } by {
        with_then_field(no_entries(), "nodeId"@, whole(id as int), asked);
        with_then_field(o1, "parentId"@, whole(parent as int), asked);
        with_then_field(o2, "backendNodeId"@, whole(id as int), asked);
        with_then_field(o3, "nodeType"@, whole(1), asked);
        with_then_field(o4, "nodeName"@, class_name, asked);
        with_then_field(o5, "localName"@, class_name, asked);
        with_then_field(o6, "nodeValue"@, JsonView::Text(""@), asked);
        with_then_field(o7, "attributes"@, text_array(attribute_texts(view)), asked);
        with_then_field(o8, "childNodeCount"@, whole(view.children.len() as int), asked);
    }
    let count = whole(view.children.len() as int);
    with_then_field(o8, "childNodeCount"@, count, "childNodeCount"@);
    if list.len() > 0 {
        with_then_field(o9, "children"@, JsonView::Array(list), "childNodeCount"@);
        with_then_field(o9, "children"@, JsonView::Array(list), "nodeId"@);
        with_then_field(o9, "children"@, JsonView::Array(list), "backendNodeId"@);
        with_then_field(o9, "children"@, JsonView::Array(list), "parentId"@);
        with_then_field(o9, "children"@, JsonView::Array(list), "nodeName"@);
        with_then_field(o9, "children"@, JsonView::Array(list), "children"@);
    }
}

proof fn node_names()
    ensures
        "nodeId"@ != "parentId"@,
        "nodeId"@ != "backendNodeId"@,
        "nodeId"@ != "nodeType"@,
        "nodeId"@ != "nodeName"@,
        "nodeId"@ != "localName"@,
        "nodeId"@ != "nodeValue"@,
        "nodeId"@ != "attributes"@,
        "nodeId"@ != "childNodeCount"@,
        "nodeId"@ != "children"@,
        "backendNodeId"@ != "parentId"@,
        "backendNodeId"@ != "nodeType"@,
        "backendNodeId"@ != "nodeName"@,
        "backendNodeId"@ != "localName"@,
        "backendNodeId"@ != "nodeValue"@,
        "backendNodeId"@ != "attributes"@,
        "backendNodeId"@ != "childNodeCount"@,
        "backendNodeId"@ != "children"@,
        "nodeName"@ != "parentId"@,
        "nodeName"@ != "nodeType"@,
        "nodeName"@ != "localName"@,
        "nodeName"@ != "nodeValue"@,
        "nodeName"@ != "attributes"@,
        "nodeName"@ != "childNodeCount"@,
        "nodeName"@ != "children"@,
        "children"@ != "parentId"@,
        "parentId"@ != "nodeType"@,
        "parentId"@ != "localName"@,
        "parentId"@ != "nodeValue"@,
        "parentId"@ != "attributes"@,
        "parentId"@ != "childNodeCount"@,
        "children"@ != "nodeType"@,
        "children"@ != "localName"@,
        "children"@ != "nodeValue"@,
        "children"@ != "attributes"@,
        "children"@ != "childNodeCount"@,
{
    reveal_strlit("nodeId");
    reveal_strlit("parentId");
    reveal_strlit("backendNodeId");
    reveal_strlit("nodeType");
    reveal_strlit("nodeName");
    reveal_strlit("localName");
    reveal_strlit("nodeValue");
    reveal_strlit("attributes");
    reveal_strlit("childNodeCount");
    reveal_strlit("children");
    assert("nodeId"@.len() == 6);
    assert("backendNodeId"@.len() == 13);
    assert("nodeName"@.len() == 8);
    assert("children"@.len() == 8);
    assert("parentId"@.len() == 8);
    assert("nodeType"@.len() == 8);
    assert("localName"@.len() == 9);
    assert("nodeValue"@.len() == 9);
    assert("attributes"@.len() == 10);
    assert("childNodeCount"@.len() == 14);
    assert("nodeName"@[0] == 'n');
    assert("nodeName"@[4] == 'N');
    assert("children"@[0] == 'c');
    assert("parentId"@[0] == 'p');
    assert("nodeType"@[0] == 'n');
    assert("nodeType"@[4] == 'T');
}

/// Every node of a walk bears an id under which its view is found, by this walk and by any that
/// goes on from it, as long as the ids do not run out.
pub proof fn node_tells_of_its_view(
    view: NodeView,
    parent: u64,
    depth: int,
    walk: Walk,
    later: Walk,
)
    requires
        walk.next + size(view) <= u64::MAX,
        goes_on(node_walk(view, parent, depth, walk).1, later),
    ensures
        tells_of(node_walk(view, parent, depth, walk).0, parent as int, view, later.table),
    decreases view, 0nat,
{
    let id = walk.next;
    let (node, after) = node_walk(view, parent, depth, walk);
    node_walk_is_fresh(view, parent, depth, walk);
    assert(after.table.contains_key(id));
    assert(later.table.contains_key(id));
    assert(later.table[id] == after.table[id]);
    if depth != 0 && walk.budget > 0 {
        let known = registered(walk, view);
        let paid = Walk { budget: known.budget - view.children.len(), ..known };
        let list = list_walk(view.children, id, depth_below(depth), paid).0;
        list_tells_of_its_views(view.children, id, depth_below(depth), paid, later);
        node_fields(view, id, parent, list);
    } else {
        node_fields(view, id, parent, seq![]);
    }
}

proof fn list_tells_of_its_views(
    list: Seq<NodeView>,
    parent: u64,
    depth: int,
    walk: Walk,
    later: Walk,
)
    requires
        walk.next + total(list) <= u64::MAX,
        goes_on(list_walk(list, parent, depth, walk).1, later),
    ensures
        all_tell_of(list_walk(list, parent, depth, walk).0, parent as int, list, later.table),
    decreases list, list.len(),
{
    if list.len() > 0 {
        let front = list.subrange(0, list.len() - 1);
        let (nodes, between) = list_walk(front, parent, depth, walk);
        let last = list[list.len() - 1];
        let (node, after) = node_walk(last, parent, depth, between);
        list_walk_is_fresh(front, parent, depth, walk);
        node_walk_is_fresh(last, parent, depth, between);
        assert forall|id: u64| #[trigger]
            later.table.contains_key(id) == (between.table.contains_key(id) || between.next <= id
                < later.next) by {
            assert(after.table.contains_key(id) == (between.table.contains_key(id)
                || between.next <= id < after.next));
        }
        assert forall|id: u64|
            between.table.contains_key(id) && !(between.next <= id < later.next) implies
            #[trigger] later.table[id] == between.table[id] by {
            assert(after.table.contains_key(id));
            assert(after.table[id] == between.table[id]);
        }
        list_tells_of_its_views(front, parent, depth, walk, later);
        node_tells_of_its_view(last, parent, depth, between, later);
        assert(nodes.push(node).drop_last() =~= nodes);
    }
}

/// The ids of a node and of every node below it, a node before its children.
pub open spec fn node_ids(node: JsonView) -> Seq<int>
    decreases node, 0nat,
    when true
    via node_ids_shrink
{
    let own = match node.unsigned_field("nodeId"@) {
        Some(id) => seq![id],
        None => seq![],
    };
    match node.field("children"@) {
        Some(JsonView::Array(list)) => own + list_ids(list),
        _ => own,
    }
}

/// The ids of the nodes of a list and of every node below them.
pub open spec fn list_ids(list: Seq<JsonView>) -> Seq<int>
    decreases list, list.len(),
{
    if list.len() == 0 {
        seq![]
    } else {
        list_ids(list.subrange(0, list.len() - 1)) + node_ids(list[list.len() - 1])
    }
}

#[via_fn]
proof fn node_ids_shrink(node: JsonView) {
    if node.field("children"@) matches Some(JsonView::Array(_)) {
        field_items_are_smaller(node, "children"@);
    }
}

/// The numbers from one up to another.
pub open spec fn counting(from: int, to: int) -> Seq<int> {
    Seq::new(
        (if from < to {
            to - from
        } else {
            0
        }) as nat,
        |i: int| from + i,
    )
}

/// A walk numbers its nodes in turn, a node before its children.
pub proof fn node_walk_counts(view: NodeView, parent: u64, depth: int, walk: Walk)
    requires
        walk.next + size(view) <= u64::MAX,
    ensures
        node_ids(node_walk(view, parent, depth, walk).0) == counting(
            walk.next as int,
            node_walk(view, parent, depth, walk).1.next as int,
        ),
    decreases view, 0nat,
{
    let id = walk.next;
    let (node, after) = node_walk(view, parent, depth, walk);
    if depth != 0 && walk.budget > 0 {
        let known = registered(walk, view);
        let paid = Walk { budget: known.budget - view.children.len(), ..known };
        let list = list_walk(view.children, id, depth_below(depth), paid).0;
        list_walk_counts(view.children, id, depth_below(depth), paid);
        list_walk_is_fresh(view.children, id, depth_below(depth), paid);
        node_fields(view, id, parent, list);
        if list.len() == 0 {
            assert(list_ids(list) =~= seq![]);
            assert(counting(paid.next as int, after.next as int).len() == 0);
        }
    } else {
        node_fields(view, id, parent, seq![]);
    }
    assert(node_ids(node) =~= counting(id as int, after.next as int));
}

proof fn list_walk_counts(list: Seq<NodeView>, parent: u64, depth: int, walk: Walk)
    requires
        walk.next + total(list) <= u64::MAX,
    ensures
        list_ids(list_walk(list, parent, depth, walk).0) == counting(
            walk.next as int,
            list_walk(list, parent, depth, walk).1.next as int,
        ),
    decreases list, list.len(),
{
    let (nodes, after) = list_walk(list, parent, depth, walk);
    if list.len() > 0 {
        let front = list.subrange(0, list.len() - 1);
        let last = list[list.len() - 1];
        let (earlier, between) = list_walk(front, parent, depth, walk);
        list_walk_is_fresh(front, parent, depth, walk);
        list_walk_counts(front, parent, depth, walk);
        node_walk_is_fresh(last, parent, depth, between);
        node_walk_counts(last, parent, depth, between);
        assert(nodes.subrange(0, nodes.len() - 1) =~= earlier);
        assert(list_ids(nodes) =~= counting(walk.next as int, after.next as int));
    } else {
        assert(list_ids(nodes) =~= counting(walk.next as int, after.next as int));
    }
}

/// The element tree of one connection.
pub struct DomDomain {
    nodes: dashmap::DashMap<u64, ViewNode>,
    next_node_id: u64,
    budget_spent: bool,
}

/// Rows of texts as a JSON object; of rows with the same title the last counts.
pub open spec fn row_object(rows: Seq<(Seq<char>, Seq<char>)>) -> JsonView
    decreases rows.len(),
{
    if rows.len() == 0 {
        no_entries()
    } else {
        row_object(rows.drop_last()).with(rows.last().0, JsonView::Text(rows.last().1))
    }
}

/// The object that stands for a view: its style as properties, under the name of its class.
pub open spec fn resolved(view: NodeView) -> JsonView {
    no_entries().with(
        "object"@,
        remote_view(row_object(style_texts(view))).with("subtype"@, JsonView::Text("node"@)).with(
            "className"@,
            JsonView::Text(view.class_name),
        ).with("description"@, JsonView::Text(view.class_name)),
    )
}

/// The four corners of a rectangle, clockwise from the top left, each by its two coordinates.
pub open spec fn quad(view: NodeView) -> JsonView {
    let f = view.frame;
    JsonView::Array(
        seq![f.x.json, f.y.json, f.right, f.y.json, f.right, f.bottom, f.x.json, f.bottom],
    )
}

/// The box of a view: the same rectangle for its content, padding, border and margin.
pub open spec fn box_model(view: NodeView) -> JsonView {
    no_entries().with(
        "model"@,
        no_entries().with("content"@, quad(view)).with("padding"@, quad(view)).with(
            "border"@,
            quad(view),
        ).with("margin"@, quad(view)).with("width"@, view.frame.width.json).with(
            "height"@,
            view.frame.height.json,
        ),
    )
}

/// The style of a view, as a list of properties.
pub open spec fn computed(view: NodeView) -> JsonView {
    let rows = style_texts(view);
    no_entries().with(
        "computedStyle"@,
        JsonView::Array(
            Seq::new(
                rows.len(),
                |i: int|
                    no_entries().with("name"@, JsonView::Text(rows[i].0)).with(
                        "value"@,
                        JsonView::Text(rows[i].1),
                    ),
            ),
        ),
    )
}

/// The document over the nodes below it.
pub open spec fn document(list: Seq<JsonView>) -> JsonView {
    no_entries().with(
        "root"@,
        no_entries().with("nodeId"@, whole(DOCUMENT_NODE_ID as int)).with(
            "backendNodeId"@,
            whole(DOCUMENT_NODE_ID as int),
        ).with("nodeType"@, whole(9)).with("nodeName"@, JsonView::Text("#document"@)).with(
            "localName"@,
            JsonView::Text(""@),
        ).with("nodeValue"@, JsonView::Text(""@)).with(
            "documentURL"@,
            JsonView::Text(MAIN_ORIGIN@),
        ).with("baseURL"@, JsonView::Text(MAIN_ORIGIN@)).with(
            "xmlVersion"@,
            JsonView::Text(""@),
        ).with("childNodeCount"@, whole(list.len() as int)).with(
            "children"@,
            JsonView::Array(list),
        ),
    )
}

/// The tree of frames: the document, and below it the place where user defaults are stored.
pub open spec fn resource_tree() -> JsonView {
    no_entries().with(
        "frameTree"@,
        no_entries().with(
            "frame"@,
            no_entries().with("id"@, JsonView::Text("1"@)).with(
                "loaderId"@,
                JsonView::Text("1"@),
            ).with("url"@, JsonView::Text(MAIN_ORIGIN@)).with(
                "securityOrigin"@,
                JsonView::Text(MAIN_ORIGIN@),
            ).with("mimeType"@, JsonView::Text("text/html"@)).with(
                "domainAndRegistry"@,
                JsonView::Text(""@),
            ),
        ).with("resources"@, JsonView::Array(seq![])).with(
            "childFrames"@,
            JsonView::Array(
                seq![
                    no_entries().with(
                        "frame"@,
                        no_entries().with("id"@, JsonView::Text(USERDEFAULTS_ORIGIN@)).with(
                            "parentId"@,
                            JsonView::Text("1"@),
                        ).with("loaderId"@, JsonView::Text("1"@)).with(
                            "name"@,
                            JsonView::Text(USERDEFAULTS_ORIGIN@),
                        ).with("url"@, JsonView::Text(USERDEFAULTS_ORIGIN@ + "/"@)).with(
                            "securityOrigin"@,
                            JsonView::Text(USERDEFAULTS_ORIGIN@),
                        ).with("mimeType"@, JsonView::Text("text/html"@)).with(
                            "domainAndRegistry"@,
                            JsonView::Text(""@),
                        ).with("secureContextType"@, JsonView::Text("Secure"@)).with(
                            "crossOriginIsolatedContextType"@,
                            JsonView::Text("NotIsolated"@),
                        ).with("gatedAPIFeatures"@, JsonView::Array(seq![])),
                    ).with("resources"@, JsonView::Array(seq![])),
                ],
            ),
        ),
    )
}

/// The manifest: none, and no errors about it.
pub open spec fn manifest() -> JsonView {
    no_entries().with("url"@, JsonView::Text(MAIN_ORIGIN@)).with(
        "errors"@,
        JsonView::Array(seq![]),
    )
}

/// The history: the one document.
pub open spec fn history() -> JsonView {
    no_entries().with("currentIndex"@, whole(0)).with(
        "entries"@,
        JsonView::Array(
            seq![
                no_entries().with("id"@, whole(1)).with("url"@, JsonView::Text(MAIN_ORIGIN@)).with(
                    "userTypedURL"@,
                    JsonView::Text(MAIN_ORIGIN@),
                ).with("title"@, JsonView::Text("Remo"@)).with(
                    "transitionType"@,
                    JsonView::Text("typed"@),
                ),
            ],
        ),
    )
}

/// The matching style rules: five empty lists.
pub open spec fn no_matched_styles() -> JsonView {
    no_entries().with("matchedCSSRules"@, JsonView::Array(seq![])).with(
        "pseudoElements"@,
        JsonView::Array(seq![]),
    ).with("inherited"@, JsonView::Array(seq![])).with(
        "inheritedPseudoElements"@,
        JsonView::Array(seq![]),
    ).with("cssKeyframesRules"@, JsonView::Array(seq![]))
}

/// The view that a request means: by its node id where there is one of that id, else by its
/// backend node id, which is the same number.
pub open spec fn meant(params: JsonView, table: Map<u64, NodeView>) -> Option<NodeView> {
    match params.unsigned_field("nodeId"@) {
        Some(id) if table.contains_key(id as u64) => Some(table[id as u64]),
        _ => match params.unsigned_field("backendNodeId"@) {
            Some(id) if table.contains_key(id as u64) => Some(table[id as u64]),
            _ => None,
        },
    }
}

/// The reply about the view that a request means.
pub open spec fn about(
    params: JsonView,
    table: Map<u64, NodeView>,
    reply: spec_fn(NodeView) -> JsonView,
) -> ReplyView {
    match meant(params, table) {
        Some(view) => ReplyView::Result(reply(view)),
        None => failure("no such node"@),
    }
}

/// The ids of a list that are known.
pub open spec fn known_ids(items: Seq<JsonView>, table: Map<u64, NodeView>) -> Seq<JsonView>
    decreases items.len(),
{
    if items.len() == 0 {
        seq![]
    } else {
        let front = known_ids(items.drop_last(), table);
        match items.last().unsigned() {
            Some(id) if table.contains_key(id as u64) => front.push(whole(id)),
            _ => front,
        }
    }
}

/// The ids that a request asks for.
pub open spec fn asked_ids(params: JsonView) -> Seq<JsonView> {
    match params.field("backendNodeIds"@) {
        Some(JsonView::Array(items)) => items,
        _ => seq![],
    }
}

/// The depth that a request asks for; without one the whole tree.
pub open spec fn asked_depth(params: JsonView) -> int {
    match params.field("depth"@) {
        Some(value) => match value.signed() {
            Some(depth) => depth,
            None => -1,
        },
        None => -1,
    }
}

/// The walk that a document starts with.
pub open spec fn fresh_walk() -> Walk {
    Walk {
        table: Map::empty(),
        next: FIRST_VIEW_NODE_ID,
        budget: MAX_EAGER_NODES as int,
    }
}

/// The document of a snapshot, and where the walk stands after it.
pub open spec fn document_walk(params: JsonView, snapshot: Option<NodeView>) -> (JsonView, Walk) {
    match snapshot {
        Some(view) => {
            let (node, after) = node_walk(
                view,
                DOCUMENT_NODE_ID,
                asked_depth(params),
                fresh_walk(),
            );
            (document(seq![node]), after)
        },
        None => (document(seq![]), fresh_walk()),
    }
}

/// The nodes of the children of a view, each walked one level deep with a budget of its own.
pub open spec fn level_walk(list: Seq<NodeView>, parent: u64, walk: Walk) -> (Seq<JsonView>, Walk)
    decreases list.len(),
{
    if list.len() == 0 {
        (seq![], walk)
    } else {
        let (front, between) = level_walk(list.drop_last(), parent, walk);
        let (last, after) = node_walk(
            list.last(),
            parent,
            1,
            Walk { budget: MAX_EAGER_NODES as int, ..between },
        );
        (front.push(last), after)
    }
}

/// The ids of a document are one for the document itself and then two, three and so on for its
/// views, a view before its children. Afterwards exactly the views have an id, and every view that
/// is listed is found under its own.
pub proof fn document_counts_its_views(params: JsonView, snapshot: Option<NodeView>)
    requires
        snapshot matches Some(view) ==> FIRST_VIEW_NODE_ID + size(view) <= u64::MAX,
    ensures
        document_walk(params, snapshot).0.field("root"@) matches Some(root) && node_ids(root)
            == counting(
            DOCUMENT_NODE_ID as int,
            document_walk(params, snapshot).1.next as int,
        ),
        forall|id: u64| #[trigger]
            document_walk(params, snapshot).1.table.contains_key(id) <==> FIRST_VIEW_NODE_ID <= id
                < document_walk(params, snapshot).1.next,
        snapshot matches Some(view) ==> tells_of(
            node_walk(view, DOCUMENT_NODE_ID, asked_depth(params), fresh_walk()).0,
            DOCUMENT_NODE_ID as int,
            view,
            document_walk(params, snapshot).1.table,
        ),
{
    let (reply, after) = document_walk(params, snapshot);
    let list = match snapshot {
        Some(view) => {
            let depth = asked_depth(params);
            let (node, done) = node_walk(view, DOCUMENT_NODE_ID, depth, fresh_walk());
            node_walk_counts(view, DOCUMENT_NODE_ID, depth, fresh_walk());
            node_walk_is_fresh(view, DOCUMENT_NODE_ID, depth, fresh_walk());
            node_tells_of_its_view(view, DOCUMENT_NODE_ID, depth, fresh_walk(), done);
            assert(seq![node].subrange(0, 0) =~= seq![]);
            assert(list_ids(seq![node].subrange(0, 0)) =~= seq![]);
            assert(list_ids(seq![node]) =~= node_ids(node));
            seq![node]
        },
        None => {
            assert(list_ids(seq![]) =~= seq![]);
            seq![]
        },
    };
    root_fields(list);
    let root = reply.field("root"@)->0;
    assert(node_ids(root) =~= counting(DOCUMENT_NODE_ID as int, after.next as int));
}

proof fn root_fields(list: Seq<JsonView>)
    ensures
        document(list).field("root"@) matches Some(root) && root.field("nodeId"@) == Some(
            whole(DOCUMENT_NODE_ID as int),
        ) && root.field("children"@) == Some(JsonView::Array(list)),
{
    root_names();
    let id = whole(DOCUMENT_NODE_ID as int);
    let nothing = JsonView::Text(""@);
    let origin = JsonView::Text(MAIN_ORIGIN@);
    let o1 = no_entries().with("nodeId"@, id);
    let o2 = o1.with("backendNodeId"@, id);
    let o3 = o2.with("nodeType"@, whole(9));
    let o4 = o3.with("nodeName"@, JsonView::Text("#document"@));
    let o5 = o4.with("localName"@, nothing);
    let o6 = o5.with("nodeValue"@, nothing);
    let o7 = o6.with("documentURL"@, origin);
    let o8 = o7.with("baseURL"@, origin);
    let o9 = o8.with("xmlVersion"@, nothing);
    let o10 = o9.with("childNodeCount"@, whole(list.len() as int));
    let root = o10.with("children"@, JsonView::Array(list));
    with_then_field(no_entries(), "nodeId"@, id, "nodeId"@);
    with_then_field(o1, "backendNodeId"@, id, "nodeId"@);
    with_then_field(o2, "nodeType"@, whole(9), "nodeId"@);
    with_then_field(o3, "nodeName"@, JsonView::Text("#document"@), "nodeId"@);
    with_then_field(o4, "localName"@, nothing, "nodeId"@);
    with_then_field(o5, "nodeValue"@, nothing, "nodeId"@);
    with_then_field(o6, "documentURL"@, origin, "nodeId"@);
    with_then_field(o7, "baseURL"@, origin, "nodeId"@);
    with_then_field(o8, "xmlVersion"@, nothing, "nodeId"@);
    with_then_field(o9, "childNodeCount"@, whole(list.len() as int), "nodeId"@);
    with_then_field(o10, "children"@, JsonView::Array(list), "nodeId"@);
    with_then_field(o10, "children"@, JsonView::Array(list), "children"@);
    with_then_field(no_entries(), "root"@, root, "root"@);
}

proof fn root_names()
    ensures
        "nodeId"@ != "documentURL"@,
        "nodeId"@ != "baseURL"@,
        "nodeId"@ != "xmlVersion"@,
        "nodeId"@ != "backendNodeId"@,
        "nodeId"@ != "nodeType"@,
        "nodeId"@ != "nodeName"@,
        "nodeId"@ != "localName"@,
        "nodeId"@ != "nodeValue"@,
        "nodeId"@ != "childNodeCount"@,
        "nodeId"@ != "children"@,
{
    node_names();
    reveal_strlit("nodeId");
    reveal_strlit("documentURL");
    reveal_strlit("baseURL");
    reveal_strlit("xmlVersion");
    assert("nodeId"@.len() == 6);
    assert("documentURL"@.len() == 11);
    assert("baseURL"@.len() == 7);
    assert("xmlVersion"@.len() == 10);
}

/// What was known before does not show in a document: of one snapshot, two documents are equal and
/// leave the same ids known.
pub proof fn document_forgets(
    params: JsonView,
    snapshot: Option<NodeView>,
    one: Walk,
    other: Walk,
)
    ensures
        dom_reply("DOM.getDocument"@, params, snapshot, one) == dom_reply(
            "DOM.getDocument"@,
            params,
            snapshot,
            other,
        ),
        dom_reply("DOM.getDocument"@, params, snapshot, one) == ReplyView::Result(
            document_walk(params, snapshot).0,
        ),
        dom_after("DOM.getDocument"@, params, snapshot, one) == dom_after(
            "DOM.getDocument"@,
            params,
            snapshot,
            other,
        ),
{
    dom_literals();
    assert(dom_methods()[3] == "DOM.getDocument"@);
}

/// Whether every id in a table is below the next one.
pub open spec fn known_below(table: Map<u64, NodeView>, next: u64) -> bool {
    forall|id: u64| #[trigger] table.contains_key(id) ==> id < next
}

/// Whether no id of a list is known.
pub open spec fn none_known(ids: Seq<int>, table: Map<u64, NodeView>) -> bool {
    forall|i: int|
        0 <= i < ids.len() ==> 0 <= #[trigger] ids[i] <= u64::MAX && !table.contains_key(
            ids[i] as u64,
        )
}

/// A walk gives ids that were not known before, as long as the known ids are below the next one
/// and the ids do not run out; afterwards the known ids are below the next one again.
pub proof fn node_walk_ids_are_new(view: NodeView, parent: u64, depth: int, walk: Walk)
    requires
        known_below(walk.table, walk.next),
        walk.next + size(view) <= u64::MAX,
    ensures
        none_known(node_ids(node_walk(view, parent, depth, walk).0), walk.table),
        known_below(
            node_walk(view, parent, depth, walk).1.table,
            node_walk(view, parent, depth, walk).1.next,
        ),
{
    node_walk_is_fresh(view, parent, depth, walk);
    node_walk_counts(view, parent, depth, walk);
}

proof fn level_walk_is_fresh(list: Seq<NodeView>, parent: u64, walk: Walk)
    requires
        known_below(walk.table, walk.next),
        walk.next + total(list) <= u64::MAX,
    ensures
        walk.next <= level_walk(list, parent, walk).1.next <= walk.next + total(list),
        known_below(level_walk(list, parent, walk).1.table, level_walk(list, parent, walk).1.next),
        list_ids(level_walk(list, parent, walk).0) == counting(
            walk.next as int,
            level_walk(list, parent, walk).1.next as int,
        ),
    decreases list.len(),
{
    let (nodes, after) = level_walk(list, parent, walk);
    if list.len() > 0 {
        let front = list.drop_last();
        let (earlier, between) = level_walk(front, parent, walk);
        level_walk_is_fresh(front, parent, walk);
        let start = Walk { budget: MAX_EAGER_NODES as int, ..between };
        node_walk_is_fresh(list.last(), parent, 1, start);
        node_walk_counts(list.last(), parent, 1, start);
        assert(nodes.subrange(0, nodes.len() - 1) =~= earlier);
    }
    assert(list_ids(nodes) =~= counting(walk.next as int, after.next as int));
}

/// Whether there are ids enough for the views that answering a request may reach.
pub open spec fn ids_suffice(
    method: Seq<char>,
    params: JsonView,
    snapshot: Option<NodeView>,
    walk: Walk,
) -> bool {
    if method == "DOM.getDocument"@ {
        snapshot matches Some(view) ==> FIRST_VIEW_NODE_ID + size(view) <= u64::MAX
    } else if method == "DOM.requestChildNodes"@ {
        asked_parent(params, walk.table) matches Some((id, parent)) ==> walk.next + total(
            parent.children,
        ) <= u64::MAX
    } else {
        true
    }
}

/// Whatever is asked, the known ids stay below the next one, as long as the ids do not run out. The
/// children that are announced get ids that were not known before, in turn.
pub proof fn answers_keep_ids_below(
    method: Seq<char>,
    params: JsonView,
    snapshot: Option<NodeView>,
    walk: Walk,
)
    requires
        known_below(walk.table, walk.next),
        ids_suffice(method, params, snapshot, walk),
    ensures
        known_below(
            dom_after(method, params, snapshot, walk).0,
            dom_after(method, params, snapshot, walk).1,
        ),
        method == "DOM.requestChildNodes"@ ==> (asked_parent(params, walk.table) matches Some(
            (id, parent),
        ) ==> list_ids(level_walk(parent.children, id, walk).0) == counting(
            walk.next as int,
            dom_after(method, params, snapshot, walk).1 as int,
        ) && none_known(list_ids(level_walk(parent.children, id, walk).0), walk.table)),
{
    dom_literals();
    if method == "DOM.getDocument"@ {
        if let Some(view) = snapshot {
            node_walk_is_fresh(view, DOCUMENT_NODE_ID, asked_depth(params), fresh_walk());
        }
    } else if method == "DOM.requestChildNodes"@ {
        if let Some((id, parent)) = asked_parent(params, walk.table) {
            level_walk_is_fresh(parent.children, id, walk);
        }
    }
}

/// A request by the id that a node bears means the view that the node tells of, whether it gives
/// the id as a node id or as a backend node id alone.
pub proof fn told_id_means_the_view(
    node: JsonView,
    parent: int,
    view: NodeView,
    table: Map<u64, NodeView>,
    params: JsonView,
)
    requires
        tells_of(node, parent, view, table),
        params.field("nodeId"@) == node.field("nodeId"@) || params.field("nodeId"@) is None
            && params.field("backendNodeId"@) == node.field("nodeId"@),
    ensures
        meant(params, table) == Some(view),
{
}

impl DomDomain {
    /// The view under each id.
    pub closed spec fn table(&self) -> Map<u64, NodeView> {
        views(self.nodes)
    }

    /// The next id.
    pub closed spec fn next_id(&self) -> u64 {
        self.next_node_id
    }

    /// Whether every known id is below the next one.
    pub open spec fn ids_below(&self) -> bool {
        known_below(self.table(), self.next_id())
    }

    /// Whether the last document spent its budget.
    pub closed spec fn spent(&self) -> bool {
        self.budget_spent
    }

    /// Whether the last document spent its budget, so that deeper levels have to be asked for.
    pub fn document_was_cut(&self) -> (cut: bool)
        ensures
            cut == self.spent(),
    {
        self.budget_spent
    }

    /// Where a walk would start with a budget.
    pub open spec fn walk(&self, budget: int) -> Walk {
        Walk { table: self.table(), next: self.next_id(), budget }
    }

    /// A domain that knows no views.
    pub fn new() -> (domain: DomDomain)
        ensures
            domain.table() == Map::<u64, NodeView>::empty(),
            domain.next_id() == FIRST_VIEW_NODE_ID,
            domain.ids_below(),
            !domain.spent(),
    {
        let domain = DomDomain {
            nodes: new_views(),
            next_node_id: FIRST_VIEW_NODE_ID,
            budget_spent: false,
        };
        assert(domain.table() =~= Map::<u64, NodeView>::empty());
        domain
    }

    /// The methods that the domain answers.
    pub fn methods(&self) -> (list: Vec<String>)
        ensures
            texts(list@) == dom_methods(),
    {
        let list = vec![
            "Page.getResourceTree".to_owned(),
            "Page.getAppManifest".to_owned(),
            "Page.getNavigationHistory".to_owned(),
            "DOM.getDocument".to_owned(),
            "DOM.requestChildNodes".to_owned(),
            "DOM.resolveNode".to_owned(),
            "DOM.getBoxModel".to_owned(),
            "DOM.pushNodesByBackendIdsToFrontend".to_owned(),
            "CSS.getComputedStyleForNode".to_owned(),
            "CSS.getMatchedStylesForNode".to_owned(),
            "CSS.getInlineStylesForNode".to_owned(),
            "Overlay.highlightNode".to_owned(),
            "Overlay.hideHighlight".to_owned(),
        ];
        assert(texts(list@) =~= dom_methods());
        list
    }

    /// Gives a view an id: one that is not known, as long as the known ids are below the next one.
    pub fn register(&mut self, node: &ViewNode) -> (id: u64)
        ensures
            old(self).ids_below() ==> !old(self).table().contains_key(id),
            old(self).ids_below() && id < u64::MAX ==> final(self).ids_below(),
            id == old(self).next_id(),
            final(self).table() == old(self).table().insert(id, node@),
            final(self).next_id() == id_after(id),
            final(self).spent() == old(self).spent(),
    {
        let id: u64 = self.next_node_id;
        self.next_node_id = if id == u64::MAX {
            0
        } else {
            id + 1
        };
        insert_view(&mut self.nodes, id, node.copy());
        id
    }

    /// The view under an id.
    pub fn lookup(&self, id: u64) -> (view: Option<ViewNode>)
        ensures
            view is Some == self.table().contains_key(id),
            view matches Some(v) ==> v@ == self.table()[id],
    {
        get_view(&self.nodes, id)
    }

    /// How many views have an id.
    pub fn known(&self) -> (count: usize)
        ensures
            count == self.table().dom().len(),
    {
        count_views(&self.nodes)
    }

    /// Forgets every view; ids start over.
    pub fn reset(&mut self)
        ensures
            final(self).table() == Map::<u64, NodeView>::empty(),
            final(self).next_id() == FIRST_VIEW_NODE_ID,
            final(self).ids_below(),
            !final(self).spent(),
    {
        clear_views(&mut self.nodes);
        self.next_node_id = FIRST_VIEW_NODE_ID;
        self.budget_spent = false;
        assert(self.table() =~= Map::<u64, NodeView>::empty());
    }

    /// The view that a request means.
    pub fn node_from_request(&self, params: &Json) -> (view: Option<ViewNode>)
        ensures
            view is Some == meant(params@, self.table()) is Some,
            view matches Some(v) ==> v@ == meant(params@, self.table())->0,
    {
        if let Some(id) = params.u64_field("nodeId") {
            if let Some(view) = self.lookup(id) {
                return Some(view);
            }
        }
        match params.u64_field("backendNodeId") {
            Some(id) => self.lookup(id),
            None => None,
        }
    }

    /// The node of a view: gives the view an id, and its children where the depth and the budget
    /// allow. A negative depth has no end; at depth zero only the number of children is told.
    pub fn node_json(
        &mut self,
        view: &ViewNode,
        parent_id: u64,
        depth: i64,
        budget: &mut i128,
    ) -> (node: Json)
        ensures
            node@ == node_walk(view@, parent_id, depth as int, old(self).walk(*old(budget) as int)).0,
            final(self).walk(*final(budget) as int) == node_walk(
                view@,
                parent_id,
                depth as int,
                old(self).walk(*old(budget) as int),
            ).1,
            old(self).ids_below() && old(self).next_id() + size(view@) <= u64::MAX
                ==> final(self).ids_below() && none_known(node_ids(node@), old(self).table()),
            final(self).spent() == old(self).spent(),
        decreases view,
    {
        proof {
            if self.ids_below() && self.next_id() + size(view@) <= u64::MAX {
                node_walk_ids_are_new(view@, parent_id, depth as int, self.walk(*budget as int));
            }
        }
        broadcast use children_tree;
        let ghost start = self.walk(*budget as int);
        let node_id = self.register(view);
        let mut children: Vec<Json> = Vec::new();
        assert(trees(children@) =~= seq![]);
        let ghost list = view@.children;
        if depth != 0 && *budget > 0 {
            *budget = *budget - view.children.len() as i128;
            let child_depth: i64 = if depth < 0 {
                depth
            } else {
                depth - 1
            };
            let ghost paid = self.walk(*budget as int);
            assert(paid == Walk {
                budget: start.budget - list.len(),
                ..registered(start, view@)
            });
            let mut i: usize = 0;
            assert(list.subrange(0, 0).len() == 0);
            while i < view.children.len()
                invariant
                    i <= view.children.len(),
                    list == view@.children,
                    list == node_trees(view.children@),
                    child_depth == depth_below(depth as int),
                    self.spent() == old(self).spent(),
                    (trees(children@), self.walk(*budget as int)) == list_walk(
                        list.subrange(0, i as int),
                        node_id,
                        child_depth as int,
                        paid,
                    ),
                decreases view.children.len() - i,
            {
                let ghost before = trees(children@);
                let ghost here = list.subrange(0, i + 1);
                assert(here.subrange(0, here.len() - 1) =~= list.subrange(0, i as int));
                assert(here[here.len() - 1] == view.children@[i as int]@);
                assert(decreases_to!(*view => view.children));
                assert(decreases_to!(view.children@ => view.children@[i as int]));
                let child = self.node_json(&view.children[i], node_id, child_depth, budget);
                children.push(child);
                assert(trees(children@) =~= before.push(child@));
                i = i + 1;
            }
            assert(list.subrange(0, i as int) =~= list);
        }
        let node = Json::empty().with("nodeId", Json::unsigned(node_id)).with(
            "parentId",
            Json::unsigned(parent_id),
        ).with("backendNodeId", Json::unsigned(node_id)).with("nodeType", Json::unsigned(1)).with(
            "nodeName",
            Json::text(view.class_name.as_str()),
        ).with("localName", Json::text(view.class_name.as_str())).with(
            "nodeValue",
            Json::text(""),
        ).with("attributes", array_of_texts(&attributes(view))).with(
            "childNodeCount",
            Json::unsigned(view.children.len() as u64),
        );
        assert(trees(children@).len() == children@.len());
        if children.len() > 0 {
            node.with("children", Json::array(children))
        } else {
            node
        }
    }
}

/// The attributes of a view: names and values in turn.
pub fn attributes(view: &ViewNode) -> (list: Vec<String>)
    ensures
        texts(list@) == attribute_texts(view@),
{
    let mut list: Vec<String> = Vec::new();
    if let Some(id) = &view.accessibility_id {
        if !id.as_str().is_empty() {
            push_text(&mut list, "id".to_owned());
            push_text(&mut list, id.clone());
        }
    }
    let ghost with_id = texts(list@);
    if view.is_hidden {
        push_text(&mut list, "hidden".to_owned());
        push_text(&mut list, "true".to_owned());
    }
    let ghost with_hidden = texts(list@);
    if view.alpha.translucent {
        push_text(&mut list, "alpha".to_owned());
        push_text(&mut list, view.alpha.text.clone());
    }
    let ghost with_alpha = texts(list@);
    push_text(&mut list, "frame".to_owned());
    let mut frame = joined3(view.frame.x.rounded.as_str(), ",", view.frame.y.rounded.as_str());
    frame.append(" ");
    frame.append(view.frame.width.rounded.as_str());
    frame.append("x");
    frame.append(view.frame.height.rounded.as_str());
    push_text(&mut list, frame);
    let ghost with_frame = texts(list@);
    assert(texts(view.modifiers@).len() == view.modifiers@.len());
    if view.modifiers.len() > 0 {
        push_text(&mut list, "modifiers".to_owned());
        push_text(&mut list, join_texts(&view.modifiers, ", "));
    }
    assert(texts(list@) =~= attribute_texts(view@));
    list
}

/// What a view shows as its style: its geometry, and the rows of a SwiftUI view.
pub fn computed_style(view: &ViewNode) -> (rows: Vec<(String, String)>)
    ensures
        row_texts(rows@) == style_texts(view@),
{
    broadcast use children_tree;
    let mut rows: Vec<(String, String)> = Vec::new();
    let visibility = if view.is_hidden {
        "hidden"
    } else {
        "visible"
    };
    push_row(&mut rows, "class".to_owned(), view.class_name.clone());
    push_row(&mut rows, "left".to_owned(), write_pixels(view.frame.x.whole));
    push_row(&mut rows, "top".to_owned(), write_pixels(view.frame.y.whole));
    push_row(&mut rows, "width".to_owned(), write_pixels(view.frame.width.whole));
    push_row(&mut rows, "height".to_owned(), write_pixels(view.frame.height.whole));
    push_row(&mut rows, "opacity".to_owned(), view.alpha.text.clone());
    push_row(&mut rows, "visibility".to_owned(), visibility.to_owned());
    push_row(&mut rows, "tag".to_owned(), write_signed(view.tag));
    push_row(&mut rows, "subviews".to_owned(), write_unsigned(view.children.len() as u64));
    let ghost geometry = row_texts(rows@);
    let ghost goal = style_texts(view@);
    assert(geometry =~= goal.take(9));
    let mut i: usize = 0;
    while i < view.style_rows.len()
        invariant
            i <= view.style_rows.len(),
            goal == style_texts(view@),
            goal.len() == 9 + view.style_rows@.len(),
            row_texts(rows@) == goal.take(9 + i),
        decreases view.style_rows.len() - i,
    {
        let title = joined("--swiftui-", view.style_rows[i].0.as_str());
        let value = view.style_rows[i].1.clone();
        assert(goal[9 + i] == (title@, value@));
        push_row(&mut rows, title, value);
        assert(goal.take(9 + i).push(goal[9 + i]) =~= goal.take(9 + i + 1));
        i = i + 1;
    }
    assert(goal.take(9 + i) =~= goal);
    rows
}

fn write_pixels(length: i64) -> (text: String)
    ensures
        text@ == pixels(length as int),
{
    joined(write_signed(length).as_str(), "px")
}

fn object_of_rows(rows: &Vec<(String, String)>) -> (object: Json)
    ensures
        object@ == row_object(row_texts(rows@)),
{
    let ghost all = row_texts(rows@);
    let mut object = Json::empty();
    let mut i: usize = 0;
    while i < rows.len()
        invariant
            i <= rows.len(),
            all == row_texts(rows@),
            object@ == row_object(all.take(i as int)),
        decreases rows.len() - i,
    {
        assert(all.take(i + 1).drop_last() =~= all.take(i as int));
        object = object.with(rows[i].0.as_str(), Json::text(rows[i].1.as_str()));
        i = i + 1;
    }
    assert(all.take(i as int) =~= all);
    object
}

fn no_items() -> (array: Json)
    ensures
        array@ == JsonView::Array(seq![]),
{
    let items: Vec<Json> = Vec::new();
    assert(trees(items@) =~= seq![]);
    Json::array(items)
}

fn make_quad(view: &ViewNode) -> (corners: Json)
    ensures
        corners@ == quad(view@),
{
    let f = &view.frame;
    let items = vec![
        f.x.json.copy(),
        f.y.json.copy(),
        f.right.copy(),
        f.y.json.copy(),
        f.right.copy(),
        f.bottom.copy(),
        f.x.json.copy(),
        f.bottom.copy(),
    ];
    assert(trees(items@) =~= quad(view@)->Array_0);
    Json::array(items)
}

fn make_resource_tree() -> (json: Json)
    ensures
        json@ == resource_tree(),
{
    let child = Json::empty().with("id", Json::text(USERDEFAULTS_ORIGIN)).with(
        "parentId",
        Json::text("1"),
    ).with("loaderId", Json::text("1")).with("name", Json::text(USERDEFAULTS_ORIGIN)).with(
        "url",
        Json::Text(joined(USERDEFAULTS_ORIGIN, "/")),
    ).with("securityOrigin", Json::text(USERDEFAULTS_ORIGIN)).with(
        "mimeType",
        Json::text("text/html"),
    ).with("domainAndRegistry", Json::text("")).with(
        "secureContextType",
        Json::text("Secure"),
    ).with("crossOriginIsolatedContextType", Json::text("NotIsolated")).with(
        "gatedAPIFeatures",
        no_items(),
    );
    let child_frames = vec![Json::empty().with("frame", child).with("resources", no_items())];
    let main = Json::empty().with("id", Json::text("1")).with("loaderId", Json::text("1")).with(
        "url",
        Json::text(MAIN_ORIGIN),
    ).with("securityOrigin", Json::text(MAIN_ORIGIN)).with(
        "mimeType",
        Json::text("text/html"),
    ).with("domainAndRegistry", Json::text(""));
    let json = Json::empty().with(
        "frameTree",
        Json::empty().with("frame", main).with("resources", no_items()).with(
            "childFrames",
            Json::array(child_frames),
        ),
    );
    assert(trees(child_frames@) =~= seq![child_frames@[0]@]);
    json
}

fn make_history() -> (json: Json)
    ensures
        json@ == history(),
{
    let entries = vec![
        Json::empty().with("id", Json::unsigned(1)).with("url", Json::text(MAIN_ORIGIN)).with(
            "userTypedURL",
            Json::text(MAIN_ORIGIN),
        ).with("title", Json::text("Remo")).with("transitionType", Json::text("typed")),
    ];
    assert(trees(entries@) =~= seq![entries@[0]@]);
    Json::empty().with("currentIndex", Json::unsigned(0)).with("entries", Json::array(entries))
}

fn make_document(list: Vec<Json>) -> (json: Json)
    ensures
        json@ == document(trees(list@)),
{
    assert(trees(list@).len() == list@.len());
    let count = Json::unsigned(list.len() as u64);
    Json::empty().with(
        "root",
        Json::empty().with("nodeId", Json::unsigned(DOCUMENT_NODE_ID)).with(
            "backendNodeId",
            Json::unsigned(DOCUMENT_NODE_ID),
        ).with("nodeType", Json::unsigned(9)).with("nodeName", Json::text("#document")).with(
            "localName",
            Json::text(""),
        ).with("nodeValue", Json::text("")).with("documentURL", Json::text(MAIN_ORIGIN)).with(
            "baseURL",
            Json::text(MAIN_ORIGIN),
        ).with("xmlVersion", Json::text("")).with("childNodeCount", count).with(
            "children",
            Json::array(list),
        ),
    )
}

/// A snapshot that may be missing.
pub open spec fn snapshot_view(snapshot: Option<ViewNode>) -> Option<NodeView> {
    match snapshot {
        Some(view) => Some(view@),
        None => None,
    }
}

/// The reply to a request. `snapshot` is the view hierarchy at the time of the request, and `walk`
/// holds the ids that were given before it.
pub open spec fn dom_reply(
    method: Seq<char>,
    params: JsonView,
    snapshot: Option<NodeView>,
    walk: Walk,
) -> ReplyView {
    if method == "Page.getResourceTree"@ {
        ReplyView::Result(resource_tree())
    } else if method == "Page.getAppManifest"@ {
        ReplyView::Result(manifest())
    } else if method == "Page.getNavigationHistory"@ {
        ReplyView::Result(history())
    } else if method == "DOM.getDocument"@ {
        ReplyView::Result(document_walk(params, snapshot).0)
    } else if method == "DOM.requestChildNodes"@ {
        ReplyView::Result(no_entries())
    } else if method == "DOM.resolveNode"@ {
        about(params, walk.table, |view: NodeView| resolved(view))
    } else if method == "DOM.getBoxModel"@ {
        about(params, walk.table, |view: NodeView| box_model(view))
    } else if method == "DOM.pushNodesByBackendIdsToFrontend"@ {
        ReplyView::Result(
            no_entries().with(
                "nodeIds"@,
                JsonView::Array(known_ids(asked_ids(params), walk.table)),
            ),
        )
    } else if method == "CSS.getComputedStyleForNode"@ {
        about(params, walk.table, |view: NodeView| computed(view))
    } else if method == "CSS.getMatchedStylesForNode"@ {
        ReplyView::Result(no_matched_styles())
    } else if method == "CSS.getInlineStylesForNode"@ || method == "Overlay.highlightNode"@
        || method == "Overlay.hideHighlight"@ {
        ReplyView::Result(no_entries())
    } else {
        failure("unhandled method: "@ + method)
    }
}

/// The parent whose children a request asks for, with its id.
pub open spec fn asked_parent(params: JsonView, table: Map<u64, NodeView>) -> Option<
    (u64, NodeView),
> {
    match params.unsigned_field("nodeId"@) {
        Some(id) if table.contains_key(id as u64) => Some((id as u64, table[id as u64])),
        _ => None,
    }
}

/// The ids after a request.
pub open spec fn dom_after(
    method: Seq<char>,
    params: JsonView,
    snapshot: Option<NodeView>,
    walk: Walk,
) -> (Map<u64, NodeView>, u64) {
    if method == "DOM.getDocument"@ {
        let after = document_walk(params, snapshot).1;
        (after.table, after.next)
    } else if method == "DOM.requestChildNodes"@ {
        match asked_parent(params, walk.table) {
            Some((id, parent)) => {
                let after = level_walk(parent.children, id, walk).1;
                (after.table, after.next)
            },
            None => (walk.table, walk.next),
        }
    } else {
        (walk.table, walk.next)
    }
}

/// The events of a request.
pub open spec fn dom_events(method: Seq<char>, params: JsonView, walk: Walk) -> Seq<JsonView> {
    if method == "DOM.requestChildNodes"@ {
        match asked_parent(params, walk.table) {
            Some((id, parent)) => seq![
                event_frame(
                    "DOM.setChildNodes"@,
                    no_entries().with("parentId"@, whole(id as int)).with(
                        "nodes"@,
                        JsonView::Array(level_walk(parent.children, id, walk).0),
                    ),
                ),
            ],
            None => seq![],
        }
    } else {
        seq![]
    }
}

impl DomDomain {
    /// Answers `DOM.getDocument` from a snapshot: forgets what was known, and lists the tree as
    /// far as the depth and the budget allow.
    pub fn get_document(&mut self, params: &Json, snapshot: Option<ViewNode>) -> (reply: CdpReply)
        ensures
            reply@ == ReplyView::Result(document_walk(params@, snapshot_view(snapshot)).0),
            final(self).table() == document_walk(params@, snapshot_view(snapshot)).1.table,
            final(self).next_id() == document_walk(params@, snapshot_view(snapshot)).1.next,
            final(self).spent() == (document_walk(params@, snapshot_view(snapshot)).1.budget <= 0),
    {
        let depth: i64 = match params.get("depth") {
            Some(value) => match value.as_i64() {
                Some(depth) => depth,
                None => -1,
            },
            None => -1,
        };
        self.reset();
        let mut budget: i128 = MAX_EAGER_NODES;
        let mut list: Vec<Json> = Vec::new();
        assert(trees(list@) =~= seq![]);
        assert(self.walk(budget as int) == fresh_walk());
        if let Some(view) = &snapshot {
            let node = self.node_json(view, DOCUMENT_NODE_ID, depth, &mut budget);
            list.push(node);
            assert(trees(list@) =~= seq![node@]);
            let ghost after = self.walk(budget as int);
            assert(after == node_walk(
                view@,
                DOCUMENT_NODE_ID,
                asked_depth(params@),
                fresh_walk(),
            ).1);
        }
        self.budget_spent = budget <= 0;
        CdpReply::ok(make_document(list))
    }

    /// Answers `DOM.requestChildNodes`: the nodes are an event, the reply is empty even where the
    /// parent is not known.
    pub fn request_child_nodes(&mut self, params: &Json, events: &mut EventSink) -> (reply:
        CdpReply)
        ensures
            reply@ == ReplyView::Result(no_entries()),
            final(self).spent() == old(self).spent(),
            (final(self).table(), final(self).next_id()) == dom_after(
                "DOM.requestChildNodes"@,
                params@,
                None,
                old(self).walk(0),
            ),
            final(events)@ == old(events)@ + dom_events(
                "DOM.requestChildNodes"@,
                params@,
                old(self).walk(0),
            ),
    {
        broadcast use children_tree;
        proof {
            reveal_strlit("DOM.requestChildNodes");
            reveal_strlit("DOM.getDocument");
            assert("DOM.requestChildNodes"@.len() == 21);
            assert("DOM.getDocument"@.len() == 15);
            assert(events@ + Seq::<JsonView>::empty() =~= events@);
        }
        let ghost start = self.walk(0);
        if let Some(parent_id) = params.u64_field("nodeId") {
            if let Some(parent) = self.lookup(parent_id) {
                let ghost list = parent@.children;
                let mut nodes: Vec<Json> = Vec::new();
                assert(trees(nodes@) =~= seq![]);
                let mut i: usize = 0;
                let ghost mut left: int = 0;
                while i < parent.children.len()
                    invariant
                        i <= parent.children.len(),
                        list == node_trees(parent.children@),
                        self.spent() == old(self).spent(),
                        (trees(nodes@), self.walk(left)) == level_walk(
                            list.take(i as int),
                            parent_id,
                            start,
                        ),
                    decreases parent.children.len() - i,
                {
                    let ghost before = trees(nodes@);
                    let ghost here = list.take(i + 1);
                    assert(here.drop_last() =~= list.take(i as int));
                    assert(here.last() == parent.children@[i as int]@);
                    let mut budget: i128 = MAX_EAGER_NODES;
                    let ghost between = self.walk(left);
                    assert(self.walk(budget as int) == Walk {
                        budget: MAX_EAGER_NODES as int,
                        ..between
                    });
                    let node = self.node_json(&parent.children[i], parent_id, 1, &mut budget);
                    proof {
                        left = budget as int;
                    }
                    nodes.push(node);
                    assert(trees(nodes@) =~= before.push(node@));
                    i = i + 1;
                }
                assert(list.take(i as int) =~= list);
                let ghost before = events@;
                events.emit(
                    "DOM.setChildNodes",
                    Json::empty().with("parentId", Json::unsigned(parent_id)).with(
                        "nodes",
                        Json::array(nodes),
                    ),
                );
                assert(events@ =~= before + seq![events@.last()]);
            }
        }
        CdpReply::empty()
    }

    /// Answers `DOM.resolveNode`.
    pub fn resolve_node(&self, params: &Json) -> (reply: CdpReply)
        ensures
            reply@ == about(params@, self.table(), |view: NodeView| resolved(view)),
    {
        match self.node_from_request(params) {
            None => CdpReply::error("no such node".to_owned()),
            Some(view) => {
                let described = object_of_rows(&computed_style(&view));
                let object = remote_object(&described).with("subtype", Json::text("node")).with(
                    "className",
                    Json::text(view.class_name.as_str()),
                ).with("description", Json::text(view.class_name.as_str()));
                CdpReply::ok(Json::empty().with("object", object))
            },
        }
    }

    /// Answers `DOM.getBoxModel`.
    pub fn get_box_model(&self, params: &Json) -> (reply: CdpReply)
        ensures
            reply@ == about(params@, self.table(), |view: NodeView| box_model(view)),
    {
        match self.node_from_request(params) {
            None => CdpReply::error("no such node".to_owned()),
            Some(view) => CdpReply::ok(
                Json::empty().with(
                    "model",
                    Json::empty().with("content", make_quad(&view)).with(
                        "padding",
                        make_quad(&view),
                    ).with("border", make_quad(&view)).with("margin", make_quad(&view)).with(
                        "width",
                        view.frame.width.json.copy(),
                    ).with("height", view.frame.height.json.copy()),
                ),
            ),
        }
    }

    /// Answers `DOM.pushNodesByBackendIdsToFrontend`: of the ids asked for, those that are known.
    pub fn push_nodes_by_backend_ids(&self, params: &Json) -> (reply: CdpReply)
        ensures
            reply@ == ReplyView::Result(
                no_entries().with(
                    "nodeIds"@,
                    JsonView::Array(known_ids(asked_ids(params@), self.table())),
                ),
            ),
    {
        let mut ids: Vec<Json> = Vec::new();
        assert(trees(ids@) =~= seq![]);
        if let Some(value) = params.get("backendNodeIds") {
            if let Some(items) = value.as_array() {
                let ghost all = trees(items@);
                let mut i: usize = 0;
                while i < items.len()
                    invariant
                        i <= items.len(),
                        all == trees(items@),
                        trees(ids@) == known_ids(all.take(i as int), self.table()),
                    decreases items.len() - i,
                {
                    let ghost before = trees(ids@);
                    assert(all.take(i + 1).drop_last() =~= all.take(i as int));
                    assert(all.take(i + 1).last() == items@[i as int]@);
                    if let Some(id) = items[i].as_u64() {
                        if has_view(&self.nodes, id) {
                            let number = Json::unsigned(id);
                            ids.push(number);
                            assert(trees(ids@) =~= before.push(number@));
                        }
                    }
                    i = i + 1;
                }
                assert(all.take(i as int) =~= all);
            }
        }
        CdpReply::ok(Json::empty().with("nodeIds", Json::array(ids)))
    }

    /// Answers `CSS.getComputedStyleForNode`.
    pub fn get_computed_style_for_node(&self, params: &Json) -> (reply: CdpReply)
        ensures
            reply@ == about(params@, self.table(), |view: NodeView| computed(view)),
    {
        match self.node_from_request(params) {
            None => CdpReply::error("no such node".to_owned()),
            Some(view) => {
                let rows = computed_style(&view);
                let ghost all = row_texts(rows@);
                let mut style: Vec<Json> = Vec::new();
                let mut i: usize = 0;
                while i < rows.len()
                    invariant
                        i <= rows.len(),
                        all == row_texts(rows@),
                        style@.len() == i,
                        forall|j: int|
                            0 <= j < i ==> (#[trigger] style@[j])@ == no_entries().with(
                                "name"@,
                                JsonView::Text(all[j].0),
                            ).with("value"@, JsonView::Text(all[j].1)),
                    decreases rows.len() - i,
                {
                    style.push(
                        Json::empty().with("name", Json::text(rows[i].0.as_str())).with(
                            "value",
                            Json::text(rows[i].1.as_str()),
                        ),
                    );
                    i = i + 1;
                }
                let ghost goal = Seq::new(
                    all.len(),
                    |i: int|
                        no_entries().with("name"@, JsonView::Text(all[i].0)).with(
                            "value"@,
                            JsonView::Text(all[i].1),
                        ),
                );
                assert(trees(style@) =~= goal);
                CdpReply::ok(Json::empty().with("computedStyle", Json::array(style)))
            },
        }
    }

    /// Whether answering a request takes a snapshot of the view hierarchy.
    pub fn needs_snapshot(method: &str) -> (yes: bool)
        ensures
            yes == (method@ == "DOM.getDocument"@),
    {
        same_text(method, "DOM.getDocument")
    }

    /// Answers a request. `snapshot` is the view hierarchy at the time of the request; only
    /// `DOM.getDocument` looks at it.
    pub fn respond(
        &mut self,
        request: &CdpRequest,
        snapshot: Option<ViewNode>,
        events: &mut EventSink,
    ) -> (reply: CdpReply)
        ensures
            reply@ == dom_reply(
                request.method@,
                request.params@,
                snapshot_view(snapshot),
                old(self).walk(0),
            ),
            (final(self).table(), final(self).next_id()) == dom_after(
                request.method@,
                request.params@,
                snapshot_view(snapshot),
                old(self).walk(0),
            ),
            final(events)@ == old(events)@ + dom_events(
                request.method@,
                request.params@,
                old(self).walk(0),
            ),
            final(self).spent() == (if request.method@ == "DOM.getDocument"@ {
                document_walk(request.params@, snapshot_view(snapshot)).1.budget <= 0
            } else {
                old(self).spent()
            }),
            old(self).ids_below() && ids_suffice(
                request.method@,
                request.params@,
                snapshot_view(snapshot),
                old(self).walk(0),
            ) ==> final(self).ids_below(),
    {
        proof {
            let before = self.walk(0);
            let view = snapshot_view(snapshot);
            if self.ids_below() && ids_suffice(request.method@, request.params@, view, before) {
                answers_keep_ids_below(request.method@, request.params@, view, before);
            }
        }
        let method = request.method.as_str();
        let params = &request.params;
        proof {
            dom_literals();
            assert(events@ + Seq::<JsonView>::empty() =~= events@);
        }
        if same_text(method, "Page.getResourceTree") {
            CdpReply::ok(make_resource_tree())
        } else if same_text(method, "Page.getAppManifest") {
            CdpReply::ok(
                Json::empty().with("url", Json::text(MAIN_ORIGIN)).with("errors", no_items()),
            )
        } else if same_text(method, "Page.getNavigationHistory") {
            CdpReply::ok(make_history())
        } else if same_text(method, "DOM.getDocument") {
            self.get_document(params, snapshot)
        } else if same_text(method, "DOM.requestChildNodes") {
            self.request_child_nodes(params, events)
        } else if same_text(method, "DOM.resolveNode") {
            self.resolve_node(params)
        } else if same_text(method, "DOM.getBoxModel") {
            self.get_box_model(params)
        } else if same_text(method, "DOM.pushNodesByBackendIdsToFrontend") {
            self.push_nodes_by_backend_ids(params)
        } else if same_text(method, "CSS.getComputedStyleForNode") {
            self.get_computed_style_for_node(params)
        } else if same_text(method, "CSS.getMatchedStylesForNode") {
            CdpReply::ok(
                Json::empty().with("matchedCSSRules", no_items()).with(
                    "pseudoElements",
                    no_items(),
                ).with("inherited", no_items()).with("inheritedPseudoElements", no_items()).with(
                    "cssKeyframesRules",
                    no_items(),
                ),
            )
        } else if same_text(method, "CSS.getInlineStylesForNode") || same_text(
            method,
            "Overlay.highlightNode",
        ) || same_text(method, "Overlay.hideHighlight") {
            CdpReply::empty()
        } else {
            CdpReply::error(joined("unhandled method: ", method))
        }
    }
}

/// The methods that change what is known differ from the ones that do not.
proof fn dom_literals()
    ensures
        "DOM.getDocument"@ != "DOM.requestChildNodes"@,
        forall|i: int|
            0 <= i < dom_methods().len() && i != 3 && i != 4 ==> #[trigger] dom_methods()[i]
                != "DOM.getDocument"@ && dom_methods()[i] != "DOM.requestChildNodes"@,
        dom_methods()[0] == "Page.getResourceTree"@,
        dom_methods()[1] == "Page.getAppManifest"@,
        dom_methods()[2] == "Page.getNavigationHistory"@,
{
    reveal_strlit("DOM.getDocument");
    reveal_strlit("DOM.requestChildNodes");
    reveal_strlit("Page.getResourceTree");
    reveal_strlit("Page.getAppManifest");
    reveal_strlit("Page.getNavigationHistory");
    reveal_strlit("DOM.resolveNode");
    reveal_strlit("DOM.getBoxModel");
    reveal_strlit("DOM.pushNodesByBackendIdsToFrontend");
    reveal_strlit("CSS.getComputedStyleForNode");
    reveal_strlit("CSS.getMatchedStylesForNode");
    reveal_strlit("CSS.getInlineStylesForNode");
    reveal_strlit("Overlay.highlightNode");
    reveal_strlit("Overlay.hideHighlight");
    assert("DOM.getDocument"@[0] == 'D');
    assert("DOM.getDocument"@.len() == 15);
    assert("DOM.requestChildNodes"@[0] == 'D');
    assert("DOM.requestChildNodes"@.len() == 21);
    assert("DOM.getDocument"@[4] == 'g');
    assert("DOM.resolveNode"@[4] == 'r');
    assert("DOM.getDocument"@[7] == 'D');
    assert("DOM.getBoxModel"@[7] == 'B');
    assert("DOM.resolveNode"@.len() == 15);
    assert("DOM.getBoxModel"@.len() == 15);
    assert("DOM.pushNodesByBackendIdsToFrontend"@.len() == 35);
    assert("Page.getResourceTree"@[0] == 'P');
    assert("Page.getAppManifest"@[0] == 'P');
    assert("Page.getNavigationHistory"@[0] == 'P');
    assert("CSS.getComputedStyleForNode"@[0] == 'C');
    assert("CSS.getMatchedStylesForNode"@[0] == 'C');
    assert("CSS.getInlineStylesForNode"@[0] == 'C');
    assert("Overlay.highlightNode"@[0] == 'O');
    assert("Overlay.hideHighlight"@[0] == 'O');
}

/// The methods that the domain answers.
pub open spec fn dom_methods() -> Seq<Seq<char>> {
    seq![
        "Page.getResourceTree"@,
        "Page.getAppManifest"@,
        "Page.getNavigationHistory"@,
        "DOM.getDocument"@,
        "DOM.requestChildNodes"@,
        "DOM.resolveNode"@,
        "DOM.getBoxModel"@,
        "DOM.pushNodesByBackendIdsToFrontend"@,
        "CSS.getComputedStyleForNode"@,
        "CSS.getMatchedStylesForNode"@,
        "CSS.getInlineStylesForNode"@,
        "Overlay.highlightNode"@,
        "Overlay.hideHighlight"@,
    ]
}

impl Default for DomDomain {
    fn default() -> (domain: DomDomain)
        ensures
            domain.table() == Map::<u64, NodeView>::empty(),
            domain.next_id() == FIRST_VIEW_NODE_ID,
            domain.ids_below(),
            !domain.spent(),
    {
        DomDomain::new()
    }
}

/// The value behind a name, in a list of names and values in turn.
pub open spec fn attribute_of(list: Seq<Seq<char>>, name: Seq<char>) -> Option<Seq<char>>
    decreases list.len(),
{
    if list.len() < 2 {
        None
    } else if list[0] == name {
        Some(list[1])
    } else {
        attribute_of(list.skip(2), name)
    }
}

proof fn attributes_add_up(pair: Seq<Seq<char>>, rest: Seq<Seq<char>>, name: Seq<char>)
    requires
        pair.len() == 2 || pair.len() == 0,
    ensures
        pair.len() == 2 ==> attribute_of(pair + rest, name) == (if pair[0] == name {
            Some(pair[1])
        } else {
            attribute_of(rest, name)
        }),
        pair.len() == 0 ==> attribute_of(pair + rest, name) == attribute_of(rest, name),
{
    if pair.len() == 2 {
        assert((pair + rest).skip(2) =~= rest);
    } else {
        assert(pair + rest =~= rest);
    }
}

/// The attributes of a view are names and values in turn. A view is marked hidden exactly where it
/// is hidden, has an id exactly where it has one that is not empty, an opacity exactly where it is
/// translucent and modifiers exactly where it has any; it always has its frame: place and size.
pub proof fn attributes_tell_of_the_view(view: NodeView)
    ensures
        attribute_texts(view).len() % 2 == 0,
        attribute_of(attribute_texts(view), "hidden"@) == (if view.is_hidden {
            Some("true"@)
        } else {
            None
        }),
        attribute_of(attribute_texts(view), "id"@) == (match view.accessibility_id {
            Some(id) => if id.len() > 0 {
                Some(id)
            } else {
                None
            },
            None => None,
        }),
        attribute_of(attribute_texts(view), "alpha"@) == (if view.alpha.translucent {
            Some(view.alpha.text)
        } else {
            None
        }),
        attribute_of(attribute_texts(view), "frame"@) == Some(
            view.frame.x.rounded + seq![','] + view.frame.y.rounded + seq![' ']
                + view.frame.width.rounded + seq!['x'] + view.frame.height.rounded,
        ),
        attribute_of(attribute_texts(view), "modifiers"@) == (if view.modifiers.len() > 0 {
            Some(join(view.modifiers, seq![',', ' ']))
        } else {
            None
        }),
        !view.is_hidden ==> forall|i: int|
            0 <= i < attribute_texts(view).len() && i % 2 == 0 ==> #[trigger] attribute_texts(
                view,
            )[i] != "hidden"@,
{
    attribute_names();
    reveal_strlit(",");
    reveal_strlit(" ");
    reveal_strlit("x");
    reveal_strlit(", ");
    assert(","@ =~= seq![',']);
    assert(" "@ =~= seq![' ']);
    assert("x"@ =~= seq!['x']);
    assert(", "@ =~= seq![',', ' ']);
    let none = Seq::<Seq<char>>::empty();
    let id = match view.accessibility_id {
        Some(id) => if id.len() > 0 {
            seq!["id"@, id]
        } else {
            none
        },
        None => none,
    };
    let hidden = if view.is_hidden {
        seq!["hidden"@, "true"@]
    } else {
        none
    };
    let alpha = if view.alpha.translucent {
        seq!["alpha"@, view.alpha.text]
    } else {
        none
    };
    let text = view.frame.x.rounded + ","@ + view.frame.y.rounded + " "@
        + view.frame.width.rounded + "x"@ + view.frame.height.rounded;
    let frame = seq!["frame"@, text];
    let modifiers = if view.modifiers.len() > 0 {
        seq!["modifiers"@, join(view.modifiers, ", "@)]
    } else {
        none
    };
    let r4 = modifiers + none;
    let r3 = frame + r4;
    let r2 = alpha + r3;
    let r1 = hidden + r2;
    assert(attribute_texts(view) =~= id + r1);
    assert forall|name: Seq<char>| #[trigger] attribute_of(id + r1, name) == (if id.len() == 2
        && name == "id"@ {
        Some(id[1])
    } else if hidden.len() == 2 && name == "hidden"@ {
        Some("true"@)
    } else if alpha.len() == 2 && name == "alpha"@ {
        Some(view.alpha.text)
    } else if name == "frame"@ {
        Some(text)
    } else if modifiers.len() == 2 && name == "modifiers"@ {
        Some(modifiers[1])
    } else {
        None
    }) by {
        attributes_add_up(id, r1, name);
        attributes_add_up(hidden, r2, name);
        attributes_add_up(alpha, r3, name);
        attributes_add_up(frame, r4, name);
        attributes_add_up(modifiers, none, name);
    }
    if !view.is_hidden {
        no_name_at_even_places(attribute_texts(view), "hidden"@);
    }
}

proof fn no_name_at_even_places(list: Seq<Seq<char>>, name: Seq<char>)
    requires
        attribute_of(list, name) is None,
        list.len() % 2 == 0,
    ensures
        forall|i: int| 0 <= i < list.len() && i % 2 == 0 ==> #[trigger] list[i] != name,
    decreases list.len(),
{
    if list.len() >= 2 {
        no_name_at_even_places(list.skip(2), name);
        assert forall|i: int| 0 <= i < list.len() && i % 2 == 0 implies #[trigger] list[i]
            != name by {
            if i >= 2 {
                assert(list.skip(2)[i - 2] == list[i]);
            }
        }
    }
}

proof fn attribute_names()
    ensures
        "id"@ != "hidden"@,
        "id"@ != "alpha"@,
        "id"@ != "frame"@,
        "id"@ != "modifiers"@,
        "hidden"@ != "alpha"@,
        "hidden"@ != "frame"@,
        "hidden"@ != "modifiers"@,
        "alpha"@ != "frame"@,
        "alpha"@ != "modifiers"@,
        "frame"@ != "modifiers"@,
{
    reveal_strlit("id");
    reveal_strlit("hidden");
    reveal_strlit("alpha");
    reveal_strlit("frame");
    reveal_strlit("modifiers");
    assert("id"@.len() == 2);
    assert("hidden"@.len() == 6);
    assert("alpha"@.len() == 5);
    assert("frame"@.len() == 5);
    assert("modifiers"@.len() == 9);
    assert("alpha"@[0] == 'a');
    assert("frame"@[0] == 'f');
}

/// A node carries the attributes of its view as texts in their order, and says of itself that it
/// is an element named after the view's class.
pub proof fn nodes_carry_attributes(view: NodeView, id: u64, parent: u64, list: Seq<JsonView>)
    ensures
        node_object(view, id, parent, list).field("attributes"@) matches Some(
            JsonView::Array(items),
        ) && items.len() == attribute_texts(view).len() && forall|i: int|
            0 <= i < items.len() ==> #[trigger] items[i] == JsonView::Text(
                attribute_texts(view)[i],
            ),
        node_object(view, id, parent, list).field("nodeType"@) == Some(whole(1)),
        node_object(view, id, parent, list).string_field("nodeName"@) == Some(view.class_name),
        node_object(view, id, parent, list).string_field("localName"@) == Some(view.class_name),
        node_object(view, id, parent, list).string_field("nodeValue"@) == Some(
            Seq::<char>::empty(),
        ),
{
    broadcast use {with_fields, no_fields};
    all_node_names();
    reveal_strlit("");
    assert(""@ =~= seq![]);
}

proof fn all_node_names()
    ensures
        "nodeId"@ != "backendNodeId"@,
        "nodeId"@ != "parentId"@,
        "nodeId"@ != "nodeType"@,
        "nodeId"@ != "nodeName"@,
        "nodeId"@ != "localName"@,
        "nodeId"@ != "nodeValue"@,
        "nodeId"@ != "attributes"@,
        "nodeId"@ != "childNodeCount"@,
        "nodeId"@ != "children"@,
        "nodeId"@ != "documentURL"@,
        "nodeId"@ != "baseURL"@,
        "nodeId"@ != "xmlVersion"@,
        "nodeId"@ != "root"@,
        "backendNodeId"@ != "parentId"@,
        "backendNodeId"@ != "nodeType"@,
        "backendNodeId"@ != "nodeName"@,
        "backendNodeId"@ != "localName"@,
        "backendNodeId"@ != "nodeValue"@,
        "backendNodeId"@ != "attributes"@,
        "backendNodeId"@ != "childNodeCount"@,
        "backendNodeId"@ != "children"@,
        "backendNodeId"@ != "documentURL"@,
        "backendNodeId"@ != "baseURL"@,
        "backendNodeId"@ != "xmlVersion"@,
        "backendNodeId"@ != "root"@,
        "parentId"@ != "nodeType"@,
        "parentId"@ != "nodeName"@,
        "parentId"@ != "localName"@,
        "parentId"@ != "nodeValue"@,
        "parentId"@ != "attributes"@,
        "parentId"@ != "childNodeCount"@,
        "parentId"@ != "children"@,
        "parentId"@ != "documentURL"@,
        "parentId"@ != "baseURL"@,
        "parentId"@ != "xmlVersion"@,
        "parentId"@ != "root"@,
        "nodeType"@ != "nodeName"@,
        "nodeType"@ != "localName"@,
        "nodeType"@ != "nodeValue"@,
        "nodeType"@ != "attributes"@,
        "nodeType"@ != "childNodeCount"@,
        "nodeType"@ != "children"@,
        "nodeType"@ != "documentURL"@,
        "nodeType"@ != "baseURL"@,
        "nodeType"@ != "xmlVersion"@,
        "nodeType"@ != "root"@,
        "nodeName"@ != "localName"@,
        "nodeName"@ != "nodeValue"@,
        "nodeName"@ != "attributes"@,
        "nodeName"@ != "childNodeCount"@,
        "nodeName"@ != "children"@,
        "nodeName"@ != "documentURL"@,
        "nodeName"@ != "baseURL"@,
        "nodeName"@ != "xmlVersion"@,
        "nodeName"@ != "root"@,
        "localName"@ != "nodeValue"@,
        "localName"@ != "attributes"@,
        "localName"@ != "childNodeCount"@,
        "localName"@ != "children"@,
        "localName"@ != "documentURL"@,
        "localName"@ != "baseURL"@,
        "localName"@ != "xmlVersion"@,
        "localName"@ != "root"@,
        "nodeValue"@ != "attributes"@,
        "nodeValue"@ != "childNodeCount"@,
        "nodeValue"@ != "children"@,
        "nodeValue"@ != "documentURL"@,
        "nodeValue"@ != "baseURL"@,
        "nodeValue"@ != "xmlVersion"@,
        "nodeValue"@ != "root"@,
        "attributes"@ != "childNodeCount"@,
        "attributes"@ != "children"@,
        "attributes"@ != "documentURL"@,
        "attributes"@ != "baseURL"@,
        "attributes"@ != "xmlVersion"@,
        "attributes"@ != "root"@,
        "childNodeCount"@ != "children"@,
        "childNodeCount"@ != "documentURL"@,
        "childNodeCount"@ != "baseURL"@,
        "childNodeCount"@ != "xmlVersion"@,
        "childNodeCount"@ != "root"@,
        "children"@ != "documentURL"@,
        "children"@ != "baseURL"@,
        "children"@ != "xmlVersion"@,
        "children"@ != "root"@,
        "documentURL"@ != "baseURL"@,
        "documentURL"@ != "xmlVersion"@,
        "documentURL"@ != "root"@,
        "baseURL"@ != "xmlVersion"@,
        "baseURL"@ != "root"@,
        "xmlVersion"@ != "root"@,
{
    reveal_strlit("nodeId");
    reveal_strlit("backendNodeId");
    reveal_strlit("parentId");
    reveal_strlit("nodeType");
    reveal_strlit("nodeName");
    reveal_strlit("localName");
    reveal_strlit("nodeValue");
    reveal_strlit("attributes");
    reveal_strlit("childNodeCount");
    reveal_strlit("children");
    reveal_strlit("documentURL");
    reveal_strlit("baseURL");
    reveal_strlit("xmlVersion");
    reveal_strlit("root");
    assert("nodeId"@.len() == 6);
    assert("backendNodeId"@.len() == 13);
    assert("parentId"@.len() == 8);
    assert("nodeType"@.len() == 8);
    assert("nodeName"@.len() == 8);
    assert("localName"@.len() == 9);
    assert("nodeValue"@.len() == 9);
    assert("attributes"@.len() == 10);
    assert("childNodeCount"@.len() == 14);
    assert("children"@.len() == 8);
    assert("documentURL"@.len() == 11);
    assert("baseURL"@.len() == 7);
    assert("xmlVersion"@.len() == 10);
    assert("root"@.len() == 4);
    assert("parentId"@[0] == 'p');
    assert("nodeType"@[0] == 'n');
    assert("nodeName"@[0] == 'n');
    assert("children"@[0] == 'c');
    assert("nodeType"@[4] == 'T');
    assert("nodeName"@[4] == 'N');
    assert("localName"@[0] == 'l');
    assert("nodeValue"@[0] == 'n');
    assert("attributes"@[0] == 'a');
    assert("xmlVersion"@[0] == 'x');
}

/// The document is a document node at the address of the app, and holds as many children as it
/// lists.
pub proof fn documents_are_documents(list: Seq<JsonView>)
    ensures
        document(list).field("root"@) matches Some(root) && root.field("nodeType"@) == Some(
            whole(9),
        ) && root.string_field("nodeName"@) == Some("#document"@) && root.field("nodeId"@) == Some(
            whole(1),
        ) && root.field("backendNodeId"@) == Some(whole(1)) && root.string_field("documentURL"@)
            == Some("remo://native"@) && root.string_field("baseURL"@) == Some("remo://native"@)
            && root.field("childNodeCount"@) == Some(whole(list.len() as int)) && root.field(
            "children"@,
        ) == Some(JsonView::Array(list)),
{
    broadcast use {with_fields, no_fields};
    all_node_names();
}

/// The value behind a title, in rows of titles and values.
pub open spec fn row_of(rows: Seq<(Seq<char>, Seq<char>)>, title: Seq<char>) -> Option<Seq<char>>
    decreases rows.len(),
{
    if rows.len() == 0 {
        None
    } else if rows[0].0 == title {
        Some(rows[0].1)
    } else {
        row_of(rows.drop_first(), title)
    }
}

/// A whole number of points in CSS.
pub open spec fn points_in(text: Seq<char>) -> int {
    decimal_value(text.take(text.len() - 2))
}

/// The style of a view tells its class, its place and size in points, its opacity, whether it is
/// visible, its tag and how many children it has.
pub proof fn style_tells_of_the_view(view: NodeView)
    ensures
        row_of(style_texts(view), "class"@) == Some(view.class_name),
        row_of(style_texts(view), "left"@) matches Some(text) && points_in(text)
            == view.frame.x.whole,
        row_of(style_texts(view), "top"@) matches Some(text) && points_in(text)
            == view.frame.y.whole,
        row_of(style_texts(view), "width"@) matches Some(text) && points_in(text)
            == view.frame.width.whole,
        row_of(style_texts(view), "height"@) matches Some(text) && points_in(text)
            == view.frame.height.whole,
        row_of(style_texts(view), "opacity"@) == Some(view.alpha.text),
        row_of(style_texts(view), "visibility"@) == Some(
            if view.is_hidden {
                "hidden"@
            } else {
                "visible"@
            },
        ),
        row_of(style_texts(view), "tag"@) matches Some(text) && decimal_value(text) == view.tag,
        row_of(style_texts(view), "subviews"@) matches Some(text) && decimal_value(text)
            == view.children.len(),
{
    style_names();
    reveal_strlit("px");
    assert("px"@ =~= seq!['p', 'x']);
    let rows = style_texts(view);
    reveal_with_fuel(row_of, 10);
    assert(rows.drop_first() =~= rows.skip(1));
    assert(rows.skip(1).drop_first() =~= rows.skip(2));
    assert(rows.skip(2).drop_first() =~= rows.skip(3));
    assert(rows.skip(3).drop_first() =~= rows.skip(4));
    assert(rows.skip(4).drop_first() =~= rows.skip(5));
    assert(rows.skip(5).drop_first() =~= rows.skip(6));
    assert(rows.skip(6).drop_first() =~= rows.skip(7));
    assert(rows.skip(7).drop_first() =~= rows.skip(8));
    points_read_back(view.frame.x.whole as int);
    points_read_back(view.frame.y.whole as int);
    points_read_back(view.frame.width.whole as int);
    points_read_back(view.frame.height.whole as int);
    decimal_reads_back(view.tag as int);
    decimal_reads_back(view.children.len() as int);
}

proof fn points_read_back(length: int)
    ensures
        points_in(pixels(length)) == length,
        pixels(length).len() > 2,
        pixels(length).subrange(pixels(length).len() - 2, pixels(length).len() as int) == seq![
            'p',
            'x',
        ],
{
    reveal_strlit("px");
    assert("px"@ =~= seq!['p', 'x']);
    decimal_reads_back(length);
    assert(pixels(length).take(pixels(length).len() - 2) =~= decimal(length));
    assert(pixels(length).subrange(pixels(length).len() - 2, pixels(length).len() as int) =~= seq![
        'p',
        'x',
    ]);
}

proof fn style_names()
    ensures
        "class"@ != "left"@,
        "class"@ != "top"@,
        "class"@ != "width"@,
        "class"@ != "height"@,
        "class"@ != "opacity"@,
        "class"@ != "visibility"@,
        "class"@ != "tag"@,
        "class"@ != "subviews"@,
        "left"@ != "top"@,
        "left"@ != "width"@,
        "left"@ != "height"@,
        "left"@ != "opacity"@,
        "left"@ != "visibility"@,
        "left"@ != "tag"@,
        "left"@ != "subviews"@,
        "top"@ != "width"@,
        "top"@ != "height"@,
        "top"@ != "opacity"@,
        "top"@ != "visibility"@,
        "top"@ != "tag"@,
        "top"@ != "subviews"@,
        "width"@ != "height"@,
        "width"@ != "opacity"@,
        "width"@ != "visibility"@,
        "width"@ != "tag"@,
        "width"@ != "subviews"@,
        "height"@ != "opacity"@,
        "height"@ != "visibility"@,
        "height"@ != "tag"@,
        "height"@ != "subviews"@,
        "opacity"@ != "visibility"@,
        "opacity"@ != "tag"@,
        "opacity"@ != "subviews"@,
        "visibility"@ != "tag"@,
        "visibility"@ != "subviews"@,
        "tag"@ != "subviews"@,
{
    reveal_strlit("class");
    reveal_strlit("left");
    reveal_strlit("top");
    reveal_strlit("width");
    reveal_strlit("height");
    reveal_strlit("opacity");
    reveal_strlit("visibility");
    reveal_strlit("tag");
    reveal_strlit("subviews");
    assert("class"@.len() == 5);
    assert("left"@.len() == 4);
    assert("top"@.len() == 3);
    assert("width"@.len() == 5);
    assert("height"@.len() == 6);
    assert("opacity"@.len() == 7);
    assert("visibility"@.len() == 10);
    assert("tag"@.len() == 3);
    assert("subviews"@.len() == 8);
    assert("class"@[0] == 'c');
    assert("width"@[0] == 'w');
    assert("top"@[1] == 'o');
    assert("tag"@[1] == 'a');
}

/// What SwiftUI says of a view stands behind its geometry, row by row in order, each title behind a
/// mark of its own.
pub proof fn style_ends_in_its_rows(view: NodeView)
    ensures
        style_texts(view).len() == 9 + view.style_rows.len(),
        forall|i: int|
            0 <= i < view.style_rows.len() ==> #[trigger] style_texts(view)[9 + i].1
                == view.style_rows[i].1 && style_texts(view)[9 + i].0 == "--swiftui-"@
                + view.style_rows[i].0,
{
}

/// The style of a view is listed row by row in order.
pub proof fn computed_style_is_in_order(view: NodeView)
    ensures
        computed(view).field("computedStyle"@) matches Some(JsonView::Array(list)) && list.len()
            == style_texts(view).len() && forall|i: int|
            0 <= i < list.len() ==> (#[trigger] list[i]).string_field("name"@) == Some(
                style_texts(view)[i].0,
            ) && list[i].string_field("value"@) == Some(style_texts(view)[i].1),
{
    broadcast use {with_fields, no_fields};
    reveal_strlit("name");
    reveal_strlit("value");
    assert("name"@.len() == 4);
    assert("value"@.len() == 5);
}

/// The box of a view is one rectangle for content, padding, border and margin: its corners run
/// clockwise from the top left, so that neighbours share a coordinate, and its size is the view's.
pub proof fn boxes_are_rectangles(view: NodeView)
    ensures
        box_model(view).field("model"@) matches Some(model) && model.field("content"@) matches Some(
            JsonView::Array(c),
        ) && c.len() == 8 && c[0] == view.frame.x.json && c[1] == view.frame.y.json && c[2]
            == view.frame.right && c[3] == c[1] && c[4] == c[2] && c[5] == view.frame.bottom
            && c[6] == c[0] && c[7] == c[5] && model.field("padding"@) == model.field("content"@)
            && model.field("border"@) == model.field("content"@) && model.field("margin"@)
            == model.field("content"@) && model.field("width"@) == Some(view.frame.width.json)
            && model.field("height"@) == Some(view.frame.height.json),
{
    broadcast use {with_fields, no_fields};
    box_names();
}

proof fn box_names()
    ensures
        "content"@ != "padding"@,
        "content"@ != "border"@,
        "content"@ != "margin"@,
        "content"@ != "width"@,
        "content"@ != "height"@,
        "content"@ != "model"@,
        "padding"@ != "border"@,
        "padding"@ != "margin"@,
        "padding"@ != "width"@,
        "padding"@ != "height"@,
        "padding"@ != "model"@,
        "border"@ != "margin"@,
        "border"@ != "width"@,
        "border"@ != "height"@,
        "border"@ != "model"@,
        "margin"@ != "width"@,
        "margin"@ != "height"@,
        "margin"@ != "model"@,
        "width"@ != "height"@,
        "width"@ != "model"@,
        "height"@ != "model"@,
{
    reveal_strlit("content");
    reveal_strlit("padding");
    reveal_strlit("border");
    reveal_strlit("margin");
    reveal_strlit("width");
    reveal_strlit("height");
    reveal_strlit("model");
    assert("content"@.len() == 7);
    assert("padding"@.len() == 7);
    assert("border"@.len() == 6);
    assert("margin"@.len() == 6);
    assert("width"@.len() == 5);
    assert("height"@.len() == 6);
    assert("model"@.len() == 5);
    assert("content"@[0] == 'c');
    assert("padding"@[0] == 'p');
    assert("border"@[0] == 'b');
    assert("margin"@[0] == 'm');
    assert("height"@[0] == 'h');
    assert("width"@[0] == 'w');
    assert("model"@[0] == 'm');
}

/// The object that stands for a view is a node named after the view's class, with its style as
/// properties.
pub proof fn resolved_nodes_are_named(view: NodeView)
    ensures
        resolved(view).field("object"@) matches Some(object) && object.string_field("subtype"@)
            == Some("node"@) && object.string_field("className"@) == Some(view.class_name)
            && object.string_field("description"@) == Some(view.class_name)
            && object.string_field("type"@) == Some("object"@) && object.field("preview"@) == Some(
            crate::remote_object::preview_view(row_object(style_texts(view))),
        ),
{
    broadcast use {with_fields, no_fields};
    object_names();
    rows_make_an_object(style_texts(view));
}

proof fn rows_make_an_object(rows: Seq<(Seq<char>, Seq<char>)>)
    ensures
        row_object(rows) is Object,
    decreases rows.len(),
{
    if rows.len() > 0 {
        rows_make_an_object(rows.drop_last());
    }
}

/// An object of rows has under each title the value that was given for it last.
pub proof fn rows_are_looked_up(
    rows: Seq<(Seq<char>, Seq<char>)>,
    last: (Seq<char>, Seq<char>),
    title: Seq<char>,
)
    ensures
        row_object(rows.push(last)).string_field(title) == (if title == last.0 {
            Some(last.1)
        } else {
            row_object(rows).string_field(title)
        }),
        row_object(seq![]).field(title) is None,
{
    broadcast use {with_fields, no_fields};
    rows_make_an_object(rows);
    assert(rows.push(last).drop_last() =~= rows);
}

proof fn object_names()
    ensures
        "type"@ != "className"@,
        "type"@ != "description"@,
        "type"@ != "preview"@,
        "type"@ != "subtype"@,
        "type"@ != "object"@,
        "className"@ != "description"@,
        "className"@ != "preview"@,
        "className"@ != "subtype"@,
        "className"@ != "object"@,
        "description"@ != "preview"@,
        "description"@ != "subtype"@,
        "description"@ != "object"@,
        "preview"@ != "subtype"@,
        "preview"@ != "object"@,
        "subtype"@ != "object"@,
{
    reveal_strlit("type");
    reveal_strlit("className");
    reveal_strlit("description");
    reveal_strlit("preview");
    reveal_strlit("subtype");
    reveal_strlit("object");
    assert("type"@.len() == 4);
    assert("className"@.len() == 9);
    assert("description"@.len() == 11);
    assert("preview"@.len() == 7);
    assert("subtype"@.len() == 7);
    assert("object"@.len() == 6);
    assert("preview"@[0] == 'p');
    assert("subtype"@[0] == 's');
}

/// Of the ids that are asked for, those that are known are given back, in the order asked for.
pub proof fn known_ids_go_in_turn(
    front: Seq<JsonView>,
    back: Seq<JsonView>,
    table: Map<u64, NodeView>,
)
    ensures
        known_ids(front + back, table) == known_ids(front, table) + known_ids(back, table),
    decreases back.len(),
{
    if back.len() == 0 {
        assert(front + back =~= front);
    } else {
        assert((front + back).drop_last() =~= front + back.drop_last());
        known_ids_go_in_turn(front, back.drop_last(), table);
    }
}

/// An id that is asked for is given back exactly where it is known.
pub proof fn known_ids_are_known(item: JsonView, id: u64, table: Map<u64, NodeView>)
    requires
        item.unsigned() == Some(id as int),
    ensures
        table.contains_key(id) ==> known_ids(seq![item], table).len() == 1 && known_ids(
            seq![item],
            table,
        )[0].unsigned() == Some(id as int),
        !table.contains_key(id) ==> known_ids(seq![item], table).len() == 0,
{
    reveal_with_fuel(known_ids, 2);
    assert(seq![item].drop_last() =~= seq![]);
}

/// A document without a depth is the whole tree; with one, as deep as asked.
pub proof fn depth_is_as_asked(params: JsonView, depth: i64)
    ensures
        params.field("depth"@) is None ==> asked_depth(params) < 0,
        params.field("depth"@) == Some(whole(depth as int)) ==> asked_depth(params) == depth,
{
}

/// The children of a view are listed exactly where the depth and the budget allow, which are spent
/// level by level; without them only their number is told.
pub proof fn depth_and_budget_rule(view: NodeView, parent: u64, depth: int, walk: Walk)
    requires
        view.children.len() > 0,
    ensures
        (depth != 0 && walk.budget > 0) <==> node_walk(view, parent, depth, walk).0.field(
            "children"@,
        ) is Some,
        depth == 0 || walk.budget <= 0 ==> node_walk(view, parent, depth, walk).1.next == id_after(
            walk.next,
        ),
{
    let id = walk.next;
    let known = registered(walk, view);
    let paid = Walk { budget: known.budget - view.children.len(), ..known };
    let list = list_walk(view.children, id, depth_below(depth), paid).0;
    list_walk_lists_all(view.children, id, depth_below(depth), paid);
    node_fields(view, id, parent, list);
    node_fields(view, id, parent, seq![]);
}

proof fn list_walk_lists_all(list: Seq<NodeView>, parent: u64, depth: int, walk: Walk)
    ensures
        list_walk(list, parent, depth, walk).0.len() == list.len(),
    decreases list.len(),
{
    if list.len() > 0 {
        list_walk_lists_all(list.subrange(0, list.len() - 1), parent, depth, walk);
    }
}

/// A walk to a depth lists just that many levels.
pub proof fn levels_end_at_the_depth(view: NodeView, parent: u64, walk: Walk)
    requires
        view.children.len() > 0,
        walk.budget > 0,
    ensures
        node_walk(view, parent, 1, walk).0.field("children"@) matches Some(JsonView::Array(list))
            && list.len() == view.children.len() && forall|i: int|
            0 <= i < list.len() ==> (#[trigger] list[i]).field("children"@) is None,
{
    let id = walk.next;
    let known = registered(walk, view);
    let paid = Walk { budget: known.budget - view.children.len(), ..known };
    level_is_flat(view.children, id, paid);
    node_fields(view, id, parent, list_walk(view.children, id, 0, paid).0);
}

proof fn level_is_flat(list: Seq<NodeView>, parent: u64, walk: Walk)
    ensures
        list_walk(list, parent, 0, walk).0.len() == list.len(),
        forall|i: int|
            0 <= i < list.len() ==> (#[trigger] list_walk(list, parent, 0, walk).0[i]).field(
                "children"@,
            ) is None,
    decreases list.len(),
{
    if list.len() > 0 {
        let front = list.subrange(0, list.len() - 1);
        level_is_flat(front, parent, walk);
        let between = list_walk(front, parent, 0, walk).1;
        let last = list[list.len() - 1];
        node_fields(last, between.next, parent, seq![]);
        let all = list_walk(list, parent, 0, walk).0;
        assert forall|i: int| 0 <= i < list.len() implies (#[trigger] all[i]).field(
            "children"@,
        ) is None by {
            if i < front.len() {
                assert(all[i] == list_walk(front, parent, 0, walk).0[i]);
            } else {
                assert(all[i] == node_walk(last, parent, 0, between).0);
                assert(all[i] == node_object(last, between.next, parent, seq![]));
            }
        }
    }
}

/// Whatever else is known, the frames are the app's own and, below it, that of the user defaults,
/// which is known by its address.
pub proof fn frames_are_named(params: JsonView, snapshot: Option<NodeView>, walk: Walk)
    ensures
        ({
            &&& dom_reply("Page.getResourceTree"@, params, snapshot, walk) matches ReplyView::Result(
                result,
            )
            &&& result.field("frameTree"@) matches Some(tree)
            &&& names_frame(tree, "1"@, "remo://native"@, "remo://native"@)
            &&& tree.field("childFrames"@) matches Some(JsonView::Array(frames))
            &&& frames.len() == 1
            &&& names_frame(
                frames[0],
                "userdefaults://standard"@,
                "userdefaults://standard"@,
                "userdefaults://standard"@ + seq!['/'],
            )
            &&& frames[0].field("frame"@) matches Some(child)
            &&& child.string_field("parentId"@) == Some("1"@)
            &&& child.string_field("name"@) == Some("userdefaults://standard"@)
        }),
{
    broadcast use {with_fields, no_fields};
    frame_names();
    reveal_strlit("/");
    assert("/"@ =~= seq!['/']);
}

/// Whether a frame has an id, an origin and an address.
pub open spec fn names_frame(
    tree: JsonView,
    id: Seq<char>,
    origin: Seq<char>,
    address: Seq<char>,
) -> bool {
    match tree.field("frame"@) {
        Some(frame) => frame.string_field("id"@) == Some(id) && frame.string_field(
            "securityOrigin"@,
        ) == Some(origin) && frame.string_field("url"@) == Some(address),
        None => false,
    }
}

proof fn frame_names()
    ensures
        "id"@ != "loaderId"@,
        "id"@ != "url"@,
        "id"@ != "securityOrigin"@,
        "id"@ != "mimeType"@,
        "id"@ != "domainAndRegistry"@,
        "id"@ != "parentId"@,
        "id"@ != "name"@,
        "id"@ != "secureContextType"@,
        "id"@ != "crossOriginIsolatedContextType"@,
        "id"@ != "gatedAPIFeatures"@,
        "loaderId"@ != "url"@,
        "loaderId"@ != "securityOrigin"@,
        "loaderId"@ != "mimeType"@,
        "loaderId"@ != "domainAndRegistry"@,
        "loaderId"@ != "parentId"@,
        "loaderId"@ != "name"@,
        "loaderId"@ != "secureContextType"@,
        "loaderId"@ != "crossOriginIsolatedContextType"@,
        "loaderId"@ != "gatedAPIFeatures"@,
        "url"@ != "securityOrigin"@,
        "url"@ != "mimeType"@,
        "url"@ != "domainAndRegistry"@,
        "url"@ != "parentId"@,
        "url"@ != "name"@,
        "url"@ != "secureContextType"@,
        "url"@ != "crossOriginIsolatedContextType"@,
        "url"@ != "gatedAPIFeatures"@,
        "securityOrigin"@ != "mimeType"@,
        "securityOrigin"@ != "domainAndRegistry"@,
        "securityOrigin"@ != "parentId"@,
        "securityOrigin"@ != "name"@,
        "securityOrigin"@ != "secureContextType"@,
        "securityOrigin"@ != "crossOriginIsolatedContextType"@,
        "securityOrigin"@ != "gatedAPIFeatures"@,
        "mimeType"@ != "domainAndRegistry"@,
        "mimeType"@ != "parentId"@,
        "mimeType"@ != "name"@,
        "mimeType"@ != "secureContextType"@,
        "mimeType"@ != "crossOriginIsolatedContextType"@,
        "mimeType"@ != "gatedAPIFeatures"@,
        "domainAndRegistry"@ != "parentId"@,
        "domainAndRegistry"@ != "name"@,
        "domainAndRegistry"@ != "secureContextType"@,
        "domainAndRegistry"@ != "crossOriginIsolatedContextType"@,
        "domainAndRegistry"@ != "gatedAPIFeatures"@,
        "parentId"@ != "name"@,
        "parentId"@ != "secureContextType"@,
        "parentId"@ != "crossOriginIsolatedContextType"@,
        "parentId"@ != "gatedAPIFeatures"@,
        "name"@ != "secureContextType"@,
        "name"@ != "crossOriginIsolatedContextType"@,
        "name"@ != "gatedAPIFeatures"@,
        "secureContextType"@ != "crossOriginIsolatedContextType"@,
        "secureContextType"@ != "gatedAPIFeatures"@,
        "crossOriginIsolatedContextType"@ != "gatedAPIFeatures"@,
        "frame"@ != "resources"@,
        "frame"@ != "childFrames"@,
        "frame"@ != "frameTree"@,
        "resources"@ != "childFrames"@,
        "resources"@ != "frameTree"@,
        "childFrames"@ != "frameTree"@,
{
    reveal_strlit("id");
    reveal_strlit("loaderId");
    reveal_strlit("url");
    reveal_strlit("securityOrigin");
    reveal_strlit("mimeType");
    reveal_strlit("domainAndRegistry");
    reveal_strlit("parentId");
    reveal_strlit("name");
    reveal_strlit("secureContextType");
    reveal_strlit("crossOriginIsolatedContextType");
    reveal_strlit("gatedAPIFeatures");
    reveal_strlit("frame");
    reveal_strlit("resources");
    reveal_strlit("childFrames");
    reveal_strlit("frameTree");
    assert("id"@.len() == 2);
    assert("loaderId"@.len() == 8);
    assert("url"@.len() == 3);
    assert("securityOrigin"@.len() == 14);
    assert("mimeType"@.len() == 8);
    assert("domainAndRegistry"@.len() == 17);
    assert("parentId"@.len() == 8);
    assert("name"@.len() == 4);
    assert("secureContextType"@.len() == 17);
    assert("crossOriginIsolatedContextType"@.len() == 30);
    assert("gatedAPIFeatures"@.len() == 16);
    assert("frame"@.len() == 5);
    assert("resources"@.len() == 9);
    assert("childFrames"@.len() == 11);
    assert("frameTree"@.len() == 9);
    assert("loaderId"@[0] == 'l');
    assert("mimeType"@[0] == 'm');
    assert("parentId"@[0] == 'p');
    assert("domainAndRegistry"@[0] == 'd');
    assert("secureContextType"@[0] == 's');
    assert("resources"@[0] == 'r');
    assert("frameTree"@[0] == 'f');
}

/// Whatever else is known, the app has no manifest and no errors about it, one entry of history,
/// and no style rules.
pub proof fn empty_shapes_are_shaped(params: JsonView, snapshot: Option<NodeView>, walk: Walk)
    ensures
        ({
            &&& dom_reply("Page.getAppManifest"@, params, snapshot, walk) matches ReplyView::Result(
                result,
            )
            &&& result.field("errors"@) == Some(JsonView::Array(seq![]))
            &&& result.string_field("url"@) == Some("remo://native"@)
        }),
        ({
            &&& dom_reply(
                "Page.getNavigationHistory"@,
                params,
                snapshot,
                walk,
            ) matches ReplyView::Result(result)
            &&& result.field("currentIndex"@) == Some(whole(0))
            &&& result.field("entries"@) matches Some(JsonView::Array(list))
            &&& list.len() == 1
            &&& list[0].field("id"@) == Some(whole(1))
            &&& list[0].string_field("url"@) == Some("remo://native"@)
            &&& list[0].string_field("userTypedURL"@) == Some("remo://native"@)
            &&& list[0].string_field("title"@) == Some("Remo"@)
            &&& list[0].string_field("transitionType"@) == Some("typed"@)
        }),
        ({
            &&& dom_reply(
                "CSS.getMatchedStylesForNode"@,
                params,
                snapshot,
                walk,
            ) matches ReplyView::Result(result)
            &&& result.field("matchedCSSRules"@) == Some(JsonView::Array(seq![]))
            &&& result.field("pseudoElements"@) == Some(JsonView::Array(seq![]))
            &&& result.field("inherited"@) == Some(JsonView::Array(seq![]))
            &&& result.field("inheritedPseudoElements"@) == Some(JsonView::Array(seq![]))
            &&& result.field("cssKeyframesRules"@) == Some(JsonView::Array(seq![]))
        }),
{
    broadcast use {with_fields, no_fields};
    shape_names();
    method_names();
}

/// A request about a node is answered from the view that was given the node's id, and refused
/// where no view was.
pub proof fn nodes_are_answered_by_id(
    params: JsonView,
    id: u64,
    snapshot: Option<NodeView>,
    walk: Walk,
)
    requires
        params.unsigned_field("nodeId"@) == Some(id as int),
    ensures
        walk.table.contains_key(id) ==> dom_reply("DOM.resolveNode"@, params, snapshot, walk)
            == ReplyView::Result(resolved(walk.table[id])),
        walk.table.contains_key(id) ==> dom_reply("DOM.getBoxModel"@, params, snapshot, walk)
            == ReplyView::Result(box_model(walk.table[id])),
        walk.table.contains_key(id) ==> dom_reply(
            "CSS.getComputedStyleForNode"@,
            params,
            snapshot,
            walk,
        ) == ReplyView::Result(computed(walk.table[id])),
        !walk.table.contains_key(id) && params.field("backendNodeId"@) is None ==> dom_reply(
            "DOM.resolveNode"@,
            params,
            snapshot,
            walk,
        ) is Error && dom_reply("DOM.getBoxModel"@, params, snapshot, walk) is Error && dom_reply(
            "CSS.getComputedStyleForNode"@,
            params,
            snapshot,
            walk,
        ) is Error,
{
    method_names();
}

proof fn method_names()
    ensures
        "Page.getResourceTree"@ != "Page.getAppManifest"@,
        "Page.getResourceTree"@ != "Page.getNavigationHistory"@,
        "Page.getResourceTree"@ != "DOM.getDocument"@,
        "Page.getResourceTree"@ != "DOM.requestChildNodes"@,
        "Page.getResourceTree"@ != "DOM.resolveNode"@,
        "Page.getResourceTree"@ != "DOM.getBoxModel"@,
        "Page.getResourceTree"@ != "DOM.pushNodesByBackendIdsToFrontend"@,
        "Page.getResourceTree"@ != "CSS.getComputedStyleForNode"@,
        "Page.getResourceTree"@ != "CSS.getMatchedStylesForNode"@,
        "Page.getAppManifest"@ != "Page.getNavigationHistory"@,
        "Page.getAppManifest"@ != "DOM.getDocument"@,
        "Page.getAppManifest"@ != "DOM.requestChildNodes"@,
        "Page.getAppManifest"@ != "DOM.resolveNode"@,
        "Page.getAppManifest"@ != "DOM.getBoxModel"@,
        "Page.getAppManifest"@ != "DOM.pushNodesByBackendIdsToFrontend"@,
        "Page.getAppManifest"@ != "CSS.getComputedStyleForNode"@,
        "Page.getAppManifest"@ != "CSS.getMatchedStylesForNode"@,
        "Page.getNavigationHistory"@ != "DOM.getDocument"@,
        "Page.getNavigationHistory"@ != "DOM.requestChildNodes"@,
        "Page.getNavigationHistory"@ != "DOM.resolveNode"@,
        "Page.getNavigationHistory"@ != "DOM.getBoxModel"@,
        "Page.getNavigationHistory"@ != "DOM.pushNodesByBackendIdsToFrontend"@,
        "Page.getNavigationHistory"@ != "CSS.getComputedStyleForNode"@,
        "Page.getNavigationHistory"@ != "CSS.getMatchedStylesForNode"@,
        "DOM.getDocument"@ != "DOM.requestChildNodes"@,
        "DOM.getDocument"@ != "DOM.resolveNode"@,
        "DOM.getDocument"@ != "DOM.getBoxModel"@,
        "DOM.getDocument"@ != "DOM.pushNodesByBackendIdsToFrontend"@,
        "DOM.getDocument"@ != "CSS.getComputedStyleForNode"@,
        "DOM.getDocument"@ != "CSS.getMatchedStylesForNode"@,
        "DOM.requestChildNodes"@ != "DOM.resolveNode"@,
        "DOM.requestChildNodes"@ != "DOM.getBoxModel"@,
        "DOM.requestChildNodes"@ != "DOM.pushNodesByBackendIdsToFrontend"@,
        "DOM.requestChildNodes"@ != "CSS.getComputedStyleForNode"@,
        "DOM.requestChildNodes"@ != "CSS.getMatchedStylesForNode"@,
        "DOM.resolveNode"@ != "DOM.getBoxModel"@,
        "DOM.resolveNode"@ != "DOM.pushNodesByBackendIdsToFrontend"@,
        "DOM.resolveNode"@ != "CSS.getComputedStyleForNode"@,
        "DOM.resolveNode"@ != "CSS.getMatchedStylesForNode"@,
        "DOM.getBoxModel"@ != "DOM.pushNodesByBackendIdsToFrontend"@,
        "DOM.getBoxModel"@ != "CSS.getComputedStyleForNode"@,
        "DOM.getBoxModel"@ != "CSS.getMatchedStylesForNode"@,
        "DOM.pushNodesByBackendIdsToFrontend"@ != "CSS.getComputedStyleForNode"@,
        "DOM.pushNodesByBackendIdsToFrontend"@ != "CSS.getMatchedStylesForNode"@,
        "CSS.getComputedStyleForNode"@ != "CSS.getMatchedStylesForNode"@,
{
    reveal_strlit("Page.getResourceTree");
    reveal_strlit("Page.getAppManifest");
    reveal_strlit("Page.getNavigationHistory");
    reveal_strlit("DOM.getDocument");
    reveal_strlit("DOM.requestChildNodes");
    reveal_strlit("DOM.resolveNode");
    reveal_strlit("DOM.getBoxModel");
    reveal_strlit("DOM.pushNodesByBackendIdsToFrontend");
    reveal_strlit("CSS.getComputedStyleForNode");
    reveal_strlit("CSS.getMatchedStylesForNode");
    assert("Page.getResourceTree"@.len() == 20);
    assert("Page.getAppManifest"@.len() == 19);
    assert("Page.getNavigationHistory"@.len() == 25);
    assert("DOM.getDocument"@.len() == 15);
    assert("DOM.requestChildNodes"@.len() == 21);
    assert("DOM.resolveNode"@.len() == 15);
    assert("DOM.getBoxModel"@.len() == 15);
    assert("DOM.pushNodesByBackendIdsToFrontend"@.len() == 35);
    assert("CSS.getComputedStyleForNode"@.len() == 27);
    assert("CSS.getMatchedStylesForNode"@.len() == 27);
    assert("DOM.getDocument"@[4] == 'g');
    assert("DOM.resolveNode"@[4] == 'r');
    assert("DOM.getDocument"@[7] == 'D');
    assert("DOM.getBoxModel"@[7] == 'B');
    assert("DOM.getBoxModel"@[4] == 'g');
    assert("CSS.getComputedStyleForNode"@[7] == 'C');
    assert("CSS.getMatchedStylesForNode"@[7] == 'M');
}

proof fn shape_names()
    ensures
        "url"@ != "errors"@,
        "url"@ != "currentIndex"@,
        "url"@ != "entries"@,
        "url"@ != "id"@,
        "url"@ != "userTypedURL"@,
        "url"@ != "title"@,
        "url"@ != "transitionType"@,
        "errors"@ != "currentIndex"@,
        "errors"@ != "entries"@,
        "errors"@ != "id"@,
        "errors"@ != "userTypedURL"@,
        "errors"@ != "title"@,
        "errors"@ != "transitionType"@,
        "currentIndex"@ != "entries"@,
        "currentIndex"@ != "id"@,
        "currentIndex"@ != "userTypedURL"@,
        "currentIndex"@ != "title"@,
        "currentIndex"@ != "transitionType"@,
        "entries"@ != "id"@,
        "entries"@ != "userTypedURL"@,
        "entries"@ != "title"@,
        "entries"@ != "transitionType"@,
        "id"@ != "userTypedURL"@,
        "id"@ != "title"@,
        "id"@ != "transitionType"@,
        "userTypedURL"@ != "title"@,
        "userTypedURL"@ != "transitionType"@,
        "title"@ != "transitionType"@,
        "matchedCSSRules"@ != "pseudoElements"@,
        "matchedCSSRules"@ != "inherited"@,
        "matchedCSSRules"@ != "inheritedPseudoElements"@,
        "matchedCSSRules"@ != "cssKeyframesRules"@,
        "pseudoElements"@ != "inherited"@,
        "pseudoElements"@ != "inheritedPseudoElements"@,
        "pseudoElements"@ != "cssKeyframesRules"@,
        "inherited"@ != "inheritedPseudoElements"@,
        "inherited"@ != "cssKeyframesRules"@,
        "inheritedPseudoElements"@ != "cssKeyframesRules"@,
{
    reveal_strlit("url");
    reveal_strlit("errors");
    reveal_strlit("currentIndex");
    reveal_strlit("entries");
    reveal_strlit("id");
    reveal_strlit("userTypedURL");
    reveal_strlit("title");
    reveal_strlit("transitionType");
    reveal_strlit("matchedCSSRules");
    reveal_strlit("pseudoElements");
    reveal_strlit("inherited");
    reveal_strlit("inheritedPseudoElements");
    reveal_strlit("cssKeyframesRules");
    assert("url"@.len() == 3);
    assert("errors"@.len() == 6);
    assert("currentIndex"@.len() == 12);
    assert("entries"@.len() == 7);
    assert("id"@.len() == 2);
    assert("userTypedURL"@.len() == 12);
    assert("title"@.len() == 5);
    assert("transitionType"@.len() == 14);
    assert("matchedCSSRules"@.len() == 15);
    assert("pseudoElements"@.len() == 14);
    assert("inherited"@.len() == 9);
    assert("inheritedPseudoElements"@.len() == 23);
    assert("cssKeyframesRules"@.len() == 17);
    assert("currentIndex"@[0] == 'c');
    assert("userTypedURL"@[0] == 'u');
    assert("transitionType"@[0] == 't');
    assert("pseudoElements"@[0] == 'p');
}

/// A document of up to two thousand views that is asked for without a depth is listed whole: every
/// view gets an id.
pub proof fn documents_of_moderate_size_are_whole(params: JsonView, view: NodeView)
    requires
        params.field("depth"@) is None,
        size(view) <= 2000,
    ensures
        document_walk(params, Some(view)).1.next == 2 + size(view),
{
    node_walk_is_whole(view, 1, asked_depth(params), fresh_walk());
}

/// The ids that a request pushes are those of its list that are known, in order.
pub proof fn pushed_ids_are_those_asked_for(
    params: JsonView,
    items: Seq<JsonView>,
    snapshot: Option<NodeView>,
    walk: Walk,
)
    requires
        params.field("backendNodeIds"@) == Some(JsonView::Array(items)),
    ensures
        dom_reply(
            "DOM.pushNodesByBackendIdsToFrontend"@,
            params,
            snapshot,
            walk,
        ) matches ReplyView::Result(value) && value.field("nodeIds"@) == Some(
            JsonView::Array(known_ids(items, walk.table)),
        ),
{
    broadcast use {with_fields, no_fields};
    method_names();
}

/// Whether a node tells of a view below a parent and lists just one more level of views.
pub open spec fn one_level(node: JsonView, view: NodeView, parent: u64) -> bool {
    &&& node.string_field("nodeName"@) == Some(view.class_name)
    &&& node.field("parentId"@) == Some(whole(parent as int))
    &&& view.children.len() == 0 ==> node.field("children"@) is None
    &&& view.children.len() > 0 ==> (node.field("children"@) matches Some(JsonView::Array(list))
        && list.len() == view.children.len() && forall|i: int|
        0 <= i < list.len() ==> (#[trigger] list[i]).field("children"@) is None)
}

proof fn levels_are_walked(list: Seq<NodeView>, parent: u64, walk: Walk)
    ensures
        level_walk(list, parent, walk).0.len() == list.len(),
        forall|i: int|
            0 <= i < list.len() ==> one_level(
                #[trigger] level_walk(list, parent, walk).0[i],
                list[i],
                parent,
            ),
    decreases list.len(),
{
    if list.len() > 0 {
        let front = list.drop_last();
        let last = list.last();
        levels_are_walked(front, parent, walk);
        let (nodes, between) = level_walk(front, parent, walk);
        let fresh = Walk { budget: MAX_EAGER_NODES as int, ..between };
        let node = node_walk(last, parent, 1, fresh).0;
        let known = registered(fresh, last);
        let paid = Walk { budget: known.budget - last.children.len(), ..known };
        let below = list_walk(last.children, fresh.next, 0, paid).0;
        assert(node == node_object(last, fresh.next, parent, below));
        node_fields(last, fresh.next, parent, below);
        list_walk_lists_all(last.children, fresh.next, 0, paid);
        if last.children.len() > 0 {
            levels_end_at_the_depth(last, parent, fresh);
        }
        assert(one_level(node, last, parent));
        let all = level_walk(list, parent, walk).0;
        assert(all == nodes.push(node));
        assert forall|i: int| 0 <= i < list.len() implies one_level(
            #[trigger] all[i],
            list[i],
            parent,
        ) by {
            if i < front.len() {
                assert(all[i] == level_walk(front, parent, walk).0[i]);
                assert(front[i] == list[i]);
            }
        }
    }
}

/// Asking for the children of a known view announces them, once: one node for each child in order,
/// below the view, with one more level of views. Asking for those of an unknown one, and every
/// other request, announces nothing.
pub proof fn children_are_announced(
    method: Seq<char>,
    params: JsonView,
    id: u64,
    walk: Walk,
)
    requires
        params.unsigned_field("nodeId"@) == Some(id as int),
    ensures
        method != "DOM.requestChildNodes"@ || !walk.table.contains_key(id) ==> dom_events(
            method,
            params,
            walk,
        ).len() == 0,
        method == "DOM.requestChildNodes"@ && walk.table.contains_key(id) ==> dom_events(
            method,
            params,
            walk,
        ).len() == 1 && ({
            let event = dom_events(method, params, walk)[0];
            let list = walk.table[id].children;
            &&& event.string_field("method"@) == Some("DOM.setChildNodes"@)
            &&& event.field("params"@) matches Some(told)
            &&& told.field("parentId"@) == Some(whole(id as int))
            &&& told.field("nodes"@) matches Some(JsonView::Array(nodes))
            &&& nodes.len() == list.len()
            &&& forall|i: int|
                0 <= i < list.len() ==> one_level(#[trigger] nodes[i], list[i], id)
        }),
{
    broadcast use {with_fields, no_fields};
    reveal_strlit("method");
    reveal_strlit("params");
    reveal_strlit("parentId");
    reveal_strlit("nodes");
    assert("method"@[0] == 'm' && "params"@[0] == 'p');
    assert("parentId"@.len() == 8 && "nodes"@.len() == 5);
    if walk.table.contains_key(id) {
        levels_are_walked(walk.table[id].children, id, walk);
    }
}

/// What needs no answer but an acknowledgement gets the empty result, and a method that the domain
/// does not list is refused by name.
pub proof fn other_methods_are_acknowledged_or_refused(
    method: Seq<char>,
    params: JsonView,
    snapshot: Option<NodeView>,
    walk: Walk,
)
    ensures
        method == "DOM.requestChildNodes"@ || method == "CSS.getInlineStylesForNode"@ || method
            == "Overlay.highlightNode"@ || method == "Overlay.hideHighlight"@ ==> dom_reply(
            method,
            params,
            snapshot,
            walk,
        ) == ReplyView::Result(JsonView::Object(seq![])),
        !dom_methods().contains(method) ==> (dom_reply(
            method,
            params,
            snapshot,
            walk,
        ) matches ReplyView::Error { code, message } && message == "unhandled method: "@ + method),
{
    acknowledged_names();
    let all = dom_methods();
    if !all.contains(method) {
        assert(all[0] != method && all[1] != method && all[2] != method && all[3] != method
            && all[4] != method && all[5] != method && all[6] != method && all[7] != method
            && all[8] != method && all[9] != method && all[10] != method && all[11] != method
            && all[12] != method);
    }
}

proof fn acknowledged_names()
    ensures
        "DOM.requestChildNodes"@ != "Page.getResourceTree"@,
        "DOM.requestChildNodes"@ != "Page.getAppManifest"@,
        "DOM.requestChildNodes"@ != "Page.getNavigationHistory"@,
        "DOM.requestChildNodes"@ != "DOM.getDocument"@,
        "DOM.requestChildNodes"@ != "DOM.resolveNode"@,
        "DOM.requestChildNodes"@ != "DOM.getBoxModel"@,
        "DOM.requestChildNodes"@ != "DOM.pushNodesByBackendIdsToFrontend"@,
        "DOM.requestChildNodes"@ != "CSS.getComputedStyleForNode"@,
        "DOM.requestChildNodes"@ != "CSS.getMatchedStylesForNode"@,
        "Page.getResourceTree"@ != "Page.getAppManifest"@,
        "Page.getResourceTree"@ != "Page.getNavigationHistory"@,
        "Page.getResourceTree"@ != "DOM.getDocument"@,
        "Page.getResourceTree"@ != "DOM.resolveNode"@,
        "Page.getResourceTree"@ != "DOM.getBoxModel"@,
        "Page.getResourceTree"@ != "DOM.pushNodesByBackendIdsToFrontend"@,
        "Page.getResourceTree"@ != "CSS.getComputedStyleForNode"@,
        "Page.getResourceTree"@ != "CSS.getMatchedStylesForNode"@,
        "Page.getAppManifest"@ != "Page.getNavigationHistory"@,
        "Page.getAppManifest"@ != "DOM.getDocument"@,
        "Page.getAppManifest"@ != "DOM.resolveNode"@,
        "Page.getAppManifest"@ != "DOM.getBoxModel"@,
        "Page.getAppManifest"@ != "DOM.pushNodesByBackendIdsToFrontend"@,
        "Page.getAppManifest"@ != "CSS.getComputedStyleForNode"@,
        "Page.getAppManifest"@ != "CSS.getMatchedStylesForNode"@,
        "Page.getNavigationHistory"@ != "DOM.getDocument"@,
        "Page.getNavigationHistory"@ != "DOM.resolveNode"@,
        "Page.getNavigationHistory"@ != "DOM.getBoxModel"@,
        "Page.getNavigationHistory"@ != "DOM.pushNodesByBackendIdsToFrontend"@,
        "Page.getNavigationHistory"@ != "CSS.getComputedStyleForNode"@,
        "Page.getNavigationHistory"@ != "CSS.getMatchedStylesForNode"@,
        "DOM.getDocument"@ != "DOM.resolveNode"@,
        "DOM.getDocument"@ != "DOM.getBoxModel"@,
        "DOM.getDocument"@ != "DOM.pushNodesByBackendIdsToFrontend"@,
        "DOM.getDocument"@ != "CSS.getComputedStyleForNode"@,
        "DOM.getDocument"@ != "CSS.getMatchedStylesForNode"@,
        "DOM.resolveNode"@ != "DOM.getBoxModel"@,
        "DOM.resolveNode"@ != "DOM.pushNodesByBackendIdsToFrontend"@,
        "DOM.resolveNode"@ != "CSS.getComputedStyleForNode"@,
        "DOM.resolveNode"@ != "CSS.getMatchedStylesForNode"@,
        "DOM.getBoxModel"@ != "DOM.pushNodesByBackendIdsToFrontend"@,
        "DOM.getBoxModel"@ != "CSS.getComputedStyleForNode"@,
        "DOM.getBoxModel"@ != "CSS.getMatchedStylesForNode"@,
        "DOM.pushNodesByBackendIdsToFrontend"@ != "CSS.getComputedStyleForNode"@,
        "DOM.pushNodesByBackendIdsToFrontend"@ != "CSS.getMatchedStylesForNode"@,
        "CSS.getComputedStyleForNode"@ != "CSS.getMatchedStylesForNode"@,
        "CSS.getInlineStylesForNode"@ != "Page.getResourceTree"@,
        "CSS.getInlineStylesForNode"@ != "Page.getAppManifest"@,
        "CSS.getInlineStylesForNode"@ != "Page.getNavigationHistory"@,
        "CSS.getInlineStylesForNode"@ != "DOM.getDocument"@,
        "CSS.getInlineStylesForNode"@ != "DOM.requestChildNodes"@,
        "CSS.getInlineStylesForNode"@ != "DOM.resolveNode"@,
        "CSS.getInlineStylesForNode"@ != "DOM.getBoxModel"@,
        "CSS.getInlineStylesForNode"@ != "DOM.pushNodesByBackendIdsToFrontend"@,
        "CSS.getInlineStylesForNode"@ != "CSS.getComputedStyleForNode"@,
        "CSS.getInlineStylesForNode"@ != "CSS.getMatchedStylesForNode"@,
        "Overlay.highlightNode"@ != "Page.getResourceTree"@,
        "Overlay.highlightNode"@ != "Page.getAppManifest"@,
        "Overlay.highlightNode"@ != "Page.getNavigationHistory"@,
        "Overlay.highlightNode"@ != "DOM.getDocument"@,
        "Overlay.highlightNode"@ != "DOM.requestChildNodes"@,
        "Overlay.highlightNode"@ != "DOM.resolveNode"@,
        "Overlay.highlightNode"@ != "DOM.getBoxModel"@,
        "Overlay.highlightNode"@ != "DOM.pushNodesByBackendIdsToFrontend"@,
        "Overlay.highlightNode"@ != "CSS.getComputedStyleForNode"@,
        "Overlay.highlightNode"@ != "CSS.getMatchedStylesForNode"@,
        "Overlay.hideHighlight"@ != "Page.getResourceTree"@,
        "Overlay.hideHighlight"@ != "Page.getAppManifest"@,
        "Overlay.hideHighlight"@ != "Page.getNavigationHistory"@,
        "Overlay.hideHighlight"@ != "DOM.getDocument"@,
        "Overlay.hideHighlight"@ != "DOM.requestChildNodes"@,
        "Overlay.hideHighlight"@ != "DOM.resolveNode"@,
        "Overlay.hideHighlight"@ != "DOM.getBoxModel"@,
        "Overlay.hideHighlight"@ != "DOM.pushNodesByBackendIdsToFrontend"@,
        "Overlay.hideHighlight"@ != "CSS.getComputedStyleForNode"@,
        "Overlay.hideHighlight"@ != "CSS.getMatchedStylesForNode"@,
{
    reveal_strlit("DOM.requestChildNodes");
    reveal_strlit("Page.getResourceTree");
    reveal_strlit("Page.getAppManifest");
    reveal_strlit("Page.getNavigationHistory");
    reveal_strlit("DOM.getDocument");
    reveal_strlit("DOM.resolveNode");
    reveal_strlit("DOM.getBoxModel");
    reveal_strlit("DOM.pushNodesByBackendIdsToFrontend");
    reveal_strlit("CSS.getComputedStyleForNode");
    reveal_strlit("CSS.getMatchedStylesForNode");
    reveal_strlit("CSS.getInlineStylesForNode");
    reveal_strlit("Overlay.highlightNode");
    reveal_strlit("Overlay.hideHighlight");
    assert("DOM.requestChildNodes"@.len() == 21);
    assert("Page.getResourceTree"@.len() == 20);
    assert("Page.getAppManifest"@.len() == 19);
    assert("Page.getNavigationHistory"@.len() == 25);
    assert("DOM.getDocument"@.len() == 15);
    assert("DOM.resolveNode"@.len() == 15);
    assert("DOM.getBoxModel"@.len() == 15);
    assert("DOM.pushNodesByBackendIdsToFrontend"@.len() == 35);
    assert("CSS.getComputedStyleForNode"@.len() == 27);
    assert("CSS.getMatchedStylesForNode"@.len() == 27);
    assert("CSS.getInlineStylesForNode"@.len() == 26);
    assert("Overlay.highlightNode"@.len() == 21);
    assert("Overlay.hideHighlight"@.len() == 21);
    assert("DOM.getDocument"@[4] == 'g');
    assert("DOM.resolveNode"@[4] == 'r');
    assert("DOM.getDocument"@[7] == 'D');
    assert("DOM.getBoxModel"@[7] == 'B');
    assert("DOM.getBoxModel"@[4] == 'g');
    assert("CSS.getComputedStyleForNode"@[7] == 'C');
    assert("CSS.getMatchedStylesForNode"@[7] == 'M');
    assert("Overlay.highlightNode"@[0] == 'O');
    assert("DOM.requestChildNodes"@[0] == 'D');
    assert("Overlay.hideHighlight"@[0] == 'O');
}


/// A request about a node that no view was given the id of is refused, and says so.
pub proof fn unknown_nodes_are_refused(params: JsonView, snapshot: Option<NodeView>, walk: Walk)
    requires
        params.unsigned_field("nodeId"@) matches Some(id) ==> !walk.table.contains_key(id as u64),
        params.unsigned_field("backendNodeId"@) matches Some(id) ==> !walk.table.contains_key(
            id as u64,
        ),
    ensures
        forall|method: Seq<char>|
            method == "DOM.resolveNode"@ || method == "DOM.getBoxModel"@ || method
                == "CSS.getComputedStyleForNode"@ ==> (#[trigger] dom_reply(
                method,
                params,
                snapshot,
                walk,
            ) matches ReplyView::Error { code, message } && message == "no such node"@),
{
    method_names();
}

} // verus!
