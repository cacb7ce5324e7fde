//! Named capabilities: how the names in a list nest into namespaces, and what is registered under
//! a dotted path.
use crate::dispatcher::look_up_item;
use crate::order::{
    in_order, keyed, look_up, put, put_item, put_keeps_order, put_then_look_up,
    same_look_up_same_table,
};
use crate::text::{
    after_prefix, among, chars_of, find_char, index_of, joined, rest_after, slice_text, texts,
};
use vstd::prelude::*;

verus! {

/// Whether more names lie below a child, or it is a capability and nothing below it.
#[derive(Clone, Copy, Debug, PartialEq, Eq, Structural)]
pub enum ChildKind {
    Namespace,
    Capability,
}

/// What every name below a path begins with.
pub open spec fn below(path: Seq<char>) -> Seq<char> {
    if path.len() == 0 {
        seq![]
    } else {
        path + "."@
    }
}

/// The child of `path` that a name lies in: its next segment, which is a namespace where more
/// follows.
pub open spec fn child_in(path: Seq<char>, name: Seq<char>) -> Option<(Seq<char>, ChildKind)> {
    match rest_after(name, below(path)) {
        None => None,
        Some(rest) => if rest.len() == 0 {
            None
        } else if index_of(rest, '.') < rest.len() {
            Some((rest.take(index_of(rest, '.')), ChildKind::Namespace))
        } else {
            Some((rest, ChildKind::Capability))
        },
    }
}

/// Whether one of the names lies in the given child of `path`.
pub open spec fn has_child(
    path: Seq<char>,
    names: Seq<Seq<char>>,
    child: Seq<char>,
    kind: ChildKind,
) -> bool {
    exists|i: int|
        0 <= i < names.len() && child_in(path, #[trigger] names[i]) == Some((child, kind))
}

/// What a child of `path` is. A child that is a capability itself and has names below it is a
/// namespace.
pub open spec fn child_kind(
    path: Seq<char>,
    names: Seq<Seq<char>>,
    child: Seq<char>,
) -> Option<ChildKind> {
    if has_child(path, names, child, ChildKind::Namespace) {
        Some(ChildKind::Namespace)
    } else if has_child(path, names, child, ChildKind::Capability) {
        Some(ChildKind::Capability)
    } else {
        None
    }
}

/// The table of children with the child that one more name lies in.
pub open spec fn child_added(
    table: Seq<(Seq<char>, ChildKind)>,
    path: Seq<char>,
    name: Seq<char>,
) -> Seq<(Seq<char>, ChildKind)> {
    match child_in(path, name) {
        None => table,
        Some((child, kind)) => if look_up(table, child) == Some(ChildKind::Namespace) {
            table
        } else {
            put(table, child, kind)
        },
    }
}

/// The children of `path`, each once, in the order of their names.
pub open spec fn children(path: Seq<char>, names: Seq<Seq<char>>) -> Seq<(Seq<char>, ChildKind)>
    decreases names.len(),
{
    if names.len() == 0 {
        seq![]
    } else {
        child_added(children(path, names.drop_last()), path, names.last())
    }
}

/// The children of a path ascend, and are those that the names lie in, each with its kind.
pub proof fn children_are_exact(path: Seq<char>, names: Seq<Seq<char>>, child: Seq<char>)
    ensures
        in_order(children(path, names)),
        look_up(children(path, names), child) == child_kind(path, names, child),
    decreases names.len(),
{
    if names.len() > 0 {
        let front = names.drop_last();
        let last = names.last();
        let table = children(path, front);
        children_are_exact(path, front, child);
        assert(names[names.len() - 1] == last);
        assert forall|kind: ChildKind|
            has_child(path, names, child, kind) == (has_child(path, front, child, kind) || child_in(
                path,
                last,
            ) == Some((child, kind))) by {
            if has_child(path, names, child, kind) {
                let i = choose|i: int|
                    0 <= i < names.len() && child_in(path, #[trigger] names[i]) == Some(
                        (child, kind),
                    );
                if i < front.len() {
                    assert(front[i] == names[i]);
                }
            }
            if has_child(path, front, child, kind) {
                let i = choose|i: int|
                    0 <= i < front.len() && child_in(path, #[trigger] front[i]) == Some(
                        (child, kind),
                    );
                assert(names[i] == front[i]);
            }
        }
        if let Some((added, kind)) = child_in(path, last) {
            put_keeps_order(table, added, kind);
            put_then_look_up(table, added, kind, child);
            children_are_exact(path, front, added);
        }
        assert(has_child(path, names, child, ChildKind::Namespace) == (has_child(
            path,
            front,
            child,
            ChildKind::Namespace,
        ) || child_in(path, last) == Some((child, ChildKind::Namespace))));
        assert(has_child(path, names, child, ChildKind::Capability) == (has_child(
            path,
            front,
            child,
            ChildKind::Capability,
        ) || child_in(path, last) == Some((child, ChildKind::Capability))));
    }
}

/// The children of a path depend only on which names there are: not on their order, nor on how
/// often one is listed.
pub proof fn children_ignore_listing(path: Seq<char>, a: Seq<Seq<char>>, b: Seq<Seq<char>>)
    requires
        forall|name: Seq<char>| #[trigger] a.contains(name) == b.contains(name),
    ensures
        children(path, a) == children(path, b),
{
    children_are_exact(path, a, seq![]);
    children_are_exact(path, b, seq![]);
    assert forall|child: Seq<char>| #[trigger]
        look_up(children(path, a), child) == look_up(children(path, b), child) by {
        children_are_exact(path, a, child);
        children_are_exact(path, b, child);
        same_children(path, a, b, child, ChildKind::Namespace);
        same_children(path, a, b, child, ChildKind::Capability);
        same_children(path, b, a, child, ChildKind::Namespace);
        same_children(path, b, a, child, ChildKind::Capability);
    }
    same_look_up_same_table(children(path, a), children(path, b));
}

proof fn same_children(
    path: Seq<char>,
    a: Seq<Seq<char>>,
    b: Seq<Seq<char>>,
    child: Seq<char>,
    kind: ChildKind,
)
    requires
        forall|name: Seq<char>| #[trigger] a.contains(name) == b.contains(name),
    ensures
        has_child(path, a, child, kind) ==> has_child(path, b, child, kind),
{
    if has_child(path, a, child, kind) {
        let i = choose|i: int|
            0 <= i < a.len() && child_in(path, #[trigger] a[i]) == Some((child, kind));
        assert(a.contains(a[i]));
        assert(b.contains(a[i]));
        let j = choose|j: int| 0 <= j < b.len() && b[j] == a[i];
        assert(child_in(path, b[j]) == Some((child, kind)));
    }
}

/// The path of a child.
pub open spec fn child_path(path: Seq<char>, child: Seq<char>) -> Seq<char> {
    below(path) + child
}

/// A child that is a capability is a name of the list.
pub proof fn leaf_is_a_name(path: Seq<char>, names: Seq<Seq<char>>, child: Seq<char>)
    requires
        look_up(children(path, names), child) == Some(ChildKind::Capability),
    ensures
        names.contains(child_path(path, child)),
{
    children_are_exact(path, names, child);
    let i = choose|i: int|
        0 <= i < names.len() && child_in(path, #[trigger] names[i]) == Some(
            (child, ChildKind::Capability),
        );
    let prefix = below(path);
    assert(names[i].subrange(0, prefix.len() as int) == prefix);
    assert(names[i] =~= prefix + names[i].skip(prefix.len() as int));
}

/// What a path is.
#[derive(Debug)]
pub enum Node {
    /// Neither a capability nor a namespace.
    Missing,
    /// A capability with nothing below it.
    Capability,
    /// A namespace, with its children in the order of their names.
    Namespace(Vec<(String, ChildKind)>),
}

/// What a path is.
#[verifier::ext_equal]
pub enum NodeView {
    Missing,
    Capability,
    Namespace(Seq<(Seq<char>, ChildKind)>),
}

impl View for Node {
    type V = NodeView;

    open spec fn view(&self) -> NodeView {
        match self {
            Node::Missing => NodeView::Missing,
            Node::Capability => NodeView::Capability,
            Node::Namespace(children) => NodeView::Namespace(keyed(children@)),
        }
    }
}

/// What a path is, given the names there are. The empty path is a namespace even where there are
/// no names.
pub open spec fn node_at(path: Seq<char>, names: Seq<Seq<char>>) -> NodeView {
    let list = children(path, names);
    if list.len() > 0 || path.len() == 0 {
        NodeView::Namespace(list)
    } else if names.contains(path) {
        NodeView::Capability
    } else {
        NodeView::Missing
    }
}

/// What every name below a path begins with.
pub fn prefix_below(path: &str) -> (prefix: String)
    ensures
        prefix@ == below(path@),
{
    if path.is_empty() {
        let prefix = String::new();
        assert(prefix@ =~= seq![]);
        prefix
    } else {
        joined(path, ".")
    }
}

/// The children of `path`: the next segment of every name below it, each once, in the order of
/// their names.
pub fn children_of(path: &str, names: &Vec<String>) -> (list: Vec<(String, ChildKind)>)
    ensures
        keyed(list@) == children(path@, texts(names@)),
{
    let prefix = prefix_below(path);
    let ghost all = texts(names@);
    let mut list: Vec<(String, ChildKind)> = Vec::new();
    assert(keyed(list@) =~= children(path@, all.take(0)));
    let mut i: usize = 0;
    while i < names.len()
        invariant
            i <= names.len(),
            all == texts(names@),
            prefix@ == below(path@),
            keyed(list@) == children(path@, all.take(i as int)),
        decreases names.len() - i,
    {
        proof {
            assert(all.take(i + 1).drop_last() =~= all.take(i as int));
            assert(all[i as int] == names@[i as int]@);
        }
        if let Some(rest) = after_prefix(names[i].as_str(), prefix.as_str()) {
            let chars = chars_of(rest.as_str());
            if chars.len() > 0 {
                let dot = find_char(&chars, '.');
                let child = slice_text(&chars, 0, dot);
                let kind = if dot < chars.len() {
                    ChildKind::Namespace
                } else {
                    ChildKind::Capability
                };
                assert(child@ =~= rest@.take(dot as int));
                assert(dot == chars@.len() ==> child@ =~= rest@);
                let namespace_already = match look_up_item(&list, child.as_str()) {
                    Some(ChildKind::Namespace) => true,
                    _ => false,
                };
                if !namespace_already {
                    put_item(&mut list, child, kind);
                }
            }
        }
        i = i + 1;
    }
    assert(all.take(i as int) =~= all);
    list
}

/// What a path is, given the names there are.
pub fn classify(path: &str, names: &Vec<String>) -> (node: Node)
    ensures
        node@ == node_at(path@, texts(names@)),
{
    let list = children_of(path, names);
    assert(keyed(list@).len() == list@.len());
    if list.len() > 0 || path.is_empty() {
        return Node::Namespace(list);
    }
    if among(names, path) {
        return Node::Capability;
    }
    Node::Missing
}

/// Whether a text is a segment of a name: it is not empty and holds no dot.
pub open spec fn is_segment(text: Seq<char>) -> bool {
    text.len() > 0 && forall|i: int| 0 <= i < text.len() ==> #[trigger] text[i] != '.'
}

proof fn no_dot_within(segment: Seq<char>, rest: Seq<char>)
    requires
        forall|i: int| 0 <= i < segment.len() ==> #[trigger] segment[i] != '.',
    ensures
        index_of(segment, '.') == segment.len(),
        index_of(segment + seq!['.'] + rest, '.') == segment.len(),
    decreases segment.len(),
{
    let all = segment + seq!['.'] + rest;
    if segment.len() > 0 {
        let behind = segment.drop_first();
        assert forall|i: int| 0 <= i < behind.len() implies #[trigger] behind[i] != '.' by {
            assert(behind[i] == segment[i + 1]);
        }
        no_dot_within(behind, rest);
        assert(all.drop_first() =~= behind + seq!['.'] + rest);
        assert(all[0] == segment[0]);
    } else {
        assert(all[0] == '.');
    }
}

/// A name lies in the child of a path that its next segment names: the child is a capability where
/// the name ends there, and a namespace where more follows. At the root the first segment counts.
pub proof fn names_nest_by_segments(path: Seq<char>, child: Seq<char>, rest: Seq<char>)
    requires
        is_segment(child),
    ensures
        path.len() > 0 ==> child_in(path, path + seq!['.'] + child) == Some(
            (child, ChildKind::Capability),
        ),
        path.len() > 0 ==> child_in(path, path + seq!['.'] + child + seq!['.'] + rest) == Some(
            (child, ChildKind::Namespace),
        ),
        child_in(seq![], child) == Some((child, ChildKind::Capability)),
        child_in(seq![], child + seq!['.'] + rest) == Some((child, ChildKind::Namespace)),
{
    reveal_strlit(".");
    assert("."@ =~= seq!['.']);
    no_dot_within(child, rest);
    let long = child + seq!['.'] + rest;
    assert(long.take(child.len() as int) =~= child);
    let none = Seq::<char>::empty();
    assert(child.subrange(0, 0) =~= none);
    assert(child.skip(0) =~= child);
    assert(long.subrange(0, 0) =~= none);
    assert(long.skip(0) =~= long);
    if path.len() > 0 {
        let prefix = path + seq!['.'];
        let n = prefix.len() as int;
        let a = path + seq!['.'] + child;
        let b = path + seq!['.'] + child + seq!['.'] + rest;
        assert(a.subrange(0, n) =~= prefix);
        assert(a.skip(n) =~= child);
        assert(b.subrange(0, n) =~= prefix);
        assert(b.skip(n) =~= long);
    }
}

/// Whether a name lies below a path: it goes on behind the path and a dot.
pub open spec fn lies_below(name: Seq<char>, path: Seq<char>) -> bool {
    name.len() > path.len() + 1 && name.take(path.len() as int) == path && name[path.len() as int]
        == '.'
}

/// Only a name below a path lies in a child of it.
pub proof fn only_names_below_nest(path: Seq<char>, name: Seq<char>)
    requires
        path.len() > 0,
    ensures
        child_in(path, name) is Some <==> lies_below(name, path),
{
    reveal_strlit(".");
    assert("."@ =~= seq!['.']);
    let prefix = path + seq!['.'];
    let n = prefix.len() as int;
    if lies_below(name, path) {
        assert(name.subrange(0, n) =~= prefix) by {
            assert forall|i: int| 0 <= i < n implies name[i] == prefix[i] by {
                if i < path.len() {
                    assert(name.take(path.len() as int)[i] == path[i]);
                }
            }
        }
    }
    if child_in(path, name) is Some {
        assert(name.subrange(0, n) == prefix);
        assert(name.subrange(0, n)[path.len() as int] == '.');
        assert(name.take(path.len() as int) =~= path) by {
            assert forall|i: int| 0 <= i < path.len() implies name[i] == path[i] by {
                assert(name.subrange(0, n)[i] == prefix[i]);
            }
        }
    }
}

/// A path is a namespace exactly where it is the root or a name lies below it, a capability where
/// it is a name and none lies below it, and missing where neither holds.
pub proof fn paths_are_what_the_names_say(path: Seq<char>, names: Seq<Seq<char>>)
    ensures
        node_at(path, names) is Namespace <==> path.len() == 0 || exists|i: int|
            0 <= i < names.len() && lies_below(#[trigger] names[i], path),
        node_at(path, names) is Capability ==> names.contains(path),
        node_at(path, names) is Missing ==> !names.contains(path),
{
    let list = children(path, names);
    if path.len() > 0 {
        if exists|i: int| 0 <= i < names.len() && lies_below(#[trigger] names[i], path) {
            let i = choose|i: int| 0 <= i < names.len() && lies_below(#[trigger] names[i], path);
            only_names_below_nest(path, names[i]);
            let (child, kind) = child_in(path, names[i])->0;
            children_are_exact(path, names, child);
            assert(has_child(path, names, child, kind));
            assert(look_up(list, child) is Some);
        }
        if list.len() > 0 {
            let child = list[0].0;
            children_are_exact(path, names, child);
            assert(look_up(list, child) is Some);
            let kind = child_kind(path, names, child)->0;
            let i = choose|i: int|
                0 <= i < names.len() && child_in(path, #[trigger] names[i]) == Some((child, kind));
            only_names_below_nest(path, names[i]);
            assert(lies_below(names[i], path));
        }
    }
}

} // verus!
