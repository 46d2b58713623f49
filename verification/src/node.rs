//! The tree that a template is turned into: elements with their attributes,
//! event listeners and children, and texts.
//!
//! A listener's callback is whatever the host takes it to be: the type `L`.

use vstd::prelude::*;
use crate::namespace::optional_text;
use crate::text::same_text;

verus! {

/// An attribute of an element, such as `id="my-thing"`.
#[derive(Debug, PartialEq, Eq)]
pub struct Attribute {
    pub name: String,
    pub value: String,
}

/// An event listener of an element: the event to listen for, and the callback
/// to invoke when it happens.
#[derive(Debug, PartialEq, Eq)]
pub struct Listener<L> {
    pub event: String,
    pub callback: L,
}

/// An element: its tag name, its namespace (none for html), and its listeners,
/// attributes and children, each in the order in which they were added. A
/// well built element has at most one listener for an event.
#[derive(Debug, PartialEq, Eq)]
pub struct Element<L> {
    pub tag_name: String,
    pub namespace: Option<&'static str>,
    pub listeners: Vec<Listener<L>>,
    pub attributes: Vec<Attribute>,
    pub children: Vec<Node<L>>,
}

/// A node is either an element or a text.
#[derive(Debug, PartialEq, Eq)]
pub enum Node<L> {
    Element(Element<L>),
    Text(String),
}

/// An attribute, as its characters.
pub struct AttributeView {
    pub name: Seq<char>,
    pub value: Seq<char>,
}

/// A listener, with its event as characters.
pub struct ListenerView<L> {
    pub event: Seq<char>,
    pub callback: L,
}

/// An element, as sequences.
pub struct ElementView<L> {
    pub tag_name: Seq<char>,
    pub namespace: Option<Seq<char>>,
    pub listeners: Seq<ListenerView<L>>,
    pub attributes: Seq<AttributeView>,
    pub children: Seq<NodeView<L>>,
}

/// A node, as sequences.
pub enum NodeView<L> {
    Element(ElementView<L>),
    Text(Seq<char>),
}

impl<L> ElementView<L> {
    /// The element `tag_name` with nothing in it.
    pub open spec fn empty(tag_name: Seq<char>, namespace: Option<Seq<char>>) -> Self {
        ElementView {
            tag_name,
            namespace,
            listeners: Seq::empty(),
            attributes: Seq::empty(),
            children: Seq::empty(),
        }
    }
}

impl View for Attribute {
    type V = AttributeView;

    open spec fn view(&self) -> AttributeView {
        AttributeView { name: self.name@, value: self.value@ }
    }
}

impl<L> View for Listener<L> {
    type V = ListenerView<L>;

    open spec fn view(&self) -> ListenerView<L> {
        ListenerView { event: self.event@, callback: self.callback }
    }
}

/// What each of `listeners` holds, in the same order.
pub open spec fn listeners_view<L>(listeners: Seq<Listener<L>>) -> Seq<ListenerView<L>> {
    listeners.map_values(|listener: Listener<L>| listener@)
}

/// `listeners` without those that listen for `event`.
pub open spec fn unbound<L>(listeners: Seq<ListenerView<L>>, event: Seq<char>) -> Seq<
    ListenerView<L>,
>
    decreases listeners.len(),
{
    if listeners.len() == 0 {
        listeners
    } else if listeners.last().event == event {
        unbound(listeners.drop_last(), event)
    } else {
        unbound(listeners.drop_last(), event).push(listeners.last())
    }
}

/// `listeners` after `callback` was bound to `event`: it is the last of them,
/// and those that listened for `event` before are gone.
pub open spec fn bound<L>(listeners: Seq<ListenerView<L>>, event: Seq<char>, callback: L) -> Seq<
    ListenerView<L>,
> {
    unbound(listeners, event).push(ListenerView { event, callback })
}

/// Whether no two of `listeners` listen for the same event.
pub open spec fn distinct_events<L>(listeners: Seq<ListenerView<L>>) -> bool {
    forall|i: int, j: int|
        0 <= i < j < listeners.len() ==> (#[trigger] listeners[i]).event
            != (#[trigger] listeners[j]).event
}

/// Whether every element in `node`, as deep as it may stand, has at most
/// one listener for an event.
pub open spec fn well_bound<L>(node: NodeView<L>) -> bool
    decreases node,
{
    match node {
        NodeView::Element(element) => distinct_events(element.listeners) && forall|i: int|
            0 <= i < element.children.len() ==> well_bound(#[trigger] element.children[i]),
        NodeView::Text(_) => true,
    }
}

/// What `node` holds.
pub open spec fn node_view<L>(node: Node<L>) -> NodeView<L>
    decreases node,
{
    match node {
        Node::Element(element) => NodeView::Element(element_view(element)),
        Node::Text(text) => NodeView::Text(text@),
    }
}

/// What `element` holds.
pub open spec fn element_view<L>(element: Element<L>) -> ElementView<L>
    decreases element,
{
    ElementView {
        tag_name: element.tag_name@,
        namespace: optional_text(element.namespace),
        listeners: listeners_view(element.listeners@),
        attributes: element.attributes@.map_values(|attribute: Attribute| attribute@),
        children: nodes_view(element.children@),
    }
}

/// What each of `nodes` holds, in the same order.
pub open spec fn nodes_view<L>(nodes: Seq<Node<L>>) -> Seq<NodeView<L>>
    decreases nodes,
{
    if nodes.len() == 0 {
        Seq::empty()
    } else {
        nodes_view(nodes.drop_last()).push(node_view(nodes.last()))
    }
}

impl<L> View for Element<L> {
    type V = ElementView<L>;

    open spec fn view(&self) -> ElementView<L> {
        element_view(*self)
    }
}

impl<L> View for Node<L> {
    type V = NodeView<L>;

    open spec fn view(&self) -> NodeView<L> {
        node_view(*self)
    }
}

/// `nodes_view` goes node by node.
pub proof fn lemma_nodes_view<L>(nodes: Seq<Node<L>>)
    ensures
        nodes_view(nodes).len() == nodes.len(),
        forall|i: int| 0 <= i < nodes.len() ==> #[trigger] nodes_view(nodes)[i] == node_view(nodes[i]),
    decreases nodes.len(),
{
    if nodes.len() > 0 {
        lemma_nodes_view(nodes.drop_last());
    }
}

/// `nodes_view` of two sequences one after the other.
pub proof fn lemma_nodes_view_add<L>(first: Seq<Node<L>>, second: Seq<Node<L>>)
    ensures
        nodes_view(first + second) == nodes_view(first) + nodes_view(second),
{
    lemma_nodes_view(first);
    lemma_nodes_view(second);
    lemma_nodes_view(first + second);
}

/// `nodes_view` of a sequence with one more node at its end.
pub proof fn lemma_nodes_view_push<L>(nodes: Seq<Node<L>>, node: Node<L>)
    ensures
        nodes_view(nodes.push(node)) == nodes_view(nodes).push(node_view(node)),
{
    assert(nodes.push(node).drop_last() == nodes);
}

/// Each of `unbound(listeners, event)` is one of `listeners` and listens for
/// another event than `event`; and where no two of `listeners` listen for
/// the same event, no two of these do.
pub proof fn lemma_unbound<L>(listeners: Seq<ListenerView<L>>, event: Seq<char>)
    ensures
        unbound(listeners, event).len() <= listeners.len(),
        forall|i: int|
            0 <= i < unbound(listeners, event).len() ==> (#[trigger] unbound(
                listeners,
                event,
            )[i]).event != event && listeners.contains(unbound(listeners, event)[i]),
        distinct_events(listeners) ==> distinct_events(unbound(listeners, event)),
    decreases listeners.len(),
{
    if listeners.len() > 0 {
        let rest = listeners.drop_last();
        lemma_unbound(rest, event);
        let kept = unbound(listeners, event);
        assert forall|i: int| 0 <= i < kept.len() implies (#[trigger] kept[i]).event != event
            && listeners.contains(kept[i]) by {}
        if distinct_events(listeners) {
            assert(distinct_events(rest)) by {
                assert forall|i: int, j: int| 0 <= i < j < rest.len() implies (#[trigger] rest[i]).event
                    != (#[trigger] rest[j]).event by {}
            }
            assert forall|i: int, j: int| 0 <= i < j < kept.len() implies (#[trigger] kept[i]).event
                != (#[trigger] kept[j]).event by {}
        }
    }
}

/// After a callback was bound to an event, it is the one listener for that
/// event; and where no two listeners listened for the same event before, no
/// two do afterwards.
pub proof fn lemma_bound<L>(listeners: Seq<ListenerView<L>>, event: Seq<char>, callback: L)
    ensures
        bound(listeners, event, callback).last() == (ListenerView { event, callback }),
        forall|i: int|
            0 <= i < bound(listeners, event, callback).len() - 1 ==> (#[trigger] bound(
                listeners,
                event,
                callback,
            )[i]).event != event,
        distinct_events(listeners) ==> distinct_events(bound(listeners, event, callback)),
{
    lemma_unbound(listeners, event);
    let all = bound(listeners, event, callback);
    assert forall|i: int| 0 <= i < all.len() - 1 implies (#[trigger] all[i]).event != event by {}
    if distinct_events(listeners) {
        assert forall|i: int, j: int| 0 <= i < j < all.len() implies (#[trigger] all[i]).event
            != (#[trigger] all[j]).event by {}
    }
}

/// Binds `callback` to `event`: it becomes the last of `listeners`, and those
/// that listened for `event` before are taken out.
pub fn bind_listener<L>(listeners: &mut Vec<Listener<L>>, event: &str, callback: L)
    ensures
        listeners_view(final(listeners)@) == bound(
            listeners_view(old(listeners)@),
            event@,
            callback,
        ),
{
    let mut before: Vec<Listener<L>> = Vec::new();
    core::mem::swap(listeners, &mut before);
    let ghost all = listeners_view(before@);
    for listener in it: before
        invariant
            it.seq() == before@,
            all == listeners_view(before@),
            listeners_view(listeners@) == unbound(all.take(it.index()), event@),
    {
        proof {
            assert(all.take(it.index() + 1).drop_last() =~= all.take(it.index()));
        }
        if !same_text(listener.event.as_str(), event) {
            listeners.push(listener);
        }
    }
    let listener = Listener { event: event.to_owned(), callback };
    proof {
        assert(all.take(all.len() as int) =~= all);
    }
    listeners.push(listener);
}

impl<L> Element<L> {
    /// The element `tag_name` with nothing in it.
    pub fn new(tag_name: String, namespace: Option<&'static str>) -> (element: Self)
        ensures
            element@ == ElementView::<L>::empty(tag_name@, optional_text(namespace)),
    {
        let element = Element {
            tag_name,
            namespace,
            listeners: Vec::new(),
            attributes: Vec::new(),
            children: Vec::new(),
        };
        assert(element@.listeners =~= Seq::empty());
        assert(element@.attributes =~= Seq::empty());
        element
    }
}

/// An empty `div` element.
pub fn empty_div<L>() -> (node: Node<L>)
    ensures
        node@ == NodeView::Element(ElementView::<L>::empty("div"@, None)),
{
    Node::Element(Element::new("div".to_owned(), None))
}

} // verus!
