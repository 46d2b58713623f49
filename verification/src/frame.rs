//! One element while it is being filled: the element so far, and what is
//! pending for what comes next in it.
//!
//! What is pending belongs to one element. It is not handed to the element's
//! children, nor back to the element it is a child of.

use vstd::prelude::*;
use crate::namespace::{children_kind, own_namespace, resolve_namespace, HtmlOrSvg};
use crate::node::{
    bind_listener, bound, lemma_nodes_view_add, lemma_nodes_view_push, nodes_view, Attribute,
    AttributeView, Element, ElementView, Node, NodeView,
};
use crate::xml_escape::{decode_5_xml_control_characters, decoded};

verus! {

/// An element that is being filled.
#[derive(Debug, PartialEq, Eq)]
pub struct Frame<L> {
    /// The element, with what was added to it so far.
    pub element: Element<L>,
    /// What the children of the element are found among.
    pub html_or_svg: HtmlOrSvg,
    /// The string that replaces the next text or attribute value, if one is
    /// pending.
    pub replace_string: Option<String>,
    /// The nodes that replace the next child element, if any are pending.
    pub replace_vec_nodes: Option<Vec<Node<L>>>,
    /// Whether the next child element stays, if that was decided.
    pub replace_boolean: Option<bool>,
}

/// A `Frame`, as sequences.
pub struct FrameView<L> {
    pub element: ElementView<L>,
    pub html_or_svg: HtmlOrSvg,
    pub replace_string: Option<Seq<char>>,
    pub replace_vec_nodes: Option<Seq<NodeView<L>>>,
    pub replace_boolean: Option<bool>,
}

impl<L> View for Frame<L> {
    type V = FrameView<L>;

    open spec fn view(&self) -> FrameView<L> {
        FrameView {
            element: self.element@,
            html_or_svg: self.html_or_svg,
            replace_string: match self.replace_string {
                Some(text) => Some(text@),
                None => None,
            },
            replace_vec_nodes: match self.replace_vec_nodes {
                Some(nodes) => Some(nodes_view(nodes@)),
                None => None,
            },
            replace_boolean: self.replace_boolean,
        }
    }
}

impl<L> FrameView<L> {
    /// The frame of `element`, with nothing pending.
    pub open spec fn opened(element: ElementView<L>, html_or_svg: HtmlOrSvg) -> Self {
        FrameView {
            element,
            html_or_svg,
            replace_string: None,
            replace_vec_nodes: None,
            replace_boolean: None,
        }
    }

    /// The frame of a child element `tag_name` that starts in this frame: the
    /// element is empty, and nothing is pending in it.
    pub open spec fn child(self, tag_name: Seq<char>) -> Self {
        Self::opened(
            ElementView::empty(tag_name, own_namespace(self.html_or_svg, tag_name)),
            children_kind(self.html_or_svg, tag_name),
        )
    }

    /// What stands in the place of `literal`: the pending string if there is
    /// one, else `literal`; in both cases decoded.
    pub open spec fn next_text(self, literal: Seq<char>) -> Seq<char> {
        match self.replace_string {
            Some(replacement) => decoded(replacement),
            None => decoded(literal),
        }
    }

    /// The frame after the attribute `name`: it is added with the value that
    /// stands in the place of `value`, and no string is pending any more.
    pub open spec fn with_attribute(self, name: Seq<char>, value: Seq<char>) -> Self {
        FrameView {
            element: ElementView {
                attributes: self.element.attributes.push(
                    AttributeView { name, value: self.next_text(value) },
                ),
                ..self.element
            },
            replace_string: None,
            ..self
        }
    }

    /// The frame after the text `text`: what stands in its place is added as a
    /// child, and no string is pending any more.
    pub open spec fn with_text(self, text: Seq<char>) -> Self {
        FrameView {
            element: ElementView {
                children: self.element.children.push(NodeView::Text(self.next_text(text))),
                ..self.element
            },
            replace_string: None,
            ..self
        }
    }

    /// The frame after `callback` was bound to `event`: it is the listener
    /// of the element for that event, in the place of any that was bound to
    /// it before.
    pub open spec fn with_listener(self, event: Seq<char>, callback: L) -> Self {
        FrameView {
            element: ElementView {
                listeners: bound(self.element.listeners, event, callback),
                ..self.element
            },
            ..self
        }
    }

    /// Whether the next child element, or what replaces it, is added: unless
    /// it was decided that it does not stay.
    pub open spec fn retains_next(self) -> bool {
        self.replace_boolean != Some(false)
    }

    /// The frame after the child element `child` was built. Where the child
    /// does not stay, nothing is added, and pending nodes stay pending.
    /// Otherwise the pending nodes are added in its place, if there are any,
    /// else the child itself. In both cases no decision is pending any more.
    pub open spec fn with_child(self, child: ElementView<L>) -> Self {
        if self.retains_next() {
            FrameView {
                element: ElementView {
                    children: match self.replace_vec_nodes {
                        Some(nodes) => self.element.children + nodes,
                        None => self.element.children.push(NodeView::Element(child)),
                    },
                    ..self.element
                },
                replace_vec_nodes: None,
                replace_boolean: None,
                ..self
            }
        } else {
            FrameView { replace_boolean: None, ..self }
        }
    }
}

impl<L> Frame<L> {
    /// The frame of `element`, with nothing pending.
    pub fn new(element: Element<L>, html_or_svg: HtmlOrSvg) -> (frame: Self)
        ensures
            frame@ == FrameView::opened(element@, html_or_svg),
    {
        Frame {
            element,
            html_or_svg,
            replace_string: None,
            replace_vec_nodes: None,
            replace_boolean: None,
        }
    }

    /// The frame of a child element `tag_name` that starts in this frame.
    pub fn start_child(&self, tag_name: &str) -> (frame: Self)
        ensures
            frame@ == self@.child(tag_name@),
    {
        let (namespace, html_or_svg) = resolve_namespace(self.html_or_svg, tag_name);
        Frame::new(Element::new(tag_name.to_owned(), namespace), html_or_svg)
    }

    /// Takes what stands in the place of `literal`: the pending string, which
    /// is then pending no more, or else `literal`; decoded.
    fn take_text(&mut self, literal: &str) -> (text: String)
        ensures
            text@ == old(self)@.next_text(literal@),
            final(self)@ == (FrameView { replace_string: None, ..old(self)@ }),
    {
        match self.replace_string.take() {
            Some(replacement) => decode_5_xml_control_characters(replacement.as_str()),
            None => decode_5_xml_control_characters(literal),
        }
    }

    /// Adds the attribute `name` with what stands in the place of `value`.
    pub fn add_attribute(&mut self, name: &str, value: &str)
        ensures
            final(self)@ == old(self)@.with_attribute(name@, value@),
    {
        let value = self.take_text(value);
        let attribute = Attribute { name: name.to_owned(), value };
        proof {
            assert(self.element.attributes@.push(attribute).map_values(|a: Attribute| a@)
                == self.element.attributes@.map_values(|a: Attribute| a@).push(attribute@));
        }
        self.element.attributes.push(attribute);
    }

    /// Adds, as a child, what stands in the place of the text `text`.
    pub fn add_text(&mut self, text: &str)
        ensures
            final(self)@ == old(self)@.with_text(text@),
    {
        let text = self.take_text(text);
        proof {
            lemma_nodes_view_push(self.element.children@, Node::Text(text));
        }
        self.element.children.push(Node::Text(text));
    }

    /// Binds `callback` to `event`, in the place of any that was bound to it
    /// before.
    pub fn add_listener(&mut self, event: &str, callback: L)
        ensures
            final(self)@ == old(self)@.with_listener(event@, callback),
    {
        bind_listener(&mut self.element.listeners, event, callback);
    }

    /// Adds the child element `child`, or what replaces it, or nothing, as
    /// was pending for it.
    pub fn add_child(&mut self, child: Element<L>)
        ensures
            final(self)@ == old(self)@.with_child(child@),
    {
        let retain = match self.replace_boolean {
            Some(retain) => retain,
            None => true,
        };
        if retain {
            match self.replace_vec_nodes.take() {
                Some(mut nodes) => {
                    proof {
                        lemma_nodes_view_add(self.element.children@, nodes@);
                    }
                    self.element.children.append(&mut nodes);
                },
                None => {
                    proof {
                        lemma_nodes_view_push(self.element.children@, Node::Element(child));
                    }
                    self.element.children.push(Node::Element(child));
                },
            }
        }
        self.replace_boolean = None;
    }
}

} // verus!
