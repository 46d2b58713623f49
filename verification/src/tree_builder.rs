//! How a tree is built from the tokens of a template, told as a machine that
//! takes one token at a time.
//!
//! The machine holds the elements that are open, each in its frame: the one
//! that is being filled, and those that wait for it, outermost first. Beside
//! the frames runs the path of open tag names, against which end tags are
//! held.

use vstd::prelude::*;
use crate::directive::{
    attribute_directive, comment_directive, AttributeDirectiveView, CommentDirective,
};
use crate::error::{TemplateError, TemplateErrorView};
use crate::frame::{Frame, FrameView};
use crate::namespace::{children_kind, own_namespace, HtmlOrSvg};
use crate::node::{Element, ElementView, Node, NodeView};
use crate::token::{TokenItem, TokenView};

verus! {

/// What the host answers when it is asked by name: a string, whether a node
/// stays, nodes, and, for a name and an event, a listener.
pub struct HostAnswers<L> {
    pub strings: spec_fn(Seq<char>) -> Seq<char>,
    pub retains: spec_fn(Seq<char>) -> bool,
    pub nodes: spec_fn(Seq<char>) -> Seq<NodeView<L>>,
    pub listeners: spec_fn(Seq<char>, Seq<char>) -> L,
}

/// The elements that are open: `current` is being filled, and `suspended`
/// wait for it, outermost first. Each of the suspended is the parent of the
/// next, and the last of them the parent of `current`.
#[derive(Debug, PartialEq, Eq)]
pub struct TreeBuilder<L> {
    pub suspended: Vec<Frame<L>>,
    pub current: Frame<L>,
}

/// A `TreeBuilder`, as sequences.
pub struct TreeBuilderView<L> {
    pub suspended: Seq<FrameView<L>>,
    pub current: FrameView<L>,
}

/// What became of a `TreeBuilder` that took a token.
#[derive(Debug, PartialEq, Eq)]
pub enum Progress<L> {
    /// The builder goes on, in this state.
    Open(TreeBuilder<L>),
    /// The builder has ended: the outermost element was closed and is handed
    /// out, or there was an error.
    Closed(Result<Element<L>, TemplateError>),
}

/// A `Progress` and the path of open tag names beside it, as sequences.
pub enum ProgressView<L> {
    Open { builder: TreeBuilderView<L>, dom_path: Seq<Seq<char>> },
    Closed { result: Result<ElementView<L>, TemplateErrorView>, dom_path: Seq<Seq<char>> },
}

/// How the filling of an element ended: with the element or an error, with the
/// tokens that were not read, and with the path of open tag names as it was
/// left.
pub struct Filled<L> {
    pub result: Result<ElementView<L>, TemplateErrorView>,
    pub rest: Seq<TokenItem>,
    pub dom_path: Seq<Seq<char>>,
}

/// The characters of each of `texts`.
pub open spec fn texts_view(texts: Seq<String>) -> Seq<Seq<char>> {
    texts.map_values(|text: String| text@)
}

/// What each of `frames` holds.
pub open spec fn frames_view<L>(frames: Seq<Frame<L>>) -> Seq<FrameView<L>> {
    frames.map_values(|frame: Frame<L>| frame@)
}

/// An element or an error, as sequences.
pub open spec fn element_result_view<L>(result: Result<Element<L>, TemplateError>) -> Result<
    ElementView<L>,
    TemplateErrorView,
> {
    match result {
        Ok(element) => Ok(element@),
        Err(error) => Err(error@),
    }
}

/// A node or an error, as sequences.
pub open spec fn node_result_view<L>(result: Result<Node<L>, TemplateError>) -> Result<
    NodeView<L>,
    TemplateErrorView,
> {
    match result {
        Ok(node) => Ok(node@),
        Err(error) => Err(error@),
    }
}

impl<L> View for TreeBuilder<L> {
    type V = TreeBuilderView<L>;

    open spec fn view(&self) -> TreeBuilderView<L> {
        TreeBuilderView { suspended: frames_view(self.suspended@), current: self.current@ }
    }
}

impl<L> Progress<L> {
    /// This progress with `dom_path` beside it, as sequences.
    pub open spec fn view_with(self, dom_path: Seq<String>) -> ProgressView<L> {
        match self {
            Progress::Open(builder) => ProgressView::Open {
                builder: builder@,
                dom_path: texts_view(dom_path),
            },
            Progress::Closed(result) => ProgressView::Closed {
                result: element_result_view(result),
                dom_path: texts_view(dom_path),
            },
        }
    }
}

impl<L> TreeBuilderView<L> {
    /// A builder in which `frame` alone is open.
    pub open spec fn root(frame: FrameView<L>) -> Self {
        TreeBuilderView { suspended: Seq::empty(), current: frame }
    }

    /// This builder with `frame` in the place of the frame that is being
    /// filled.
    pub open spec fn with_current(self, frame: FrameView<L>) -> Self {
        TreeBuilderView { current: frame, ..self }
    }
}

/// The frame after the comment `text`: a comment of a reserved form leaves the
/// host's answer to `text` pending, any other changes nothing.
pub open spec fn after_comment<L>(host: HostAnswers<L>, frame: FrameView<L>, text: Seq<char>)
    -> FrameView<L> {
    match comment_directive(text) {
        CommentDirective::ReplaceString => FrameView {
            replace_string: Some((host.strings)(text)),
            ..frame
        },
        CommentDirective::ReplaceNodes => FrameView {
            replace_vec_nodes: Some((host.nodes)(text)),
            ..frame
        },
        CommentDirective::RetainNext => FrameView {
            replace_boolean: Some((host.retains)(text)),
            ..frame
        },
        CommentDirective::EndOfReplace => frame,
        CommentDirective::Plain => frame,
    }
}

/// The frame after the attribute `name` with the value `value`, or the error
/// that the attribute is. A `data-wt-` attribute leaves the host's string
/// for `value` pending, a `data-on-` attribute binds the host's listener for
/// `value` to the event it names, and neither becomes an attribute of the
/// element; any other does.
pub open spec fn after_attribute<L>(
    host: HostAnswers<L>,
    frame: FrameView<L>,
    name: Seq<char>,
    value: Seq<char>,
) -> Result<FrameView<L>, TemplateErrorView> {
    match attribute_directive(name, value) {
        Ok(AttributeDirectiveView::ReplaceString) => Ok(
            FrameView { replace_string: Some((host.strings)(value)), ..frame },
        ),
        Ok(AttributeDirectiveView::Listen(event)) => Ok(
            frame.with_listener(event, (host.listeners)(value, event)),
        ),
        Ok(AttributeDirectiveView::Plain) => Ok(frame.with_attribute(name, value)),
        Err(error) => Err(error),
    }
}

/// Whether the end tag `closed` ends the element `opened`: it bears the same
/// name, or none.
pub open spec fn closes(opened: Seq<char>, closed: Seq<char>) -> bool {
    closed == opened || closed.len() == 0
}

/// What becomes of `builder`, with `dom_path` beside it, when it takes `item`.
///
/// - An error of the reader ends the building with that error.
/// - The start of an element opens a frame for it, in which nothing is
///   pending, and puts its name on the path.
/// - An attribute, a text and a comment change the frame that is being
///   filled; an attribute of a reserved form with a value that does not fit
///   ends the building with an error.
/// - The end of an element takes the last name off the path. Where the end
///   tag does not close that name, the building ends with an error. Else the
///   element goes to the frame that waited for it, which is filled from then
///   on; or, if none waited, the building ends with the element.
pub open spec fn after_token<L>(
    host: HostAnswers<L>,
    builder: TreeBuilderView<L>,
    dom_path: Seq<Seq<char>>,
    item: TokenItem,
) -> ProgressView<L> {
    match item {
        Err(message) => ProgressView::Closed {
            result: Err(TemplateErrorView::TokenSourceError(message)),
            dom_path,
        },
        Ok(TokenView::StartElement(name)) => ProgressView::Open {
            builder: TreeBuilderView {
                suspended: builder.suspended.push(builder.current),
                current: builder.current.child(name),
            },
            dom_path: dom_path.push(name),
        },
        Ok(TokenView::Attribute(name, value)) => match after_attribute(
            host,
            builder.current,
            name,
            value,
        ) {
            Ok(frame) => ProgressView::Open { builder: builder.with_current(frame), dom_path },
            Err(error) => ProgressView::Closed { result: Err(error), dom_path },
        },
        Ok(TokenView::TextNode(text)) => ProgressView::Open {
            builder: builder.with_current(builder.current.with_text(text)),
            dom_path,
        },
        Ok(TokenView::Comment(text)) => ProgressView::Open {
            builder: builder.with_current(after_comment(host, builder.current, text)),
            dom_path,
        },
        Ok(TokenView::EndElement(name)) => {
            if !closes(dom_path.last(), name) {
                ProgressView::Closed {
                    result: Err(
                        TemplateErrorView::MismatchedTag { opened: dom_path.last(), closed: name },
                    ),
                    dom_path: dom_path.drop_last(),
                }
            } else if builder.suspended.len() == 0 {
                ProgressView::Closed {
                    result: Ok(builder.current.element),
                    dom_path: dom_path.drop_last(),
                }
            } else {
                ProgressView::Open {
                    builder: TreeBuilderView {
                        suspended: builder.suspended.drop_last(),
                        current: builder.suspended.last().with_child(builder.current.element),
                    },
                    dom_path: dom_path.drop_last(),
                }
            }
        },
    }
}

/// How the building ends when `builder`, with `dom_path` beside it, takes
/// `tokens` one after the other until it has ended. If the tokens run out
/// before that, it ends with an error.
pub open spec fn filled<L>(
    host: HostAnswers<L>,
    tokens: Seq<TokenItem>,
    builder: TreeBuilderView<L>,
    dom_path: Seq<Seq<char>>,
) -> Filled<L>
    decreases tokens.len(),
{
    if tokens.len() == 0 {
        Filled { result: Err(TemplateErrorView::UnexpectedEndOfInput), rest: tokens, dom_path }
    } else {
        match after_token(host, builder, dom_path, tokens[0]) {
            ProgressView::Open { builder, dom_path } => filled(
                host,
                tokens.drop_first(),
                builder,
                dom_path,
            ),
            ProgressView::Closed { result, dom_path } => Filled {
                result,
                rest: tokens.drop_first(),
                dom_path,
            },
        }
    }
}

/// The frame of the root element `tag_name` of a template that is rendered
/// among elements of the kind `html_or_svg_parent`.
pub open spec fn root_frame<L>(html_or_svg_parent: HtmlOrSvg, tag_name: Seq<char>) -> FrameView<L> {
    FrameView::opened(
        ElementView::empty(tag_name, own_namespace(html_or_svg_parent, tag_name)),
        children_kind(html_or_svg_parent, tag_name),
    )
}

/// The node that `tokens` are rendered to, or the error. The first token must
/// start the root element, which is then filled from the tokens behind it.
pub open spec fn rendered<L>(
    host: HostAnswers<L>,
    tokens: Seq<TokenItem>,
    html_or_svg_parent: HtmlOrSvg,
) -> Result<NodeView<L>, TemplateErrorView> {
    if tokens.len() == 0 {
        Err(TemplateErrorView::NoRootElement)
    } else {
        match tokens[0] {
            Err(message) => Err(TemplateErrorView::TokenSourceError(message)),
            Ok(TokenView::StartElement(name)) => match filled(
                host,
                tokens.drop_first(),
                TreeBuilderView::root(root_frame(html_or_svg_parent, name)),
                seq![name],
            ).result {
                Ok(element) => Ok(NodeView::Element(element)),
                Err(error) => Err(error),
            },
            Ok(_) => Err(TemplateErrorView::NoRootElement),
        }
    }
}

impl<L> TreeBuilder<L> {
    /// A builder in which `frame` alone is open.
    pub fn new(frame: Frame<L>) -> (builder: Self)
        ensures
            builder@ == TreeBuilderView::root(frame@),
    {
        let builder = TreeBuilder { suspended: Vec::new(), current: frame };
        assert(builder@.suspended =~= Seq::empty());
        builder
    }
}

} // verus!
