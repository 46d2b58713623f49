//! What holds of the building of a tree, whatever the template and whatever
//! the host answers.

use vstd::prelude::*;
use crate::directive::{
    attribute_directive, comment_directive, AttributeDirectiveView, CommentDirective,
};
use crate::error::TemplateErrorView;
use crate::frame::FrameView;
use crate::namespace::{own_namespace, HtmlOrSvg};
use crate::node::{lemma_bound, well_bound, AttributeView, ElementView, NodeView};
use crate::token::{TokenItem, TokenView};
use crate::tree_builder::{
    after_attribute, after_comment, after_token, closes, filled, rendered, root_frame, Filled,
    HostAnswers, ProgressView, TreeBuilderView,
};
use crate::xml_escape::decoded;

verus! {

/// `builder` with the frames `outer` waiting around it.
pub open spec fn inside<L>(outer: Seq<FrameView<L>>, builder: TreeBuilderView<L>)
    -> TreeBuilderView<L> {
    TreeBuilderView { suspended: outer + builder.suspended, current: builder.current }
}

/// The frame that waits for all others, or, if none waits, the one that is
/// being filled: the frame of the element that the building ends with.
pub open spec fn outermost<L>(builder: TreeBuilderView<L>) -> FrameView<L> {
    if builder.suspended.len() == 0 {
        builder.current
    } else {
        builder.suspended[0]
    }
}

/// Whether `tokens` close the elements with the names `open`, the one opened
/// last first, and every element that starts among them: the tokens hold no
/// error of the reader up to there and no attribute that is an error, each
/// end tag closes the element that was opened last, and the tokens do not
/// run out before the first of `open` is closed. What follows is not looked
/// at.
pub open spec fn well_formed(tokens: Seq<TokenItem>, open: Seq<Seq<char>>) -> bool
    decreases tokens.len(),
{
    if open.len() == 0 {
        true
    } else if tokens.len() == 0 {
        false
    } else {
        match tokens[0] {
            Err(_) => false,
            Ok(TokenView::StartElement(name)) => well_formed(tokens.drop_first(), open.push(name)),
            Ok(TokenView::EndElement(name)) => closes(open.last(), name) && well_formed(
                tokens.drop_first(),
                open.drop_last(),
            ),
            Ok(TokenView::Attribute(name, value)) => attribute_directive(name, value) is Ok
                && well_formed(tokens.drop_first(), open),
            Ok(TokenView::TextNode(_)) => well_formed(tokens.drop_first(), open),
            Ok(TokenView::Comment(_)) => well_formed(tokens.drop_first(), open),
        }
    }
}

/// The building ends with an element exactly where the tokens are well
/// formed: they close every element that is open.
pub proof fn lemma_filled_where_well_formed<L>(
    host: HostAnswers<L>,
    tokens: Seq<TokenItem>,
    builder: TreeBuilderView<L>,
    dom_path: Seq<Seq<char>>,
)
    requires
        dom_path.len() == builder.suspended.len() + 1,
    ensures
        filled(host, tokens, builder, dom_path).result is Ok <==> well_formed(tokens, dom_path),
    decreases tokens.len(),
{
    if tokens.len() > 0 {
        match after_token(host, builder, dom_path, tokens[0]) {
            ProgressView::Open { builder: next, dom_path: next_path } => {
                lemma_filled_where_well_formed(host, tokens.drop_first(), next, next_path);
            },
            ProgressView::Closed { result, dom_path: next_path } => {
                if result is Ok {
                    assert(well_formed(tokens.drop_first(), dom_path.drop_last()));
                }
            },
        }
    }
}

/// Tokens are rendered to a node exactly where they begin with the start of
/// an element and are well formed from there on.
pub proof fn lemma_rendered_where_well_formed<L>(
    host: HostAnswers<L>,
    tokens: Seq<TokenItem>,
    html_or_svg_parent: HtmlOrSvg,
)
    ensures
        rendered(host, tokens, html_or_svg_parent) is Ok <==> {
            &&& tokens.len() > 0
            &&& tokens[0] matches Ok(TokenView::StartElement(name))
            &&& well_formed(tokens.drop_first(), seq![name])
        },
{
    if tokens.len() > 0 {
        match tokens[0] {
            Ok(TokenView::StartElement(name)) => {
                lemma_filled_where_well_formed(
                    host,
                    tokens.drop_first(),
                    TreeBuilderView::root(root_frame(html_or_svg_parent, name)),
                    seq![name],
                );
            },
            _ => {},
        }
    }
}

/// Tokens that do not begin with the start of an element have no root
/// element: there are none, or the first is another token.
pub proof fn lemma_no_root_element<L>(
    host: HostAnswers<L>,
    tokens: Seq<TokenItem>,
    html_or_svg_parent: HtmlOrSvg,
)
    requires
        tokens.len() == 0 || (tokens[0] matches Ok(token) && !(token is StartElement)),
    ensures
        rendered(host, tokens, html_or_svg_parent) == Err::<NodeView<L>, TemplateErrorView>(
            TemplateErrorView::NoRootElement,
        ),
{
}

/// An end tag with a name that is not empty and is not the name that was
/// opened last ends the building with `MismatchedTag`. An end tag with that
/// name, or with no name, is never an error, whatever was opened.
pub proof fn lemma_end_tag<L>(
    host: HostAnswers<L>,
    builder: TreeBuilderView<L>,
    dom_path: Seq<Seq<char>>,
    name: Seq<char>,
)
    ensures
        name.len() > 0 && name != dom_path.last() ==> after_token(
            host,
            builder,
            dom_path,
            Ok(TokenView::EndElement(name)),
        ) == (ProgressView::<L>::Closed {
            result: Err(TemplateErrorView::MismatchedTag { opened: dom_path.last(), closed: name }),
            dom_path: dom_path.drop_last(),
        }),
        name.len() == 0 || name == dom_path.last() ==> !(after_token(
            host,
            builder,
            dom_path,
            Ok(TokenView::EndElement(name)),
        ) matches ProgressView::Closed { result: Err(_), .. }),
{
}

/// Whether `dom_path` names the elements that are open in `builder`, and no
/// others: it is as long as the elements are many, and holds their tag
/// names, outermost first.
pub open spec fn names_open_elements<L>(builder: TreeBuilderView<L>, dom_path: Seq<Seq<char>>)
    -> bool {
    &&& dom_path.len() == builder.suspended.len() + 1
    &&& forall|i: int|
        0 <= i < builder.suspended.len() ==> dom_path[i]
            == #[trigger] builder.suspended[i].element.tag_name
    &&& dom_path.last() == builder.current.element.tag_name
}

/// When the building begins with the root element of a template, the path
/// names the open elements.
pub proof fn lemma_path_names_root_element<L>(html_or_svg_parent: HtmlOrSvg, tag_name: Seq<char>)
    ensures
        names_open_elements(
            TreeBuilderView::<L>::root(root_frame(html_or_svg_parent, tag_name)),
            seq![tag_name],
        ),
{
}

/// The path names the open elements for as long as the building goes on, if
/// it did so before.
pub proof fn lemma_path_names_open_elements<L>(
    host: HostAnswers<L>,
    builder: TreeBuilderView<L>,
    dom_path: Seq<Seq<char>>,
    item: TokenItem,
)
    requires
        names_open_elements(builder, dom_path),
    ensures
        after_token(host, builder, dom_path, item) matches ProgressView::Open {
            builder: next,
            dom_path: next_path,
        } ==> names_open_elements(next, next_path),
{
    match after_token(host, builder, dom_path, item) {
        ProgressView::Open { builder: next, dom_path: next_path } => {
            assert forall|i: int| 0 <= i < next.suspended.len() implies next_path[i]
                == #[trigger] next.suspended[i].element.tag_name by {}
        },
        ProgressView::Closed { .. } => {},
    }
}

/// Where the path names the open elements, an end tag is held against the
/// tag name of the element that is being filled: with another name that is
/// not empty, it ends the building with `MismatchedTag`, which holds both
/// names.
pub proof fn lemma_end_tag_of_another_name<L>(
    host: HostAnswers<L>,
    builder: TreeBuilderView<L>,
    dom_path: Seq<Seq<char>>,
    name: Seq<char>,
)
    requires
        names_open_elements(builder, dom_path),
        name.len() > 0,
        name != builder.current.element.tag_name,
    ensures
        after_token(host, builder, dom_path, Ok(TokenView::EndElement(name))) == (
        ProgressView::<L>::Closed {
            result: Err(
                TemplateErrorView::MismatchedTag {
                    opened: builder.current.element.tag_name,
                    closed: name,
                },
            ),
            dom_path: dom_path.drop_last(),
        }),
{
}

/// A pending string is taken once. After a comment that asks for a string,
/// an attribute of no reserved form and then a text, the attribute has the
/// host's string as its value and the text is its own; both decoded.
pub proof fn lemma_replace_string_is_taken_once<L>(
    host: HostAnswers<L>,
    tokens: Seq<TokenItem>,
    builder: TreeBuilderView<L>,
    dom_path: Seq<Seq<char>>,
    comment: Seq<char>,
    name: Seq<char>,
    value: Seq<char>,
    text: Seq<char>,
)
    requires
        comment_directive(comment) == CommentDirective::ReplaceString,
        attribute_directive(name, value) == Ok::<AttributeDirectiveView, TemplateErrorView>(
            AttributeDirectiveView::Plain,
        ),
        tokens.len() >= 3,
        tokens[0] == Ok::<TokenView, Seq<char>>(TokenView::Comment(comment)),
        tokens[1] == Ok::<TokenView, Seq<char>>(TokenView::Attribute(name, value)),
        tokens[2] == Ok::<TokenView, Seq<char>>(TokenView::TextNode(text)),
    ensures
        ({
            let before = builder.current;
            let after = FrameView {
                element: ElementView {
                    attributes: before.element.attributes.push(
                        AttributeView { name, value: decoded((host.strings)(comment)) },
                    ),
                    children: before.element.children.push(NodeView::Text(decoded(text))),
                    ..before.element
                },
                replace_string: None,
                ..before
            };
            filled(host, tokens, builder, dom_path) == filled(
                host,
                tokens.skip(3),
                builder.with_current(after),
                dom_path,
            )
        }),
{
    let first = builder.with_current(after_comment(host, builder.current, comment));
    let second = first.with_current(first.current.with_attribute(name, value));
    assert(filled(host, tokens.drop_first(), first, dom_path) == filled(
        host,
        tokens.drop_first().drop_first(),
        second,
        dom_path,
    ));
    assert(tokens.drop_first().drop_first().drop_first() == tokens.skip(3));
}

/// What happens inside an element does not depend on what waits around it.
/// Where `builder` alone ends with an element, the building goes on, with
/// the frames `outer` around it, in the last of `outer`, to which the
/// element goes as a child. Where `builder` alone ends with an error, the
/// building ends with that error.
pub proof fn lemma_filled_inside<L>(
    host: HostAnswers<L>,
    tokens: Seq<TokenItem>,
    builder: TreeBuilderView<L>,
    dom_path: Seq<Seq<char>>,
    outer: Seq<FrameView<L>>,
    outer_path: Seq<Seq<char>>,
)
    requires
        outer.len() > 0,
        dom_path.len() == builder.suspended.len() + 1,
    ensures
        ({
            let alone = filled(host, tokens, builder, dom_path);
            filled(host, tokens, inside(outer, builder), outer_path + dom_path) == match alone.result {
                Ok(element) => filled(
                    host,
                    alone.rest,
                    TreeBuilderView {
                        suspended: outer.drop_last(),
                        current: outer.last().with_child(element),
                    },
                    outer_path,
                ),
                Err(error) => Filled {
                    result: Err(error),
                    rest: alone.rest,
                    dom_path: outer_path + alone.dom_path,
                },
            }
        }),
    decreases tokens.len(),
{
    if tokens.len() > 0 {
        let around = inside(outer, builder);
        let path = outer_path + dom_path;
        assert(path.drop_last() =~= outer_path + dom_path.drop_last());
        if builder.suspended.len() > 0 {
            assert(around.suspended.drop_last() =~= outer + builder.suspended.drop_last());
        }
        match after_token(host, builder, dom_path, tokens[0]) {
            ProgressView::Open { builder: next, dom_path: next_path } => {
                lemma_filled_inside(host, tokens.drop_first(), next, next_path, outer, outer_path);
            },
            ProgressView::Closed { .. } => {},
        }
    }
}

/// A child element is filled on its own. From the start of a child element
/// on, the building goes as the filling of that element alone goes, in a
/// frame of its own in which nothing is pending; when that has ended with
/// the element, the building goes on in the frame it was in, with the
/// element as the child that was built.
pub proof fn lemma_child_is_filled_alone<L>(
    host: HostAnswers<L>,
    tokens: Seq<TokenItem>,
    builder: TreeBuilderView<L>,
    dom_path: Seq<Seq<char>>,
    name: Seq<char>,
)
    requires
        tokens.len() > 0,
        tokens[0] == Ok::<TokenView, Seq<char>>(TokenView::StartElement(name)),
    ensures
        ({
            let child = filled(
                host,
                tokens.drop_first(),
                TreeBuilderView::root(builder.current.child(name)),
                seq![name],
            );
            filled(host, tokens, builder, dom_path) == match child.result {
                Ok(element) => filled(
                    host,
                    child.rest,
                    builder.with_current(builder.current.with_child(element)),
                    dom_path,
                ),
                Err(error) => Filled {
                    result: Err(error),
                    rest: child.rest,
                    dom_path: dom_path + child.dom_path,
                },
            }
        }),
{
    let alone = TreeBuilderView::root(builder.current.child(name));
    let outer = builder.suspended.push(builder.current);
    assert(dom_path.push(name) =~= dom_path + seq![name]);
    assert(outer.drop_last() =~= builder.suspended);
    lemma_filled_inside(host, tokens.drop_first(), alone, seq![name], outer, dom_path);
}

/// Nodes replace the next child element. After a comment that asks for
/// nodes and a child element that was built, the host's nodes stand where
/// the child would, in their order, and the child itself does not appear;
/// unless it was decided before that the next child does not stay.
pub proof fn lemma_nodes_replace_next_child<L>(
    host: HostAnswers<L>,
    tokens: Seq<TokenItem>,
    builder: TreeBuilderView<L>,
    dom_path: Seq<Seq<char>>,
    comment: Seq<char>,
    name: Seq<char>,
)
    requires
        comment_directive(comment) == CommentDirective::ReplaceNodes,
        builder.current.retains_next(),
        tokens.len() >= 2,
        tokens[0] == Ok::<TokenView, Seq<char>>(TokenView::Comment(comment)),
        tokens[1] == Ok::<TokenView, Seq<char>>(TokenView::StartElement(name)),
        filled(
            host,
            tokens.skip(2),
            TreeBuilderView::root(builder.current.child(name)),
            seq![name],
        ).result is Ok,
    ensures
        ({
            let child = filled(
                host,
                tokens.skip(2),
                TreeBuilderView::root(builder.current.child(name)),
                seq![name],
            );
            let before = builder.current;
            let after = FrameView {
                element: ElementView {
                    children: before.element.children + (host.nodes)(comment),
                    ..before.element
                },
                replace_vec_nodes: None,
                replace_boolean: None,
                ..before
            };
            filled(host, tokens, builder, dom_path) == filled(
                host,
                child.rest,
                builder.with_current(after),
                dom_path,
            )
        }),
{
    let first = builder.with_current(after_comment(host, builder.current, comment));
    assert(tokens.drop_first().drop_first() == tokens.skip(2));
    lemma_child_is_filled_alone(host, tokens.drop_first(), first, dom_path, name);
}

/// A child element that does not stay is left out. After a comment that
/// asks whether the next child stays, to which the host says no, and a child
/// element that was built, the frame has the children it had before, and
/// what else was pending in it is pending still.
pub proof fn lemma_child_is_left_out<L>(
    host: HostAnswers<L>,
    tokens: Seq<TokenItem>,
    builder: TreeBuilderView<L>,
    dom_path: Seq<Seq<char>>,
    comment: Seq<char>,
    name: Seq<char>,
)
    requires
        comment_directive(comment) == CommentDirective::RetainNext,
        !(host.retains)(comment),
        tokens.len() >= 2,
        tokens[0] == Ok::<TokenView, Seq<char>>(TokenView::Comment(comment)),
        tokens[1] == Ok::<TokenView, Seq<char>>(TokenView::StartElement(name)),
        filled(
            host,
            tokens.skip(2),
            TreeBuilderView::root(builder.current.child(name)),
            seq![name],
        ).result is Ok,
    ensures
        ({
            let child = filled(
                host,
                tokens.skip(2),
                TreeBuilderView::root(builder.current.child(name)),
                seq![name],
            );
            filled(host, tokens, builder, dom_path) == filled(
                host,
                child.rest,
                builder.with_current(FrameView { replace_boolean: None, ..builder.current }),
                dom_path,
            )
        }),
{
    let first = builder.with_current(after_comment(host, builder.current, comment));
    assert(tokens.drop_first().drop_first() == tokens.skip(2));
    lemma_child_is_filled_alone(host, tokens.drop_first(), first, dom_path, name);
}

/// A child element that stays, with no nodes pending, is added as it was
/// built: one child more than where it is left out.
pub proof fn lemma_child_is_added<L>(
    host: HostAnswers<L>,
    tokens: Seq<TokenItem>,
    builder: TreeBuilderView<L>,
    dom_path: Seq<Seq<char>>,
    name: Seq<char>,
)
    requires
        builder.current.retains_next(),
        builder.current.replace_vec_nodes is None,
        tokens.len() >= 1,
        tokens[0] == Ok::<TokenView, Seq<char>>(TokenView::StartElement(name)),
        filled(
            host,
            tokens.drop_first(),
            TreeBuilderView::root(builder.current.child(name)),
            seq![name],
        ).result is Ok,
    ensures
        ({
            let child = filled(
                host,
                tokens.drop_first(),
                TreeBuilderView::root(builder.current.child(name)),
                seq![name],
            );
            let before = builder.current;
            let after = FrameView {
                element: ElementView {
                    children: before.element.children.push(NodeView::Element(child.result->Ok_0)),
                    ..before.element
                },
                replace_boolean: None,
                ..before
            };
            filled(host, tokens, builder, dom_path) == filled(
                host,
                child.rest,
                builder.with_current(after),
                dom_path,
            )
        }),
{
    lemma_child_is_filled_alone(host, tokens, builder, dom_path, name);
}

/// The element that the building ends with is the one it began with: it has
/// the tag name and the namespace of the outermost frame.
pub proof fn lemma_filled_keeps_name_and_namespace<L>(
    host: HostAnswers<L>,
    tokens: Seq<TokenItem>,
    builder: TreeBuilderView<L>,
    dom_path: Seq<Seq<char>>,
)
    ensures
        filled(host, tokens, builder, dom_path).result matches Ok(element) ==> {
            &&& element.tag_name == outermost(builder).element.tag_name
            &&& element.namespace == outermost(builder).element.namespace
        },
    decreases tokens.len(),
{
    if tokens.len() > 0 {
        match after_token(host, builder, dom_path, tokens[0]) {
            ProgressView::Open { builder: next, dom_path: next_path } => {
                lemma_filled_keeps_name_and_namespace(host, tokens.drop_first(), next, next_path);
            },
            ProgressView::Closed { .. } => {},
        }
    }
}

/// The node that tokens are rendered to is an element with the tag name that
/// the first token starts, and with the namespace that this name has among
/// elements of the kind that the template is rendered among.
pub proof fn lemma_root_name_and_namespace<L>(
    host: HostAnswers<L>,
    tokens: Seq<TokenItem>,
    html_or_svg_parent: HtmlOrSvg,
)
    ensures
        rendered(host, tokens, html_or_svg_parent) matches Ok(node) ==> {
            &&& tokens.len() > 0
            &&& tokens[0] matches Ok(TokenView::StartElement(name))
            &&& node matches NodeView::Element(element)
            &&& element.tag_name == name
            &&& element.namespace == own_namespace(html_or_svg_parent, name)
        },
{
    if tokens.len() > 0 {
        match tokens[0] {
            Ok(TokenView::StartElement(name)) => {
                lemma_filled_keeps_name_and_namespace(
                    host,
                    tokens.drop_first(),
                    TreeBuilderView::root(root_frame(html_or_svg_parent, name)),
                    seq![name],
                );
            },
            _ => {},
        }
    }
}

/// Whether every element in the nodes that the host answers with has at most
/// one listener for an event.
pub open spec fn answers_well_bound<L>(host: HostAnswers<L>) -> bool {
    forall|name: Seq<char>, i: int|
        0 <= i < (host.nodes)(name).len() ==> well_bound(#[trigger] (host.nodes)(name)[i])
}

/// Whether every element in `frame`, also in the nodes that are pending in
/// it, has at most one listener for an event.
pub open spec fn frame_well_bound<L>(frame: FrameView<L>) -> bool {
    &&& well_bound(NodeView::Element(frame.element))
    &&& frame.replace_vec_nodes matches Some(nodes) ==> forall|i: int|
        0 <= i < nodes.len() ==> well_bound(#[trigger] nodes[i])
}

/// Whether every element in the frames of `builder` has at most one
/// listener for an event.
pub open spec fn builder_well_bound<L>(builder: TreeBuilderView<L>) -> bool {
    &&& frame_well_bound(builder.current)
    &&& forall|i: int|
        0 <= i < builder.suspended.len() ==> frame_well_bound(#[trigger] builder.suspended[i])
}

/// A token leaves the builder with at most one listener for an event in
/// every element, if it found it so and the host's nodes are so.
pub proof fn lemma_token_keeps_well_bound<L>(
    host: HostAnswers<L>,
    builder: TreeBuilderView<L>,
    dom_path: Seq<Seq<char>>,
    item: TokenItem,
)
    requires
        answers_well_bound(host),
        builder_well_bound(builder),
    ensures
        match after_token(host, builder, dom_path, item) {
            ProgressView::Open { builder: next, .. } => builder_well_bound(next),
            ProgressView::Closed { result: Ok(element), .. } => well_bound(
                NodeView::Element(element),
            ),
            ProgressView::Closed { result: Err(_), .. } => true,
        },
{
    let current = builder.current;
    match item {
        Ok(TokenView::StartElement(name)) => {
            let waiting = builder.suspended.push(current);
            assert forall|i: int| 0 <= i < waiting.len() implies frame_well_bound(
                #[trigger] waiting[i],
            ) by {}
        },
        Ok(TokenView::Attribute(name, value)) => {
            match attribute_directive(name, value) {
                Ok(AttributeDirectiveView::Listen(event)) => {
                    lemma_bound(current.element.listeners, event, (host.listeners)(value, event));
                },
                _ => {},
            }
        },
        Ok(TokenView::TextNode(text)) => {
            let frame = current.with_text(text);
            assert forall|i: int| 0 <= i < frame.element.children.len() implies well_bound(
                #[trigger] frame.element.children[i],
            ) by {}
        },
        Ok(TokenView::Comment(text)) => {},
        Ok(TokenView::EndElement(name)) => {
            if closes(dom_path.last(), name) && builder.suspended.len() > 0 {
                let parent = builder.suspended.last();
                let frame = parent.with_child(current.element);
                assert forall|i: int| 0 <= i < frame.element.children.len() implies well_bound(
                    #[trigger] frame.element.children[i],
                ) by {}
                let waiting = builder.suspended.drop_last();
                assert forall|i: int| 0 <= i < waiting.len() implies frame_well_bound(
                    #[trigger] waiting[i],
                ) by {}
            }
        },
        Err(_) => {},
    }
}

/// The element that the building ends with has at most one listener for an
/// event, and so has every element in it, if that holds of the frames the
/// building began with and of the host's nodes.
pub proof fn lemma_filled_is_well_bound<L>(
    host: HostAnswers<L>,
    tokens: Seq<TokenItem>,
    builder: TreeBuilderView<L>,
    dom_path: Seq<Seq<char>>,
)
    requires
        answers_well_bound(host),
        builder_well_bound(builder),
    ensures
        filled(host, tokens, builder, dom_path).result matches Ok(element) ==> well_bound(
            NodeView::Element(element),
        ),
    decreases tokens.len(),
{
    if tokens.len() > 0 {
        lemma_token_keeps_well_bound(host, builder, dom_path, tokens[0]);
        match after_token(host, builder, dom_path, tokens[0]) {
            ProgressView::Open { builder: next, dom_path: next_path } => {
                lemma_filled_is_well_bound(host, tokens.drop_first(), next, next_path);
            },
            ProgressView::Closed { .. } => {},
        }
    }
}

/// In the node that tokens are rendered to, every element has at most one
/// listener for an event, if that holds of the host's nodes.
pub proof fn lemma_rendered_is_well_bound<L>(
    host: HostAnswers<L>,
    tokens: Seq<TokenItem>,
    html_or_svg_parent: HtmlOrSvg,
)
    requires
        answers_well_bound(host),
    ensures
        rendered(host, tokens, html_or_svg_parent) matches Ok(node) ==> well_bound(node),
{
    if tokens.len() > 0 {
        match tokens[0] {
            Ok(TokenView::StartElement(name)) => {
                lemma_filled_is_well_bound(
                    host,
                    tokens.drop_first(),
                    TreeBuilderView::root(root_frame(html_or_svg_parent, name)),
                    seq![name],
                );
            },
            _ => {},
        }
    }
}

/// Whether the building ends with an error, with which, where in the tokens,
/// and with which path, depends on the tokens and on how many elements are
/// open alone: not on what the host answers, nor on what is in the frames.
pub proof fn lemma_errors_depend_on_tokens_alone<L, M>(
    host: HostAnswers<L>,
    other_host: HostAnswers<M>,
    tokens: Seq<TokenItem>,
    builder: TreeBuilderView<L>,
    other_builder: TreeBuilderView<M>,
    dom_path: Seq<Seq<char>>,
)
    requires
        builder.suspended.len() == other_builder.suspended.len(),
    ensures
        ({
            let end = filled(host, tokens, builder, dom_path);
            let other_end = filled(other_host, tokens, other_builder, dom_path);
            &&& end.rest == other_end.rest
            &&& end.dom_path == other_end.dom_path
            &&& match end.result {
                Ok(_) => other_end.result is Ok,
                Err(error) => other_end.result == Err::<ElementView<M>, TemplateErrorView>(error),
            }
        }),
    decreases tokens.len(),
{
    if tokens.len() > 0 {
        match after_token(host, builder, dom_path, tokens[0]) {
            ProgressView::Open { builder: next, dom_path: next_path } => {
                match after_token(other_host, other_builder, dom_path, tokens[0]) {
                    ProgressView::Open { builder: other_next, dom_path: other_path } => {
                        lemma_errors_depend_on_tokens_alone(
                            host,
                            other_host,
                            tokens.drop_first(),
                            next,
                            other_next,
                            next_path,
                        );
                    },
                    ProgressView::Closed { .. } => {},
                }
            },
            ProgressView::Closed { .. } => {},
        }
    }
}

} // verus!
