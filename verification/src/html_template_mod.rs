//! Html templating, generic code: the struct that renders the pages of an
//! application implements the trait `HtmlTemplating`, and with it gets
//! `render_template`.

use vstd::prelude::*;
use reader_for_microxml::ReaderForMicroXml;
use crate::directive::{read_attribute, read_comment, AttributeDirective, CommentDirective};
use crate::error::{TemplateError, TemplateErrorView};
use crate::frame::{Frame, FrameView};
use crate::namespace::resolve_namespace;
use crate::node::{nodes_view, Element, ElementView, Node, NodeView};
use crate::text::same_text;
use crate::token::{
    ends_in_one_byte, is_readable, item_view, microxml_tokens, new_reader, next_token,
    pending_tokens, source_text, TemplateToken,
};
use crate::tree_builder::{
    after_attribute, after_comment, after_token, element_result_view, filled, frames_view,
    node_result_view, rendered, texts_view, HostAnswers, Progress, TreeBuilder, TreeBuilderView,
};

pub use crate::namespace::HtmlOrSvg;
pub use crate::node::empty_div;
pub use crate::xml_escape::decode_5_xml_control_characters;

verus! {

/// The text that the reader is made over to read `html_template`: the template
/// itself, or, where its last character takes several bytes, the template
/// with a space behind it.
///
/// The reader cannot read a text to its end if the last character of the text
/// takes several bytes. The space changes none of the tokens that the reader
/// yields before it comes to the end of the template.
pub open spec fn readable_text(html_template: Seq<char>) -> Seq<char> {
    if ends_in_one_byte(html_template) {
        html_template
    } else {
        html_template + " "@
    }
}

/// The node that the template `html_template` is rendered to, or the error:
/// that of its tokens, as the reader yields them. An empty template has no
/// root element.
pub open spec fn template_rendered<L>(
    host: HostAnswers<L>,
    html_template: Seq<char>,
    html_or_svg_parent: HtmlOrSvg,
) -> Result<NodeView<L>, TemplateErrorView> {
    if html_template.len() == 0 {
        Err(TemplateErrorView::NoRootElement)
    } else {
        rendered(host, microxml_tokens(readable_text(html_template)), html_or_svg_parent)
    }
}

/// The struct that renders the pages of an application implements this trait.
///
/// The first four methods are for the application to write: they answer what
/// a template asks for by name. While a template is rendered they cannot
/// change the struct, and what they answer is taken to depend on the struct
/// and the name alone: `answers` stands for it.
pub trait HtmlTemplating {
    /// What the application binds to an event.
    type Listener;

    /// What the four methods answer, each as a function of the name. An
    /// implementation that is verified says here what it answers.
    open spec fn answers(&self) -> HostAnswers<Self::Listener> {
        arbitrary()
    }

    /// The string that replaces the next text or attribute value.
    fn replace_with_string(&self, fn_name: &str) -> (replacement: String)
        ensures
            replacement@ == (self.answers().strings)(fn_name@),
    ;

    /// Whether the next node stays.
    fn retain_next_node_or_attribute(&self, fn_name: &str) -> (retain: bool)
        ensures
            retain == (self.answers().retains)(fn_name@),
    ;

    /// The nodes that replace the next node.
    fn replace_with_nodes(&self, fn_name: &str) -> (nodes: Vec<Node<Self::Listener>>)
        ensures
            nodes_view(nodes@) == (self.answers().nodes)(fn_name@),
    ;

    /// The listener that is bound to the event `event_to_listen`. The name
    /// may be empty; what a listener without a name does is for the
    /// application to say.
    fn set_event_listener(&self, fn_name: String, event_to_listen: &str) -> (listener:
        Self::Listener)
        ensures
            listener == (self.answers().listeners)(fn_name@, event_to_listen@),
    ;

    /// Renders the template `html_template`, found among elements of the kind
    /// `html_or_svg_parent`, to its root node.
    fn render_template(&self, html_template: &str, html_or_svg_parent: HtmlOrSvg) -> (result:
        Result<Node<Self::Listener>, TemplateError>)
        ensures
            node_result_view(result) == template_rendered(
                self.answers(),
                html_template@,
                html_or_svg_parent,
            ),
    {
        if html_template.is_empty() {
            Err(TemplateError::NoRootElement)
        } else if is_readable(html_template) {
            self.render_readable(html_template, html_or_svg_parent)
        } else {
            let padded = html_template.to_owned().concat(" ");
            proof {
                reveal_strlit(" ");
            }
            self.render_readable(padded.as_str(), html_or_svg_parent)
        }
    }

    /// Renders a template that the reader can read to its end: one that is
    /// not empty and whose last character takes one byte.
    fn render_readable(&self, html_template: &str, html_or_svg_parent: HtmlOrSvg) -> (result:
        Result<Node<Self::Listener>, TemplateError>)
        requires
            ends_in_one_byte(html_template@),
        ensures
            node_result_view(result) == rendered(
                self.answers(),
                microxml_tokens(html_template@),
                html_or_svg_parent,
            ),
    {
        let mut reader_for_microxml = new_reader(html_template);
        // the first element must be root and is special
        match next_token(&mut reader_for_microxml) {
            None => Err(TemplateError::NoRootElement),
            Some(Err(message)) => Err(TemplateError::TokenSourceError(message.to_owned())),
            Some(Ok(TemplateToken::StartElement(name))) => {
                let mut dom_path: Vec<String> = Vec::new();
                dom_path.push(name.to_owned());
                let (namespace, html_or_svg_local) = resolve_namespace(html_or_svg_parent, name);
                let root_element = Element::new(name.to_owned(), namespace);
                proof {
                    assert(texts_view(dom_path@) =~= seq![name@]);
                }
                match self.fill_element_builder(
                    &mut reader_for_microxml,
                    root_element,
                    html_or_svg_local,
                    &mut dom_path,
                ) {
                    Ok(root_element) => Ok(Node::Element(root_element)),
                    Err(error) => Err(error),
                }
            },
            Some(Ok(_)) => Err(TemplateError::NoRootElement),
        }
    }

    /// Fills `element` with its attributes, listeners and children from the
    /// tokens that `reader_for_microxml` yields, up to the end tag of the
    /// element. The children of the element are found among elements of the
    /// kind `html_or_svg_parent`, and the last name of `dom_path` is the name
    /// that the end tag is held against.
    fn fill_element_builder(
        &self,
        reader_for_microxml: &mut ReaderForMicroXml<'_>,
        element: Element<Self::Listener>,
        html_or_svg_parent: HtmlOrSvg,
        dom_path: &mut Vec<String>,
    ) -> (result: Result<Element<Self::Listener>, TemplateError>)
        requires
            ends_in_one_byte(source_text(*old(reader_for_microxml))),
            old(dom_path)@.len() > 0,
        ensures
            source_text(*final(reader_for_microxml)) == source_text(*old(reader_for_microxml)),
            ({
                let end = filled(
                    self.answers(),
                    pending_tokens(*old(reader_for_microxml)),
                    TreeBuilderView::root(FrameView::opened(element@, html_or_svg_parent)),
                    texts_view(old(dom_path)@),
                );
                &&& element_result_view(result) == end.result
                &&& pending_tokens(*final(reader_for_microxml)) == end.rest
                &&& texts_view(final(dom_path)@) == end.dom_path
            }),
    {
        let ghost end = filled(
            self.answers(),
            pending_tokens(*reader_for_microxml),
            TreeBuilderView::root(FrameView::opened(element@, html_or_svg_parent)),
            texts_view(dom_path@),
        );
        let mut builder = TreeBuilder::new(Frame::new(element, html_or_svg_parent));
        loop
            invariant
                source_text(*reader_for_microxml) == source_text(*old(reader_for_microxml)),
                ends_in_one_byte(source_text(*reader_for_microxml)),
                dom_path@.len() > builder.suspended@.len(),
                end == filled(
                    self.answers(),
                    pending_tokens(*old(reader_for_microxml)),
                    TreeBuilderView::root(FrameView::opened(element@, html_or_svg_parent)),
                    texts_view(old(dom_path)@),
                ),
                filled(
                    self.answers(),
                    pending_tokens(*reader_for_microxml),
                    builder@,
                    texts_view(dom_path@),
                ) == end,
            decreases pending_tokens(*reader_for_microxml).len(),
        {
            match next_token(reader_for_microxml) {
                None => {
                    return Err(TemplateError::UnexpectedEndOfInput);
                },
                Some(item) => {
                    match self.feed(builder, dom_path, item) {
                        Progress::Open(next) => {
                            builder = next;
                        },
                        Progress::Closed(result) => {
                            return result;
                        },
                    }
                },
            }
        }
    }

    /// Hands `item`, a token or an error of the reader, to `builder`, with the
    /// path of open tag names beside it.
    fn feed(
        &self,
        builder: TreeBuilder<Self::Listener>,
        dom_path: &mut Vec<String>,
        item: Result<TemplateToken<'_>, &'static str>,
    ) -> (progress: Progress<Self::Listener>)
        requires
            old(dom_path)@.len() > builder.suspended@.len(),
        ensures
            progress.view_with(final(dom_path)@) == after_token(
                self.answers(),
                builder@,
                texts_view(old(dom_path)@),
                item_view(item),
            ),
            progress matches Progress::Open(next) ==> final(dom_path)@.len()
                > next.suspended@.len(),
    {
        let TreeBuilder { mut suspended, mut current } = builder;
        match item {
            Err(message) => Progress::Closed(
                Err(TemplateError::TokenSourceError(message.to_owned())),
            ),
            Ok(TemplateToken::StartElement(name)) => {
                let child = current.start_child(name);
                let opened = name.to_owned();
                proof {
                    assert(frames_view(suspended@.push(current)) =~= frames_view(
                        suspended@,
                    ).push(current@));
                    assert(texts_view(dom_path@.push(opened)) =~= texts_view(dom_path@).push(
                        name@,
                    ));
                }
                suspended.push(current);
                dom_path.push(opened);
                Progress::Open(TreeBuilder { suspended, current: child })
            },
            Ok(TemplateToken::Attribute(name, value)) => {
                match self.apply_attribute(&mut current, name, value) {
                    Ok(()) => Progress::Open(TreeBuilder { suspended, current }),
                    Err(error) => Progress::Closed(Err(error)),
                }
            },
            Ok(TemplateToken::TextNode(text)) => {
                current.add_text(text);
                Progress::Open(TreeBuilder { suspended, current })
            },
            Ok(TemplateToken::Comment(text)) => {
                self.apply_comment(&mut current, text);
                Progress::Open(TreeBuilder { suspended, current })
            },
            Ok(TemplateToken::EndElement(name)) => {
                proof {
                    assert(texts_view(dom_path@.drop_last()) =~= texts_view(dom_path@).drop_last());
                }
                let last_name = dom_path.pop().unwrap();
                // it can be also auto-closing element
                if same_text(last_name.as_str(), name) || name.is_empty() {
                    proof {
                        if suspended@.len() > 0 {
                            assert(frames_view(suspended@.drop_last()) =~= frames_view(
                                suspended@,
                            ).drop_last());
                        }
                    }
                    match suspended.pop() {
                        None => Progress::Closed(Ok(current.element)),
                        Some(mut parent) => {
                            parent.add_child(current.element);
                            Progress::Open(TreeBuilder { suspended, current: parent })
                        },
                    }
                } else {
                    Progress::Closed(
                        Err(
                            TemplateError::MismatchedTag {
                                opened: last_name,
                                closed: name.to_owned(),
                            },
                        ),
                    )
                }
            },
        }
    }

    /// Does in `frame` what the attribute `name` with the value `value` asks
    /// for, or says what error it is.
    fn apply_attribute(&self, frame: &mut Frame<Self::Listener>, name: &str, value: &str) -> (done:
        Result<(), TemplateError>)
        ensures
            match after_attribute(self.answers(), old(frame)@, name@, value@) {
                Ok(after) => done is Ok && final(frame)@ == after,
                Err(error) => done matches Err(e) && e@ == error && final(frame)@ == old(frame)@,
            },
    {
        match read_attribute(name, value) {
            Err(error) => Err(error),
            Ok(AttributeDirective::ReplaceString) => {
                // The replace_string will always be applied to the next attribute.
                frame.replace_string = Some(self.replace_with_string(value));
                Ok(())
            },
            Ok(AttributeDirective::Listen(event)) => {
                let listener = self.set_event_listener(value.to_owned(), event);
                frame.add_listener(event, listener);
                Ok(())
            },
            Ok(AttributeDirective::Plain) => {
                frame.add_attribute(name, value);
                Ok(())
            },
        }
    }

    /// Does in `frame` what the comment `text` asks for.
    fn apply_comment(&self, frame: &mut Frame<Self::Listener>, text: &str)
        ensures
            final(frame)@ == after_comment(self.answers(), old(frame)@, text@),
    {
        match read_comment(text) {
            CommentDirective::ReplaceString => {
                frame.replace_string = Some(self.replace_with_string(text));
            },
            CommentDirective::ReplaceNodes => {
                frame.replace_vec_nodes = Some(self.replace_with_nodes(text));
            },
            CommentDirective::RetainNext => {
                frame.replace_boolean = Some(self.retain_next_node_or_attribute(text));
            },
            CommentDirective::EndOfReplace => {},
            CommentDirective::Plain => {},
        }
    }
}

} // verus!
