//! The comments and attributes of reserved forms, by which a template asks
//! the host for a replacement, a decision or an event listener.
//!
//! | in the template       | form                  | asks for                               |
//! |-----------------------|-----------------------|----------------------------------------|
//! | `data-wt-…="wt_…"`    | attribute             | the value of the next attribute        |
//! | `data-on-…="wl_…"`    | attribute             | a listener for the event named in `…`  |
//! | `<!--wt_…-->`         | comment               | the next text, or attribute value      |
//! | `<!--wn_…-->`         | comment               | nodes that replace the next element    |
//! | `<!--wb_…-->`         | comment               | whether the next element stays         |
//! | `<!--end_of_wt-->`    | comment               | nothing                                |

use vstd::prelude::*;
use crate::error::{TemplateError, TemplateErrorView};
use crate::text::{has_prefix, same_text};

verus! {

/// What a comment asks for.
#[derive(Clone, Copy, Debug, PartialEq, Eq, Structural)]
pub enum CommentDirective {
    /// `end_of_wt`: marks, for the reader of a template, where a replaced text
    /// ends. It changes nothing.
    EndOfReplace,
    /// `wt_…`: the host's string replaces the next text or attribute value.
    ReplaceString,
    /// `wn_…`: the host's nodes replace the next element.
    ReplaceNodes,
    /// `wb_…`: the host decides whether the next element stays.
    RetainNext,
    /// Any other comment. It changes nothing.
    Plain,
}

/// What an attribute asks for.
#[derive(Clone, Copy, Debug, PartialEq, Eq)]
pub enum AttributeDirective<'a> {
    /// `data-wt-…`: the host's string, asked for by the attribute's value,
    /// replaces the value of the next attribute.
    ReplaceString,
    /// `data-on-…`: the host's listener, asked for by the attribute's value, is
    /// bound to the event that the rest of the attribute's name names.
    Listen(&'a str),
    /// Any other attribute: it is an attribute of the element.
    Plain,
}

/// An `AttributeDirective`, as characters.
pub enum AttributeDirectiveView {
    ReplaceString,
    Listen(Seq<char>),
    Plain,
}

impl<'a> View for AttributeDirective<'a> {
    type V = AttributeDirectiveView;

    open spec fn view(&self) -> AttributeDirectiveView {
        match *self {
            AttributeDirective::ReplaceString => AttributeDirectiveView::ReplaceString,
            AttributeDirective::Listen(event) => AttributeDirectiveView::Listen(event@),
            AttributeDirective::Plain => AttributeDirectiveView::Plain,
        }
    }
}

/// What the comment `text` asks for.
pub open spec fn comment_directive(text: Seq<char>) -> CommentDirective {
    if text == "end_of_wt"@ {
        CommentDirective::EndOfReplace
    } else if "wt_"@.is_prefix_of(text) {
        CommentDirective::ReplaceString
    } else if "wn_"@.is_prefix_of(text) {
        CommentDirective::ReplaceNodes
    } else if "wb_"@.is_prefix_of(text) {
        CommentDirective::RetainNext
    } else {
        CommentDirective::Plain
    }
}

/// What the attribute `name` with the value `value` asks for, or the error
/// that it is: the value of a `data-wt-` attribute must begin with `wt_`, and
/// that of a `data-on-` attribute must be empty or begin with `wl_`.
pub open spec fn attribute_directive(name: Seq<char>, value: Seq<char>) -> Result<
    AttributeDirectiveView,
    TemplateErrorView,
> {
    if "data-wt-"@.is_prefix_of(name) {
        if "wt_"@.is_prefix_of(value) {
            Ok(AttributeDirectiveView::ReplaceString)
        } else {
            Err(TemplateErrorView::InvalidDirectiveName { attribute: name, value })
        }
    } else if "data-on-"@.is_prefix_of(name) {
        if value.len() == 0 || "wl_"@.is_prefix_of(value) {
            Ok(AttributeDirectiveView::Listen(name.skip("data-on-"@.len() as int)))
        } else {
            Err(TemplateErrorView::InvalidDirectiveName { attribute: name, value })
        }
    } else {
        Ok(AttributeDirectiveView::Plain)
    }
}

/// An `AttributeDirective` or an error, as characters.
pub open spec fn directive_view(directive: Result<AttributeDirective<'_>, TemplateError>) -> Result<
    AttributeDirectiveView,
    TemplateErrorView,
> {
    match directive {
        Ok(directive) => Ok(directive@),
        Err(error) => Err(error@),
    }
}

/// What the comment `text` asks for.
pub fn read_comment(text: &str) -> (directive: CommentDirective)
    ensures
        directive == comment_directive(text@),
{
    if same_text(text, "end_of_wt") {
        CommentDirective::EndOfReplace
    } else if has_prefix(text, "wt_") {
        CommentDirective::ReplaceString
    } else if has_prefix(text, "wn_") {
        CommentDirective::ReplaceNodes
    } else if has_prefix(text, "wb_") {
        CommentDirective::RetainNext
    } else {
        CommentDirective::Plain
    }
}

/// What the attribute `name` with the value `value` asks for, or the error
/// that it is.
pub fn read_attribute<'a>(name: &'a str, value: &str) -> (directive: Result<
    AttributeDirective<'a>,
    TemplateError,
>)
    ensures
        directive_view(directive) == attribute_directive(name@, value@),
{
    if has_prefix(name, "data-wt-") {
        if has_prefix(value, "wt_") {
            Ok(AttributeDirective::ReplaceString)
        } else {
            Err(TemplateError::InvalidDirectiveName { attribute: name.to_owned(), value: value.to_owned() })
        }
    } else if has_prefix(name, "data-on-") {
        if value.is_empty() || has_prefix(value, "wl_") {
            proof {
                reveal_strlit("data-on-");
            }
            let event = name.substring_char(8, name.unicode_len());
            Ok(AttributeDirective::Listen(event))
        } else {
            Err(TemplateError::InvalidDirectiveName { attribute: name.to_owned(), value: value.to_owned() })
        }
    } else {
        Ok(AttributeDirective::Plain)
    }
}

} // verus!
