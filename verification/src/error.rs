//! What can go wrong while a template is rendered.

use vstd::prelude::*;
use crate::text::has_prefix;

verus! {

/// The reason why a template could not be rendered. The first error found ends
/// the rendering, and nothing of the tree built so far is returned.
#[derive(Debug, PartialEq, Eq)]
pub enum TemplateError {
    /// The template is empty, or it does not begin with an element.
    NoRootElement,
    /// The reader of the template found an error; this is its message.
    TokenSourceError(String),
    /// The value of the attribute `attribute`, which asks for a replacement or
    /// for an event listener, does not begin with the marker it must begin with.
    InvalidDirectiveName { attribute: String, value: String },
    /// The element `opened` was ended by the end tag `closed`.
    MismatchedTag { opened: String, closed: String },
    /// The template ended before its last open element was closed.
    UnexpectedEndOfInput,
}

/// A `TemplateError`, as characters.
pub enum TemplateErrorView {
    NoRootElement,
    TokenSourceError(Seq<char>),
    InvalidDirectiveName { attribute: Seq<char>, value: Seq<char> },
    MismatchedTag { opened: Seq<char>, closed: Seq<char> },
    UnexpectedEndOfInput,
}

impl View for TemplateError {
    type V = TemplateErrorView;

    open spec fn view(&self) -> TemplateErrorView {
        match self {
            TemplateError::NoRootElement => TemplateErrorView::NoRootElement,
            TemplateError::TokenSourceError(message) => TemplateErrorView::TokenSourceError(
                message@,
            ),
            TemplateError::InvalidDirectiveName {
                attribute,
                value,
            } => TemplateErrorView::InvalidDirectiveName { attribute: attribute@, value: value@ },
            TemplateError::MismatchedTag { opened, closed } => TemplateErrorView::MismatchedTag {
                opened: opened@,
                closed: closed@,
            },
            TemplateError::UnexpectedEndOfInput => TemplateErrorView::UnexpectedEndOfInput,
        }
    }
}

impl TemplateErrorView {
    /// The error in words.
    pub open spec fn message(self) -> Seq<char> {
        match self {
            TemplateErrorView::NoRootElement => "Error: no root element"@,
            TemplateErrorView::TokenSourceError(message) => "Error: "@ + message,
            TemplateErrorView::InvalidDirectiveName { attribute, value } => attribute
                + " value does not start with "@ + (if "data-wt-"@.is_prefix_of(attribute) {
                "wt_"@
            } else {
                "wl_"@
            }) + " : "@ + value + "."@,
            TemplateErrorView::MismatchedTag { opened, closed } =>
                "End element not correct: starts <"@ + opened + "> ends </"@ + closed + ">"@,
            TemplateErrorView::UnexpectedEndOfInput => "Error: unexpected end of template"@,
        }
    }
}

impl TemplateError {
    /// The error in words.
    pub fn message(&self) -> (message: String)
        ensures
            message@ == self@.message(),
    {
        match self {
            TemplateError::NoRootElement => "Error: no root element".to_owned(),
            TemplateError::TokenSourceError(message) => {
                "Error: ".to_owned().concat(message.as_str())
            },
            TemplateError::InvalidDirectiveName { attribute, value } => {
                let marker = if has_prefix(attribute.as_str(), "data-wt-") {
                    "wt_"
                } else {
                    "wl_"
                };
                attribute.clone().concat(" value does not start with ").concat(marker).concat(
                    " : ",
                ).concat(value.as_str()).concat(".")
            },
            TemplateError::MismatchedTag { opened, closed } => {
                "End element not correct: starts <".to_owned().concat(opened.as_str()).concat(
                    "> ends </",
                ).concat(closed.as_str()).concat(">")
            },
            TemplateError::UnexpectedEndOfInput => "Error: unexpected end of template".to_owned(),
        }
    }
}

} // verus!
