//! The tokens of a template, and the reader of the crate `reader_for_microxml`
//! that yields them one by one.

use vstd::prelude::*;
use reader_for_microxml::ReaderForMicroXml;

verus! {

/// The reader of `reader_for_microxml`: made over a text, it yields the tokens
/// of that text in order.
#[verifier::external_type_specification]
#[verifier::external_body]
pub struct ExReaderForMicroXml<'a>(ReaderForMicroXml<'a>);

/// The token type of `reader_for_microxml`, which its reader yields.
#[verifier::external_type_specification]
#[verifier::external_body]
pub struct ExReaderToken<'a>(reader_for_microxml::Token<'a>);

/// One token of a template. Each text in it is a slice of the template.
#[derive(Clone, Copy, Debug, PartialEq, Eq)]
pub enum TemplateToken<'a> {
    /// The start of an element, with its tag name.
    StartElement(&'a str),
    /// An attribute of the element that was started last, with its name and value.
    Attribute(&'a str, &'a str),
    /// A text between two tags.
    TextNode(&'a str),
    /// A comment, with what stands between `<!--` and `-->`.
    Comment(&'a str),
    /// The end of an element, with its tag name; the name is empty where the
    /// element closes itself, as in `<br/>`.
    EndElement(&'a str),
}

/// A token, as its characters.
pub enum TokenView {
    StartElement(Seq<char>),
    Attribute(Seq<char>, Seq<char>),
    TextNode(Seq<char>),
    Comment(Seq<char>),
    EndElement(Seq<char>),
}

impl<'a> View for TemplateToken<'a> {
    type V = TokenView;

    open spec fn view(&self) -> TokenView {
        match *self {
            TemplateToken::StartElement(name) => TokenView::StartElement(name@),
            TemplateToken::Attribute(name, value) => TokenView::Attribute(name@, value@),
            TemplateToken::TextNode(text) => TokenView::TextNode(text@),
            TemplateToken::Comment(text) => TokenView::Comment(text@),
            TemplateToken::EndElement(name) => TokenView::EndElement(name@),
        }
    }
}

/// What a reader yields at one step: a token, or the message of an error.
pub type TokenItem = Result<TokenView, Seq<char>>;

/// A token or an error message, as characters.
pub open spec fn item_view(item: Result<TemplateToken<'_>, &'static str>) -> TokenItem {
    match item {
        Ok(token) => Ok(token@),
        Err(message) => Err(message@),
    }
}

/// Whether `text` is not empty and its last character takes one byte. The
/// reader can be made over such a text, and read to the end of it.
pub open spec fn ends_in_one_byte(text: Seq<char>) -> bool {
    text.len() > 0 && (text.last() as u32) < 0x80
}

/// The tokens and errors that a reader made over `input` yields, in order, up
/// to the end of `input`.
pub uninterp spec fn microxml_tokens(input: Seq<char>) -> Seq<Result<TokenView, Seq<char>>>;

/// The tokens and errors that `reader` has yet to yield, in order.
pub uninterp spec fn pending_tokens(reader: ReaderForMicroXml<'_>) -> Seq<
    Result<TokenView, Seq<char>>,
>;

/// The text that `reader` was made over.
pub uninterp spec fn source_text(reader: ReaderForMicroXml<'_>) -> Seq<char>;

/// `ReaderForMicroXml::new`: a reader over `input`, which has all the tokens
/// of `input` yet to yield.
///
/// Over an empty text `new` panics. And where a text node runs to the end of
/// the text, `next` slices the text one byte behind the start of its last
/// character, and panics if that character takes several bytes. Both are
/// left out here.
#[verifier::external_body]
pub(crate) fn new_reader<'a>(input: &'a str) -> (reader: ReaderForMicroXml<'a>)
    requires
        ends_in_one_byte(input@),
    ensures
        source_text(reader) == input@,
        pending_tokens(reader) == microxml_tokens(input@),
{
    ReaderForMicroXml::new(input)
}

/// `ReaderForMicroXml::next`: the first of the tokens and errors that `reader`
/// had yet to yield, which it then has no longer; `None` when it had none, and
/// then it has none afterwards either. A token is handed on in the token type
/// of this library, an error as the message that it is.
#[verifier::external_body]
pub(crate) fn next_token<'a>(reader: &mut ReaderForMicroXml<'a>) -> (item: Option<
    Result<TemplateToken<'a>, &'static str>,
>)
    requires
        ends_in_one_byte(source_text(*old(reader))),
    ensures
        source_text(*final(reader)) == source_text(*old(reader)),
        match item {
            Some(item) => pending_tokens(*old(reader)).len() > 0 && item_view(item)
                == pending_tokens(*old(reader))[0] && pending_tokens(*final(reader))
                == pending_tokens(*old(reader)).drop_first(),
            None => pending_tokens(*old(reader)).len() == 0 && pending_tokens(*final(reader)).len()
                == 0,
        },
{
    match reader.next()? {
        Err(message) => Some(Err(message)),
        Ok(reader_for_microxml::Token::StartElement(n)) => Some(Ok(TemplateToken::StartElement(n))),
        Ok(reader_for_microxml::Token::Attribute(n, v)) => Some(Ok(TemplateToken::Attribute(n, v))),
        Ok(reader_for_microxml::Token::TextNode(t)) => Some(Ok(TemplateToken::TextNode(t))),
        Ok(reader_for_microxml::Token::Comment(t)) => Some(Ok(TemplateToken::Comment(t))),
        Ok(reader_for_microxml::Token::EndElement(n)) => Some(Ok(TemplateToken::EndElement(n))),
    }
}

/// A reader over `html_template` that has all its tokens yet to yield; none
/// where the reader could not read the text to its end.
pub fn open_reader(html_template: &str) -> (reader: Option<ReaderForMicroXml<'_>>)
    ensures
        match reader {
            Some(reader) => ends_in_one_byte(html_template@) && source_text(reader)
                == html_template@ && pending_tokens(reader) == microxml_tokens(html_template@),
            None => !ends_in_one_byte(html_template@),
        },
{
    if is_readable(html_template) {
        Some(new_reader(html_template))
    } else {
        None
    }
}

/// Whether `text` is not empty and its last character takes one byte.
pub fn is_readable(text: &str) -> (readable: bool)
    ensures
        readable == ends_in_one_byte(text@),
{
    let mut last: Option<char> = None;
    for c in it: text.chars()
        invariant
            last == if it.index() == 0 {
                None
            } else {
                Some(it.seq()[it.index() - 1])
            },
    {
        last = Some(c);
    }
    match last {
        None => false,
        Some(c) => (c as u32) < 0x80,
    }
}

} // verus!
