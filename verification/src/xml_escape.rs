//! The five XML control characters `"`, `'`, `&`, `<` and `>`, and the escapes
//! that stand for them in a template.

use vstd::prelude::*;
use crate::text::{push_char, to_chars};

verus! {

/// The escape that `text` begins with, if it begins with one: the character it
/// stands for, and how many characters the escape takes.
pub open spec fn leading_escape(text: Seq<char>) -> Option<(char, nat)> {
    if "&quot;"@.is_prefix_of(text) {
        Some(('"', "&quot;"@.len()))
    } else if "&apos;"@.is_prefix_of(text) {
        Some(('\'', "&apos;"@.len()))
    } else if "&amp;"@.is_prefix_of(text) {
        Some(('&', "&amp;"@.len()))
    } else if "&lt;"@.is_prefix_of(text) {
        Some(('<', "&lt;"@.len()))
    } else if "&gt;"@.is_prefix_of(text) {
        Some(('>', "&gt;"@.len()))
    } else {
        None
    }
}

/// `text` read from left to right, with each escape replaced by the character
/// it stands for. What a replacement leaves behind is not read again:
/// `&amp;lt;` becomes `&lt;`.
pub open spec fn decoded(text: Seq<char>) -> Seq<char>
    decreases text.len(),
{
    if text.len() == 0 {
        text
    } else {
        match leading_escape(text) {
            Some((literal, length)) => {
                proof {
                    lemma_leading_escape_length(text);
                }
                seq![literal] + decoded(text.skip(length as int))
            },
            None => seq![text[0]] + decoded(text.drop_first()),
        }
    }
}

/// An escape is never empty and never longer than the text that begins with it.
pub proof fn lemma_leading_escape_length(text: Seq<char>)
    ensures
        leading_escape(text) matches Some((_, length)) ==> 4 <= length <= 6 && length <= text.len()
            && text[0] == '&',
{
    reveal_strlit("&quot;");
    reveal_strlit("&apos;");
    reveal_strlit("&amp;");
    reveal_strlit("&lt;");
    reveal_strlit("&gt;");
    if leading_escape(text) is Some {
        let escape = if "&quot;"@.is_prefix_of(text) {
            "&quot;"@
        } else if "&apos;"@.is_prefix_of(text) {
            "&apos;"@
        } else if "&amp;"@.is_prefix_of(text) {
            "&amp;"@
        } else if "&lt;"@.is_prefix_of(text) {
            "&lt;"@
        } else {
            "&gt;"@
        };
        assert(text.subrange(0, escape.len() as int)[0] == text[0]);
    }
}

/// Text in which no escape begins anywhere is decoded to itself.
pub proof fn lemma_decoded_without_escapes(text: Seq<char>)
    requires
        forall|at: int| 0 <= at < text.len() ==> leading_escape(#[trigger] text.skip(at)) is None,
    ensures
        decoded(text) == text,
    decreases text.len(),
{
    if text.len() > 0 {
        let rest = text.drop_first();
        assert forall|at: int| 0 <= at < rest.len() implies leading_escape(
            #[trigger] rest.skip(at),
        ) is None by {
            assert(rest.skip(at) == text.skip(at + 1));
        }
        lemma_decoded_without_escapes(rest);
    }
}

/// Text without an ampersand is decoded to itself.
pub proof fn lemma_decoded_without_ampersand(text: Seq<char>)
    requires
        !text.contains('&'),
    ensures
        decoded(text) == text,
{
    assert forall|at: int| 0 <= at < text.len() implies leading_escape(#[trigger] text.skip(at))
        is None by {
        lemma_leading_escape_length(text.skip(at));
    }
    lemma_decoded_without_escapes(text);
}

/// Whether the characters of `chars` from `at` on begin with `escape`.
fn begins_at(chars: &Vec<char>, at: usize, escape: &str) -> (found: bool)
    requires
        at <= chars.len(),
    ensures
        found == escape@.is_prefix_of(chars@.skip(at as int)),
{
    let ghost tail = chars@.skip(at as int);
    let mut wanted = escape.chars();
    let mut next: usize = at;
    loop
        invariant
            at <= next <= chars.len(),
            tail == chars@.skip(at as int),
            next - at <= escape@.len(),
            vstd::std_specs::iter::IteratorSpec::remaining(&wanted) == escape@.skip(next - at),
            escape@.take(next - at) == tail.take(next - at),
        decreases escape@.len() - (next - at),
    {
        match wanted.next() {
            None => {
                assert(escape@.take(next - at) == escape@);
                return true;
            },
            Some(w) => {
                if next >= chars.len() {
                    return false;
                }
                let c = chars[next];
                if c != w {
                    assert(escape@[next - at] != tail[next - at]);
                    return false;
                }
                proof {
                    let seen = next - at;
                    assert(escape@.take(seen + 1) == escape@.take(seen).push(w));
                    assert(escape@.skip(seen).drop_first() == escape@.skip(seen + 1));
                }
                next = next + 1;
            },
        }
    }
}

/// The escape that begins at `at`, as `leading_escape` names it.
fn escape_at(chars: &Vec<char>, at: usize) -> (found: Option<(char, usize)>)
    requires
        at < chars.len(),
    ensures
        match found {
            Some((literal, length)) => leading_escape(chars@.skip(at as int)) == Some(
                (literal, length as nat),
            ) && 0 < length && at + length <= chars.len(),
            None => leading_escape(chars@.skip(at as int)) is None,
        },
{
    proof {
        lemma_leading_escape_length(chars@.skip(at as int));
        reveal_strlit("&quot;");
        reveal_strlit("&apos;");
        reveal_strlit("&amp;");
        reveal_strlit("&lt;");
        reveal_strlit("&gt;");
    }
    if chars[at] != '&' {
        None
    } else if begins_at(chars, at, "&quot;") {
        Some(('"', 6))
    } else if begins_at(chars, at, "&apos;") {
        Some(('\'', 6))
    } else if begins_at(chars, at, "&amp;") {
        Some(('&', 5))
    } else if begins_at(chars, at, "&lt;") {
        Some(('<', 4))
    } else if begins_at(chars, at, "&gt;") {
        Some(('>', 4))
    } else {
        None
    }
}

/// Decodes the five XML control characters: `&quot;` to `"`, `&apos;` to `'`,
/// `&amp;` to `&`, `&lt;` to `<` and `&gt;` to `>`. Nothing else is changed.
pub fn decode_5_xml_control_characters(input: &str) -> (output: String)
    ensures
        output@ == decoded(input@),
{
    let chars = to_chars(input);
    let mut output = String::new();
    let mut at: usize = 0;
    proof {
        assert(chars@.skip(0) == chars@);
    }
    while at < chars.len()
        invariant
            at <= chars.len(),
            chars@ == input@,
            output@ + decoded(chars@.skip(at as int)) == decoded(chars@),
        decreases chars.len() - at,
    {
        let ghost tail = chars@.skip(at as int);
        match escape_at(&chars, at) {
            Some((literal, length)) => {
                proof {
                    assert(tail.skip(length as int) == chars@.skip(at + length));
                    assert(output@.push(literal) + decoded(tail.skip(length as int)) == output@ + (
                    seq![literal] + decoded(tail.skip(length as int))));
                }
                push_char(&mut output, literal);
                at = at + length;
            },
            None => {
                proof {
                    assert(tail.drop_first() == chars@.skip(at + 1));
                    assert(tail[0] == chars@[at as int]);
                }
                push_char(&mut output, chars[at]);
                at = at + 1;
            },
        }
    }
    output
}

} // verus!
