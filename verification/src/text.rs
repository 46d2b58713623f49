//! Work on the characters of strings: comparing them, and building new ones.

use vstd::prelude::*;

verus! {

/// `String::push`: the string afterwards is the string before with `c` at its
/// end.
#[verifier::external_body]
pub(crate) fn push_char(text: &mut String, c: char)
    ensures
        final(text)@ == old(text)@.push(c),
{
    text.push(c)
}

/// The characters of `text`, in order.
pub fn to_chars(text: &str) -> (chars: Vec<char>)
    ensures
        chars@ == text@,
{
    let mut chars: Vec<char> = Vec::new();
    for c in it: text.chars()
        invariant
            chars@ == it.seq().take(it.index()),
    {
        chars.push(c);
    }
    chars
}

/// Whether `text` begins with `prefix`.
pub fn has_prefix(text: &str, prefix: &str) -> (found: bool)
    ensures
        found == prefix@.is_prefix_of(text@),
{
    let mut rest = text.chars();
    let mut wanted = prefix.chars();
    let ghost mut seen: int = 0;
    loop
        invariant
            0 <= seen <= prefix@.len(),
            seen <= text@.len(),
            vstd::std_specs::iter::IteratorSpec::remaining(&rest) == text@.skip(seen),
            vstd::std_specs::iter::IteratorSpec::remaining(&wanted) == prefix@.skip(seen),
            prefix@.take(seen) == text@.take(seen),
        decreases prefix@.len() - seen,
    {
        match wanted.next() {
            None => {
                return true;
            },
            Some(w) => {
                match rest.next() {
                    None => {
                        return false;
                    },
                    Some(c) => {
                        if c != w {
                            return false;
                        }
                        proof {
                            seen = seen + 1;
                        }
                    },
                }
            },
        }
    }
}

/// Whether `left` and `right` hold the same characters.
pub fn same_text(left: &str, right: &str) -> (same: bool)
    ensures
        same == (left@ == right@),
{
    let mut l = left.chars();
    let mut r = right.chars();
    let ghost mut seen: int = 0;
    loop
        invariant
            0 <= seen <= left@.len(),
            seen <= right@.len(),
            vstd::std_specs::iter::IteratorSpec::remaining(&l) == left@.skip(seen),
            vstd::std_specs::iter::IteratorSpec::remaining(&r) == right@.skip(seen),
            left@.take(seen) == right@.take(seen),
        decreases left@.len() - seen,
    {
        match l.next() {
            None => {
                let last = r.next();
                assert(left@.take(seen) == left@);
                assert(last is None ==> right@.take(seen) == right@);
                return last.is_none();
            },
            Some(a) => {
                match r.next() {
                    None => {
                        return false;
                    },
                    Some(b) => {
                        if a != b {
                            return false;
                        }
                        proof {
                            seen = seen + 1;
                        }
                    },
                }
            },
        }
    }
}

} // verus!
