use vstd::prelude::*;

verus! {

/// Calls `str::strip_prefix`: where `text` starts with `prefix`, the rest of
/// `text` after it; otherwise `None`.
#[verifier::external_body]
pub(crate) fn strip_prefix<'a>(text: &'a str, prefix: &str) -> (rest: Option<&'a str>)
    ensures
        rest matches Some(r) ==> text@ == prefix@ + r@,
        rest is None ==> !prefix@.is_prefix_of(text@),
{
    text.strip_prefix(prefix)
}

/// Calls `String::push`, which appends one character.
#[verifier::external_body]
pub(crate) fn push_char(text: &mut String, c: char)
    ensures
        final(text)@ == old(text)@.push(c),
{
    text.push(c)
}

/// Whether two texts are the same.
pub fn same_text(a: &str, b: &str) -> (same: bool)
    ensures
        same == (a@ == b@),
{
    a.to_owned() == b.to_owned()
}

} // verus!
