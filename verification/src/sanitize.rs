//! The sanitizer: percent-decode client-supplied text (falling back to the
//! raw input when decoding fails) and then strip every piece of markup, so
//! that nothing a client sends is ever redistributed as active content.

use vstd::prelude::*;

verus! {

/// What `urlencoding::decode` returns for a given input: the percent-decoded
/// text, or `None` when the decoded bytes are not valid UTF-8. The result
/// depends on the input text alone.
pub uninterp spec fn pct_decoded(s: Seq<char>) -> Option<Seq<char>>;

/// What `ammonia`'s `Builder::clean`, configured to allow no tags at all,
/// returns for a given input: the text content with every tag removed and
/// the remaining text entity-escaped. The result depends on the input text
/// alone.
pub uninterp spec fn markup_stripped(s: Seq<char>) -> Seq<char>;

/// Relies on `urlencoding::decode`: it percent-decodes its input, fails
/// exactly when the decoded bytes are not valid UTF-8, and hands an input
/// that holds no `%` back unchanged.
#[verifier::external_body]
fn percent_decode(s: &str) -> (r: Option<String>)
    ensures
        r is Some <==> pct_decoded(s@) is Some,
        r matches Some(d) ==> pct_decoded(s@) == Some(d@) && (!s@.contains('%') ==> d@ == s@),
        r is None ==> s@.contains('%'),
{
    match urlencoding::decode(s) {
        Ok(d) => Some(d.into_owned()),
        Err(_) => None,
    }
}

/// Relies on `ammonia::Builder::clean` with an empty tag whitelist: every
/// tag is removed and the surviving text is serialized with `<`, `>` and `&`
/// entity-escaped, so the output holds no `<` or `>` and cleaning the output
/// again returns it unchanged.
#[verifier::external_body]
fn strip_markup(s: &str) -> (r: String)
    ensures
        r@ == markup_stripped(s@),
        !r@.contains('<'),
        !r@.contains('>'),
        markup_stripped(r@) == r@,
{
    let mut builder = ammonia::Builder::default();
    builder.tags(std::collections::HashSet::new());
    builder.clean(s).to_string()
}

/// The text the sanitizer works on after its decoding step: the
/// percent-decoded input, or the raw input where decoding fails.
pub open spec fn decoded_or_raw(s: Seq<char>) -> Seq<char> {
    match pct_decoded(s) {
        Some(d) => d,
        None => s,
    }
}

/// What `sanitize` returns: the input, percent-decoded where possible, with
/// all markup stripped.
pub open spec fn spec_sanitize(s: Seq<char>) -> Seq<char> {
    markup_stripped(decoded_or_raw(s))
}

/// Transforms arbitrary client-supplied text into safe-to-redistribute
/// plain text: percent-decode, then strip all markup. Total; a decoding
/// failure falls back to the raw input instead of erroring.
///
/// The last two clauses are the sanitizer's stability law: the result is a
/// fixed point of the markup-stripping pass, and an input that is already a
/// fixed point of both passes comes back unchanged — so a second
/// sanitization pass returns its input unchanged whenever that input holds
/// no `%`.
pub fn sanitize(s: &str) -> (r: String)
    ensures
        r@ == spec_sanitize(s@),
        !r@.contains('<'),
        !r@.contains('>'),
        markup_stripped(r@) == r@,
        (!s@.contains('%') && markup_stripped(s@) == s@) ==> r@ == s@,
{
    match percent_decode(s) {
        Some(d) => strip_markup(d.as_str()),
        None => strip_markup(s),
    }
}

} // verus!
