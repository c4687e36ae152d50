//! Identity extraction from the connection handshake: the upgrade request
//! carries a `user_id` query parameter; the handshake is accepted with the
//! sanitized identity, or rejected with a client-error status when the
//! parameter is missing or empty.

use vstd::prelude::*;
use crate::sanitize::sanitize;
use crate::sanitize::spec_sanitize;

verus! {

/// What `form_urlencoded::parse` returns for a given query string: its
/// `(name, value)` pairs, names and values percent-decoded, in the order
/// they stand in the query. Parsing is total and depends on the query text
/// alone.
pub uninterp spec fn query_pairs(q: Seq<char>) -> Seq<(Seq<char>, Seq<char>)>;

/// Relies on `url::form_urlencoded::parse`: it splits the query on `&` and
/// `=`, percent-decodes names and values, and never fails.
#[verifier::external_body]
fn parse_query(q: &str) -> (r: Vec<(String, String)>)
    ensures
        r.deep_view() == query_pairs(q@),
{
    url::form_urlencoded::parse(q.as_bytes()).into_owned().collect()
}

/// The value of the last pair named `key`: a later occurrence overwrites an
/// earlier one, exactly as collecting the pairs into a map does.
pub open spec fn last_value_for(
    pairs: Seq<(Seq<char>, Seq<char>)>,
    key: Seq<char>,
) -> Option<Seq<char>>
    decreases pairs.len(),
{
    if pairs.len() == 0 {
        None
    } else if pairs.last().0 == key {
        Some(pairs.last().1)
    } else {
        last_value_for(pairs.drop_last(), key)
    }
}

/// Finds the value of the last pair named `key`, scanning from the end.
fn lookup_last(pairs: &Vec<(String, String)>, key: &String) -> (r: Option<String>)
    ensures
        (r matches Some(v) ==> last_value_for(pairs.deep_view(), key@) == Some(v@)),
        r is None <==> last_value_for(pairs.deep_view(), key@) is None,
{
    let ghost all = pairs.deep_view();
    let mut i: usize = pairs.len();
    assert(all.take(i as int) =~= all);
    while i > 0
        invariant
            i <= pairs.len(),
            all == pairs.deep_view(),
            last_value_for(all, key@) == last_value_for(all.take(i as int), key@),
        decreases i,
    {
        i = i - 1;
        assert(all.take(i as int + 1).last() == all[i as int]);
        assert(all.take(i as int + 1).drop_last() =~= all.take(i as int));
        assert(all[i as int] == (pairs@[i as int].0@, pairs@[i as int].1@));
        if pairs[i].0 == *key {
            assert(all[i as int].0 == key@);
            return Some(pairs[i].1.clone());
        }
        assert(all[i as int].0 != key@);
    }
    assert(all.take(0) =~= Seq::<(Seq<char>, Seq<char>)>::empty());
    None
}

/// The raw user id carried by an upgrade request's query, if any: the value
/// of the last `user_id` pair.
pub open spec fn spec_raw_user_id(query: Option<Seq<char>>) -> Option<Seq<char>> {
    match query {
        Some(q) => last_value_for(query_pairs(q), "user_id"@),
        None => None,
    }
}

/// How a connection handshake ends.
pub enum HandshakeOutcome {
    /// The connection is promoted; `identity` is the sanitized, decoded
    /// form of the client-supplied user id.
    Accept { identity: String },
    /// The handshake is refused with this status and body; the connection
    /// never reaches message mode.
    Reject { status: u16, body: String },
}

/// Decides a handshake from the upgrade request's query string: accept,
/// under the sanitized identity, exactly when a non-empty `user_id`
/// parameter is present; otherwise reject with status 400.
pub fn handshake(query: Option<&str>) -> (r: HandshakeOutcome)
    ensures
        (r is Accept <==> (spec_raw_user_id(query.deep_view()) matches Some(v) && v.len() > 0)),
        (r matches HandshakeOutcome::Accept { identity } ==> identity@ == spec_sanitize(
            spec_raw_user_id(query.deep_view())->Some_0,
        )),
        (r matches HandshakeOutcome::Reject { status, body } ==> status == 400 && body@
            == "Missing or invalid User-Id"@),
{
    if let Some(q) = query {
        let pairs = parse_query(q);
        let key = String::from_str("user_id");
        if let Some(raw) = lookup_last(&pairs, &key) {
            if raw.as_str().is_empty() {
                reject()
            } else {
                HandshakeOutcome::Accept { identity: sanitize(raw.as_str()) }
            }
        } else {
            reject()
        }
    } else {
        reject()
    }
}

/// The fixed refusal: status 400 with a short human-readable body.
fn reject() -> (r: HandshakeOutcome)
    ensures
        (r matches HandshakeOutcome::Reject { status, body } && status == 400 && body@
            == "Missing or invalid User-Id"@),
{
    HandshakeOutcome::Reject { status: 400, body: String::from_str("Missing or invalid User-Id") }
}

} // verus!
