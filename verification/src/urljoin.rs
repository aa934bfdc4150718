//! Joining a raw reference against the collection's fixed base authority.
//!
//! The base authority `pundoc://document/` anchors what "inside the
//! collection" means: a plain relative reference lands under the
//! `document` host, a protocol-relative reference picks a reserved host,
//! and a full URL keeps its own scheme. The join itself follows the
//! generic URL resolution rules, which the `url` crate implements; its
//! outcome is named by `join_of` and everything downstream is proved
//! against that name.

use vstd::prelude::*;

verus! {

/// What joining `reference` against the fixed base authority yields:
/// the joined URL's scheme, host (empty when it has none), path and full
/// serialization, or nothing when the reference is malformed.
pub uninterp spec fn join_of(reference: Seq<char>) -> Option<(Seq<char>, Seq<char>, Seq<char>, Seq<char>)>;

/// Relies on `url::Url::parse` and `url::Url::join` to resolve `reference`
/// against the fixed base `pundoc://document/`, and on `Url::scheme`,
/// `Url::host_str`, `Url::path` and `Url::as_str` to read the result.
/// URL resolution is a function of the two strings alone, so its outcome
/// here is a function of the reference; `join_of` names it.
#[verifier::external_body]
pub(crate) fn join_reference(reference: &str) -> (r: Option<(String, String, String, String)>)
    ensures
        match (r, join_of(reference@)) {
            (Some(p), Some(q)) => q == (p.0@, p.1@, p.2@, p.3@),
            (None, None) => true,
            _ => false,
        },
{
    match url::Url::parse("pundoc://document/").and_then(|base| base.join(reference)) {
        Ok(u) => {
            let host = u.host_str().unwrap_or("").to_string();
            Some((u.scheme().to_string(), host, u.path().to_string(), u.as_str().to_string()))
        },
        Err(_) => None,
    }
}

} // verus!
