//! Content fingerprinting for change deduplication.
//!
//! The tracker suppresses duplicate diffs by comparing SHA-1 digests of the
//! trimmed diff text.  The digest is a content fingerprint only, never a
//! security property.

use vstd::prelude::*;

use crate::diff::opt_chars_view;
use crate::text::bytes_eq;

verus! {

/// The view of an optional stored digest.
pub open spec fn opt_bytes_view(b: Option<Vec<u8>>) -> Option<Seq<u8>> {
    match b {
        Some(v) => Some(v@),
        None => None,
    }
}

/// The SHA-1 digest of the UTF-8 encoding of a character sequence.
pub uninterp spec fn sha1_of(text: Seq<char>) -> Seq<u8>;

/// Relies on `sha1::Sha1` (through the `digest` crate's `Digest::digest`):
/// the twenty-byte SHA-1 digest, a function of the input bytes alone.
#[verifier::external_body]
pub(crate) fn sha1_digest(text: &Vec<char>) -> (r: Vec<u8>)
    ensures
        r@ == sha1_of(text@),
        r@.len() == 20,
{
    let s: String = text.iter().collect();
    let out = <sha1::Sha1 as sha1::Digest>::digest(s.as_bytes());
    out.to_vec()
}

/// What change deduplication does with one trimmed diff: when the stored
/// digest already equals the diff's digest, nothing is returned and the
/// store keeps its value; otherwise the diff is returned and its digest
/// becomes the stored one.
pub open spec fn spec_select_changed(trimmed: Seq<char>, last: Option<Seq<u8>>) -> (
    Option<Seq<char>>,
    Option<Seq<u8>>,
) {
    if last matches Some(d) && d == sha1_of(trimmed) {
        (None, last)
    } else {
        (Some(trimmed), Some(sha1_of(trimmed)))
    }
}

/// Exact runtime counterpart of [`spec_select_changed`].
pub fn select_if_changed(trimmed: Vec<char>, last: &Option<Vec<u8>>) -> (r: (
    Option<Vec<char>>,
    Option<Vec<u8>>,
))
    ensures
        ({
            let s = spec_select_changed(trimmed@, opt_bytes_view(*last));
            opt_chars_view(r.0) == s.0 && opt_bytes_view(r.1) == s.1
        }),
{
    let d = sha1_digest(&trimmed);
    let changed = match last {
        Some(prev) => !bytes_eq(prev, &d),
        None => true,
    };
    if changed {
        (Some(trimmed), Some(d))
    } else {
        (None, Some(d))
    }
}

} // verus!
