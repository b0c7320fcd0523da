//! Normalization of the service-area notation.
//!
//! The identifier arrives from upstream configuration as a stringified value
//! and may carry one layer of surrounding quote characters. The caller strips
//! that layer before looking the identifier up in the catalog; the stripping
//! never truncates silently, and an identifier too short to carry a quote
//! layer is rejected loudly.

use crate::errors::CriteriaError;
use vstd::prelude::*;
use vstd::string::*;

verus! {

/// One layer of surrounding double quotes removed, if both are present;
/// otherwise the identifier unchanged.
pub open spec fn spec_normalize(s: Seq<char>) -> Seq<char> {
    if s.len() >= 2 && s[0] == '"' && s[s.len() - 1] == '"' {
        s.subrange(1, s.len() - 1)
    } else {
        s
    }
}

/// Strips exactly one layer of surrounding double quotes from a notation.
///
/// An identifier of fewer than two characters cannot carry a quote layer and
/// is rejected, never truncated to an empty key.
pub fn normalize_notation(s: &str) -> (r: Result<String, CriteriaError>)
    ensures
        match r {
            Ok(t) => s@.len() >= 2 && t@ == spec_normalize(s@),
            Err(e) => s@.len() < 2 && (e matches CriteriaError::InvalidInputError),
        },
{
    let n = s.unicode_len();
    if n < 2 {
        return Err(CriteriaError::InvalidInputError);
    }
    let first = s.get_char(0);
    let last = s.get_char(n - 1);
    if first == '"' && last == '"' {
        let core = s.substring_char(1, n - 1);
        Ok(core.to_owned())
    } else {
        Ok(s.to_owned())
    }
}

/// Normalization is idempotent: once the quote layer is gone, a second pass
/// changes nothing. The law excludes identifiers whose quoted payload is
/// itself quote-delimited; on those a second pass strips a further layer.
pub proof fn lemma_normalize_idempotent(s: Seq<char>)
    requires
        !(spec_normalize(s).len() >= 2 && spec_normalize(s)[0] == '"' && spec_normalize(s)[
            spec_normalize(s).len() - 1
        ] == '"'),
    ensures
        spec_normalize(spec_normalize(s)) == spec_normalize(s),
{
}

} // verus!
