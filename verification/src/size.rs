//! Human-readable size strings ("10M", "512K"), parsed by an outside
//! crate whose result is named rather than restated.

use vstd::prelude::*;

verus! {

/// The byte count that a human-readable size string denotes, if any;
/// the result of `human_units::Size::from_str`, a function of the
/// characters alone (binary multipliers: K, M, G, T).
pub uninterp spec fn size_of_text(s: Seq<char>) -> Option<u64>;

/// Relies on `human_units::Size::from_str` (and `u64::from(Size)`):
/// parses a trimmed decimal magnitude with an optional unit suffix,
/// deterministically from the string's characters.
///
/// Only ASCII text is admitted: the parser slices the input one byte
/// past the last character `char::is_numeric` matches, and a
/// multi-byte digit would make that slice panic.
#[verifier::external_body]
pub(crate) fn parse_size(s: &str) -> (r: Option<u64>)
    requires
        vstd::string::is_ascii(s),
    ensures
        r == size_of_text(s@),
{
    match s.parse::<human_units::Size>() {
        Ok(sz) => Some(sz.into()),
        Err(_) => None,
    }
}

} // verus!
