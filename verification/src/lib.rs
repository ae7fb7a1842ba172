//! Typed, prefixed, random identifiers such as `user_8f3k2...`.
//!
//! An identifier kind fixes a prefix and the number of random symbols that
//! follow it; every identifier of that kind reads `<prefix>_<segment>`.

pub mod alphabet;
pub mod id;
pub mod store;
pub mod text;

use vstd::prelude::*;
use crate::alphabet::{is_fresh_text, lemma_compose_is_fresh};
use crate::text::byte_len;

pub use crate::alphabet::{compose, generate, DEFAULT_SEGMENT_LENGTH, MAX_TEXT_LENGTH};
pub use crate::id::{CreateIdError, IdKind, PrefixId};

verus! {

/// A fresh identifier text: `prefix`, the separator, and `size` random symbols.
pub fn format(prefix: &str, size: usize) -> (text: String)
    requires
        size <= MAX_TEXT_LENGTH,
    ensures
        is_fresh_text(text@, prefix@, size as nat),
        byte_len(text@) == byte_len(prefix@) + 1 + size,
{
    let segment = generate(size);
    proof {
        lemma_compose_is_fresh(prefix@, segment@, size as nat);
    }
    compose(prefix, segment.as_str())
}

/// A fresh identifier text with a segment of the default length.
pub fn prefixid(prefix: &str) -> (text: String)
    ensures
        is_fresh_text(text@, prefix@, DEFAULT_SEGMENT_LENGTH as nat),
        byte_len(text@) == byte_len(prefix@) + 1 + DEFAULT_SEGMENT_LENGTH,
{
    format(prefix, DEFAULT_SEGMENT_LENGTH)
}

} // verus!
