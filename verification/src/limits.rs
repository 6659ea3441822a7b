//! Bounds that a policy text and an entity document must keep before the
//! engine sees them.
//!
//! The parser works on the caller's stack. It descends through its whole
//! expression grammar once for every level of bracket nesting, and once for
//! every link of a chain of operators or member accesses, so a text that
//! nests deeply or runs very long can exhaust a small thread stack, which
//! ends the process. Both bounds are far beyond what written policies need.
//! An entity document is bounded in length for the same reason.
//!
//! The nesting count is deliberately blunt: it counts every bracket byte,
//! also one inside a string literal or a comment. Telling those apart would
//! rest on reading the text exactly as the engine's lexer does, and an error
//! there would let a deep text through. A text is refused on this account
//! only if it holds more than two dozen opening brackets that nothing closes.

use vstd::prelude::*;
use vstd::utf8::encode_utf8;
use crate::search::least_from;

verus! {

/// The most bytes a policy text may have.
pub const MAX_POLICY_BYTES: usize = 8192;

/// The deepest bracket nesting a policy text may reach.
pub const MAX_NESTING: usize = 24;

/// The most bytes an entity document may have.
///
/// The engine computes each entity's ancestors by following the parent edges
/// on the caller's stack, one level per link of a chain, without a bound of
/// its own. A record in a chain takes some seventy bytes, so a document within
/// this bound holds no chain longer than a few hundred entities.
pub const MAX_ENTITY_BYTES: usize = 32768;

/// Whether an entity document keeps its bound.
pub open spec fn entities_within_limits(json: Seq<char>) -> bool {
    encode_utf8(json).len() <= MAX_ENTITY_BYTES
}

/// How a policy text breaks the bounds.
#[derive(Clone, Copy, Debug, PartialEq, Eq, Structural)]
pub enum Excess {
    /// The text has more than [`MAX_POLICY_BYTES`] bytes.
    Length,
    /// The byte at `offset` opens a bracket beyond [`MAX_NESTING`].
    Nesting { offset: usize },
}

/// Whether a byte opens a bracket: `(`, `[` or `{`.
pub open spec fn opens(byte: u8) -> bool {
    byte == 0x28 || byte == 0x5B || byte == 0x7B
}

/// Whether a byte closes a bracket: `)`, `]` or `}`.
pub open spec fn closes(byte: u8) -> bool {
    byte == 0x29 || byte == 0x5D || byte == 0x7D
}

/// The number of brackets left open after `bytes`. Every opening bracket
/// counts, of whatever kind and wherever it stands; a closing bracket closes
/// one if any is open.
pub open spec fn depth_after(bytes: Seq<u8>) -> nat
    decreases bytes.len(),
{
    if bytes.len() == 0 {
        0
    } else {
        let before = depth_after(bytes.drop_last());
        if opens(bytes.last()) {
            before + 1
        } else if closes(bytes.last()) && before > 0 {
            (before - 1) as nat
        } else {
            before
        }
    }
}

/// Holds of the offsets whose byte opens a bracket beyond the nesting bound.
pub open spec fn too_deep(bytes: Seq<u8>) -> spec_fn(int) -> bool {
    |i: int| depth_after(bytes.take(i + 1)) > MAX_NESTING
}

/// How `text` breaks the bounds, if it does: by its length, or else at the
/// first byte that opens a bracket too many.
pub open spec fn excess_of(text: Seq<char>) -> Option<Excess> {
    let bytes = encode_utf8(text);
    if bytes.len() > MAX_POLICY_BYTES {
        Some(Excess::Length)
    } else {
        match least_from(too_deep(bytes), 0, bytes.len() as int) {
            Some(offset) => Some(Excess::Nesting { offset: offset as usize }),
            None => None,
        }
    }
}

/// Whether `text` keeps both bounds.
pub open spec fn within_limits(text: Seq<char>) -> bool {
    excess_of(text) is None
}

/// Finds how `text` breaks the bounds, if it does.
pub fn find_excess(text: &str) -> (r: Option<Excess>)
    ensures
        r == excess_of(text@),
{
    let bytes = text.as_bytes();
    if bytes.len() > MAX_POLICY_BYTES {
        return Some(Excess::Length);
    }
    let ghost all = bytes@;
    let ghost n = all.len() as int;
    let mut depth: usize = 0;
    let mut i: usize = 0;
    while i < bytes.len()
        invariant
            i <= bytes.len() <= MAX_POLICY_BYTES,
            all == bytes@,
            all == encode_utf8(text@),
            n == all.len(),
            depth == depth_after(all.take(i as int)),
            depth <= MAX_NESTING,
            least_from(too_deep(all), 0, n) == least_from(too_deep(all), i as int, n),
        decreases bytes.len() - i,
    {
        let byte = bytes[i];
        assert(all.take(i + 1).drop_last() =~= all.take(i as int));
        if byte == 0x28 || byte == 0x5B || byte == 0x7B {
            if depth == MAX_NESTING {
                assert(too_deep(all)(i as int));
                return Some(Excess::Nesting { offset: i });
            }
            depth += 1;
        } else if (byte == 0x29 || byte == 0x5D || byte == 0x7D) && depth > 0 {
            depth -= 1;
        }
        assert(!too_deep(all)(i as int));
        i += 1;
    }
    None
}

} // verus!
