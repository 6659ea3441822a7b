//! A stable content fingerprint of an ordered list of policies.
//!
//! The list is framed as a byte stream: each policy contributes the UTF-8
//! bytes of its id, the byte `0xFF`, the UTF-8 bytes of its text, and the byte
//! `0xFE`, two bytes that UTF-8 never produces. The fingerprint is the 64-bit
//! FNV-1a hash of the stream: it depends on nothing but the list, in this
//! process or any other.

use vstd::prelude::*;
use vstd::utf8::encode_utf8;
use crate::model::{policy_views, CedarPolicy, PolicyView};

verus! {

/// The FNV-1a offset basis for 64-bit hashes.
pub const FNV_OFFSET: u64 = 0xcbf29ce484222325;

/// The FNV prime for 64-bit hashes.
pub const FNV_PRIME: u64 = 0x100000001b3;

/// Marks the end of a policy's id in the framed stream.
pub const ID_END: u8 = 0xFF;

/// Marks the end of a policy's text in the framed stream.
pub const TEXT_END: u8 = 0xFE;

/// One FNV-1a step: fold a byte into the hash.
pub open spec fn mix(hash: u64, byte: u8) -> u64 {
    (hash ^ (byte as u64)).wrapping_mul(FNV_PRIME)
}

/// The hash after folding in `bytes`, first to last, starting from `hash`.
pub open spec fn absorb(hash: u64, bytes: Seq<u8>) -> u64
    decreases bytes.len(),
{
    if bytes.len() == 0 {
        hash
    } else {
        mix(absorb(hash, bytes.drop_last()), bytes.last())
    }
}

/// The bytes one policy contributes to the framed stream.
pub open spec fn frame_one(policy: PolicyView) -> Seq<u8> {
    encode_utf8(policy.id).push(ID_END) + encode_utf8(policy.text).push(TEXT_END)
}

/// The framed stream of a list of policies.
pub open spec fn frame(policies: Seq<PolicyView>) -> Seq<u8>
    decreases policies.len(),
{
    if policies.len() == 0 {
        Seq::empty()
    } else {
        frame(policies.drop_last()) + frame_one(policies.last())
    }
}

/// The fingerprint of a list of policies.
pub open spec fn fingerprint_spec(policies: Seq<PolicyView>) -> u64 {
    absorb(FNV_OFFSET, frame(policies))
}

/// Absorbing a concatenation is absorbing its parts in turn.
pub proof fn lemma_absorb_concat(hash: u64, first: Seq<u8>, second: Seq<u8>)
    ensures
        absorb(hash, first + second) == absorb(absorb(hash, first), second),
    decreases second.len(),
{
    if second.len() > 0 {
        assert((first + second).drop_last() =~= first + second.drop_last());
        lemma_absorb_concat(hash, first, second.drop_last());
    }
}

/// The fingerprint depends on nothing but the ids and texts and their order.
pub proof fn lemma_fingerprint_stable(first: Seq<CedarPolicy>, second: Seq<CedarPolicy>)
    requires
        first.len() == second.len(),
        forall|i: int| 0 <= i < first.len() ==> first[i]@ == second[i]@,
    ensures
        fingerprint_spec(policy_views(first)) == fingerprint_spec(policy_views(second)),
{
    assert(policy_views(first) =~= policy_views(second));
}

/// Folds the bytes of `bytes` into `hash`.
fn absorb_bytes(hash: u64, bytes: &[u8]) -> (r: u64)
    ensures
        r == absorb(hash, bytes@),
{
    let mut h: u64 = hash;
    let mut i: usize = 0;
    while i < bytes.len()
        invariant
            i <= bytes.len(),
            h == absorb(hash, bytes@.take(i as int)),
        decreases bytes.len() - i,
    {
        assert(bytes@.take(i + 1).drop_last() =~= bytes@.take(i as int));
        h = (h ^ (bytes[i] as u64)).wrapping_mul(FNV_PRIME);
        i += 1;
    }
    assert(bytes@.take(bytes.len() as int) =~= bytes@);
    h
}

/// Folds a single byte into `hash`.
fn absorb_byte(hash: u64, byte: u8) -> (r: u64)
    ensures
        r == mix(hash, byte),
{
    (hash ^ (byte as u64)).wrapping_mul(FNV_PRIME)
}

/// Computes the fingerprint of `policies`: the FNV-1a hash of their framed
/// stream. Two calls on lists with the same ids and texts in the same order
/// return the same value.
pub fn fingerprint(policies: &[CedarPolicy]) -> (r: u64)
    ensures
        r == fingerprint_spec(policy_views(policies@)),
{
    let ghost views = policy_views(policies@);
    let mut h: u64 = FNV_OFFSET;
    let mut i: usize = 0;
    while i < policies.len()
        invariant
            i <= policies.len(),
            views == policy_views(policies@),
            h == absorb(FNV_OFFSET, frame(views.take(i as int))),
        decreases policies.len() - i,
    {
        let ghost before = frame(views.take(i as int));
        let ghost id = encode_utf8(views[i as int].id);
        let ghost text = encode_utf8(views[i as int].text);
        let h1 = absorb_bytes(h, policies[i].id.as_str().as_bytes());
        let h2 = absorb_byte(h1, ID_END);
        let h3 = absorb_bytes(h2, policies[i].policy.as_str().as_bytes());
        let h4 = absorb_byte(h3, TEXT_END);
        proof {
            assert(views.take(i + 1).drop_last() =~= views.take(i as int));
            assert(id.push(ID_END).drop_last() =~= id);
            assert(text.push(TEXT_END).drop_last() =~= text);
            lemma_absorb_concat(FNV_OFFSET, before, frame_one(views[i as int]));
            lemma_absorb_concat(h, id.push(ID_END), text.push(TEXT_END));
        }
        h = h4;
        i += 1;
    }
    assert(views.take(policies.len() as int) =~= views);
    h
}

} // verus!
