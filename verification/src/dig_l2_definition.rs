//! Specification-defined functions and hashing domains for the L2 block.
//!
//! This module centralizes the canonical definitions used by the concrete
//! types (`header`, `body`, `block`, `emission`):
//!
//! - domain tags used for SHA-256 domain separation,
//! - the per-item hashes `COMPUTE_DATA_HASH` and `COMPUTE_EMISSION_HASH`,
//! - `MERKLE_ROOT` with classic odd-leaf duplication and distinct
//!   leaf/node domains,
//! - `COMPUTE_BODY_ROOT`, `COMPUTE_HEADER_ROOT`, `COMPUTE_BLOCK_ROOT`,
//! - `BUILD_CONSENSUS_EMISSIONS` (returns simple tuples for later conversion),
//! - the canonical byte-wise ordering of hashes used to make the body
//!   subroots independent of input order.
//!
//! Every executable function carries a contract that pins its result down to
//! the corresponding specification function, all of which bottom out in the
//! single uninterpreted digest `sha256_of`.

#![allow(non_snake_case)]

use sha2::{Digest, Sha256};
use vstd::prelude::*;
use vstd::relations::*;
use vstd::seq_lib::*;

verus! {

/// 32-byte hash type used across the definitions.
pub type Hash32 = [u8; 32];

// ---------------------------------------------------------------------------
// Domain separation tags
//
// Each tag is a fixed ASCII byte string; the spec functions give the exact
// bytes and the executable functions return the same bytes, proved equal.
// ---------------------------------------------------------------------------

/// Domain tag for individual header fields: the ASCII bytes of
/// `dig:l2:header_field:`.
pub open spec fn header_field_domain() -> Seq<u8> {
    seq![100u8, 105u8, 103u8, 58u8, 108u8, 50u8, 58u8, 104u8, 101u8, 97u8, 100u8, 101u8, 114u8, 95u8, 102u8, 105u8, 101u8, 108u8, 100u8, 58u8]
}

/// Domain tag for the block root composition: the ASCII bytes of
/// `dig:l2:block_root:`.
pub open spec fn block_root_domain() -> Seq<u8> {
    seq![100u8, 105u8, 103u8, 58u8, 108u8, 50u8, 58u8, 98u8, 108u8, 111u8, 99u8, 107u8, 95u8, 114u8, 111u8, 111u8, 116u8, 58u8]
}

/// Domain tag for application data items: the ASCII bytes of `dig:l2:data:`.
pub open spec fn data_hash_domain() -> Seq<u8> {
    seq![100u8, 105u8, 103u8, 58u8, 108u8, 50u8, 58u8, 100u8, 97u8, 116u8, 97u8, 58u8]
}

/// Domain tag for standardized emissions: the ASCII bytes of
/// `dig:l2:emission:`.
pub open spec fn emission_hash_domain() -> Seq<u8> {
    seq![100u8, 105u8, 103u8, 58u8, 108u8, 50u8, 58u8, 101u8, 109u8, 105u8, 115u8, 115u8, 105u8, 111u8, 110u8, 58u8]
}

/// Domain tag for Merkle leaf nodes: the ASCII bytes of `dig:l2:merkle:leaf:`.
pub open spec fn merkle_leaf_domain() -> Seq<u8> {
    seq![100u8, 105u8, 103u8, 58u8, 108u8, 50u8, 58u8, 109u8, 101u8, 114u8, 107u8, 108u8, 101u8, 58u8, 108u8, 101u8, 97u8, 102u8, 58u8]
}

/// Domain tag for Merkle internal nodes: the ASCII bytes of
/// `dig:l2:merkle:node:`.
pub open spec fn merkle_node_domain() -> Seq<u8> {
    seq![100u8, 105u8, 103u8, 58u8, 108u8, 50u8, 58u8, 109u8, 101u8, 114u8, 107u8, 108u8, 101u8, 58u8, 110u8, 111u8, 100u8, 101u8, 58u8]
}

/// Domain tag for the empty Merkle root: the ASCII bytes of
/// `dig:l2:merkle:empty:`.
pub open spec fn merkle_empty_domain() -> Seq<u8> {
    seq![100u8, 105u8, 103u8, 58u8, 108u8, 50u8, 58u8, 109u8, 101u8, 114u8, 107u8, 108u8, 101u8, 58u8, 101u8, 109u8, 112u8, 116u8, 121u8, 58u8]
}

fn header_field_domain_bytes() -> (r: Vec<u8>)
    ensures
        r@ == header_field_domain(),
{
    let a: [u8; 20] = [100u8, 105u8, 103u8, 58u8, 108u8, 50u8, 58u8, 104u8, 101u8, 97u8, 100u8, 101u8, 114u8, 95u8, 102u8, 105u8, 101u8, 108u8, 100u8, 58u8];
    let v = bytes_of(a.as_slice());
    assert(v@ =~= header_field_domain());
    v
}

fn block_root_domain_bytes() -> (r: Vec<u8>)
    ensures
        r@ == block_root_domain(),
{
    let a: [u8; 18] = [100u8, 105u8, 103u8, 58u8, 108u8, 50u8, 58u8, 98u8, 108u8, 111u8, 99u8, 107u8, 95u8, 114u8, 111u8, 111u8, 116u8, 58u8];
    let v = bytes_of(a.as_slice());
    assert(v@ =~= block_root_domain());
    v
}

fn data_hash_domain_bytes() -> (r: Vec<u8>)
    ensures
        r@ == data_hash_domain(),
{
    let a: [u8; 12] = [100u8, 105u8, 103u8, 58u8, 108u8, 50u8, 58u8, 100u8, 97u8, 116u8, 97u8, 58u8];
    let v = bytes_of(a.as_slice());
    assert(v@ =~= data_hash_domain());
    v
}

fn emission_hash_domain_bytes() -> (r: Vec<u8>)
    ensures
        r@ == emission_hash_domain(),
{
    let a: [u8; 16] = [100u8, 105u8, 103u8, 58u8, 108u8, 50u8, 58u8, 101u8, 109u8, 105u8, 115u8, 115u8, 105u8, 111u8, 110u8, 58u8];
    let v = bytes_of(a.as_slice());
    assert(v@ =~= emission_hash_domain());
    v
}

fn merkle_leaf_domain_bytes() -> (r: Vec<u8>)
    ensures
        r@ == merkle_leaf_domain(),
{
    let a: [u8; 19] = [100u8, 105u8, 103u8, 58u8, 108u8, 50u8, 58u8, 109u8, 101u8, 114u8, 107u8, 108u8, 101u8, 58u8, 108u8, 101u8, 97u8, 102u8, 58u8];
    let v = bytes_of(a.as_slice());
    assert(v@ =~= merkle_leaf_domain());
    v
}

fn merkle_node_domain_bytes() -> (r: Vec<u8>)
    ensures
        r@ == merkle_node_domain(),
{
    let a: [u8; 19] = [100u8, 105u8, 103u8, 58u8, 108u8, 50u8, 58u8, 109u8, 101u8, 114u8, 107u8, 108u8, 101u8, 58u8, 110u8, 111u8, 100u8, 101u8, 58u8];
    let v = bytes_of(a.as_slice());
    assert(v@ =~= merkle_node_domain());
    v
}

fn merkle_empty_domain_bytes() -> (r: Vec<u8>)
    ensures
        r@ == merkle_empty_domain(),
{
    let a: [u8; 20] = [100u8, 105u8, 103u8, 58u8, 108u8, 50u8, 58u8, 109u8, 101u8, 114u8, 107u8, 108u8, 101u8, 58u8, 101u8, 109u8, 112u8, 116u8, 121u8, 58u8];
    let v = bytes_of(a.as_slice());
    assert(v@ =~= merkle_empty_domain());
    v
}

// ---------------------------------------------------------------------------
// Byte-sequence helpers
// ---------------------------------------------------------------------------

/// Appends every byte of `src` to `dst`, in order.
pub(crate) fn append_bytes(dst: &mut Vec<u8>, src: &[u8])
    ensures
        final(dst)@ == old(dst)@ + src@,
{
    let mut i: usize = 0;
    while i < src.len()
        invariant
            i <= src@.len(),
            dst@ == old(dst)@ + src@.subrange(0, i as int),
        decreases src@.len() - i,
    {
        dst.push(src[i]);
        assert(old(dst)@ + src@.subrange(0, i as int) + seq![src@[i as int]] =~= old(
            dst,
        )@ + src@.subrange(0, i + 1 as int));
        i = i + 1;
    }
    assert(src@.subrange(0, src@.len() as int) =~= src@);
}

fn bytes_of(src: &[u8]) -> (r: Vec<u8>)
    ensures
        r@ == src@,
{
    let mut v: Vec<u8> = Vec::new();
    append_bytes(&mut v, src);
    assert(v@ =~= src@);
    v
}

/// The 8-byte little-endian encoding of a 64-bit integer.
pub open spec fn u64_le_bytes(w: u64) -> Seq<u8> {
    seq![
        (w & 0xff) as u8,
        ((w >> 8) & 0xff) as u8,
        ((w >> 16) & 0xff) as u8,
        ((w >> 24) & 0xff) as u8,
        ((w >> 32) & 0xff) as u8,
        ((w >> 40) & 0xff) as u8,
        ((w >> 48) & 0xff) as u8,
        ((w >> 56) & 0xff) as u8,
    ]
}

/// The 4-byte little-endian encoding of a 32-bit integer.
pub open spec fn u32_le_bytes(v: u32) -> Seq<u8> {
    seq![
        (v & 0xff) as u8,
        ((v >> 8) & 0xff) as u8,
        ((v >> 16) & 0xff) as u8,
        ((v >> 24) & 0xff) as u8,
    ]
}

proof fn lemma_u64_mask_byte(x: u64)
    ensures
        x & 0xff < 256,
{
    assert(x & 0xff < 256) by (bit_vector);
}

proof fn lemma_u32_mask_byte(x: u32)
    ensures
        x & 0xff < 256,
{
    assert(x & 0xff < 256) by (bit_vector);
}

/// Little-endian byte encoding of a `u64`, as hashed into emission leaves and
/// header fields.
pub(crate) fn u64_to_le_bytes(w: u64) -> (r: Vec<u8>)
    ensures
        r@ == u64_le_bytes(w),
{
    proof {
        lemma_u64_mask_byte(w);
        lemma_u64_mask_byte(w >> 8);
        lemma_u64_mask_byte(w >> 16);
        lemma_u64_mask_byte(w >> 24);
        lemma_u64_mask_byte(w >> 32);
        lemma_u64_mask_byte(w >> 40);
        lemma_u64_mask_byte(w >> 48);
        lemma_u64_mask_byte(w >> 56);
    }
    let a: [u8; 8] = [
        (w & 0xff) as u8,
        ((w >> 8) & 0xff) as u8,
        ((w >> 16) & 0xff) as u8,
        ((w >> 24) & 0xff) as u8,
        ((w >> 32) & 0xff) as u8,
        ((w >> 40) & 0xff) as u8,
        ((w >> 48) & 0xff) as u8,
        ((w >> 56) & 0xff) as u8,
    ];
    let v = bytes_of(a.as_slice());
    assert(v@ =~= u64_le_bytes(w));
    v
}

/// Little-endian byte encoding of a `u32`, as hashed into header fields.
pub(crate) fn u32_to_le_bytes(w: u32) -> (r: Vec<u8>)
    ensures
        r@ == u32_le_bytes(w),
{
    proof {
        lemma_u32_mask_byte(w);
        lemma_u32_mask_byte(w >> 8);
        lemma_u32_mask_byte(w >> 16);
        lemma_u32_mask_byte(w >> 24);
    }
    let a: [u8; 4] = [
        (w & 0xff) as u8,
        ((w >> 8) & 0xff) as u8,
        ((w >> 16) & 0xff) as u8,
        ((w >> 24) & 0xff) as u8,
    ];
    let v = bytes_of(a.as_slice());
    assert(v@ =~= u32_le_bytes(w));
    v
}

// ---------------------------------------------------------------------------
// The digest
// ---------------------------------------------------------------------------

/// The SHA-256 digest of a byte sequence. The digest is a pure function of
/// its input; nothing further is assumed about its value.
pub uninterp spec fn sha256_of(input: Seq<u8>) -> Seq<u8>;

/// Relies on `sha2::Sha256::digest`: the 32-byte SHA-256 digest of the input,
/// a function of the input bytes alone.
#[verifier::external_body]
fn sha256(input: &[u8]) -> (r: Hash32)
    ensures
        r@ == sha256_of(input@),
{
    Sha256::digest(input).into()
}

// ---------------------------------------------------------------------------
// Per-item hashes
// ---------------------------------------------------------------------------

/// The hash committing to a single data byte:
/// `SHA256(DATA_HASH_DOMAIN || byte)`.
pub open spec fn data_hash_spec(data_byte: u8) -> Seq<u8> {
    sha256_of(data_hash_domain() + seq![data_byte])
}

/// The hash committing to a single emission:
/// `SHA256(EMISSION_HASH_DOMAIN || pubkey || weight_le)`.
pub open spec fn emission_hash_spec(pubkey: Seq<u8>, weight: u64) -> Seq<u8> {
    sha256_of(emission_hash_domain() + pubkey + u64_le_bytes(weight))
}

/// Compute the hash for a single data item (a single byte for this chain).
pub fn COMPUTE_DATA_HASH(data_byte: u8) -> (r: Hash32)
    ensures
        r@ == data_hash_spec(data_byte),
{
    let mut msg = data_hash_domain_bytes();
    msg.push(data_byte);
    assert(msg@ =~= data_hash_domain() + seq![data_byte]);
    sha256(msg.as_slice())
}

/// Compute the hash for a single emission.
pub fn COMPUTE_EMISSION_HASH(pubkey: &[u8; 48], weight: u64) -> (r: Hash32)
    ensures
        r@ == emission_hash_spec(pubkey@, weight),
{
    let mut msg = emission_hash_domain_bytes();
    append_bytes(&mut msg, pubkey.as_slice());
    let w = u64_to_le_bytes(weight);
    append_bytes(&mut msg, w.as_slice());
    assert(msg@ =~= emission_hash_domain() + pubkey@ + u64_le_bytes(weight));
    sha256(msg.as_slice())
}

// ---------------------------------------------------------------------------
// Merkle construction
// ---------------------------------------------------------------------------

/// The domain-separated bottom-level node derived from a Merkle leaf:
/// `SHA256(MERKLE_LEAF_DOMAIN || leaf)`.
pub open spec fn leaf_hash_spec(leaf: Seq<u8>) -> Seq<u8> {
    sha256_of(merkle_leaf_domain() + leaf)
}

/// The domain-separated internal node combining two children:
/// `SHA256(MERKLE_NODE_DOMAIN || left || right)`.
pub open spec fn node_hash_spec(left: Seq<u8>, right: Seq<u8>) -> Seq<u8> {
    sha256_of(merkle_node_domain() + left + right)
}

/// The root of the empty Merkle tree: `SHA256(MERKLE_EMPTY_DOMAIN)`.
pub open spec fn empty_root_spec() -> Seq<u8> {
    sha256_of(merkle_empty_domain())
}

/// A level with an odd node count gets its last node duplicated so that
/// every node has a partner.
pub open spec fn pad_even(level: Seq<Seq<u8>>) -> Seq<Seq<u8>> {
    if level.len() % 2 == 1 {
        level.push(level.last())
    } else {
        level
    }
}

/// Combines an even-length level pairwise, left to right.
pub open spec fn combine_level(level: Seq<Seq<u8>>) -> Seq<Seq<u8>>
    decreases level.len(),
{
    if level.len() < 2 {
        Seq::empty()
    } else {
        seq![node_hash_spec(level[0], level[1])] + combine_level(level.skip(2))
    }
}

proof fn lemma_combine_level_len(level: Seq<Seq<u8>>)
    ensures
        combine_level(level).len() == level.len() / 2,
    decreases level.len(),
{
    if level.len() >= 2 {
        lemma_combine_level_len(level.skip(2));
    }
}

proof fn lemma_combine_level_index(level: Seq<Seq<u8>>, i: int)
    requires
        0 <= i < level.len() / 2,
    ensures
        combine_level(level).len() == level.len() / 2,
        combine_level(level)[i] == node_hash_spec(level[2 * i], level[2 * i + 1]),
    decreases level.len(),
{
    lemma_combine_level_len(level);
    if i > 0 {
        lemma_combine_level_index(level.skip(2), i - 1);
        assert(level.skip(2)[2 * (i - 1)] == level[2 * i]);
        assert(level.skip(2)[2 * (i - 1) + 1] == level[2 * i + 1]);
    }
}

/// Reduces a non-empty level of nodes, pairing upwards until one root is
/// left.
pub open spec fn merkle_reduce(level: Seq<Seq<u8>>) -> Seq<u8>
    recommends
        level.len() >= 1,
    decreases level.len(),
    via merkle_reduce_decreases
{
    if level.len() <= 1 {
        if level.len() == 1 {
            level[0]
        } else {
            Seq::empty()
        }
    } else {
        merkle_reduce(combine_level(pad_even(level)))
    }
}

#[via_fn]
proof fn merkle_reduce_decreases(level: Seq<Seq<u8>>) {
    if level.len() > 1 {
        lemma_combine_level_len(pad_even(level));
    }
}

/// The Merkle root of a sequence of leaves: the empty-domain hash for no
/// leaves, otherwise the reduction of the domain-separated leaf nodes.
pub open spec fn merkle_root_spec(leaves: Seq<Seq<u8>>) -> Seq<u8> {
    if leaves.len() == 0 {
        empty_root_spec()
    } else {
        merkle_reduce(leaves.map_values(|leaf: Seq<u8>| leaf_hash_spec(leaf)))
    }
}

/// The byte views of a sequence of 32-byte hashes.
pub open spec fn views_of(s: Seq<Hash32>) -> Seq<Seq<u8>> {
    s.map_values(|h: Hash32| h@)
}

/// The Merkle root of the empty leaf sequence is the fixed empty-domain
/// constant.
pub proof fn lemma_merkle_root_empty()
    ensures
        merkle_root_spec(Seq::<Seq<u8>>::empty()) == empty_root_spec(),
{
}

/// The Merkle root of a single leaf is the domain-separated leaf node, not
/// the leaf itself.
pub proof fn lemma_merkle_root_single(leaf: Seq<u8>)
    ensures
        merkle_root_spec(seq![leaf]) == leaf_hash_spec(leaf),
{
    let mapped = seq![leaf].map_values(|l: Seq<u8>| leaf_hash_spec(l));
    assert(mapped.len() == 1);
    assert(merkle_root_spec(seq![leaf]) == mapped[0]);
}

/// The little-endian encoding of a `u32` is injective: distinct values give
/// distinct byte strings.
pub proof fn lemma_u32_le_bytes_injective(a: u32, b: u32)
    requires
        u32_le_bytes(a) == u32_le_bytes(b),
    ensures
        a == b,
{
    assert(u32_le_bytes(a)[0] == u32_le_bytes(b)[0]);
    assert(u32_le_bytes(a)[1] == u32_le_bytes(b)[1]);
    assert(u32_le_bytes(a)[2] == u32_le_bytes(b)[2]);
    assert(u32_le_bytes(a)[3] == u32_le_bytes(b)[3]);
    assert(((a & 0xff) as u8 == (b & 0xff) as u8 && ((a >> 8) & 0xff) as u8 == ((b >> 8)
        & 0xff) as u8 && ((a >> 16) & 0xff) as u8 == ((b >> 16) & 0xff) as u8 && ((a >> 24)
        & 0xff) as u8 == ((b >> 24) & 0xff) as u8) ==> a == b) by (bit_vector);
}

/// The little-endian encoding of a `u64` is injective: distinct values give
/// distinct byte strings.
pub proof fn lemma_u64_le_bytes_injective(a: u64, b: u64)
    requires
        u64_le_bytes(a) == u64_le_bytes(b),
    ensures
        a == b,
{
    assert(u64_le_bytes(a)[0] == u64_le_bytes(b)[0]);
    assert(u64_le_bytes(a)[1] == u64_le_bytes(b)[1]);
    assert(u64_le_bytes(a)[2] == u64_le_bytes(b)[2]);
    assert(u64_le_bytes(a)[3] == u64_le_bytes(b)[3]);
    assert(u64_le_bytes(a)[4] == u64_le_bytes(b)[4]);
    assert(u64_le_bytes(a)[5] == u64_le_bytes(b)[5]);
    assert(u64_le_bytes(a)[6] == u64_le_bytes(b)[6]);
    assert(u64_le_bytes(a)[7] == u64_le_bytes(b)[7]);
    assert(((a & 0xff) as u8 == (b & 0xff) as u8 && ((a >> 8) & 0xff) as u8 == ((b >> 8)
        & 0xff) as u8 && ((a >> 16) & 0xff) as u8 == ((b >> 16) & 0xff) as u8 && ((a >> 24)
        & 0xff) as u8 == ((b >> 24) & 0xff) as u8 && ((a >> 32) & 0xff) as u8 == ((b >> 32)
        & 0xff) as u8 && ((a >> 40) & 0xff) as u8 == ((b >> 40) & 0xff) as u8 && ((a >> 48)
        & 0xff) as u8 == ((b >> 48) & 0xff) as u8 && ((a >> 56) & 0xff) as u8 == ((b >> 56)
        & 0xff) as u8) ==> a == b) by (bit_vector);
}

/// Two distinct data bytes are hashed from two distinct messages: the
/// commitment to a data byte leaves the byte visible in the preimage.
/// (That the *digests* differ is the collision resistance of SHA-256, which
/// is assumed of the outside implementation, not proved.)
pub proof fn lemma_data_hash_preimages_distinct(b1: u8, b2: u8)
    requires
        b1 != b2,
    ensures
        data_hash_domain() + seq![b1] != data_hash_domain() + seq![b2],
{
    let p1 = data_hash_domain() + seq![b1];
    let p2 = data_hash_domain() + seq![b2];
    assert(p1[12] == b1);
    assert(p2[12] == b2);
}

/// Two emissions differing in key or weight are hashed from two distinct
/// messages: the fixed-width layout (16 domain bytes, 48 key bytes, 8 weight
/// bytes) leaves both fields recoverable from the preimage.
pub proof fn lemma_emission_preimages_distinct(pk1: Seq<u8>, w1: u64, pk2: Seq<u8>, w2: u64)
    requires
        pk1.len() == 48,
        pk2.len() == 48,
        pk1 != pk2 || w1 != w2,
    ensures
        emission_hash_domain() + pk1 + u64_le_bytes(w1) != emission_hash_domain() + pk2
            + u64_le_bytes(w2),
{
    let p1 = emission_hash_domain() + pk1 + u64_le_bytes(w1);
    let p2 = emission_hash_domain() + pk2 + u64_le_bytes(w2);
    if p1 == p2 {
        assert(pk1 =~= pk2) by {
            assert(forall|i: int| 0 <= i < 48 ==> pk1[i] == p1[16 + i] && pk2[i] == p2[16 + i]);
        }
        assert(u64_le_bytes(w1) =~= u64_le_bytes(w2)) by {
            assert(forall|i: int|
                0 <= i < 8 ==> u64_le_bytes(w1)[i] == p1[64 + i] && u64_le_bytes(w2)[i] == p2[64
                    + i]);
        }
        lemma_u64_le_bytes_injective(w1, w2);
    }
}

/// Changing a count value changes the bytes hashed for its header-field
/// leaf: the fixed-width little-endian encoding keeps the value recoverable
/// from the preimage.
pub proof fn lemma_header_count_preimages_distinct(name: Seq<u8>, v1: u32, v2: u32)
    requires
        v1 != v2,
    ensures
        header_field_domain() + name + u32_le_bytes(v1) != header_field_domain() + name
            + u32_le_bytes(v2),
{
    let p1 = header_field_domain() + name + u32_le_bytes(v1);
    let p2 = header_field_domain() + name + u32_le_bytes(v2);
    let off = 20 + name.len() as int;
    if p1 == p2 {
        assert(u32_le_bytes(v1) =~= u32_le_bytes(v2)) by {
            assert(forall|i: int|
                0 <= i < 4 ==> u32_le_bytes(v1)[i] == p1[off + i] && u32_le_bytes(v2)[i] == p2[off
                    + i]);
        }
        lemma_u32_le_bytes_injective(v1, v2);
    }
}

/// Field-name domain separation at the preimage level: the message hashed
/// for the `data_count` leaf can never equal the message hashed for the
/// `emissions_count` leaf, whatever the two count values are, because the
/// name literals diverge right after the shared domain tag.
pub proof fn lemma_count_field_preimages_distinct(dc: u32, ec: u32)
    ensures
        header_field_domain() + field_name_data_count() + u32_le_bytes(dc) != header_field_domain()
            + field_name_emissions_count() + u32_le_bytes(ec),
{
    let p1 = header_field_domain() + field_name_data_count() + u32_le_bytes(dc);
    let p2 = header_field_domain() + field_name_emissions_count() + u32_le_bytes(ec);
    // ASCII 'd' vs 'e' at the first byte after the 20-byte domain tag.
    assert(p1[20] == 100);
    assert(p2[20] == 101);
}

fn leaf_hash(leaf: &Hash32) -> (r: Hash32)
    ensures
        r@ == leaf_hash_spec(leaf@),
{
    let mut msg = merkle_leaf_domain_bytes();
    append_bytes(&mut msg, leaf.as_slice());
    assert(msg@ =~= merkle_leaf_domain() + leaf@);
    sha256(msg.as_slice())
}

fn node_hash(left: &Hash32, right: &Hash32) -> (r: Hash32)
    ensures
        r@ == node_hash_spec(left@, right@),
{
    let mut msg = merkle_node_domain_bytes();
    append_bytes(&mut msg, left.as_slice());
    append_bytes(&mut msg, right.as_slice());
    assert(msg@ =~= merkle_node_domain() + left@ + right@);
    sha256(msg.as_slice())
}

/// Compute a Merkle root from a list of 32-byte leaves.
///
/// - Leaves are first converted to domain-separated leaf nodes.
/// - Internal nodes combine two children under the node domain.
/// - An odd number of nodes duplicates the last one to make a pair.
/// - An empty list gives the empty-domain hash.
pub fn MERKLE_ROOT(leaves: &[Hash32]) -> (r: Hash32)
    ensures
        r@ == merkle_root_spec(views_of(leaves@)),
{
    if leaves.len() == 0 {
        let msg = merkle_empty_domain_bytes();
        return sha256(msg.as_slice());
    }
    let mut level: Vec<Hash32> = Vec::new();
    let mut i: usize = 0;
    while i < leaves.len()
        invariant
            i <= leaves@.len(),
            level@.len() == i,
            forall|k: int|
                0 <= k < i ==> (#[trigger] level@[k])@ == leaf_hash_spec(leaves@[k]@),
        decreases leaves@.len() - i,
    {
        level.push(leaf_hash(&leaves[i]));
        i = i + 1;
    }
    proof {
        assert(views_of(level@) =~= views_of(leaves@).map_values(
            |leaf: Seq<u8>| leaf_hash_spec(leaf),
        ));
    }
    let ghost target = merkle_reduce(views_of(level@));
    while level.len() > 1
        invariant
            level@.len() >= 1,
            merkle_reduce(views_of(level@)) == target,
        decreases level@.len(),
    {
        let ghost entry_views = views_of(level@);
        if level.len() % 2 == 1 {
            let last = level[level.len() - 1];
            level.push(last);
        }
        proof {
            assert(views_of(level@) =~= pad_even(entry_views));
        }
        let half: usize = level.len() / 2;
        let mut next: Vec<Hash32> = Vec::new();
        let mut j: usize = 0;
        while j < half
            invariant
                j <= half,
                half <= usize::MAX / 2,
                half == level@.len() / 2,
                level@.len() % 2 == 0,
                next@.len() == j,
                forall|k: int|
                    0 <= k < j ==> (#[trigger] next@[k])@ == node_hash_spec(
                        level@[2 * k]@,
                        level@[2 * k + 1]@,
                    ),
            decreases half - j,
        {
            let a = level[2 * j];
            let b = level[2 * j + 1];
            next.push(node_hash(&a, &b));
            j = j + 1;
        }
        proof {
            lemma_combine_level_len(views_of(level@));
            assert forall|k: int| 0 <= k < half implies combine_level(views_of(level@))[k]
                == (#[trigger] next@[k])@ by {
                lemma_combine_level_index(views_of(level@), k);
            }
            assert(views_of(next@) =~= combine_level(views_of(level@)));
            assert(merkle_reduce(combine_level(pad_even(entry_views))) == merkle_reduce(
                entry_views,
            ));
        }
        level = next;
    }
    proof {
        assert(merkle_reduce(views_of(level@)) == views_of(level@)[0]);
    }
    level[0]
}

// ---------------------------------------------------------------------------
// Canonical ordering of hashes
//
// The body subroots commit to the *set* of items rather than their sequence:
// leaf hashes are sorted byte-wise ascending before the Merkle reduction.
// ---------------------------------------------------------------------------

/// `k` witnesses that `a` is strictly below `b`: the two sequences agree
/// before `k` and `a` has the smaller byte at `k`.
pub open spec fn lt_witness(a: Seq<u8>, b: Seq<u8>, k: int) -> bool {
    &&& 0 <= k < a.len()
    &&& k < b.len()
    &&& (forall|j: int| 0 <= j < k ==> a[j] == b[j])
    &&& a[k] < b[k]
}

/// Strict lexicographic order on byte sequences of equal length.
pub open spec fn bytes_lt(a: Seq<u8>, b: Seq<u8>) -> bool {
    exists|k: int| lt_witness(a, b, k)
}

/// Total byte-wise order on hash values: shorter sequences first, equal
/// lengths ordered lexicographically.
pub open spec fn bytes_le(a: Seq<u8>, b: Seq<u8>) -> bool {
    ||| a.len() < b.len()
    ||| (a.len() == b.len() && (a =~= b || bytes_lt(a, b)))
}

/// The order `bytes_le` as a first-class relation.
pub open spec fn bytes_le_f() -> spec_fn(Seq<u8>, Seq<u8>) -> bool {
    |a: Seq<u8>, b: Seq<u8>| bytes_le(a, b)
}

proof fn lemma_bytes_connected(a: Seq<u8>, b: Seq<u8>)
    ensures
        bytes_le(a, b) || bytes_le(b, a),
    decreases a.len(),
{
    if a.len() == b.len() {
        if a.len() == 0 {
            assert(a =~= b);
        } else if a[0] < b[0] {
            assert(lt_witness(a, b, 0));
        } else if b[0] < a[0] {
            assert(lt_witness(b, a, 0));
        } else {
            lemma_bytes_connected(a.skip(1), b.skip(1));
            if a.skip(1) =~= b.skip(1) {
                assert(a =~= b) by {
                    assert(forall|j: int|
                        1 <= j < a.len() ==> a[j] == a.skip(1)[j - 1] && b[j] == b.skip(1)[j
                            - 1]);
                }
            } else if bytes_lt(a.skip(1), b.skip(1)) {
                let k = choose|k: int| lt_witness(a.skip(1), b.skip(1), k);
                assert(lt_witness(a, b, k + 1)) by {
                    assert(forall|j: int|
                        1 <= j < k + 1 ==> a[j] == a.skip(1)[j - 1] && b[j] == b.skip(1)[j
                            - 1]);
                }
            } else {
                let k = choose|k: int| lt_witness(b.skip(1), a.skip(1), k);
                assert(lt_witness(b, a, k + 1)) by {
                    assert(forall|j: int|
                        1 <= j < k + 1 ==> a[j] == a.skip(1)[j - 1] && b[j] == b.skip(1)[j
                            - 1]);
                }
            }
        }
    }
}

proof fn lemma_bytes_le_antisymmetric(a: Seq<u8>, b: Seq<u8>)
    requires
        bytes_le(a, b),
        bytes_le(b, a),
    ensures
        a == b,
{
    if a.len() == b.len() && !(a =~= b) {
        let k1 = choose|k: int| lt_witness(a, b, k);
        let k2 = choose|k: int| lt_witness(b, a, k);
        if k1 < k2 {
            assert(b[k1] == a[k1]);
        } else if k2 < k1 {
            assert(a[k2] == b[k2]);
        }
        assert(false);
    }
}

proof fn lemma_bytes_le_transitive(a: Seq<u8>, b: Seq<u8>, c: Seq<u8>)
    requires
        bytes_le(a, b),
        bytes_le(b, c),
    ensures
        bytes_le(a, c),
{
    if a.len() == b.len() && b.len() == c.len() {
        if a =~= b || b =~= c {
        } else {
            let k1 = choose|k: int| lt_witness(a, b, k);
            let k2 = choose|k: int| lt_witness(b, c, k);
            if k1 <= k2 {
                assert(lt_witness(a, c, k1));
            } else {
                assert(lt_witness(a, c, k2));
            }
        }
    }
}

/// The canonical hash order is a total order, so sorting by it yields one
/// canonical arrangement of any multiset of hashes.
pub proof fn lemma_bytes_le_total_ordering()
    ensures
        total_ordering(bytes_le_f()),
{
    let leq = bytes_le_f();
    assert forall|x: Seq<u8>| #[trigger] leq(x, x) by {
        assert(x =~= x);
    }
    assert forall|x: Seq<u8>, y: Seq<u8>| #[trigger] leq(x, y) && #[trigger] leq(y, x) implies x
        == y by {
        lemma_bytes_le_antisymmetric(x, y);
    }
    assert forall|x: Seq<u8>, y: Seq<u8>, z: Seq<u8>|
        #[trigger] leq(x, y) && #[trigger] leq(y, z) implies leq(x, z) by {
        lemma_bytes_le_transitive(x, y, z);
    }
    assert forall|x: Seq<u8>, y: Seq<u8>| #[trigger] leq(x, y) || #[trigger] leq(y, x) by {
        lemma_bytes_connected(x, y);
    }
}

/// Byte-wise comparison realizing the canonical hash order on 32-byte
/// values.
fn hash_le(a: Hash32, b: Hash32) -> (r: bool)
    ensures
        r == bytes_le(a@, b@),
{
    let mut i: usize = 0;
    while i < 32
        invariant
            i <= 32,
            forall|j: int| 0 <= j < i ==> a@[j] == b@[j],
        decreases 32 - i,
    {
        let x = a[i];
        let y = b[i];
        if x < y {
            proof {
                assert(lt_witness(a@, b@, i as int));
            }
            return true;
        }
        if y < x {
            proof {
                assert(lt_witness(b@, a@, i as int));
                assert(!bytes_lt(a@, b@)) by {
                    if bytes_lt(a@, b@) {
                        let k = choose|k: int| lt_witness(a@, b@, k);
                        if k < i {
                            assert(a@[k] == b@[k]);
                        } else {
                            assert(a@[i as int] == b@[i as int]);
                        }
                    }
                }
                assert(a@[i as int] != b@[i as int]);
            }
            return false;
        }
        i = i + 1;
    }
    proof {
        assert(a@ =~= b@);
    }
    true
}

/// Sorts 32-byte hashes into the canonical byte-wise ascending order.
pub(crate) fn sort_hashes(v: &Vec<Hash32>) -> (r: Vec<Hash32>)
    ensures
        views_of(r@) == views_of(v@).sort_by(bytes_le_f()),
{
    proof {
        lemma_bytes_le_total_ordering();
    }
    let mut out: Vec<Hash32> = Vec::new();
    let mut i: usize = 0;
    proof {
        assert(views_of(out@) =~= views_of(v@.subrange(0, 0)));
    }
    while i < v.len()
        invariant
            i <= v@.len(),
            sorted_by(views_of(out@), bytes_le_f()),
            views_of(out@).to_multiset() == views_of(v@.subrange(0, i as int)).to_multiset(),
        decreases v@.len() - i,
    {
        let x = v[i];
        let mut p: usize = 0;
        while p < out.len() && !hash_le(x, out[p])
            invariant
                p <= out@.len(),
                forall|k: int| 0 <= k < p ==> !bytes_le(x@, (#[trigger] out@[k])@),
            decreases out@.len() - p,
        {
            p = p + 1;
        }
        let ghost pre = out@;
        out.insert(p, x);
        proof {
            lemma_bytes_le_total_ordering();
            let leq = bytes_le_f();
            let prev = views_of(pre);
            let newv = views_of(out@);
            assert(newv =~= prev.insert(p as int, x@));
            assert forall|k: int| 0 <= k < p implies #[trigger] leq(prev[k], x@) by {
                lemma_bytes_connected(x@, prev[k]);
            }
            assert forall|m: int, n: int| 0 <= m < n < newv.len() implies #[trigger] leq(
                newv[m],
                newv[n],
            ) by {
                if n < p {
                    assert(leq(prev[m], prev[n]));
                } else if m < p && n == p {
                    assert(leq(prev[m], x@));
                } else if m < p && n > p {
                    assert(leq(prev[m], prev[n - 1]));
                } else if m == p && n > p {
                    assert(p < prev.len());
                    assert(leq(x@, prev[p as int]));
                    if n - 1 > p {
                        assert(leq(prev[p as int], prev[n - 1]));
                    }
                    lemma_bytes_le_transitive(x@, prev[p as int], prev[n - 1]);
                } else {
                    assert(leq(prev[m - 1], prev[n - 1]));
                }
            }
            assert(sorted_by(newv, leq));
            to_multiset_insert(prev, p as int, x@);
            assert(views_of(v@.subrange(0, i + 1)) =~= views_of(v@.subrange(0, i as int)).push(
                v@[i as int]@,
            ));
            to_multiset_build(views_of(v@.subrange(0, i as int)), v@[i as int]@);
        }
        i = i + 1;
    }
    proof {
        assert(v@.subrange(0, v@.len() as int) =~= v@);
        views_of(v@).lemma_sort_by_ensures(bytes_le_f());
        lemma_sorted_unique(views_of(out@), views_of(v@).sort_by(bytes_le_f()), bytes_le_f());
        assert(views_of(out@) =~= views_of(v@).sort_by(bytes_le_f()));
    }
    out
}

// ---------------------------------------------------------------------------
// Order-independent (sorted) Merkle roots
// ---------------------------------------------------------------------------

/// The Merkle root of a multiset of leaves: the leaves are first arranged
/// into the canonical ascending order, so the result does not depend on the
/// order in which they were listed.
pub open spec fn sorted_merkle_root(leaves: Seq<Seq<u8>>) -> Seq<u8> {
    merkle_root_spec(leaves.sort_by(bytes_le_f()))
}

/// Mapping a function over two sequences with the same multiset of elements
/// yields two sequences with the same multiset of images.
pub proof fn lemma_map_values_multiset<A, B>(s1: Seq<A>, s2: Seq<A>, f: spec_fn(A) -> B)
    requires
        s1.to_multiset() == s2.to_multiset(),
    ensures
        s1.map_values(f).to_multiset() == s2.map_values(f).to_multiset(),
    decreases s1.len(),
{
    broadcast use vstd::seq_lib::group_to_multiset_ensures;
    broadcast use vstd::multiset::group_multiset_axioms;

    if s1.len() == 0 {
        assert(s1.len() == s1.to_multiset().len());
        assert(s2.len() == s2.to_multiset().len());
        assert(s2.len() == 0);
        assert(s1.map_values(f).to_multiset() =~= s2.map_values(f).to_multiset());
    } else {
        let x = s1[0];
        assert(s1.contains(x));
        assert(s1.to_multiset().count(x) > 0);
        assert(s2.contains(x));
        let j = choose|j: int| 0 <= j < s2.len() && s2[j] == x;
        let s1r = s1.remove(0);
        let s2r = s2.remove(j);
        assert(s1r.to_multiset() == s1.to_multiset().remove(x));
        assert(s2r.to_multiset() == s2.to_multiset().remove(x));
        lemma_map_values_multiset(s1r, s2r, f);
        assert(s1r.map_values(f) =~= s1.map_values(f).remove(0));
        assert(s2r.map_values(f) =~= s2.map_values(f).remove(j));
        let m1 = s1.map_values(f).to_multiset();
        let m2 = s2.map_values(f).to_multiset();
        assert(s1.map_values(f).remove(0).to_multiset() == m1.remove(f(x)));
        assert(s2.map_values(f).remove(j).to_multiset() == m2.remove(f(x)));
        assert(s1.map_values(f).contains(f(x)));
        assert(m1.count(f(x)) > 0);
        assert(s2.map_values(f)[j] == f(x));
        assert(s2.map_values(f).contains(f(x)));
        assert(m2.count(f(x)) > 0);
        assert(m1 =~= m2) by {
            assert(forall|b: B|
                #![trigger m1.count(b)]
                m1.count(b) == m1.remove(f(x)).count(b) + (if b == f(x) {
                    1int
                } else {
                    0int
                }));
            assert(forall|b: B|
                #![trigger m2.count(b)]
                m2.count(b) == m2.remove(f(x)).count(b) + (if b == f(x) {
                    1int
                } else {
                    0int
                }));
        }
    }
}

/// Two leaf sequences holding the same multiset of leaves have the same
/// canonical Merkle root: sorting erases the order in which they were listed.
pub proof fn lemma_sorted_merkle_root_permutation(l1: Seq<Seq<u8>>, l2: Seq<Seq<u8>>)
    requires
        l1.to_multiset() == l2.to_multiset(),
    ensures
        sorted_merkle_root(l1) == sorted_merkle_root(l2),
{
    broadcast use vstd::seq_lib::group_to_multiset_ensures;

    lemma_bytes_le_total_ordering();
    l1.lemma_sort_by_ensures(bytes_le_f());
    l2.lemma_sort_by_ensures(bytes_le_f());
    assert(l1.len() == l1.to_multiset().len());
    assert(l1.sort_by(bytes_le_f()).to_multiset() == l2.sort_by(bytes_le_f()).to_multiset());
    lemma_sorted_unique(l1.sort_by(bytes_le_f()), l2.sort_by(bytes_le_f()), bytes_le_f());
}

// ---------------------------------------------------------------------------
// Root composition
// ---------------------------------------------------------------------------

/// The body root: the 2-leaf Merkle root of the data root and the emissions
/// root, in that order.
pub open spec fn body_root_composition(data_root: Seq<u8>, emissions_root: Seq<u8>) -> Seq<u8> {
    merkle_root_spec(seq![data_root, emissions_root])
}

/// The block root: `SHA256(BLOCK_ROOT_DOMAIN || header_root || body_root)`,
/// a direct domain-tagged hash rather than a Merkle composition.
pub open spec fn block_root_composition(header_root: Seq<u8>, body_root: Seq<u8>) -> Seq<u8> {
    sha256_of(block_root_domain() + header_root + body_root)
}

/// Compute the body root from the two subroots, as a 2-leaf Merkle root of
/// `[data_root, emissions_root]`.
pub fn COMPUTE_BODY_ROOT(data_root: &Hash32, emissions_root: &Hash32) -> (r: Hash32)
    ensures
        r@ == body_root_composition(data_root@, emissions_root@),
{
    let mut leaves: Vec<Hash32> = Vec::new();
    leaves.push(*data_root);
    leaves.push(*emissions_root);
    proof {
        assert(views_of(leaves@) =~= seq![data_root@, emissions_root@]);
    }
    MERKLE_ROOT(leaves.as_slice())
}

/// Compute the block root from the header root and the body root.
pub fn COMPUTE_BLOCK_ROOT(header_root: &Hash32, body_root: &Hash32) -> (r: Hash32)
    ensures
        r@ == block_root_composition(header_root@, body_root@),
{
    let mut msg = block_root_domain_bytes();
    append_bytes(&mut msg, header_root.as_slice());
    append_bytes(&mut msg, body_root.as_slice());
    assert(msg@ =~= block_root_domain() + header_root@ + body_root@);
    sha256(msg.as_slice())
}

// ---------------------------------------------------------------------------
// Consensus emissions
// ---------------------------------------------------------------------------

/// Errors for definition-level functions.
#[derive(Clone, Copy, Debug, PartialEq, Eq, Structural)]
pub enum DefinitionError {
    /// Attempted to assign a non-zero attester share with zero attesters;
    /// the split is undefined.
    NoAttestersForNonZeroShare,
}

/// Simple emission tuple returned by `BUILD_CONSENSUS_EMISSIONS`.
/// Concrete `Emission` values are converted from this tuple.
pub type EmissionTuple = ([u8; 48], u64);

/// The weight each attester receives: the attester share divided equally,
/// truncating; any remainder is left undistributed.
pub open spec fn per_attester_weight(attester_share: u64, attester_count: nat) -> u64 {
    if attester_count == 0 {
        0u64
    } else {
        (attester_share as nat / attester_count) as u64
    }
}

/// The mandatory consensus emissions: the proposer entry first, then one
/// entry per attester in the order given, each carrying the equally split
/// attester share.
pub open spec fn consensus_emission_tuples(
    proposer_pubkey: [u8; 48],
    attester_pubkeys: Seq<[u8; 48]>,
    proposer_reward_share: u64,
    attester_reward_share: u64,
) -> Seq<EmissionTuple> {
    seq![(proposer_pubkey, proposer_reward_share)] + attester_pubkeys.map_values(
        |pk: [u8; 48]| (pk, per_attester_weight(attester_reward_share, attester_pubkeys.len())),
    )
}

/// Build the required consensus emissions: one proposer record plus attester
/// records.
///
/// - `proposer_reward_share` is a fixed weight given to the proposer entry.
/// - `attester_reward_share` is split equally among attesters using integer
///   division; the remainder is undistributed.
/// - If `attester_reward_share > 0` while `attester_pubkeys` is empty, the
///   split is undefined and an error is returned.
pub fn BUILD_CONSENSUS_EMISSIONS(
    proposer_pubkey: [u8; 48],
    attester_pubkeys: &[[u8; 48]],
    proposer_reward_share: u64,
    attester_reward_share: u64,
) -> (r: Result<Vec<EmissionTuple>, DefinitionError>)
    ensures
        match r {
            Ok(out) => (attester_pubkeys@.len() > 0 || attester_reward_share == 0) && out@
                == consensus_emission_tuples(
                proposer_pubkey,
                attester_pubkeys@,
                proposer_reward_share,
                attester_reward_share,
            ),
            Err(e) => attester_pubkeys@.len() == 0 && attester_reward_share > 0 && e
                == DefinitionError::NoAttestersForNonZeroShare,
        },
{
    let ghost expected = consensus_emission_tuples(
        proposer_pubkey,
        attester_pubkeys@,
        proposer_reward_share,
        attester_reward_share,
    );
    let mut out: Vec<EmissionTuple> = Vec::new();
    out.push((proposer_pubkey, proposer_reward_share));

    if attester_pubkeys.len() == 0 {
        if attester_reward_share > 0 {
            return Err(DefinitionError::NoAttestersForNonZeroShare);
        }
        proof {
            assert(out@ =~= expected);
        }
        return Ok(out);
    }

    let n: u64 = attester_pubkeys.len() as u64;
    let per_attester: u64 = attester_reward_share / n;
    proof {
        assert(per_attester == per_attester_weight(attester_reward_share, attester_pubkeys@.len()));
    }
    let mut i: usize = 0;
    while i < attester_pubkeys.len()
        invariant
            i <= attester_pubkeys@.len(),
            out@.len() == 1 + i,
            out@[0] == (proposer_pubkey, proposer_reward_share),
            per_attester == per_attester_weight(attester_reward_share, attester_pubkeys@.len()),
            forall|k: int|
                0 <= k < i ==> out@[k + 1] == (attester_pubkeys@[k], per_attester),
        decreases attester_pubkeys@.len() - i,
    {
        out.push((attester_pubkeys[i], per_attester));
        i = i + 1;
    }
    proof {
        assert(out@ =~= expected);
    }
    Ok(out)
}

// ---------------------------------------------------------------------------
// Header root
//
// The header root is the Merkle root of eight field leaves, one per header
// field in declaration order. Each leaf hashes the field's fixed ASCII name
// together with its raw fixed-width encoding, so two headers that differ
// only in which field holds which value still hash differently.
// ---------------------------------------------------------------------------

/// The fixed ASCII field-name literal `version`.
pub open spec fn field_name_version() -> Seq<u8> {
    seq![118u8, 101u8, 114u8, 115u8, 105u8, 111u8, 110u8]
}

/// The fixed ASCII field-name literal `network_id`.
pub open spec fn field_name_network_id() -> Seq<u8> {
    seq![110u8, 101u8, 116u8, 119u8, 111u8, 114u8, 107u8, 95u8, 105u8, 100u8]
}

/// The fixed ASCII field-name literal `epoch`.
pub open spec fn field_name_epoch() -> Seq<u8> {
    seq![101u8, 112u8, 111u8, 99u8, 104u8]
}

/// The fixed ASCII field-name literal `prev_block_root`.
pub open spec fn field_name_prev_block_root() -> Seq<u8> {
    seq![112u8, 114u8, 101u8, 118u8, 95u8, 98u8, 108u8, 111u8, 99u8, 107u8, 95u8, 114u8, 111u8, 111u8, 116u8]
}

/// The fixed ASCII field-name literal `body_root`.
pub open spec fn field_name_body_root() -> Seq<u8> {
    seq![98u8, 111u8, 100u8, 121u8, 95u8, 114u8, 111u8, 111u8, 116u8]
}

/// The fixed ASCII field-name literal `data_count`.
pub open spec fn field_name_data_count() -> Seq<u8> {
    seq![100u8, 97u8, 116u8, 97u8, 95u8, 99u8, 111u8, 117u8, 110u8, 116u8]
}

/// The fixed ASCII field-name literal `emissions_count`.
pub open spec fn field_name_emissions_count() -> Seq<u8> {
    seq![101u8, 109u8, 105u8, 115u8, 115u8, 105u8, 111u8, 110u8, 115u8, 95u8, 99u8, 111u8, 117u8, 110u8, 116u8]
}

/// The fixed ASCII field-name literal `proposer_pubkey`.
pub open spec fn field_name_proposer_pubkey() -> Seq<u8> {
    seq![112u8, 114u8, 111u8, 112u8, 111u8, 115u8, 101u8, 114u8, 95u8, 112u8, 117u8, 98u8, 107u8, 101u8, 121u8]
}

fn field_name_version_bytes() -> (r: Vec<u8>)
    ensures
        r@ == field_name_version(),
{
    let a: [u8; 7] = [118u8, 101u8, 114u8, 115u8, 105u8, 111u8, 110u8];
    let v = bytes_of(a.as_slice());
    assert(v@ =~= field_name_version());
    v
}

fn field_name_network_id_bytes() -> (r: Vec<u8>)
    ensures
        r@ == field_name_network_id(),
{
    let a: [u8; 10] = [110u8, 101u8, 116u8, 119u8, 111u8, 114u8, 107u8, 95u8, 105u8, 100u8];
    let v = bytes_of(a.as_slice());
    assert(v@ =~= field_name_network_id());
    v
}

fn field_name_epoch_bytes() -> (r: Vec<u8>)
    ensures
        r@ == field_name_epoch(),
{
    let a: [u8; 5] = [101u8, 112u8, 111u8, 99u8, 104u8];
    let v = bytes_of(a.as_slice());
    assert(v@ =~= field_name_epoch());
    v
}

fn field_name_prev_block_root_bytes() -> (r: Vec<u8>)
    ensures
        r@ == field_name_prev_block_root(),
{
    let a: [u8; 15] = [112u8, 114u8, 101u8, 118u8, 95u8, 98u8, 108u8, 111u8, 99u8, 107u8, 95u8, 114u8, 111u8, 111u8, 116u8];
    let v = bytes_of(a.as_slice());
    assert(v@ =~= field_name_prev_block_root());
    v
}

fn field_name_body_root_bytes() -> (r: Vec<u8>)
    ensures
        r@ == field_name_body_root(),
{
    let a: [u8; 9] = [98u8, 111u8, 100u8, 121u8, 95u8, 114u8, 111u8, 111u8, 116u8];
    let v = bytes_of(a.as_slice());
    assert(v@ =~= field_name_body_root());
    v
}

fn field_name_data_count_bytes() -> (r: Vec<u8>)
    ensures
        r@ == field_name_data_count(),
{
    let a: [u8; 10] = [100u8, 97u8, 116u8, 97u8, 95u8, 99u8, 111u8, 117u8, 110u8, 116u8];
    let v = bytes_of(a.as_slice());
    assert(v@ =~= field_name_data_count());
    v
}

fn field_name_emissions_count_bytes() -> (r: Vec<u8>)
    ensures
        r@ == field_name_emissions_count(),
{
    let a: [u8; 15] = [101u8, 109u8, 105u8, 115u8, 115u8, 105u8, 111u8, 110u8, 115u8, 95u8, 99u8, 111u8, 117u8, 110u8, 116u8];
    let v = bytes_of(a.as_slice());
    assert(v@ =~= field_name_emissions_count());
    v
}

fn field_name_proposer_pubkey_bytes() -> (r: Vec<u8>)
    ensures
        r@ == field_name_proposer_pubkey(),
{
    let a: [u8; 15] = [112u8, 114u8, 111u8, 112u8, 111u8, 115u8, 101u8, 114u8, 95u8, 112u8, 117u8, 98u8, 107u8, 101u8, 121u8];
    let v = bytes_of(a.as_slice());
    assert(v@ =~= field_name_proposer_pubkey());
    v
}

/// The leaf committing to a single header field:
/// `SHA256(HEADER_FIELD_DOMAIN || field_name || field_bytes)`.
pub open spec fn header_field_hash(name: Seq<u8>, bytes: Seq<u8>) -> Seq<u8> {
    sha256_of(header_field_domain() + name + bytes)
}

fn header_field_leaf(name: &[u8], bytes: &[u8]) -> (r: Hash32)
    ensures
        r@ == header_field_hash(name@, bytes@),
{
    let mut msg = header_field_domain_bytes();
    append_bytes(&mut msg, name);
    append_bytes(&mut msg, bytes);
    assert(msg@ =~= header_field_domain() + name@ + bytes@);
    sha256(msg.as_slice())
}

/// The eight field leaves of a header, in field declaration order.
pub open spec fn header_leaves(h: crate::header::L2BlockHeader) -> Seq<Seq<u8>> {
    seq![
        header_field_hash(field_name_version(), u32_le_bytes(h.version)),
        header_field_hash(field_name_network_id(), h.network_id@),
        header_field_hash(field_name_epoch(), u64_le_bytes(h.epoch)),
        header_field_hash(field_name_prev_block_root(), h.prev_block_root@),
        header_field_hash(field_name_body_root(), h.body_root@),
        header_field_hash(field_name_data_count(), u32_le_bytes(h.data_count)),
        header_field_hash(field_name_emissions_count(), u32_le_bytes(h.emissions_count)),
        header_field_hash(field_name_proposer_pubkey(), h.proposer_pubkey@),
    ]
}

/// The header root: the Merkle root of the eight field leaves. The leaf
/// order is fixed by field position; it is not sorted.
pub open spec fn header_root_spec(h: crate::header::L2BlockHeader) -> Seq<u8> {
    merkle_root_spec(header_leaves(h))
}

/// Compute the header root from the individual header fields, each leaf
/// labelled with the field's name literal to avoid positional ambiguity.
pub fn COMPUTE_HEADER_ROOT(args: &crate::header::L2BlockHeader) -> (r: Hash32)
    ensures
        r@ == header_root_spec(*args),
{
    let v_bytes = u32_to_le_bytes(args.version);
    let e_bytes = u64_to_le_bytes(args.epoch);
    let dc_bytes = u32_to_le_bytes(args.data_count);
    let ec_bytes = u32_to_le_bytes(args.emissions_count);

    let mut leaves: Vec<Hash32> = Vec::new();
    let name = field_name_version_bytes();
    leaves.push(header_field_leaf(name.as_slice(), v_bytes.as_slice()));
    let name = field_name_network_id_bytes();
    leaves.push(header_field_leaf(name.as_slice(), args.network_id.as_slice()));
    let name = field_name_epoch_bytes();
    leaves.push(header_field_leaf(name.as_slice(), e_bytes.as_slice()));
    let name = field_name_prev_block_root_bytes();
    leaves.push(header_field_leaf(name.as_slice(), args.prev_block_root.as_slice()));
    let name = field_name_body_root_bytes();
    leaves.push(header_field_leaf(name.as_slice(), args.body_root.as_slice()));
    let name = field_name_data_count_bytes();
    leaves.push(header_field_leaf(name.as_slice(), dc_bytes.as_slice()));
    let name = field_name_emissions_count_bytes();
    leaves.push(header_field_leaf(name.as_slice(), ec_bytes.as_slice()));
    let name = field_name_proposer_pubkey_bytes();
    leaves.push(header_field_leaf(name.as_slice(), args.proposer_pubkey.as_slice()));
    proof {
        assert(views_of(leaves@) =~= header_leaves(*args));
    }
    MERKLE_ROOT(leaves.as_slice())
}

/// Byte-wise equality of two 32-byte hashes.
pub(crate) fn hash_eq(a: &Hash32, b: &Hash32) -> (r: bool)
    ensures
        r <==> a@ == b@,
{
    let mut i: usize = 0;
    while i < 32
        invariant
            i <= 32,
            forall|j: int| 0 <= j < i ==> a@[j] == b@[j],
        decreases 32 - i,
    {
        if a[i] != b[i] {
            return false;
        }
        i = i + 1;
    }
    proof {
        assert(a@ =~= b@);
    }
    true
}

} // verus!
