//! SCALE encoding of account identifiers, storage keys of hashes, and the
//! byte-wise order on encodings, which ranks validators on ties and orders
//! storage.

use vstd::prelude::*;

use parity_scale_codec::Encode;

use crate::primitives::{AccountId, H256};

verus! {

/// The eight little-endian bytes of `a`.
pub open spec fn le_bytes_u64(a: u64) -> Seq<u8> {
    seq![
        (a & 0xff) as u8,
        ((a >> 8u64) & 0xff) as u8,
        ((a >> 16u64) & 0xff) as u8,
        ((a >> 24u64) & 0xff) as u8,
        ((a >> 32u64) & 0xff) as u8,
        ((a >> 40u64) & 0xff) as u8,
        ((a >> 48u64) & 0xff) as u8,
        ((a >> 56u64) & 0xff) as u8,
    ]
}

/// SCALE-encodes an account identifier.
///
/// Calls `parity_scale_codec::Encode::encode` on a `u64`; the crate encodes
/// fixed-width integers as their little-endian bytes (`to_le_bytes`), which
/// is what the contract states.
#[verifier::external_body]
pub(crate) fn encode_account(a: &AccountId) -> (r: Vec<u8>)
    ensures
        r@ == le_bytes_u64(*a),
{
    a.encode()
}

/// Strict lexicographic order on byte strings, as `Ord` for `Vec<u8>`
/// orders them.
pub open spec fn lex_lt(a: Seq<u8>, b: Seq<u8>) -> bool
    decreases a.len(),
{
    if a.len() == 0 {
        b.len() > 0
    } else if b.len() == 0 {
        false
    } else if a[0] < b[0] {
        true
    } else if a[0] > b[0] {
        false
    } else {
        lex_lt(a.drop_first(), b.drop_first())
    }
}

/// Whether `a` comes strictly before `b` in lexicographic order.
pub fn bytes_lt(a: &Vec<u8>, b: &Vec<u8>) -> (r: bool)
    ensures
        r == lex_lt(a@, b@),
{
    let mut i: usize = 0;
    proof {
        assert(a@.skip(0) =~= a@);
        assert(b@.skip(0) =~= b@);
    }
    while i < a.len() && i < b.len()
        invariant
            i <= a@.len(),
            i <= b@.len(),
            lex_lt(a@, b@) == lex_lt(a@.skip(i as int), b@.skip(i as int)),
        decreases a@.len() - i,
    {
        if a[i] < b[i] {
            return true;
        }
        if a[i] > b[i] {
            return false;
        }
        proof {
            assert(a@.skip(i as int).drop_first() =~= a@.skip(i + 1));
            assert(b@.skip(i as int).drop_first() =~= b@.skip(i + 1));
        }
        i += 1;
    }
    i < b.len()
}


/// Law: the byte-wise order is irreflexive.
pub proof fn lemma_lex_irreflexive(a: Seq<u8>)
    ensures
        !lex_lt(a, a),
    decreases a.len(),
{
    if a.len() > 0 {
        lemma_lex_irreflexive(a.drop_first());
    }
}

/// Law: the byte-wise order is transitive.
pub proof fn lemma_lex_transitive(a: Seq<u8>, b: Seq<u8>, c: Seq<u8>)
    requires
        lex_lt(a, b),
        lex_lt(b, c),
    ensures
        lex_lt(a, c),
    decreases a.len(),
{
    if a.len() > 0 && b.len() > 0 && c.len() > 0 && a[0] == b[0] && b[0] == c[0] {
        lemma_lex_transitive(a.drop_first(), b.drop_first(), c.drop_first());
    }
}

/// Law: of two different byte strings, one comes first.
pub proof fn lemma_lex_total(a: Seq<u8>, b: Seq<u8>)
    requires
        a != b,
    ensures
        lex_lt(a, b) || lex_lt(b, a),
    decreases a.len(),
{
    if a.len() > 0 && b.len() > 0 && a[0] == b[0] {
        if a.drop_first() == b.drop_first() {
            assert(a =~= seq![a[0]] + a.drop_first());
            assert(b =~= seq![b[0]] + b.drop_first());
        }
        lemma_lex_total(a.drop_first(), b.drop_first());
    } else if a.len() == 0 && b.len() == 0 {
        assert(a =~= b);
    }
}

/// The eight big-endian bytes of `a`.
pub open spec fn be_bytes_u64(a: u64) -> Seq<u8> {
    seq![
        ((a >> 56u64) & 0xff) as u8,
        ((a >> 48u64) & 0xff) as u8,
        ((a >> 40u64) & 0xff) as u8,
        ((a >> 32u64) & 0xff) as u8,
        ((a >> 24u64) & 0xff) as u8,
        ((a >> 16u64) & 0xff) as u8,
        ((a >> 8u64) & 0xff) as u8,
        (a & 0xff) as u8,
    ]
}

/// The 32 bytes of a hash, its most significant word first.
pub open spec fn h256_bytes(h: H256) -> Seq<u8> {
    be_bytes_u64(h.w0) + be_bytes_u64(h.w1) + be_bytes_u64(h.w2) + be_bytes_u64(h.w3)
}

/// The 128-bit BLAKE2b digest of `data`.
pub uninterp spec fn blake2_128_of(data: Seq<u8>) -> Seq<u8>;

/// Hashes `data` with 128-bit BLAKE2b.
///
/// Calls `sp_crypto_hashing::blake2_128`, which returns the 16-byte BLAKE2b
/// digest of its input; the contract names that digest and states its
/// length.
#[verifier::external_body]
fn blake2_128(data: &Vec<u8>) -> (r: Vec<u8>)
    ensures
        r@ == blake2_128_of(data@),
        r@.len() == 16,
{
    sp_crypto_hashing::blake2_128(data.as_slice()).to_vec()
}

/// The key under which a map hashed with BLAKE2-128-concat stores `h`:
/// the 16-byte digest of its bytes, then the bytes.
pub open spec fn storage_key(h: H256) -> Seq<u8> {
    Seq::new(16, |i: int| blake2_128_of(h256_bytes(h))[i]) + h256_bytes(h)
}

fn push_be_bytes(out: &mut Vec<u8>, w: u64)
    ensures
        final(out)@ == old(out)@ + be_bytes_u64(w),
{
    out.push(((w >> 56u64) & 0xff) as u8);
    out.push(((w >> 48u64) & 0xff) as u8);
    out.push(((w >> 40u64) & 0xff) as u8);
    out.push(((w >> 32u64) & 0xff) as u8);
    out.push(((w >> 24u64) & 0xff) as u8);
    out.push(((w >> 16u64) & 0xff) as u8);
    out.push(((w >> 8u64) & 0xff) as u8);
    out.push((w & 0xff) as u8);
    assert(out@ =~= old(out)@ + be_bytes_u64(w));
}

/// The storage key of `h`.
pub fn storage_key_of(h: &H256) -> (r: Vec<u8>)
    ensures
        r@ == storage_key(*h),
{
    let mut bytes: Vec<u8> = Vec::new();
    push_be_bytes(&mut bytes, h.w0);
    push_be_bytes(&mut bytes, h.w1);
    push_be_bytes(&mut bytes, h.w2);
    push_be_bytes(&mut bytes, h.w3);
    assert(bytes@ =~= h256_bytes(*h));
    let mut r = blake2_128(&bytes);
    let ghost digest = r@;
    let mut i: usize = 0;
    while i < bytes.len()
        invariant
            i <= bytes@.len(),
            digest.len() == 16,
            r@ == digest + bytes@.take(i as int),
        decreases bytes@.len() - i,
    {
        r.push(bytes[i]);
        proof {
            assert(bytes@.take(i + 1) =~= bytes@.take(i as int).push(bytes@[i as int]));
        }
        i += 1;
    }
    proof {
        assert(bytes@.take(bytes@.len() as int) =~= bytes@);
        assert(Seq::new(16, |j: int| blake2_128_of(h256_bytes(*h))[j]) =~= digest);
    }
    r
}

proof fn lemma_be_bytes_injective(x: u64, y: u64)
    requires
        be_bytes_u64(x) == be_bytes_u64(y),
    ensures
        x == y,
{
    let (bx, by) = (be_bytes_u64(x), be_bytes_u64(y));
    assert(bx[0] == by[0] && bx[1] == by[1] && bx[2] == by[2] && bx[3] == by[3]);
    assert(bx[4] == by[4] && bx[5] == by[5] && bx[6] == by[6] && bx[7] == by[7]);
    assert(x == y) by (bit_vector)
        requires
            ((x >> 56u64) & 0xff) as u8 == ((y >> 56u64) & 0xff) as u8,
            ((x >> 48u64) & 0xff) as u8 == ((y >> 48u64) & 0xff) as u8,
            ((x >> 40u64) & 0xff) as u8 == ((y >> 40u64) & 0xff) as u8,
            ((x >> 32u64) & 0xff) as u8 == ((y >> 32u64) & 0xff) as u8,
            ((x >> 24u64) & 0xff) as u8 == ((y >> 24u64) & 0xff) as u8,
            ((x >> 16u64) & 0xff) as u8 == ((y >> 16u64) & 0xff) as u8,
            ((x >> 8u64) & 0xff) as u8 == ((y >> 8u64) & 0xff) as u8,
            (x & 0xff) as u8 == (y & 0xff) as u8,
    ;
}

/// Law: different hashes have different storage keys.
pub proof fn lemma_storage_key_injective(a: H256, b: H256)
    requires
        storage_key(a) == storage_key(b),
    ensures
        a == b,
{
    let (ka, kb) = (storage_key(a), storage_key(b));
    let (ba, bb) = (h256_bytes(a), h256_bytes(b));
    assert(ka.subrange(16, 48) =~= ba);
    assert(kb.subrange(16, 48) =~= bb);
    assert(ba.subrange(0, 8) =~= be_bytes_u64(a.w0) && bb.subrange(0, 8) =~= be_bytes_u64(b.w0));
    assert(ba.subrange(8, 16) =~= be_bytes_u64(a.w1) && bb.subrange(8, 16) =~= be_bytes_u64(b.w1));
    assert(ba.subrange(16, 24) =~= be_bytes_u64(a.w2) && bb.subrange(16, 24) =~= be_bytes_u64(b.w2));
    assert(ba.subrange(24, 32) =~= be_bytes_u64(a.w3) && bb.subrange(24, 32) =~= be_bytes_u64(b.w3));
    lemma_be_bytes_injective(a.w0, b.w0);
    lemma_be_bytes_injective(a.w1, b.w1);
    lemma_be_bytes_injective(a.w2, b.w2);
    lemma_be_bytes_injective(a.w3, b.w3);
}


/// The key under which a map hashed with BLAKE2-128-concat stores account
/// `a`: the 16-byte digest of its SCALE encoding, then the encoding.
pub open spec fn account_storage_key(a: AccountId) -> Seq<u8> {
    Seq::new(16, |i: int| blake2_128_of(le_bytes_u64(a))[i]) + le_bytes_u64(a)
}

/// The storage key of account `a`.
pub fn account_storage_key_of(a: &AccountId) -> (r: Vec<u8>)
    ensures
        r@ == account_storage_key(*a),
{
    let bytes = encode_account(a);
    let mut r = blake2_128(&bytes);
    let ghost digest = r@;
    let mut i: usize = 0;
    while i < bytes.len()
        invariant
            i <= bytes@.len(),
            digest.len() == 16,
            r@ == digest + bytes@.take(i as int),
        decreases bytes@.len() - i,
    {
        r.push(bytes[i]);
        proof {
            assert(bytes@.take(i + 1) =~= bytes@.take(i as int).push(bytes@[i as int]));
        }
        i += 1;
    }
    proof {
        assert(bytes@.take(bytes@.len() as int) =~= bytes@);
        assert(Seq::new(16, |j: int| blake2_128_of(le_bytes_u64(*a))[j]) =~= digest);
    }
    r
}

} // verus!
