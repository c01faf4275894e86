//! The commitment rule: how a reveal is laid out as bytes, and its digest.
use bytes::BytesMut;
use soroban_sdk::Env;
use vstd::prelude::*;

verus! {

#[verifier::external_type_specification]
#[verifier::external_body]
pub struct ExEnv(Env);

#[verifier::external_type_specification]
#[verifier::external_body]
pub struct ExBytesMut(BytesMut);

/// The bytes held by a growable byte buffer.
pub uninterp spec fn buffer_bytes(b: BytesMut) -> Seq<u8>;

/// The SHA-256 digest of a byte string.
pub uninterp spec fn sha256_of(data: Seq<u8>) -> Seq<u8>;

/// The big-endian four-byte encoding of `x`.
pub open spec fn be32(x: u32) -> Seq<u8> {
    seq![
        (x / 0x100_0000) as u8,
        ((x / 0x1_0000) % 0x100) as u8,
        ((x / 0x100) % 0x100) as u8,
        (x % 0x100) as u8,
    ]
}

/// The byte strings of `parts` laid end to end, with nothing between them.
pub open spec fn concat(parts: Seq<Seq<u8>>) -> Seq<u8>
    decreases parts.len(),
{
    if parts.len() == 0 {
        Seq::empty()
    } else {
        concat(parts.drop_last()) + parts.last()
    }
}

/// The bytes a commitment is the digest of: the statements' bytes in order,
/// then the lie index as four big-endian bytes, then the salt.
pub open spec fn preimage(statements: Seq<Seq<u8>>, lie_index: u32, salt: Seq<u8>) -> Seq<u8> {
    concat(statements) + be32(lie_index) + salt
}

/// The digest that a reveal of `statements`, `lie_index` and `salt` re-derives.
pub open spec fn commitment_of(statements: Seq<Seq<u8>>, lie_index: u32, salt: Seq<u8>) -> Seq<u8> {
    sha256_of(preimage(statements, lie_index, salt))
}

/// Relies on `bytes::BytesMut::new`: a new buffer holds no bytes.
#[verifier::external_body]
fn new_buffer() -> (r: BytesMut)
    ensures
        buffer_bytes(r) == Seq::<u8>::empty(),
{
    BytesMut::new()
}

/// Relies on `bytes::BytesMut::extend_from_slice`: the slice's bytes are
/// appended at the end. It panics only when the new length overflows.
#[verifier::external_body]
fn append(buf: &mut BytesMut, data: &[u8])
    requires
        buffer_bytes(*old(buf)).len() + data@.len() <= isize::MAX,
    ensures
        buffer_bytes(*final(buf)) == buffer_bytes(*old(buf)) + data@,
{
    buf.extend_from_slice(data)
}

/// Relies on `bytes::BytesMut` dereferencing to its bytes: they are copied out.
#[verifier::external_body]
fn buffer_to_vec(buf: &BytesMut) -> (r: Vec<u8>)
    ensures
        r@ == buffer_bytes(*buf),
{
    buf.to_vec()
}

/// Relies on `soroban_sdk::crypto::Crypto::sha256` (with `Bytes::from_slice`
/// to hand the bytes to the host): the SHA-256 digest of `data`, which
/// depends on `data` alone. Like every host call it is metered, and it
/// aborts the call when the host's budget runs out.
#[verifier::external_body]
fn host_sha256(env: &Env, data: &Vec<u8>) -> (r: [u8; 32])
    ensures
        r@ == sha256_of(data@),
{
    let bytes = soroban_sdk::Bytes::from_slice(env, data.as_slice());
    env.crypto().sha256(&bytes).to_array()
}

/// The big-endian four-byte encoding of `x`.
pub fn be32_bytes(x: u32) -> (r: [u8; 4])
    ensures
        r@ == be32(x),
{
    let r: [u8; 4] = [
        (x / 0x100_0000) as u8,
        ((x / 0x1_0000) % 0x100) as u8,
        ((x / 0x100) % 0x100) as u8,
        (x % 0x100) as u8,
    ];
    assert(r@ =~= be32(x));
    r
}

/// Lays out a reveal as the bytes its commitment is the digest of.
pub fn preimage_bytes(statements: &Vec<Vec<u8>>, lie_index: u32, salt: &Vec<u8>) -> (r: Vec<u8>)
    requires
        preimage(statements@.map_values(|s: Vec<u8>| s@), lie_index, salt@).len() <= isize::MAX,
    ensures
        r@ == preimage(statements@.map_values(|s: Vec<u8>| s@), lie_index, salt@),
{
    let ghost parts = statements@.map_values(|s: Vec<u8>| s@);
    let mut buf = new_buffer();
    let mut i: usize = 0;
    while i < statements.len()
        invariant
            i <= statements.len(),
            parts == statements@.map_values(|s: Vec<u8>| s@),
            preimage(parts, lie_index, salt@).len() <= isize::MAX,
            buffer_bytes(buf) == concat(parts.take(i as int)),
        decreases statements.len() - i,
    {
        proof {
            assert(parts.take(i as int + 1).drop_last() =~= parts.take(i as int));
            lemma_concat_prefix_len(parts, i as int + 1);
        }
        append(&mut buf, statements[i].as_slice());
        i = i + 1;
    }
    assert(parts.take(i as int) =~= parts);
    let index_bytes = be32_bytes(lie_index);
    append(&mut buf, index_bytes.as_slice());
    append(&mut buf, salt.as_slice());
    buffer_to_vec(&buf)
}

/// A prefix of the parts lays out no more bytes than all of them.
proof fn lemma_concat_prefix_len(parts: Seq<Seq<u8>>, n: int)
    requires
        0 <= n <= parts.len(),
    ensures
        concat(parts.take(n)).len() <= concat(parts).len(),
    decreases parts.len() - n,
{
    if n < parts.len() {
        lemma_concat_prefix_len(parts, n + 1);
        assert(parts.take(n + 1).drop_last() =~= parts.take(n));
    } else {
        assert(parts.take(n) =~= parts);
    }
}

/// The digest that a reveal of `statements`, `lie_index` and `salt`
/// re-derives, computed by the host.
pub fn commitment_digest(env: &Env, statements: &Vec<Vec<u8>>, lie_index: u32, salt: &Vec<u8>) -> (r: [u8; 32])
    requires
        preimage(statements@.map_values(|s: Vec<u8>| s@), lie_index, salt@).len() <= isize::MAX,
    ensures
        r@ == commitment_of(statements@.map_values(|s: Vec<u8>| s@), lie_index, salt@),
{
    let data = preimage_bytes(statements, lie_index, salt);
    host_sha256(env, &data)
}

} // verus!
