//! MD4 length-extension forgery: the padding MD4 appends to a message, the
//! reconstruction of the hash's chaining state from a digest, and the forging
//! of a valid MAC for an attacker-chosen suffix.

use md4::Digest;
use vstd::prelude::*;

verus! {

/// The four 32-bit accumulator values MD4 chains between blocks. A digest is
/// nothing but the little-endian serialization of this state at finalization,
/// which is what makes the length-extension attack possible.
#[derive(Clone, Copy, Debug, PartialEq, Eq, Structural)]
pub struct HashState {
    pub a: u32,
    pub b: u32,
    pub c: u32,
    pub d: u32,
}

/// The 32-bit word read little-endian from bytes `4*i .. 4*i+4` of `bytes`.
pub open spec fn le_word(bytes: Seq<u8>, i: int) -> u32 {
    (bytes[4 * i] as int + bytes[4 * i + 1] as int * 0x100 + bytes[4 * i + 2] as int * 0x10000
        + bytes[4 * i + 3] as int * 0x1000000) as u32
}

fn le_u32_at(bytes: &[u8], i: usize) -> (r: u32)
    requires
        i < 4,
        bytes@.len() == 16,
    ensures
        r == le_word(bytes@, i as int),
{
    let offset: usize = 4 * i;
    bytes[offset] as u32 + (bytes[offset + 1] as u32) * 0x100 + (bytes[offset + 2] as u32)
        * 0x10000 + (bytes[offset + 3] as u32) * 0x1000000
}

/// Reads a 16-byte digest back into the accumulator state it serializes:
/// each consecutive 4-byte group is one little-endian 32-bit word.
pub fn md4_state_from_digest(digest_bytes: &[u8]) -> (state: HashState)
    requires
        digest_bytes@.len() == 16,
    ensures
        state.a == le_word(digest_bytes@, 0),
        state.b == le_word(digest_bytes@, 1),
        state.c == le_word(digest_bytes@, 2),
        state.d == le_word(digest_bytes@, 3),
{
    HashState {
        a: le_u32_at(digest_bytes, 0),
        b: le_u32_at(digest_bytes, 1),
        c: le_u32_at(digest_bytes, 2),
        d: le_u32_at(digest_bytes, 3),
    }
}

/// Length of the padding MD4 appends to a message of `l` bytes: up to the next
/// 64-byte block boundary, with 9 bytes (marker plus length field) always needed.
pub open spec fn md4_pad_len(l: nat) -> nat {
    if l % 64 < 56 {
        (64 - l % 64) as nat
    } else {
        (128 - l % 64) as nat
    }
}

/// The message bit count MD4 encodes in its trailing length field (mod 2^64).
pub open spec fn md4_bit_len(l: nat) -> u64 {
    ((l * 8) % 0x1_0000_0000_0000_0000) as u64
}

/// The trailing length field of the MD4 padding: the bit count of the absorbed
/// message in 8 little-endian bytes.
pub open spec fn md4_length_field(l: nat) -> Seq<u8> {
    Seq::new(8, |k: int| (md4_bit_len(l) >> ((8 * k) as u64)) as u8)
}

/// The exact padding MD4 appends to a message of `l` bytes: a `0x80` marker,
/// zero fill, and the bit length in 8 little-endian bytes.
pub open spec fn md4_padding(l: nat) -> Seq<u8> {
    Seq::new(
        md4_pad_len(l),
        |i: int|
            if i == 0 {
                0x80u8
            } else if i < md4_pad_len(l) - 8 {
                0u8
            } else {
                (md4_bit_len(l) >> ((8 * (i - (md4_pad_len(l) - 8))) as u64)) as u8
            },
    )
}

/// Builds the MD4 padding for an absorbed byte count, without the message itself.
pub fn padding_for_length(len: usize) -> (r: Vec<u8>)
    ensures
        r@ == md4_padding(len as nat),
        r@.len() == md4_pad_len(len as nat),
{
    let extra: usize = len % 64;
    let pad_len: usize = if extra < 56 {
        64 - extra
    } else {
        128 - extra
    };
    let num_bits: u64 = (len as u64).wrapping_mul(8);
    let mut r: Vec<u8> = Vec::new();
    r.push(0x80);
    let mut i: usize = 1;
    while i < pad_len - 8
        invariant
            1 <= i <= pad_len - 8,
            9 <= pad_len <= 128,
            r@.len() == i,
            r@[0] == 0x80u8,
            forall|j: int| 1 <= j < i ==> r@[j] == 0u8,
        decreases pad_len - 8 - i,
    {
        r.push(0);
        i = i + 1;
    }
    let mut k: usize = 0;
    while k < 8
        invariant
            0 <= k <= 8,
            9 <= pad_len <= 128,
            num_bits == md4_bit_len(len as nat),
            r@.len() == pad_len - 8 + k,
            r@[0] == 0x80u8,
            forall|j: int| 1 <= j < pad_len - 8 ==> r@[j] == 0u8,
            forall|j: int|
                pad_len - 8 <= j < pad_len - 8 + k ==> r@[j] == (num_bits >> ((8 * (j - (pad_len
                    - 8))) as u64)) as u8,
        decreases 8 - k,
    {
        let shift: u64 = 8 * (k as u64);
        let byte: u8 = #[verifier::truncate] ((num_bits >> shift) as u8);
        r.push(byte);
        k = k + 1;
    }
    assert(r@ =~= md4_padding(len as nat));
    r
}

/// The padding MD4 would append to `bytes`: a `0x80` marker, zero fill up to
/// 8 bytes before the next block boundary, then the bit length of `bytes`
/// in 8 little-endian bytes.
pub fn generate_md4_padding(bytes: &[u8]) -> (r: Vec<u8>)
    ensures
        r@ == md4_padding(bytes@.len()),
        r@.len() == md4_pad_len(bytes@.len()),
        r@[0] == 0x80u8,
        r@.subrange(r@.len() - 8, r@.len() as int) == md4_length_field(bytes@.len()),
{
    let r = padding_for_length(bytes.len());
    assert(r@.subrange(r@.len() - 8, r@.len() as int) =~= md4_length_field(bytes@.len()));
    r
}

/// The digest MD4 produces when its compression is resumed from accumulator
/// state `(a, b, c, d)` with `block_count` 64-byte blocks already absorbed,
/// and `suffix` plus fresh final padding is then fed through it. The value
/// depends on these arguments alone.
pub uninterp spec fn md4_resume_digest(
    a: u32,
    b: u32,
    c: u32,
    d: u32,
    block_count: u64,
    suffix: Seq<u8>,
) -> Seq<u8>;

/// Relies on md4's `SerializableState` encoding (the four chaining words, then
/// the absorbed block count, all little-endian, then an empty block buffer)
/// and on digest's `update` and `finalize`: resumes MD4 from the given state
/// and hashes `suffix` to a fresh 16-byte digest.
#[verifier::external_body]
fn md4_resume(state: &HashState, block_count: u64, suffix: &[u8]) -> (r: Vec<u8>)
    ensures
        r@ == md4_resume_digest(state.a, state.b, state.c, state.d, block_count, suffix@),
        r@.len() == 16,
{
    let mut st = md4::digest::common::hazmat::SerializedState::<md4::Md4>::default();
    st[0..4].copy_from_slice(&state.a.to_le_bytes());
    st[4..8].copy_from_slice(&state.b.to_le_bytes());
    st[8..12].copy_from_slice(&state.c.to_le_bytes());
    st[12..16].copy_from_slice(&state.d.to_le_bytes());
    st[16..24].copy_from_slice(&block_count.to_le_bytes());
    let mut hasher =
        <md4::Md4 as md4::digest::common::hazmat::SerializableState>::deserialize(&st)
            .expect("an empty block buffer always deserializes");
    hasher.update(suffix);
    hasher.finalize().to_vec()
}

/// How many 64-byte blocks a genuine MD4 run has absorbed once it has hashed
/// `l` bytes followed by their padding: the padded length is an exact
/// multiple of the block size.
pub open spec fn forged_block_count(l: nat) -> u64 {
    ((l + md4_pad_len(l)) / 64) as u64
}

/// Appends every byte of `src` to `dst`.
fn append_bytes(dst: &mut Vec<u8>, src: &[u8])
    ensures
        final(dst)@ == old(dst)@ + src@,
{
    let mut i: usize = 0;
    while i < src.len()
        invariant
            0 <= i <= src@.len(),
            dst@ == old(dst)@ + src@.subrange(0, i as int),
        decreases src@.len() - i,
    {
        dst.push(src[i]);
        assert(dst@ =~= old(dst)@ + src@.subrange(0, i + 1));
        i = i + 1;
    }
    assert(dst@ =~= old(dst)@ + src@);
}

/// Forges a valid MD4 MAC for `msg` with `suffix` appended, from an observed
/// MAC alone. The observed digest is read back into the chaining state the
/// victim's hash ended in, the padding the victim's hash would have absorbed
/// after `guessed_secret_length + len(msg)` bytes is recomputed, and the
/// compression is resumed from that state to hash `suffix`. The forged
/// message is `msg`, then that synthetic padding, then `suffix`; it always
/// ends in exactly `suffix`. Whether the forged MAC validates rests entirely
/// on the guess: it is the true digest of `secret ‖ forged message` exactly
/// when `guessed_secret_length` is the length of the victim's secret.
pub fn forge_md4_mac(mac: &[u8], msg: &[u8], suffix: &[u8], guessed_secret_length: usize) -> (r: (
    Vec<u8>,
    Vec<u8>,
))
    requires
        mac@.len() == 16,
        guessed_secret_length + msg@.len() + 128 <= usize::MAX,
    ensures
        r.0@ == md4_resume_digest(
            le_word(mac@, 0),
            le_word(mac@, 1),
            le_word(mac@, 2),
            le_word(mac@, 3),
            forged_block_count((guessed_secret_length + msg@.len()) as nat),
            suffix@,
        ),
        r.0@.len() == 16,
        r.1@ == msg@ + md4_padding((guessed_secret_length + msg@.len()) as nat) + suffix@,
        r.1@.len() >= suffix@.len(),
        r.1@.subrange(r.1@.len() - suffix@.len(), r.1@.len() as int) == suffix@,
{
    let assumed_prefix_len: usize = guessed_secret_length + msg.len();
    let padding = padding_for_length(assumed_prefix_len);
    let block_count: u64 = ((assumed_prefix_len as u64) + (padding.len() as u64)) / 64;
    assert(block_count == forged_block_count(assumed_prefix_len as nat));

    let state = md4_state_from_digest(mac);
    let forged_mac = md4_resume(&state, block_count, suffix);

    let mut forged_msg: Vec<u8> = Vec::new();
    append_bytes(&mut forged_msg, msg);
    append_bytes(&mut forged_msg, padding.as_slice());
    append_bytes(&mut forged_msg, suffix);
    assert(forged_msg@.subrange(forged_msg@.len() - suffix@.len(), forged_msg@.len() as int)
        =~= suffix@);

    (forged_mac, forged_msg)
}

} // verus!
