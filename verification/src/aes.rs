//! AES-128 key expansion: 4-byte words, the S-box substitution, and the
//! Rijndael key schedule that turns a 16-byte key into 44 round-key words.

use vstd::prelude::*;

verus! {

/// The AES substitution box: the fixed 256-entry lookup table behind the
/// non-linear byte substitution of the key schedule.
pub const S_BOX: [u8; 256] = [
    0x63, 0x7c, 0x77, 0x7b, 0xf2, 0x6b, 0x6f, 0xc5, 0x30, 0x01, 0x67, 0x2b, 0xfe, 0xd7, 0xab, 0x76,
    0xca, 0x82, 0xc9, 0x7d, 0xfa, 0x59, 0x47, 0xf0, 0xad, 0xd4, 0xa2, 0xaf, 0x9c, 0xa4, 0x72, 0xc0,
    0xb7, 0xfd, 0x93, 0x26, 0x36, 0x3f, 0xf7, 0xcc, 0x34, 0xa5, 0xe5, 0xf1, 0x71, 0xd8, 0x31, 0x15,
    0x04, 0xc7, 0x23, 0xc3, 0x18, 0x96, 0x05, 0x9a, 0x07, 0x12, 0x80, 0xe2, 0xeb, 0x27, 0xb2, 0x75,
    0x09, 0x83, 0x2c, 0x1a, 0x1b, 0x6e, 0x5a, 0xa0, 0x52, 0x3b, 0xd6, 0xb3, 0x29, 0xe3, 0x2f, 0x84,
    0x53, 0xd1, 0x00, 0xed, 0x20, 0xfc, 0xb1, 0x5b, 0x6a, 0xcb, 0xbe, 0x39, 0x4a, 0x4c, 0x58, 0xcf,
    0xd0, 0xef, 0xaa, 0xfb, 0x43, 0x4d, 0x33, 0x85, 0x45, 0xf9, 0x02, 0x7f, 0x50, 0x3c, 0x9f, 0xa8,
    0x51, 0xa3, 0x40, 0x8f, 0x92, 0x9d, 0x38, 0xf5, 0xbc, 0xb6, 0xda, 0x21, 0x10, 0xff, 0xf3, 0xd2,
    0xcd, 0x0c, 0x13, 0xec, 0x5f, 0x97, 0x44, 0x17, 0xc4, 0xa7, 0x7e, 0x3d, 0x64, 0x5d, 0x19, 0x73,
    0x60, 0x81, 0x4f, 0xdc, 0x22, 0x2a, 0x90, 0x88, 0x46, 0xee, 0xb8, 0x14, 0xde, 0x5e, 0x0b, 0xdb,
    0xe0, 0x32, 0x3a, 0x0a, 0x49, 0x06, 0x24, 0x5c, 0xc2, 0xd3, 0xac, 0x62, 0x91, 0x95, 0xe4, 0x79,
    0xe7, 0xc8, 0x37, 0x6d, 0x8d, 0xd5, 0x4e, 0xa9, 0x6c, 0x56, 0xf4, 0xea, 0x65, 0x7a, 0xae, 0x08,
    0xba, 0x78, 0x25, 0x2e, 0x1c, 0xa6, 0xb4, 0xc6, 0xe8, 0xdd, 0x74, 0x1f, 0x4b, 0xbd, 0x8b, 0x8a,
    0x70, 0x3e, 0xb5, 0x66, 0x48, 0x03, 0xf6, 0x0e, 0x61, 0x35, 0x57, 0xb9, 0x86, 0xc1, 0x1d, 0x9e,
    0xe1, 0xf8, 0x98, 0x11, 0x69, 0xd9, 0x8e, 0x94, 0x9b, 0x1e, 0x87, 0xe9, 0xce, 0x55, 0x28, 0xdf,
    0x8c, 0xa1, 0x89, 0x0d, 0xbf, 0xe6, 0x42, 0x68, 0x41, 0x99, 0x2d, 0x0f, 0xb0, 0x54, 0xbb, 0x16,
];

/// What the S-box maps a byte to.
pub open spec fn spec_s_box(b: u8) -> u8 {
    S_BOX[b as int]
}

/// Substitutes one byte through the AES S-box.
pub fn s_box(b: u8) -> (r: u8)
    ensures
        r == spec_s_box(b),
{
    S_BOX[b as usize]
}

/// A word rotated left by one byte.
pub open spec fn rot_word(w: Seq<u8>) -> Seq<u8> {
    seq![w[1], w[2], w[3], w[0]]
}

/// Every byte of a word substituted through the S-box.
pub open spec fn sub_word(w: Seq<u8>) -> Seq<u8> {
    Seq::new(w.len(), |i: int| spec_s_box(w[i]))
}

/// Two words combined bytewise by exclusive or.
pub open spec fn xor_word(a: Seq<u8>, b: Seq<u8>) -> Seq<u8> {
    Seq::new(a.len(), |i: int| a[i] ^ b[i])
}

/// An exactly-4-byte value, the atomic unit of the key schedule. Operations
/// return new words; a word never changes once built.
#[derive(Clone, Copy, Debug)]
pub struct Word {
    bytes: [u8; 4],
}

impl View for Word {
    type V = Seq<u8>;

    closed spec fn view(&self) -> Seq<u8> {
        self.bytes@
    }
}

impl Word {
    /// Builds a word from an exactly-4-byte slice.
    pub fn new(slice: &[u8]) -> (r: Word)
        requires
            slice@.len() == 4,
        ensures
            r@ == slice@,
    {
        let bytes: [u8; 4] = [slice[0], slice[1], slice[2], slice[3]];
        let r = Word { bytes };
        assert(r@ =~= slice@);
        r
    }

    /// The bytewise exclusive or of two words.
    pub fn xor(&self, other: &Word) -> (r: Word)
        ensures
            r@ == xor_word(self@, other@),
    {
        let bytes: [u8; 4] = [
            self.bytes[0] ^ other.bytes[0],
            self.bytes[1] ^ other.bytes[1],
            self.bytes[2] ^ other.bytes[2],
            self.bytes[3] ^ other.bytes[3],
        ];
        let r = Word { bytes };
        assert(r@ =~= xor_word(self@, other@));
        r
    }

    /// The word rotated left by one byte.
    pub fn rotated(&self) -> (r: Word)
        ensures
            r@ == rot_word(self@),
    {
        let bytes: [u8; 4] = [self.bytes[1], self.bytes[2], self.bytes[3], self.bytes[0]];
        let r = Word { bytes };
        assert(r@ =~= rot_word(self@));
        r
    }

    /// The word with every byte substituted through the S-box.
    pub fn sbox_mapped(&self) -> (r: Word)
        ensures
            r@ == sub_word(self@),
    {
        let bytes: [u8; 4] = [
            s_box(self.bytes[0]),
            s_box(self.bytes[1]),
            s_box(self.bytes[2]),
            s_box(self.bytes[3]),
        ];
        let r = Word { bytes };
        assert(r@ =~= sub_word(self@));
        r
    }
}

impl PartialEq for Word {
    fn eq(&self, other: &Word) -> (r: bool) {
        let r = self.bytes[0] == other.bytes[0] && self.bytes[1] == other.bytes[1]
            && self.bytes[2] == other.bytes[2] && self.bytes[3] == other.bytes[3];
        proof {
            if r {
                assert(self@ =~= other@);
            } else {
                assert(self@ != other@);
            }
        }
        r
    }
}

impl vstd::std_specs::cmp::PartialEqSpecImpl for Word {
    open spec fn obeys_eq_spec() -> bool {
        true
    }

    open spec fn eq_spec(&self, other: &Word) -> bool {
        self@ == other@
    }
}

/// The error a key of the wrong length is rejected with: the key schedule is
/// defined only for 16-byte keys.
#[derive(Clone, Copy, Debug, PartialEq, Eq, Structural)]
pub struct InvalidKeySizeError;

/// The round constant byte for round `round`, the `round`-th power of the
/// generator 2 in the AES field, precomputed for the 10 rounds AES-128 needs.
pub open spec fn spec_rc(round: int) -> u8 {
    seq![1u8, 2u8, 4u8, 8u8, 16u8, 32u8, 64u8, 128u8, 27u8, 54u8][round - 1]
}

/// The round-constant word for round `round`: the round constant byte followed
/// by three zero bytes.
pub open spec fn rcon_word(round: int) -> Seq<u8> {
    seq![spec_rc(round), 0u8, 0u8, 0u8]
}

/// Word `i` of the schedule expanded from a 16-byte key: words 0 to 3 are the
/// key's own 4-byte groups; every later word is the exclusive or of the word
/// four back with either the previous word or, at each round boundary, the
/// previous word rotated, substituted and combined with the round constant.
pub open spec fn schedule_word(key: Seq<u8>, i: int) -> Seq<u8>
    decreases i,
{
    if i < 4 {
        key.subrange(4 * i, 4 * i + 4)
    } else if i % 4 == 0 {
        xor_word(xor_word(schedule_word(key, i - 4), sub_word(rot_word(schedule_word(key, i - 1)))), rcon_word(i / 4))
    } else {
        xor_word(schedule_word(key, i - 4), schedule_word(key, i - 1))
    }
}

/// The round constant byte for round `idx`.
pub fn rc(idx: usize) -> (r: u8)
    requires
        1 <= idx <= 10,
    ensures
        r == spec_rc(idx as int),
{
    let table: [u8; 10] = [1, 2, 4, 8, 16, 32, 64, 128, 27, 54];
    table[idx - 1]
}

/// The round-constant word for the round that word `word_idx` opens.
pub fn rcon(word_idx: usize) -> (r: Word)
    requires
        4 <= word_idx <= 43,
    ensures
        r@ == rcon_word(word_idx as int / 4),
{
    let b = rc(word_idx / 4);
    let r = Word { bytes: [b, 0, 0, 0] };
    assert(r@ =~= rcon_word(word_idx as int / 4));
    r
}

/// Expands a 16-byte key into the 44 words of the AES-128 round-key schedule.
/// A key of any other length is rejected with `InvalidKeySizeError`; a valid
/// key always yields exactly 44 words, the first four of which are the key's
/// own 4-byte groups in order.
pub fn key_schedule(key: &[u8]) -> (r: Result<Vec<Word>, InvalidKeySizeError>)
    ensures
        r is Ok <==> key@.len() == 16,
        key@.len() != 16 ==> r == Result::<Vec<Word>, InvalidKeySizeError>::Err(
            InvalidKeySizeError,
        ),
        r matches Ok(ks) ==> {
            &&& ks@.len() == 44
            &&& forall|i: int| 0 <= i < 44 ==> (#[trigger] ks@[i])@ == schedule_word(key@, i)
            &&& forall|i: int| 0 <= i < 4 ==> (#[trigger] ks@[i])@ == key@.subrange(4 * i, 4 * i + 4)
        },
{
    if key.len() != 16 {
        return Err(InvalidKeySizeError);
    }
    let mut expanded_key: Vec<Word> = Vec::new();

    let mut j: usize = 0;
    while j < 4
        invariant
            0 <= j <= 4,
            key@.len() == 16,
            expanded_key@.len() == j,
            forall|i: int| 0 <= i < j ==> (#[trigger] expanded_key@[i])@ == schedule_word(key@, i),
        decreases 4 - j,
    {
        let chunk = vstd::slice::slice_subrange(key, 4 * j, 4 * j + 4);
        expanded_key.push(Word::new(chunk));
        j = j + 1;
    }

    let mut word_idx: usize = 4;
    while word_idx < 44
        invariant
            4 <= word_idx <= 44,
            key@.len() == 16,
            expanded_key@.len() == word_idx,
            forall|i: int|
                0 <= i < word_idx ==> (#[trigger] expanded_key@[i])@ == schedule_word(key@, i),
        decreases 44 - word_idx,
    {
        let word: Word;
        let one_ago = &expanded_key[word_idx - 1];
        let four_ago = &expanded_key[word_idx - 4];
        if word_idx % 4 == 0 {
            let rconi = rcon(word_idx);
            let rot_and_sboxed = one_ago.rotated().sbox_mapped();
            word = four_ago.xor(&rot_and_sboxed).xor(&rconi);
        } else {
            word = four_ago.xor(one_ago);
        }
        assert(word@ == schedule_word(key@, word_idx as int));
        expanded_key.push(word);
        word_idx = word_idx + 1;
    }

    assert forall|i: int| 0 <= i < 4 implies (#[trigger] expanded_key@[i])@ == key@.subrange(
        4 * i,
        4 * i + 4,
    ) by {
        assert(expanded_key@[i]@ == schedule_word(key@, i));
    }
    Ok(expanded_key)
}

/// A run of `num_bytes` padding bytes, each holding the run's own length.
pub fn padding_bytes(num_bytes: usize) -> (r: Vec<u8>)
    ensures
        r@.len() == num_bytes,
        forall|i: int| 0 <= i < num_bytes ==> r@[i] == num_bytes as u8,
{
    let fill: u8 = #[verifier::truncate] (num_bytes as u8);
    let mut padding: Vec<u8> = Vec::new();
    let mut i: usize = 0;
    while i < num_bytes
        invariant
            0 <= i <= num_bytes,
            fill == num_bytes as u8,
            padding@.len() == i,
            forall|j: int| 0 <= j < i ==> padding@[j] == num_bytes as u8,
        decreases num_bytes - i,
    {
        padding.push(fill);
        i = i + 1;
    }
    padding
}

/// The bytes extended to the next 16-byte block boundary: between 1 and 16
/// bytes are appended, each holding the number of bytes appended.
pub fn pad_bytes(bytes: &[u8]) -> (r: Vec<u8>)
    requires
        bytes@.len() + 16 <= usize::MAX,
    ensures
        r@ == bytes@ + Seq::new((16 - bytes@.len() % 16) as nat, |i: int| (16 - bytes@.len() % 16) as u8),
{
    let mut byte_vec: Vec<u8> = Vec::new();
    let mut i: usize = 0;
    while i < bytes.len()
        invariant
            0 <= i <= bytes@.len(),
            byte_vec@ == bytes@.subrange(0, i as int),
        decreases bytes@.len() - i,
    {
        byte_vec.push(bytes[i]);
        assert(byte_vec@ =~= bytes@.subrange(0, i + 1));
        i = i + 1;
    }
    assert(byte_vec@ =~= bytes@);
    let num_bytes: usize = 16 - (byte_vec.len() % 16);
    let mut padding = padding_bytes(num_bytes);
    let ghost pad_view = padding@;
    byte_vec.append(&mut padding);
    assert(pad_view =~= Seq::new((16 - bytes@.len() % 16) as nat, |i: int| (16 - bytes@.len() % 16) as u8));
    byte_vec
}

} // verus!
