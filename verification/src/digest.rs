//! Data model of the digest server's API: algorithm identifiers, digest
//! outputs and the error taxonomy.

use vstd::prelude::*;
use vstd::bytes::{spec_u32_to_le_bytes, u32_to_le_bytes};

verus! {

/// SHA-256 output size in 32-bit words.
pub const SHA256_WORDS: usize = 8;

/// SHA-384 output size in 32-bit words.
pub const SHA384_WORDS: usize = 12;

/// SHA-512 output size in 32-bit words.
pub const SHA512_WORDS: usize = 16;

/// SHA3-256 output size in 32-bit words.
pub const SHA3_256_WORDS: usize = 8;

/// SHA3-384 output size in 32-bit words.
pub const SHA3_384_WORDS: usize = 12;

/// SHA3-512 output size in 32-bit words.
pub const SHA3_512_WORDS: usize = 16;

/// Digest algorithm identifiers.
#[derive(Clone, Copy, Debug, PartialEq, Eq, Structural)]
pub enum DigestAlgorithm {
    Sha256,
    Sha384,
    Sha512,
    Sha3_256,
    Sha3_384,
    Sha3_512,
}

impl DigestAlgorithm {
    /// The algorithm's output size in 32-bit words, in specifications.
    pub open spec fn words_spec(&self) -> usize {
        match self {
            DigestAlgorithm::Sha256 => SHA256_WORDS,
            DigestAlgorithm::Sha384 => SHA384_WORDS,
            DigestAlgorithm::Sha512 => SHA512_WORDS,
            DigestAlgorithm::Sha3_256 => SHA3_256_WORDS,
            DigestAlgorithm::Sha3_384 => SHA3_384_WORDS,
            DigestAlgorithm::Sha3_512 => SHA3_512_WORDS,
        }
    }

    /// The algorithm's output size in 32-bit words.
    pub fn words(&self) -> (r: usize)
        ensures
            r == self.words_spec(),
    {
        match self {
            DigestAlgorithm::Sha256 => SHA256_WORDS,
            DigestAlgorithm::Sha384 => SHA384_WORDS,
            DigestAlgorithm::Sha512 => SHA512_WORDS,
            DigestAlgorithm::Sha3_256 => SHA3_256_WORDS,
            DigestAlgorithm::Sha3_384 => SHA3_384_WORDS,
            DigestAlgorithm::Sha3_512 => SHA3_512_WORDS,
        }
    }
}

/// The bytes of a word sequence, little-endian word by word.
pub open spec fn words_le_bytes(s: Seq<u32>) -> Seq<u8>
    decreases s.len(),
{
    if s.len() == 0 {
        Seq::empty()
    } else {
        spec_u32_to_le_bytes(s[0]) + words_le_bytes(s.drop_first())
    }
}

/// A digest output of `N` 32-bit words.
#[derive(Clone, Debug, PartialEq, Eq)]
pub struct DigestOutput<const N: usize> {
    /// The digest value.
    pub value: Vec<u32>,
}

impl<const N: usize> DigestOutput<N> {
    /// The value holds exactly `N` words.
    pub open spec fn wf(self) -> bool {
        self.value@.len() == N
    }

    /// A digest output from its words.
    pub fn new(value: Vec<u32>) -> (r: DigestOutput<N>)
        requires
            value@.len() == N,
        ensures
            r.wf(),
            r.value == value,
    {
        DigestOutput { value }
    }
}

/// Converts digest outputs to bytes.
pub trait DigestAsBytes {
    /// The digest as bytes, little-endian word by word.
    fn as_bytes(&self) -> Vec<u8>;
}

impl<const N: usize> DigestAsBytes for DigestOutput<N> {
    fn as_bytes(&self) -> (r: Vec<u8>)
        ensures
            r@ == words_le_bytes(self.value@),
    {
        let mut out: Vec<u8> = Vec::new();
        let mut i: usize = 0;
        while i < self.value.len()
            invariant
                i <= self.value@.len(),
                out@ =~= words_le_bytes(self.value@.take(i as int)),
            decreases self.value@.len() - i,
        {
            let word_bytes = u32_to_le_bytes(self.value[i]);
            let mut j: usize = 0;
            while j < word_bytes.len()
                invariant
                    j <= word_bytes@.len(),
                    word_bytes@ == spec_u32_to_le_bytes(self.value@[i as int]),
                    word_bytes@.len() == 4,
                    i < self.value@.len(),
                    out@ =~= words_le_bytes(self.value@.take(i as int))
                        + word_bytes@.take(j as int),
                decreases word_bytes@.len() - j,
            {
                out.push(word_bytes[j]);
                j += 1;
            }
            proof {
                lemma_words_le_bytes_step(self.value@, i as int);
            }
            i += 1;
        }
        proof {
            assert(self.value@.take(self.value@.len() as int) =~= self.value@);
        }
        out
    }
}

/// Taking one more word appends its four bytes.
proof fn lemma_words_le_bytes_step(s: Seq<u32>, i: int)
    requires
        0 <= i < s.len(),
    ensures
        words_le_bytes(s.take(i + 1))
            =~= words_le_bytes(s.take(i)) + spec_u32_to_le_bytes(s[i]),
    decreases i,
{
    if i == 0 {
        assert(s.take(1).drop_first() =~= s.take(0));
        assert(words_le_bytes(s.take(0)) =~= Seq::empty());
        assert(words_le_bytes(s.take(1)) == spec_u32_to_le_bytes(s[0]) + words_le_bytes(s.take(0)));
        assert(spec_u32_to_le_bytes(s[0]) + Seq::<u8>::empty() =~= spec_u32_to_le_bytes(s[0]));
        assert(Seq::<u8>::empty() + spec_u32_to_le_bytes(s[0]) =~= spec_u32_to_le_bytes(s[0]));
    } else {
        lemma_words_le_bytes_step(s.drop_first(), i - 1);
        assert(s.take(i + 1).drop_first() =~= s.drop_first().take(i));
        assert(s.take(i).drop_first() =~= s.drop_first().take(i - 1));
        assert(words_le_bytes(s.take(i + 1))
            == spec_u32_to_le_bytes(s[0]) + words_le_bytes(s.drop_first().take(i)));
        assert(words_le_bytes(s.take(i))
            == spec_u32_to_le_bytes(s[0]) + words_le_bytes(s.drop_first().take(i - 1)));
        assert(s.drop_first()[i - 1] == s[i]);
    }
}

/// Errors of the digest server API.
#[derive(Clone, Copy, Debug, PartialEq, Eq, Structural)]
pub enum DigestError {
    /// The input data length is not valid for the hash function.
    InvalidInputLength,
    /// The hash algorithm is not supported by this implementation.
    UnsupportedAlgorithm,
    /// Failed to allocate memory for the hash computation.
    MemoryAllocationFailure,
    /// Failed to initialize the hash computation context.
    InitializationError,
    /// The hash computation could not take new data.
    UpdateError,
    /// The hash computation could not be finalized.
    FinalizationError,
    /// The hardware accelerator is busy.
    Busy,
    /// General hardware failure during hash computation.
    HardwareFailure,
    /// The output size is not valid for the hash function.
    InvalidOutputSize,
    /// Insufficient permissions for the hash computation.
    PermissionDenied,
    /// The hash computation context has not been initialized.
    NotInitialized,
    /// Invalid session ID provided.
    InvalidSession,
    /// Maximum number of concurrent sessions exceeded.
    TooManySessions,
    /// The server task was recycled.
    ServerRestarted,
}


/// An uppercase hexadecimal digit character.
pub open spec fn hex_digit(n: u8) -> u8
    recommends
        n < 16,
{
    if n < 10 { (48 + n) as u8 } else { (55 + n) as u8 }
}

/// The big-endian bytes of one 32-bit word.
pub open spec fn be_bytes(w: u32) -> Seq<u8> {
    seq![
        (w / 0x100_0000) as u8,
        ((w / 0x1_0000) % 256) as u8,
        ((w / 0x100) % 256) as u8,
        (w % 256) as u8,
    ]
}

/// The two hexadecimal characters of one byte.
pub open spec fn byte_hex(b: u8) -> Seq<u8> {
    seq![hex_digit(b / 16), hex_digit((b % 16) as u8)]
}

/// The eight hexadecimal characters of one word, most significant first.
pub open spec fn word_hex(w: u32) -> Seq<u8> {
    byte_hex(be_bytes(w)[0]) + byte_hex(be_bytes(w)[1]) + byte_hex(be_bytes(w)[2])
        + byte_hex(be_bytes(w)[3])
}

/// The hexadecimal rendering of a word sequence, word by word.
pub open spec fn words_hex(s: Seq<u32>) -> Seq<u8>
    decreases s.len(),
{
    if s.len() == 0 {
        Seq::empty()
    } else {
        word_hex(s[0]) + words_hex(s.drop_first())
    }
}

/// Renders the two hexadecimal characters of one byte.
pub fn hex_byte_chars(b: u8) -> (r: (u8, u8))
    ensures
        seq![r.0, r.1] == byte_hex(b),
{
    let hi = b / 16;
    let lo = b % 16;
    let c0 = if hi < 10 { 48 + hi } else { 55 + hi };
    let c1 = if lo < 10 { 48 + lo } else { 55 + lo };
    (c0, c1)
}

/// Renders a digest's words as uppercase hexadecimal text, most
/// significant byte of each word first.
pub fn hash_hex(words: &[u32]) -> (r: Vec<u8>)
    ensures
        r@ == words_hex(words@),
{
    let mut out: Vec<u8> = Vec::new();
    let mut i: usize = 0;
    while i < words.len()
        invariant
            i <= words@.len(),
            out@ =~= words_hex(words@.take(i as int)),
        decreases words@.len() - i,
    {
        let w = words[i];
        let b0 = (w / 0x100_0000) as u8;
        let b1 = ((w / 0x1_0000) % 256) as u8;
        let b2 = ((w / 0x100) % 256) as u8;
        let b3 = (w % 256) as u8;
        let (c0, c1) = hex_byte_chars(b0);
        let (c2, c3) = hex_byte_chars(b1);
        let (c4, c5) = hex_byte_chars(b2);
        let (c6, c7) = hex_byte_chars(b3);
        out.push(c0);
        out.push(c1);
        out.push(c2);
        out.push(c3);
        out.push(c4);
        out.push(c5);
        out.push(c6);
        out.push(c7);
        proof {
            lemma_words_hex_step(words@, i as int);
            assert(out@ =~= words_hex(words@.take(i as int)) + word_hex(words@[i as int]));
        }
        i += 1;
    }
    proof {
        assert(words@.take(words@.len() as int) =~= words@);
    }
    out
}

/// Taking one more word appends its eight characters.
proof fn lemma_words_hex_step(s: Seq<u32>, i: int)
    requires
        0 <= i < s.len(),
    ensures
        words_hex(s.take(i + 1)) =~= words_hex(s.take(i)) + word_hex(s[i]),
    decreases i,
{
    if i == 0 {
        assert(s.take(1).drop_first() =~= s.take(0));
        assert(words_hex(s.take(0)) =~= Seq::empty());
        assert(words_hex(s.take(1)) == word_hex(s[0]) + words_hex(s.take(0)));
        assert(word_hex(s[0]) + Seq::<u8>::empty() =~= word_hex(s[0]));
        assert(Seq::<u8>::empty() + word_hex(s[0]) =~= word_hex(s[0]));
    } else {
        lemma_words_hex_step(s.drop_first(), i - 1);
        assert(s.take(i + 1).drop_first() =~= s.drop_first().take(i));
        assert(s.take(i).drop_first() =~= s.drop_first().take(i - 1));
        assert(words_hex(s.take(i + 1))
            == word_hex(s[0]) + words_hex(s.drop_first().take(i)));
        assert(words_hex(s.take(i))
            == word_hex(s[0]) + words_hex(s.drop_first().take(i - 1)));
        assert(s.drop_first()[i - 1] == s[i]);
    }
}

/// The decimal digit characters of a number, most significant first.
pub open spec fn dec_digits(n: nat) -> Seq<u8>
    decreases n,
{
    if n < 10 {
        seq![(48 + n) as u8]
    } else {
        dec_digits(n / 10).push((48 + n % 10) as u8)
    }
}

/// Renders a number as decimal text.
pub fn decimal_bytes(n: u32) -> (r: Vec<u8>)
    ensures
        r@ == dec_digits(n as nat),
{
    if n == 0 {
        let mut r: Vec<u8> = Vec::new();
        r.push(48);
        proof {
            assert(r@ =~= dec_digits(0));
        }
        return r;
    }
    let mut tmp: Vec<u8> = Vec::new();
    let mut num: u32 = n;
    while num > 0
        invariant
            dec_digits(n as nat) =~= (if num > 0 {
                dec_digits(num as nat)
            } else {
                Seq::<u8>::empty()
            }) + tmp@.reverse(),
        decreases num,
    {
        let d = (48 + num % 10) as u8;
        let ghost tmp0 = tmp@;
        let ghost num0 = num;
        tmp.push(d);
        num = num / 10;
        proof {
            assert(tmp@.reverse() =~= seq![d] + tmp0.reverse());
            if num > 0 {
                assert(dec_digits(num0 as nat) == dec_digits(num as nat).push(d));
                assert(dec_digits(num as nat).push(d) + tmp0.reverse()
                    =~= dec_digits(num as nat) + (seq![d] + tmp0.reverse()));
            } else {
                assert(num0 < 10);
                assert(dec_digits(num0 as nat) == seq![d]);
                assert(seq![d] + tmp0.reverse() =~= tmp@.reverse());
            }
        }
    }
    let mut r: Vec<u8> = Vec::new();
    let count = tmp.len();
    let mut k: usize = 0;
    while k < count
        invariant
            k <= count,
            count == tmp@.len(),
            r@ =~= tmp@.reverse().take(k as int),
        decreases count - k,
    {
        r.push(tmp[count - 1 - k]);
        proof {
            assert(tmp@.reverse()[k as int] == tmp@[count - 1 - k]);
            assert(r@ =~= tmp@.reverse().take(k as int + 1));
        }
        k += 1;
    }
    proof {
        assert(tmp@.reverse().take(count as int) =~= tmp@.reverse());
    }
    r
}

impl DigestError {
    /// A short description of the error, for logs and consoles.
    pub fn message(&self) -> &'static str {
        match self {
            DigestError::InvalidSession => "Invalid session",
            DigestError::TooManySessions => "Too many sessions",
            DigestError::InvalidInputLength => "Invalid input length",
            DigestError::UnsupportedAlgorithm => "Unsupported algorithm",
            DigestError::InitializationError => "Initialization error",
            DigestError::UpdateError => "Update error",
            DigestError::FinalizationError => "Finalization error",
            DigestError::HardwareFailure => "Hardware failure",
            _ => "Unknown digest error",
        }
    }
}

} // verus!
