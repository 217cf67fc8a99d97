//! Packing and unpacking of device byte buffers.
//!
//! A `Float32` tensor holds packed 4-byte words in the device's
//! little-endian layout; the library carries each word as its `u32` bit
//! pattern, so the marshalling logic stays bit-for-bit exact.  A `UInt8`
//! tensor decodes to one boolean per byte, true for every nonzero byte.

use vstd::prelude::*;

verus! {

/// Little-endian value of four bytes.
pub open spec fn word_of_bytes(b0: u8, b1: u8, b2: u8, b3: u8) -> u32 {
    (b0 + 0x100 * b1 + 0x1_0000 * b2 + 0x100_0000 * b3) as u32
}

/// Byte `k` (0 to 3, low to high) of a 4-byte word.
pub open spec fn word_byte(x: u32, k: int) -> u8 {
    if k == 0 {
        (x % 0x100) as u8
    } else if k == 1 {
        ((x / 0x100) % 0x100) as u8
    } else if k == 2 {
        ((x / 0x1_0000) % 0x100) as u8
    } else {
        ((x / 0x100_0000) % 0x100) as u8
    }
}

/// The words packed in a byte buffer, low byte first; a trailing fragment
/// shorter than four bytes is dropped.
pub open spec fn words_of_bytes(bytes: Seq<u8>) -> Seq<u32> {
    Seq::new((bytes.len() / 4) as nat, |i: int| word_of_bytes(bytes[4 * i], bytes[4 * i + 1], bytes[4 * i + 2], bytes[4 * i + 3]))
}

/// The byte buffer that packs the given words, low byte first.
pub open spec fn bytes_of_words(words: Seq<u32>) -> Seq<u8> {
    Seq::new(4 * words.len(), |i: int| word_byte(words[i / 4], i % 4))
}

/// One boolean per byte: true for every nonzero byte.
pub open spec fn bools_of_bytes(bytes: Seq<u8>) -> Seq<bool> {
    Seq::new(bytes.len(), |i: int| bytes[i] != 0)
}

/// Splitting a word into bytes and reassembling them gives the word back.
pub proof fn lemma_word_round_trip(x: u32)
    ensures
        word_of_bytes(word_byte(x, 0), word_byte(x, 1), word_byte(x, 2), word_byte(x, 3)) == x,
{
    assert(x == x % 0x100 + 0x100 * ((x / 0x100) % 0x100) + 0x1_0000 * ((x / 0x1_0000) % 0x100)
        + 0x100_0000 * ((x / 0x100_0000) % 0x100)) by (bit_vector);
}

/// Packing a sequence of words into bytes and unpacking them yields the
/// identical sequence, bit for bit.
pub proof fn lemma_words_round_trip(words: Seq<u32>)
    ensures
        words_of_bytes(bytes_of_words(words)) == words,
{
    let bytes = bytes_of_words(words);
    assert(bytes.len() == 4 * words.len());
    assert forall|i: int| 0 <= i < words.len() implies words_of_bytes(bytes)[i] == words[i] by {
        assert(bytes[4 * i] == word_byte(words[i], 0));
        assert(bytes[4 * i + 1] == word_byte(words[i], 1));
        assert(bytes[4 * i + 2] == word_byte(words[i], 2));
        assert(bytes[4 * i + 3] == word_byte(words[i], 3));
        lemma_word_round_trip(words[i]);
    }
    assert(words_of_bytes(bytes) =~= words);
}

/// Packs words into their little-endian byte buffer.
pub fn encode_words(words: &Vec<u32>) -> (r: Vec<u8>)
    ensures
        r@ == bytes_of_words(words@),
{
    let mut out: Vec<u8> = Vec::new();
    let mut i: usize = 0;
    while i < words.len()
        invariant
            i <= words.len(),
            out@ == bytes_of_words(words@.take(i as int)),
        decreases words.len() - i,
    {
        let x: u32 = words[i];
        out.push((x % 0x100) as u8);
        out.push(((x / 0x100) % 0x100) as u8);
        out.push(((x / 0x1_0000) % 0x100) as u8);
        out.push(((x / 0x100_0000) % 0x100) as u8);
        proof {
            let w0 = words@.take(i as int);
            let w1 = words@.take(i + 1);
            assert forall|j: int| 0 <= j < 4 * w1.len() implies bytes_of_words(w1)[j] == (bytes_of_words(w0) + seq![word_byte(words@[i as int], 0), word_byte(words@[i as int], 1), word_byte(words@[i as int], 2), word_byte(words@[i as int], 3)])[j] by {
                if j < 4 * i {
                    assert(w1[j / 4] == w0[j / 4]);
                } else {
                    assert(j / 4 == i) by (nonlinear_arith)
                        requires
                            4 * i <= j < 4 * (i + 1),
                    ;
                    assert(j % 4 == j - 4 * i) by (nonlinear_arith)
                        requires
                            4 * i <= j < 4 * (i + 1),
                    ;
                }
            }
            assert(bytes_of_words(w1) =~= bytes_of_words(w0) + seq![word_byte(words@[i as int], 0), word_byte(words@[i as int], 1), word_byte(words@[i as int], 2), word_byte(words@[i as int], 3)]);
        }
        i = i + 1;
    }
    proof {
        assert(words@.take(words@.len() as int) =~= words@);
    }
    out
}

/// Unpacks the words of a byte buffer; a trailing fragment shorter than
/// four bytes is dropped.
pub fn decode_words(bytes: &Vec<u8>) -> (r: Vec<u32>)
    ensures
        r@ == words_of_bytes(bytes@),
{
    let nbytes: usize = bytes.len();
    let n: usize = nbytes / 4;
    let mut out: Vec<u32> = Vec::new();
    let mut i: usize = 0;
    while i < n
        invariant
            i <= n,
            nbytes == bytes@.len(),
            n == bytes@.len() / 4,
            out@ == words_of_bytes(bytes@).take(i as int),
        decreases n - i,
    {
        proof {
            assert(4 * i + 3 < nbytes) by (nonlinear_arith)
                requires
                    i < n,
                    n == nbytes / 4,
            ;
        }
        let b0: u32 = bytes[4 * i] as u32;
        let b1: u32 = bytes[4 * i + 1] as u32;
        let b2: u32 = bytes[4 * i + 2] as u32;
        let b3: u32 = bytes[4 * i + 3] as u32;
        let x: u32 = b0 + 0x100 * b1 + 0x1_0000 * b2 + 0x100_0000 * b3;
        out.push(x);
        proof {
            assert(words_of_bytes(bytes@).take(i + 1) =~= words_of_bytes(bytes@).take(i as int).push(words_of_bytes(bytes@)[i as int]));
        }
        i = i + 1;
    }
    proof {
        assert(words_of_bytes(bytes@).take(words_of_bytes(bytes@).len() as int) =~= words_of_bytes(bytes@));
    }
    out
}

/// Decodes a byte buffer to booleans, true for every nonzero byte.
pub fn decode_bools(bytes: &Vec<u8>) -> (r: Vec<bool>)
    ensures
        r@ == bools_of_bytes(bytes@),
{
    let mut out: Vec<bool> = Vec::new();
    let mut i: usize = 0;
    while i < bytes.len()
        invariant
            i <= bytes.len(),
            out@ == bools_of_bytes(bytes@).take(i as int),
        decreases bytes.len() - i,
    {
        out.push(bytes[i] != 0);
        proof {
            assert(bools_of_bytes(bytes@).take(i + 1) =~= bools_of_bytes(bytes@).take(i as int).push(bytes@[i as int] != 0));
        }
        i = i + 1;
    }
    proof {
        assert(bools_of_bytes(bytes@).take(bytes@.len() as int) =~= bools_of_bytes(bytes@));
    }
    out
}

} // verus!
