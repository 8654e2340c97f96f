//! The on-disk image format: each 16-bit word is serialized as two
//! bytes, high byte first.  An odd trailing byte is a truncated image.

use vstd::prelude::*;

verus! {

/// A malformed on-disk image.
#[derive(Clone, Copy, Debug, PartialEq, Eq, Structural)]
pub enum ImageError {
    /// The byte stream ends in the middle of a word.
    TruncatedImage,
}

/// The word at index `i` of a big-endian byte pair stream.
pub open spec fn spec_word_at(b: Seq<u8>, i: int) -> u16 {
    ((b[2 * i] as u16) << 8) | (b[2 * i + 1] as u16)
}

/// Decodes a big-endian byte-pair stream into words; an odd number of
/// bytes is a truncated image.
pub fn words_from_bytes(bytes: &Vec<u8>) -> (r: Result<Vec<u16>, ImageError>)
    ensures
        bytes@.len() % 2 == 0 ==> (r matches Ok(w) && w@.len() == bytes@.len() / 2 && (forall|
            i: int,
        |
            0 <= i < w@.len() ==> #[trigger] w@[i] == spec_word_at(bytes@, i))),
        bytes@.len() % 2 != 0 ==> r == Err::<Vec<u16>, ImageError>(ImageError::TruncatedImage),
{
    if bytes.len() % 2 != 0 {
        return Err(ImageError::TruncatedImage);
    }
    let n = bytes.len() / 2;
    proof {
        assert(2 * n == bytes@.len());
    }
    let mut words: Vec<u16> = Vec::new();
    let mut i: usize = 0;
    while i < n
        invariant
            i <= n,
            n == bytes@.len() / 2,
            2 * n == bytes@.len(),
            bytes@.len() <= usize::MAX,
            bytes@.len() % 2 == 0,
            words@.len() == i,
            forall|j: int| 0 <= j < i ==> #[trigger] words@[j] == spec_word_at(bytes@, j),
        decreases n - i,
    {
        let hi = bytes[2 * i];
        let lo = bytes[2 * i + 1];
        words.push(((hi as u16) << 8) | (lo as u16));
        i += 1;
    }
    Ok(words)
}

/// Encodes words as a big-endian byte-pair stream.
pub fn bytes_from_words(words: &Vec<u16>) -> (r: Vec<u8>)
    requires
        words@.len() <= 0x7FFF_FFFF,
    ensures
        r@.len() == 2 * words@.len(),
        forall|i: int| 0 <= i < words@.len() ==> #[trigger] r@[2 * i] == ((words@[i] >> 8) as u8),
        forall|i: int|
            0 <= i < words@.len() ==> #[trigger] r@[2 * i + 1] == ((words@[i] & 0xFF) as u8),
{
    let mut bytes: Vec<u8> = Vec::new();
    let mut i: usize = 0;
    while i < words.len()
        invariant
            i <= words@.len(),
            words@.len() <= 0x7FFF_FFFF,
            bytes@.len() == 2 * i,
            forall|j: int|
                0 <= j < i ==> #[trigger] bytes@[2 * j] == ((words@[j] >> 8) as u8),
            forall|j: int|
                0 <= j < i ==> #[trigger] bytes@[2 * j + 1] == ((words@[j] & 0xFF) as u8),
        decreases words.len() - i,
    {
        let w = words[i];
        let ghost ob = bytes@;
        bytes.push((w >> 8) as u8);
        bytes.push((w & 0xFF) as u8);
        proof {
            assert(bytes@[2 * (i as int)] == ((words@[i as int] >> 8) as u8));
            assert(bytes@[2 * (i as int) + 1] == ((words@[i as int] & 0xFF) as u8));
            assert forall|j: int| 0 <= j < i implies #[trigger] bytes@[2 * j] == ((words@[j]
                >> 8) as u8) by {
                assert(bytes@[2 * j] == ob[2 * j]);
            }
            assert forall|j: int| 0 <= j < i implies #[trigger] bytes@[2 * j + 1] == ((words@[j]
                & 0xFF) as u8) by {
                assert(bytes@[2 * j + 1] == ob[2 * j + 1]);
            }
        }
        i += 1;
    }
    bytes
}

/// Splitting a word into its two bytes and reading them back, high byte
/// first, recovers the word.
proof fn bv_word_bytes(w: u16)
    by (bit_vector)
    ensures
        ((((w >> 8) as u8) as u16) << 8) | (((w & 0xFF) as u8) as u16) == w,
{
}

/// Round trip of the image format: encoding words as big-endian byte
/// pairs and decoding the stream yields the words unchanged.
pub proof fn lemma_image_round_trip(words: Seq<u16>, bytes: Seq<u8>)
    requires
        bytes.len() == 2 * words.len(),
        forall|i: int| 0 <= i < words.len() ==> #[trigger] bytes[2 * i] == ((words[i] >> 8) as u8),
        forall|i: int|
            0 <= i < words.len() ==> #[trigger] bytes[2 * i + 1] == ((words[i] & 0xFF) as u8),
    ensures
        bytes.len() % 2 == 0,
        forall|i: int| 0 <= i < words.len() ==> #[trigger] spec_word_at(bytes, i) == words[i],
{
    assert forall|i: int| 0 <= i < words.len() implies #[trigger] spec_word_at(bytes, i)
        == words[i] by {
        bv_word_bytes(words[i]);
    }
}

} // verus!
