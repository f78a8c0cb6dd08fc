//! Loader for binary files.
//!
//! This loader turns the bytes of a binary image into a `SliceMemory`. The
//! image is a sequence of words of four bytes each, in network-endian byte
//! order: the most significant byte of a word comes first.
use crate::loader::{word_of, LoadError, LoadErrorModel};
use crate::memory::slicememory::SliceMemory;
use byteorder::{ByteOrder, NetworkEndian};
use vstd::prelude::*;
use vstd::slice::slice_subrange;

verus! {

/// The word that four bytes hold, the most significant byte first.
pub open spec fn be_word(b0: u8, b1: u8, b2: u8, b3: u8) -> i32 {
    word_of((b0 * 0x100_0000 + b1 * 0x1_0000 + b2 * 0x100 + b3) as nat)
}

/// The words that `bytes` hold, four bytes to a word.
pub open spec fn raw_words(bytes: Seq<u8>) -> Seq<i32> {
    Seq::new(
        bytes.len() / 4,
        |i: int| be_word(bytes[4 * i], bytes[4 * i + 1], bytes[4 * i + 2], bytes[4 * i + 3]),
    )
}

/// The message about an image that does not end with a whole word.
pub open spec fn partial_word_message() -> Seq<char> {
    "Image size is not a multiple of the word size"@
}

/// Reads one word from the start of `buf` with `byteorder`'s
/// `ByteOrder::read_i32` for `NetworkEndian`.
///
/// Not verified; the contract states what `byteorder` documents: the first
/// four bytes are read as a big-endian signed number. `read_i32` panics on
/// fewer than four bytes, which the contract rules out.
#[verifier::external_body]
fn read_word(buf: &[u8]) -> (word: i32)
    requires
        buf@.len() >= 4,
    ensures
        word == be_word(buf@[0], buf@[1], buf@[2], buf@[3]),
{
    NetworkEndian::read_i32(buf)
}

/// Loads the bytes of a raw image into a memory.
///
/// An image whose size is no multiple of four bytes is refused.
pub fn load(bytes: &[u8]) -> (memory: Result<SliceMemory, LoadError>)
    ensures
        match memory {
            Ok(m) => bytes@.len() % 4 == 0 && m@.cells == raw_words(bytes@),
            Err(error) => bytes@.len() % 4 != 0 && error@ == LoadErrorModel::Message(
                partial_word_message(),
            ),
        },
{
    if bytes.len() % 4 != 0 {
        return Err(
            LoadError::from_message("Image size is not a multiple of the word size".to_owned()),
        );
    }
    let count = bytes.len() / 4;
    let mut vec: Vec<i32> = Vec::new();
    let mut i: usize = 0;
    while i < count
        invariant
            i <= count,
            count == bytes@.len() / 4,
            bytes@.len() % 4 == 0,
            bytes@.len() <= usize::MAX,
            vec@.len() == i,
            forall|j: int| 0 <= j < i ==> vec@[j] == raw_words(bytes@)[j],
        decreases count - i,
    {
        assert(4 * i + 4 <= bytes@.len());
        let word = read_word(slice_subrange(bytes, 4 * i, 4 * i + 4));
        vec.push(word);
        i += 1;
    }
    assert(vec@ =~= raw_words(bytes@));
    Ok(SliceMemory(vec))
}

} // verus!
