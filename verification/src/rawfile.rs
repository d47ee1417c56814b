//! Raw sample files: single-precision samples, little-endian, one after the
//! other, with no header.
//!
//! Such a file is read in chunks. Each chunk gives the samples of its whole
//! groups of four bytes; what is left over at the end of a chunk, less than a
//! group, is dropped. Samples are bit patterns, as in [`crate::binary32`].

use vstd::prelude::*;
use byteorder::{LittleEndian, ReadBytesExt};

verus! {

/// The number of bytes that one read of a raw file asks for.
pub const CHUNK_BYTES: usize = 8192;

/// `std::io::Error`, the error of a reader. Nothing is known of a value of it.
#[verifier::external_type_specification]
#[verifier::external_body]
pub struct ExIoError(std::io::Error);

/// The word of group `i` of `bytes`: the four bytes from `4 * i` on, the
/// lowest first.
pub open spec fn word_at(bytes: Seq<u8>, i: int) -> u32 {
    (bytes[4 * i] + 0x100 * bytes[4 * i + 1] + 0x1_0000 * bytes[4 * i + 2] + 0x100_0000 * bytes[4
        * i + 3]) as u32
}

/// The words of the whole groups of four in `bytes`, in order.
pub open spec fn words_of(bytes: Seq<u8>) -> Seq<u32> {
    Seq::new((bytes.len() / 4) as nat, |i: int| word_at(bytes, i))
}

/// Fills `dst` with little-endian words from the front of `src`.
///
/// Calls `byteorder::ReadBytesExt::read_u32_into` with
/// `byteorder::LittleEndian`, on `src` as the reader: a byte slice is read
/// from its front and fails a read that asks for more than it holds. The
/// contract claims of the call: the length of `dst` is kept; the call succeeds
/// exactly where `src` holds four bytes for every place of `dst`; and on
/// success each place of `dst` holds the word of its group, the lowest byte
/// first.
#[verifier::external_body]
fn read_words(src: &[u8], dst: &mut Vec<u32>) -> (result: Result<(), std::io::Error>)
    ensures
        final(dst)@.len() == old(dst)@.len(),
        result is Ok <==> 4 * old(dst)@.len() <= src@.len(),
        result is Ok ==> forall|i: int|
            0 <= i < final(dst)@.len() ==> #[trigger] final(dst)@[i] == word_at(src@, i),
{
    let mut reader: &[u8] = src;
    reader.read_u32_into::<LittleEndian>(dst.as_mut_slice())
}

/// Takes in one chunk of a raw file: appends the samples of the chunk to
/// `samples`, and says whether the file may hold more. An empty chunk is the
/// end of the file.
pub fn read_chunk(samples: &mut Vec<u32>, chunk: &[u8]) -> (more: bool)
    ensures
        final(samples)@ == old(samples)@ + words_of(chunk@),
        more == (chunk@.len() != 0),
{
    if chunk.len() == 0 {
        assert(old(samples)@ + words_of(chunk@) =~= old(samples)@);
        return false;
    }
    let mut words: Vec<u32> = vec![0u32; chunk.len() / 4];
    match read_words(chunk, &mut words) {
        Ok(()) => {
            assert(words@ =~= words_of(chunk@));
            samples.append(&mut words);
        },
        Err(_) => {},
    }
    true
}

/// Chunks that end on a group's end read as the file does in one piece: where
/// the first of two chunks holds whole groups only, the samples of the two,
/// one after the other, are the samples of their bytes put together.
pub proof fn lemma_chunks_join(first: Seq<u8>, second: Seq<u8>)
    requires
        first.len() % 4 == 0,
    ensures
        words_of(first + second) == words_of(first) + words_of(second),
{
    let whole = first + second;
    let groups = first.len() / 4;
    assert forall|i: int| 0 <= i < words_of(whole).len() implies words_of(whole)[i] == (words_of(
        first,
    ) + words_of(second))[i] by {
        if i < groups {
            assert(word_at(whole, i) == word_at(first, i));
        } else {
            assert(whole[4 * i] == second[4 * (i - groups)]);
            assert(whole[4 * i + 1] == second[4 * (i - groups) + 1]);
            assert(whole[4 * i + 2] == second[4 * (i - groups) + 2]);
            assert(whole[4 * i + 3] == second[4 * (i - groups) + 3]);
            assert(word_at(whole, i) == word_at(second, i - groups));
        }
    }
    assert(words_of(whole) =~= words_of(first) + words_of(second));
}

/// The bytes of a file that was read as `chunks`, one after the other.
pub open spec fn bytes_of(chunks: Seq<Seq<u8>>) -> Seq<u8>
    decreases chunks.len(),
{
    if chunks.len() == 0 {
        Seq::empty()
    } else {
        chunks[0] + bytes_of(chunks.drop_first())
    }
}

/// The samples that `read_chunk` collects from `chunks`, taken in one after
/// the other.
pub open spec fn samples_of(chunks: Seq<Seq<u8>>) -> Seq<u32>
    decreases chunks.len(),
{
    if chunks.len() == 0 {
        Seq::empty()
    } else {
        words_of(chunks[0]) + samples_of(chunks.drop_first())
    }
}

/// A file that is read in chunks gives the samples of the file, provided that
/// every chunk but the last holds whole groups only.
pub proof fn lemma_chunked_file(chunks: Seq<Seq<u8>>)
    requires
        forall|k: int| 0 <= k < chunks.len() - 1 ==> (#[trigger] chunks[k]).len() % 4 == 0,
    ensures
        samples_of(chunks) == words_of(bytes_of(chunks)),
    decreases chunks.len(),
{
    if chunks.len() == 0 {
        assert(words_of(Seq::<u8>::empty()) =~= Seq::<u32>::empty());
    } else {
        let rest = chunks.drop_first();
        assert forall|k: int| 0 <= k < rest.len() - 1 implies (#[trigger] rest[k]).len() % 4
            == 0 by {
            assert(rest[k] == chunks[k + 1]);
        }
        lemma_chunked_file(rest);
        if chunks.len() == 1 {
            assert(bytes_of(rest) =~= Seq::<u8>::empty());
            assert(chunks[0] + bytes_of(rest) =~= chunks[0]);
            assert(words_of(chunks[0]) + samples_of(rest) =~= words_of(chunks[0]));
        } else {
            assert(chunks[0].len() % 4 == 0);
            lemma_chunks_join(chunks[0], bytes_of(rest));
        }
    }
}

} // verus!
