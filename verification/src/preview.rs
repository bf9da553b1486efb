//! The byte stream of a preview thumbnail: its runs as little-endian words.

use byteorder::{LittleEndian, WriteBytesExt};
use vstd::prelude::*;

verus! {

/// Width that the small preview is declared with.
pub const SMALL_PREVIEW_WIDTH: u32 = 200;

/// Height that the small preview is declared with.
pub const SMALL_PREVIEW_HEIGHT: u32 = 125;

/// Width that the large preview is declared with.
pub const LARGE_PREVIEW_WIDTH: u32 = 400;

/// Height that the large preview is declared with.
pub const LARGE_PREVIEW_HEIGHT: u32 = 300;

/// One run of equal preview pixels, as the run-length encoder hands it out.
#[derive(Clone, Copy, Debug, PartialEq, Eq, Structural)]
pub enum PreviewRun {
    /// A colour word that stands alone.
    Single(u16),
    /// A colour word followed by a count word.
    Double(u16, u16),
}

/// The two bytes of a 16-bit word, low byte first.
pub open spec fn word_bytes(word: u16) -> Seq<u8> {
    seq![(word % 256) as u8, (word / 256) as u8]
}

/// The bytes of one run: its colour word, then its count word if it has one.
pub open spec fn run_bytes(run: PreviewRun) -> Seq<u8> {
    match run {
        PreviewRun::Single(color) => word_bytes(color),
        PreviewRun::Double(color, count) => word_bytes(color) + word_bytes(count),
    }
}

/// The bytes of a sequence of runs, one run after the other.
pub open spec fn stream_bytes(runs: Seq<PreviewRun>) -> Seq<u8>
    decreases runs.len(),
{
    if runs.len() == 0 {
        Seq::empty()
    } else {
        stream_bytes(runs.drop_last()) + run_bytes(runs.last())
    }
}

/// Number of 16-bit words that a sequence of runs takes up.
pub open spec fn stream_words(runs: Seq<PreviewRun>) -> nat
    decreases runs.len(),
{
    if runs.len() == 0 {
        0
    } else {
        stream_words(runs.drop_last()) + match runs.last() {
            PreviewRun::Single(_) => 1nat,
            PreviewRun::Double(_, _) => 2nat,
        }
    }
}

/// Appends a 16-bit word to `out` by byteorder's
/// `WriteBytesExt::write_u16::<LittleEndian>`. The contract claims what the
/// crate and the `Write` impl of `Vec<u8>` document: the low byte and then
/// the high byte are appended, nothing else changes, and writing to a vector
/// does not fail.
#[verifier::external_body]
fn write_word(out: &mut Vec<u8>, word: u16) -> (written: bool)
    ensures
        written,
        final(out)@ == old(out)@ + word_bytes(word),
{
    out.write_u16::<LittleEndian>(word).is_ok()
}

/// Appends the words of one run to the preview stream.
pub fn push_run(pixels: &mut Vec<u8>, run: PreviewRun)
    ensures
        final(pixels)@ == old(pixels)@ + run_bytes(run),
{
    match run {
        PreviewRun::Single(x) => {
            write_word(pixels, x);
        },
        PreviewRun::Double(x, n) => {
            write_word(pixels, x);
            write_word(pixels, n);
            assert(pixels@ == old(pixels)@ + (word_bytes(x) + word_bytes(n)));
        },
    }
}

/// The preview stream of a whole sequence of runs.
pub fn preview_stream(runs: &[PreviewRun]) -> (pixels: Vec<u8>)
    ensures
        pixels@ == stream_bytes(runs@),
{
    let mut pixels: Vec<u8> = Vec::new();
    let mut i: usize = 0;
    while i < runs.len()
        invariant
            i <= runs.len(),
            pixels@ == stream_bytes(runs@.take(i as int)),
        decreases runs.len() - i,
    {
        assert(runs@.take(i + 1).drop_last() == runs@.take(i as int));
        push_run(&mut pixels, runs[i]);
        i = i + 1;
    }
    assert(runs@.take(runs.len() as int) == runs@);
    pixels
}

/// A word is its low byte plus 256 times its high byte.
pub proof fn lemma_word_bytes_little_endian(word: u16)
    ensures
        word_bytes(word).len() == 2,
        word_bytes(word)[0] + 256 * word_bytes(word)[1] == word,
{
}

/// Runs pushed one after the other give the stream of the whole sequence:
/// the stream of two sequences joined is the two streams joined.
pub proof fn lemma_stream_concat(front: Seq<PreviewRun>, back: Seq<PreviewRun>)
    ensures
        stream_bytes(front + back) == stream_bytes(front) + stream_bytes(back),
    decreases back.len(),
{
    if back.len() == 0 {
        assert(front + back == front);
    } else {
        lemma_stream_concat(front, back.drop_last());
        assert((front + back).drop_last() == front + back.drop_last());
        assert((front + back).last() == back.last());
    }
}

/// A stream holds two bytes for each word of its runs.
pub proof fn lemma_stream_len(runs: Seq<PreviewRun>)
    ensures
        stream_bytes(runs).len() == 2 * stream_words(runs),
        runs.len() <= stream_words(runs) <= 2 * runs.len(),
    decreases runs.len(),
{
    if runs.len() > 0 {
        lemma_stream_len(runs.drop_last());
    }
}

} // verus!
