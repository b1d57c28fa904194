//! Framing of the sensor's data: sixteen-bit words, most significant byte
//! first, each followed by the checksum of its two bytes.

use crate::checksum::{crc8, spec_crc8};
use vstd::prelude::*;
use vstd::slice::slice_subrange;

verus! {

/// Number of bytes a word takes on the wire.
pub const WORD_FRAME_LEN: usize = 3;

/// More significant byte of a word.
pub open spec fn spec_high_byte(word: u16) -> u8 {
    (word / 256) as u8
}

/// Less significant byte of a word.
pub open spec fn spec_low_byte(word: u16) -> u8 {
    (word % 256) as u8
}

/// The three bytes that carry one word.
pub open spec fn spec_word_frame(word: u16) -> Seq<u8> {
    seq![
        spec_high_byte(word),
        spec_low_byte(word),
        spec_crc8(seq![spec_high_byte(word), spec_low_byte(word)]),
    ]
}

/// The bytes that carry a sequence of words.
pub open spec fn spec_encode_words(words: Seq<u16>) -> Seq<u8> {
    Seq::new(
        3 * words.len(),
        |i: int|
            if i % 3 == 0 {
                spec_high_byte(words[i / 3])
            } else if i % 3 == 1 {
                spec_low_byte(words[i / 3])
            } else {
                spec_crc8(seq![spec_high_byte(words[i / 3]), spec_low_byte(words[i / 3])])
            },
    )
}

/// The checksum behind the word at place `index` matches the word.
pub open spec fn spec_word_valid(frame: Seq<u8>, index: int) -> bool {
    frame[3 * index + 2] == spec_crc8(frame.subrange(3 * index, 3 * index + 2))
}

/// The word at place `index`.
pub open spec fn spec_word_at(frame: Seq<u8>, index: int) -> u16 {
    (frame[3 * index] * 256 + frame[3 * index + 1]) as u16
}

/// The frame is made of whole words and every checksum in it matches.
pub open spec fn spec_frame_valid(frame: Seq<u8>) -> bool {
    &&& frame.len() % 3 == 0
    &&& forall|index: int| 0 <= index < frame.len() / 3 ==> #[trigger] spec_word_valid(frame, index)
}

/// The words a frame carries, or nothing if the frame is not valid.
pub open spec fn spec_decode_words(frame: Seq<u8>) -> Option<Seq<u16>> {
    if spec_frame_valid(frame) {
        Some(Seq::new(frame.len() / 3, |index: int| spec_word_at(frame, index)))
    } else {
        None
    }
}

/// Decoding what was encoded gives the words back.
pub proof fn lemma_words_round_trip(words: Seq<u16>)
    ensures
        spec_decode_words(spec_encode_words(words)) == Some(words),
{
    let frame = spec_encode_words(words);
    assert forall|index: int| 0 <= index < frame.len() / 3 implies #[trigger] spec_word_valid(
        frame,
        index,
    ) by {
        let word = words[index];
        assert(frame[3 * index] == spec_high_byte(word));
        assert(frame[3 * index + 1] == spec_low_byte(word));
        assert(frame.subrange(3 * index, 3 * index + 2) =~= seq![
            spec_high_byte(word),
            spec_low_byte(word),
        ]);
    }
    let decoded = Seq::new(frame.len() / 3, |index: int| spec_word_at(frame, index));
    assert forall|index: int| 0 <= index < words.len() implies decoded[index] == words[index] by {
        assert(frame[3 * index] == spec_high_byte(words[index]));
        assert(frame[3 * index + 1] == spec_low_byte(words[index]));
    }
    assert(decoded =~= words);
}

/// Only one frame decodes to given words: the one that encoding them
/// gives.
pub proof fn lemma_valid_frame_is_encoding(frame: Seq<u8>, words: Seq<u16>)
    requires
        spec_decode_words(frame) == Some(words),
    ensures
        frame == spec_encode_words(words),
{
    let encoded = spec_encode_words(words);
    assert(frame.len() == encoded.len());
    assert forall|i: int| 0 <= i < frame.len() implies frame[i] == encoded[i] by {
        let index = i / 3;
        assert(spec_word_valid(frame, index));
        assert(words[index] == spec_word_at(frame, index));
        assert(frame.subrange(3 * index, 3 * index + 2) =~= seq![
            frame[3 * index],
            frame[3 * index + 1],
        ]);
    }
    assert(frame =~= encoded);
}

/// Encodes one word: its two bytes and their checksum.
pub fn encode_word(word: u16) -> (frame: Vec<u8>)
    ensures
        frame@ == spec_word_frame(word),
{
    let mut frame: Vec<u8> = Vec::new();
    frame.push((word / 256) as u8);
    frame.push((word % 256) as u8);
    assert(frame@ =~= seq![spec_high_byte(word), spec_low_byte(word)]);
    let crc = crc8(frame.as_slice());
    frame.push(crc);
    assert(frame@ =~= spec_word_frame(word));
    frame
}

/// Encodes words one after the other.
pub fn encode_words(words: &[u16]) -> (frame: Vec<u8>)
    ensures
        frame@ == spec_encode_words(words@),
{
    let mut frame: Vec<u8> = Vec::new();
    let mut index: usize = 0;
    while index < words.len()
        invariant
            index <= words@.len(),
            frame@ == spec_encode_words(words@.take(index as int)),
        decreases words@.len() - index,
    {
        let mut word_frame = encode_word(words[index]);
        let ghost before = frame@;
        frame.append(&mut word_frame);
        proof {
            let shorter = words@.take(index as int);
            let longer = words@.take(index + 1);
            assert(frame@ == before + spec_word_frame(words@[index as int]));
            assert(frame@ =~= spec_encode_words(longer)) by {
                assert forall|i: int| 0 <= i < frame@.len() implies frame@[i] == spec_encode_words(
                    longer,
                )[i] by {
                    if i < 3 * index {
                        assert(longer[i / 3] == shorter[i / 3]);
                        assert(frame@[i] == spec_encode_words(shorter)[i]);
                    } else {
                        assert(i / 3 == index);
                        assert(longer[i / 3] == words@[index as int]);
                    }
                }
            }
        }
        index = index + 1;
    }
    assert(words@.take(index as int) =~= words@);
    frame
}

/// Checks every checksum of a frame and hands out the words it carries.
/// A frame that is not made of whole words, or in which any checksum does
/// not match, gives nothing.
pub fn decode_words(frame: &[u8]) -> (words: Option<Vec<u16>>)
    ensures
        words is Some <==> spec_frame_valid(frame@),
        words matches Some(w) ==> Some(w@) == spec_decode_words(frame@),
{
    let len: usize = frame.len();
    if len % 3 != 0 {
        return None;
    }
    let count: usize = len / 3;
    let mut words: Vec<u16> = Vec::new();
    let mut index: usize = 0;
    while index < count
        invariant
            frame@.len() == len,
            len == 3 * count,
            index <= count,
            words@.len() == index,
            forall|k: int| 0 <= k < index ==> #[trigger] spec_word_valid(frame@, k),
            forall|k: int| 0 <= k < index ==> words@[k] == spec_word_at(frame@, k),
        decreases count - index,
    {
        let start: usize = 3 * index;
        let crc = crc8(slice_subrange(frame, start, start + 2));
        if frame[start + 2] != crc {
            assert(!spec_word_valid(frame@, index as int));
            return None;
        }
        let word: u16 = (frame[start] as u16) * 256 + frame[start + 1] as u16;
        words.push(word);
        index = index + 1;
    }
    assert(frame@.len() / 3 == count);
    assert(words@ =~= Seq::new(frame@.len() / 3, |k: int| spec_word_at(frame@, k)));
    Some(words)
}

} // verus!
