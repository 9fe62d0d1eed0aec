//! The wire format of a hidden payload.
//!
//! A payload is followed by the three bytes `S`, `T`, `O` and written two bits
//! per channel sample, most-significant pair first. Four samples carry one byte.
//! The channel samples are a plain sequence of bytes here: nothing in this
//! module knows of images.

use crate::error::SteganoError;
use vstd::prelude::*;

verus! {

/// First byte of the terminator, `S`.
pub const TERMINATOR_0: u8 = 0x53;

/// Second byte of the terminator, `T`.
pub const TERMINATOR_1: u8 = 0x54;

/// Third byte of the terminator, `O`.
pub const TERMINATOR_2: u8 = 0x4F;

/// The marker that ends every hidden payload.
pub open spec fn terminator() -> Seq<u8> {
    seq![TERMINATOR_0, TERMINATOR_1, TERMINATOR_2]
}

/// A payload as it is written: followed by the terminator, nothing escaped.
pub open spec fn framed(payload: Seq<u8>) -> Seq<u8> {
    payload + terminator()
}

/// What is left of `bytes` without its last three bytes (nothing, if it has fewer).
pub open spec fn unframed(bytes: Seq<u8>) -> Seq<u8> {
    if bytes.len() >= 3 {
        bytes.take(bytes.len() - 3)
    } else {
        Seq::empty()
    }
}

/// The two bits of `byte` at `position`: position 0 is bits 7-6, position 3 is bits 1-0.
pub open spec fn bit_pair(byte: u8, position: int) -> u8 {
    if position == 0 {
        (byte >> 6u8) & 3
    } else if position == 1 {
        (byte >> 4u8) & 3
    } else if position == 2 {
        (byte >> 2u8) & 3
    } else {
        byte & 3
    }
}

/// The two bits that channel sample `index` carries of the written bytes `message`.
pub open spec fn pair_at(message: Seq<u8>, index: int) -> u8 {
    bit_pair(message[index / 4], index % 4)
}

/// A channel sample with its two low bits replaced by `pair`.
pub open spec fn merged(sample: u8, pair: u8) -> u8 {
    (sample & 0xFC) | pair
}

/// The channel samples after `message` has been written into them: the first
/// `4 * message.len()` samples carry it, the others are as before.
pub open spec fn embedded(samples: Seq<u8>, message: Seq<u8>) -> Seq<u8> {
    Seq::new(
        samples.len(),
        |i: int|
            if i < 4 * message.len() {
                merged(samples[i], pair_at(message, i))
            } else {
                samples[i]
            },
    )
}

/// The byte that four consecutive channel samples carry in their low bits.
pub open spec fn assembled(s0: u8, s1: u8, s2: u8, s3: u8) -> u8 {
    ((s0 & 3) << 6u8) | ((s1 & 3) << 4u8) | ((s2 & 3) << 2u8) | (s3 & 3)
}

/// The byte carried by the samples `4 * k .. 4 * k + 4`.
pub open spec fn hidden_byte(samples: Seq<u8>, k: int) -> u8 {
    assembled(samples[4 * k], samples[4 * k + 1], samples[4 * k + 2], samples[4 * k + 3])
}

/// How many bytes a scan over `count` samples completes. A byte is complete
/// only once the sample after its fourth has been reached, so a run of samples
/// that ends with a byte's fourth sample does not yield that byte.
pub open spec fn completed(count: nat) -> nat {
    if count == 0 {
        0
    } else {
        ((count - 1) / 4) as nat
    }
}

/// The bytes that a scan over all of `samples` completes, in order.
pub open spec fn scanned(samples: Seq<u8>) -> Seq<u8> {
    Seq::new(completed(samples.len()), |k: int| hidden_byte(samples, k))
}

/// The three bytes of `bytes` before position `end` are the terminator.
pub open spec fn ends_at(bytes: Seq<u8>, end: int) -> bool {
    &&& 3 <= end <= bytes.len()
    &&& bytes[end - 3] == TERMINATOR_0
    &&& bytes[end - 2] == TERMINATOR_1
    &&& bytes[end - 1] == TERMINATOR_2
}

/// The terminator occurs somewhere in `bytes`.
pub open spec fn has_terminator(bytes: Seq<u8>) -> bool {
    exists|end: int| ends_at(bytes, end)
}

/// `end` is where the first terminator in `bytes` ends.
pub open spec fn first_end(bytes: Seq<u8>, end: int) -> bool {
    &&& ends_at(bytes, end)
    &&& forall|e: int| ends_at(bytes, e) ==> end <= e
}

/// `bytes` up to the end of its first terminator, or `None` where it holds none.
pub open spec fn cut(bytes: Seq<u8>) -> Option<Seq<u8>> {
    if has_terminator(bytes) {
        Some(bytes.take(choose|end: int| first_end(bytes, end)))
    } else {
        None
    }
}

/// The written message that `samples` carry, terminator included: the scanned
/// bytes up to the end of the first terminator. `None` where the scanned bytes
/// hold no terminator.
pub open spec fn parsed(samples: Seq<u8>) -> Option<Seq<u8>> {
    cut(scanned(samples))
}

/// The payload that `samples` carry, or `None` where they carry none.
pub open spec fn hidden_payload(samples: Seq<u8>) -> Option<Seq<u8>> {
    match parsed(samples) {
        Some(message) => Some(unframed(message)),
        None => None,
    }
}

/// The accumulator after the low bits of `sample` have been shifted into it.
pub open spec fn folded(accumulator: u8, sample: u8) -> u8 {
    (accumulator << 2u8) | (sample & 3)
}

/// The accumulator after `count` samples from `base` on have been folded into
/// an empty one.
pub open spec fn accumulated(samples: Seq<u8>, base: int, count: nat) -> u8
    decreases count,
{
    if count == 0 {
        0
    } else {
        folded(accumulated(samples, base, (count - 1) as nat), samples[base + count - 1])
    }
}

/// Appends the terminator to a payload.
pub fn frame(payload: &[u8]) -> (message: Vec<u8>)
    ensures
        message@ == framed(payload@),
{
    let mut message: Vec<u8> = Vec::new();
    let mut i: usize = 0;
    while i < payload.len()
        invariant
            i <= payload.len(),
            message@ == payload@.take(i as int),
        decreases payload.len() - i,
    {
        message.push(payload[i]);
        i = i + 1;
    }
    message.push(TERMINATOR_0);
    message.push(TERMINATOR_1);
    message.push(TERMINATOR_2);
    message
}

/// Drops the last three bytes of a message (all of them, if it has fewer).
pub fn unframe(message: Vec<u8>) -> (payload: Vec<u8>)
    ensures
        payload@ == unframed(message@),
{
    let mut payload = message;
    let keep: usize = if payload.len() >= 3 {
        payload.len() - 3
    } else {
        0
    };
    payload.truncate(keep);
    payload
}

/// The two bits of `byte` at `position`, as a value below 4.
pub fn extract_pair(byte: u8, position: usize) -> (pair: u8)
    requires
        position < 4,
    ensures
        pair == bit_pair(byte, position as int),
        pair < 4,
{
    let shift: u8 = if position == 0 {
        6
    } else if position == 1 {
        4
    } else if position == 2 {
        2
    } else {
        0
    };
    let pair: u8 = (byte >> shift) & 3;
    proof {
        assert((byte >> 0u8) & 3 == byte & 3) by (bit_vector);
        assert(((byte >> shift) & 3) < 4) by (bit_vector);
    }
    pair
}

/// The two bits that channel sample `index` is to carry of `message`.
pub fn pair_for_sample(message: &[u8], index: usize) -> (pair: u8)
    requires
        index < 4 * message@.len(),
    ensures
        pair == pair_at(message@, index as int),
        pair < 4,
{
    extract_pair(message[index / 4], index % 4)
}

/// Writes `pair` into the two low bits of `sample`.
pub fn merge(sample: u8, pair: u8) -> (out: u8)
    ensures
        out == merged(sample, pair),
        pair < 4 ==> out & 0xFC == sample & 0xFC && out & 3 == pair,
{
    let out: u8 = (sample & 0xFC) | pair;
    proof {
        if pair < 4 {
            lemma_merged(sample, pair);
        }
    }
    out
}

/// Merging keeps the upper six bits of the sample and sets the lower two to the pair.
pub proof fn lemma_merged(sample: u8, pair: u8)
    requires
        pair < 4,
    ensures
        merged(sample, pair) & 0xFC == sample & 0xFC,
        merged(sample, pair) & 3 == pair,
{
    assert(((sample & 0xFC) | pair) & 0xFC == sample & 0xFC) by (bit_vector)
        requires
            pair < 4,
    ;
    assert(((sample & 0xFC) | pair) & 3 == pair) by (bit_vector)
        requires
            pair < 4,
    ;
}

/// Every bit pair is below 4.
pub proof fn lemma_bit_pair_bound(byte: u8, position: int)
    ensures
        bit_pair(byte, position) < 4,
{
    assert(((byte >> 6u8) & 3) < 4) by (bit_vector);
    assert(((byte >> 4u8) & 3) < 4) by (bit_vector);
    assert(((byte >> 2u8) & 3) < 4) by (bit_vector);
    assert((byte & 3) < 4) by (bit_vector);
}

/// Writes `message` into the low bits of the first `4 * message.len()`
/// samples, if there are that many. Otherwise fails with `MessageTooLong` and
/// changes nothing.
pub fn embed(samples: &mut Vec<u8>, message: &[u8]) -> (r: Result<(), SteganoError>)
    ensures
        r is Ok <==> 4 * message@.len() <= old(samples)@.len(),
        r is Ok ==> final(samples)@ == embedded(old(samples)@, message@),
        r matches Err(e) ==> e is MessageTooLong && final(samples)@ == old(samples)@,
        final(samples)@.len() == old(samples)@.len(),
        forall|i: int|
            0 <= i < old(samples)@.len() ==> #[trigger] final(samples)@[i] & 0xFC == old(
                samples,
            )@[i] & 0xFC,
        forall|i: int|
            r is Ok && 0 <= i < 4 * message@.len() ==> #[trigger] final(samples)@[i] & 3
                == pair_at(message@, i),
        forall|i: int|
            4 * message@.len() <= i < old(samples)@.len() ==> #[trigger] final(samples)@[i] == old(
                samples,
            )@[i],
{
    if message.len() > samples.len() / 4 {
        return Err(SteganoError::MessageTooLong);
    }
    let count: usize = message.len() * 4;
    let mut i: usize = 0;
    while i < count
        invariant
            i <= count,
            count == 4 * message@.len(),
            count <= samples@.len(),
            samples@.len() == old(samples)@.len(),
            forall|j: int|
                0 <= j < i ==> #[trigger] samples@[j] == merged(
                    old(samples)@[j],
                    pair_at(message@, j),
                ),
            forall|j: int| i <= j < samples@.len() ==> #[trigger] samples@[j] == old(samples)@[j],
        decreases count - i,
    {
        let pair = pair_for_sample(message, i);
        let sample = samples[i];
        samples.set(i, merge(sample, pair));
        i = i + 1;
    }
    proof {
        assert(samples@ =~= embedded(old(samples)@, message@));
        lemma_embedded(old(samples)@, message@);
    }
    Ok(())
}

/// What writing a message changes in the samples, and what it leaves alone:
/// the length stays; every sample keeps its upper six bits; the first
/// `4 * message.len()` samples get the message's bit pairs as their low bits;
/// the samples after them are untouched.
pub proof fn lemma_embedded(samples: Seq<u8>, message: Seq<u8>)
    requires
        4 * message.len() <= samples.len(),
    ensures
        embedded(samples, message).len() == samples.len(),
        forall|i: int|
            0 <= i < samples.len() ==> #[trigger] embedded(samples, message)[i] & 0xFC
                == samples[i] & 0xFC,
        forall|i: int|
            0 <= i < 4 * message.len() ==> #[trigger] embedded(samples, message)[i] & 3 == pair_at(
                message,
                i,
            ),
        forall|i: int|
            4 * message.len() <= i < samples.len() ==> #[trigger] embedded(samples, message)[i]
                == samples[i],
{
    let out = embedded(samples, message);
    assert forall|i: int| 0 <= i < samples.len() implies #[trigger] out[i] & 0xFC == samples[i]
        & 0xFC by {
        if i < 4 * message.len() {
            lemma_bit_pair_bound(message[i / 4], i % 4);
            lemma_merged(samples[i], pair_at(message, i));
        }
    }
    assert forall|i: int| 0 <= i < 4 * message.len() implies #[trigger] out[i] & 3 == pair_at(
        message,
        i,
    ) by {
        lemma_bit_pair_bound(message[i / 4], i % 4);
        lemma_merged(samples[i], pair_at(message, i));
    }
}

/// Shifts the low bits of `sample` into the accumulator.
pub fn fold(accumulator: u8, sample: u8) -> (out: u8)
    ensures
        out == folded(accumulator, sample),
{
    (accumulator << 2u8) | (sample & 3)
}

/// Whether the last three bytes are the terminator.
pub fn ends_with_terminator(bytes: &Vec<u8>) -> (found: bool)
    ensures
        found == ends_at(bytes@, bytes@.len() as int),
{
    let n: usize = bytes.len();
    n >= 3 && bytes[n - 3] == TERMINATOR_0 && bytes[n - 2] == TERMINATOR_1 && bytes[n - 1]
        == TERMINATOR_2
}

/// Four folds into an empty accumulator give the byte that the four samples carry.
pub proof fn lemma_four_folds(samples: Seq<u8>, k: int)
    ensures
        accumulated(samples, 4 * k, 4) == hidden_byte(samples, k),
{
    let s0 = samples[4 * k];
    let s1 = samples[4 * k + 1];
    let s2 = samples[4 * k + 2];
    let s3 = samples[4 * k + 3];
    reveal_with_fuel(accumulated, 5);
    assert(accumulated(samples, 4 * k, 4) == folded(folded(folded(folded(0, s0), s1), s2), s3));
    assert((((((((0u8 << 2u8) | (s0 & 3)) << 2u8) | (s1 & 3)) << 2u8) | (s2 & 3)) << 2u8) | (s3 & 3)
        == ((s0 & 3) << 6u8) | ((s1 & 3) << 4u8) | ((s2 & 3) << 2u8) | (s3 & 3)) by (bit_vector);
}

/// Where the first terminator of `bytes` ends at `end`, `cut` yields the bytes before `end`.
pub proof fn lemma_cut_at(bytes: Seq<u8>, end: int)
    requires
        first_end(bytes, end),
    ensures
        cut(bytes) == Some(bytes.take(end)),
{
    assert(ends_at(bytes, end));
    let chosen = choose|e: int| first_end(bytes, e);
    assert(first_end(bytes, chosen));
    assert(ends_at(bytes, chosen));
    assert(chosen <= end && end <= chosen);
}

/// A terminator that lies within the first `n` bytes can be told from those bytes alone.
pub proof fn lemma_ends_at_prefix(bytes: Seq<u8>, n: int, end: int)
    requires
        0 <= end <= n <= bytes.len(),
    ensures
        ends_at(bytes, end) == ends_at(bytes.take(n), end),
{
}

/// Four samples that were given the four bit pairs of a byte carry that byte.
pub proof fn lemma_byte_survives(s0: u8, s1: u8, s2: u8, s3: u8, byte: u8)
    ensures
        assembled(
            merged(s0, bit_pair(byte, 0)),
            merged(s1, bit_pair(byte, 1)),
            merged(s2, bit_pair(byte, 2)),
            merged(s3, bit_pair(byte, 3)),
        ) == byte,
{
    assert((((((s0 & 0xFC) | ((byte >> 6u8) & 3)) & 3) << 6u8) | ((((s1 & 0xFC) | ((byte >> 4u8)
        & 3)) & 3) << 4u8) | ((((s2 & 0xFC) | ((byte >> 2u8) & 3)) & 3) << 2u8) | (((s3 & 0xFC) | (
    byte & 3)) & 3)) == byte) by (bit_vector);
}

/// A scan over samples that a message was written into completes the bytes
/// of the message, as far as it completes any.
pub proof fn lemma_scanned_embedded(samples: Seq<u8>, message: Seq<u8>)
    requires
        4 * message.len() <= samples.len(),
    ensures
        forall|k: int|
            0 <= k < message.len() && k < scanned(embedded(samples, message)).len() ==> scanned(
                embedded(samples, message),
            )[k] == message[k],
        4 * message.len() < samples.len() ==> message.len() <= scanned(
            embedded(samples, message),
        ).len() && scanned(embedded(samples, message)).take(message.len() as int) == message,
{
    let written = embedded(samples, message);
    let bytes = scanned(written);
    assert forall|k: int| 0 <= k < message.len() && k < bytes.len() implies bytes[k]
        == message[k] by {
        assert(pair_at(message, 4 * k) == bit_pair(message[k], 0));
        assert(pair_at(message, 4 * k + 1) == bit_pair(message[k], 1));
        assert(pair_at(message, 4 * k + 2) == bit_pair(message[k], 2));
        assert(pair_at(message, 4 * k + 3) == bit_pair(message[k], 3));
        lemma_byte_survives(
            samples[4 * k],
            samples[4 * k + 1],
            samples[4 * k + 2],
            samples[4 * k + 3],
            message[k],
        );
    }
    if 4 * message.len() < samples.len() {
        assert(bytes.take(message.len() as int) =~= message);
    }
}

/// Bytes that hold a terminator hold a first one.
pub proof fn lemma_first_end_exists(bytes: Seq<u8>, end: int)
    requires
        ends_at(bytes, end),
    ensures
        exists|first: int| first_end(bytes, first),
    decreases end,
{
    if exists|e: int| e < end && ends_at(bytes, e) {
        let e = choose|e: int| e < end && ends_at(bytes, e);
        lemma_first_end_exists(bytes, e);
    } else {
        assert(first_end(bytes, end));
    }
}

/// Reading back what was written stops at the first terminator of the
/// written bytes: where `message` holds a terminator and the samples have at
/// least one more than the message needs, the samples with `message` written
/// into them carry `message` up to the end of its first terminator. What the
/// samples held before does not matter.
pub proof fn law_first_terminator_ends(samples: Seq<u8>, message: Seq<u8>)
    requires
        4 * message.len() < samples.len(),
        has_terminator(message),
    ensures
        parsed(embedded(samples, message)) == cut(message),
{
    let bytes = scanned(embedded(samples, message));
    let n = message.len() as int;
    lemma_scanned_embedded(samples, message);
    let witness = choose|end: int| ends_at(message, end);
    lemma_first_end_exists(message, witness);
    let first = choose|end: int| first_end(message, end);
    lemma_cut_at(message, first);
    assert(ends_at(bytes, first)) by {
        lemma_ends_at_prefix(bytes, n, first);
    }
    assert forall|e: int| ends_at(bytes, e) implies first <= e by {
        if e <= n {
            lemma_ends_at_prefix(bytes, n, e);
        }
    }
    lemma_cut_at(bytes, first);
    assert(bytes.take(first) =~= message.take(first));
}

/// Unframing undoes framing, whatever the payload holds.
pub proof fn law_unframe_frame(payload: Seq<u8>)
    ensures
        framed(payload).len() == payload.len() + 3,
        unframed(framed(payload)) == payload,
{
    assert(unframed(framed(payload)) =~= payload);
}

/// A payload that holds no terminator, followed by the terminator, is cut
/// nowhere but at its end.
pub proof fn lemma_cut_framed(payload: Seq<u8>)
    requires
        !has_terminator(payload),
    ensures
        cut(framed(payload)) == Some(framed(payload)),
{
    let message = framed(payload);
    let n = message.len() as int;
    assert(ends_at(message, n));
    assert forall|e: int| ends_at(message, e) implies n <= e by {
        if e <= payload.len() {
            assert(ends_at(payload, e));
        }
    }
    lemma_cut_at(message, n);
    assert(message.take(n) =~= message);
}

/// Round trip: a payload that holds no terminator, written into samples that
/// have at least one more than the payload and the terminator need, is read
/// back unchanged.
///
/// Both conditions are needed. A payload that holds the terminator is read
/// back only up to it. And a byte counts in the scan only once the sample
/// after it is reached, so a message that fills the samples to the last one
/// is not found.
pub proof fn law_round_trip(samples: Seq<u8>, payload: Seq<u8>)
    requires
        4 * (payload.len() + 3) < samples.len(),
        !has_terminator(payload),
    ensures
        hidden_payload(embedded(samples, framed(payload))) == Some(payload),
{
    let message = framed(payload);
    assert(ends_at(message, message.len() as int));
    law_first_terminator_ends(samples, message);
    lemma_cut_framed(payload);
    law_unframe_frame(payload);
}

/// A framed payload without its last byte holds no terminator, if the payload holds none.
pub proof fn lemma_unfinished_has_no_terminator(payload: Seq<u8>, bytes: Seq<u8>)
    requires
        !has_terminator(payload),
        bytes == framed(payload).take(payload.len() as int + 2),
    ensures
        !has_terminator(bytes),
{
    assert forall|e: int| !ends_at(bytes, e) by {
        if ends_at(bytes, e) {
            if e <= payload.len() {
                assert(ends_at(payload, e));
            } else {
                assert(bytes[e - 1] == terminator()[e - 1 - payload.len()]);
            }
        }
    }
}

/// A message that fills the samples to the last one is not read back: its
/// last byte is never completed.
pub proof fn law_full_image_is_silent(samples: Seq<u8>, payload: Seq<u8>)
    requires
        4 * (payload.len() + 3) == samples.len(),
        !has_terminator(payload),
    ensures
        hidden_payload(embedded(samples, framed(payload))) is None,
{
    let message = framed(payload);
    let bytes = scanned(embedded(samples, message));
    lemma_scanned_embedded(samples, message);
    assert(bytes.len() == payload.len() + 2);
    assert(bytes =~= message.take(payload.len() as int + 2));
    lemma_unfinished_has_no_terminator(payload, bytes);
}

/// Samples carry no payload exactly where the bytes that a scan over them
/// completes hold no terminator. That is an answer like any other: nothing
/// here is an error.
pub proof fn law_silent_without_terminator(samples: Seq<u8>)
    ensures
        hidden_payload(samples) is None <==> !has_terminator(scanned(samples)),
{
}

/// Samples that do not complete three bytes carry no payload: at least
/// thirteen samples are needed for the terminator alone.
pub proof fn law_short_is_silent(samples: Seq<u8>)
    requires
        samples.len() <= 12,
    ensures
        hidden_payload(samples) is None,
{
    assert forall|e: int| !ends_at(scanned(samples), e) by {}
}

} // verus!
