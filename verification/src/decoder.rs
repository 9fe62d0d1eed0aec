//! Recovers a payload from the low bits of an image's channel samples.

use crate::error::SteganoError;
use crate::protocol::{
    accumulated, ends_at, ends_with_terminator, fold, folded, has_terminator, hidden_payload,
    lemma_cut_at, lemma_four_folds, parsed, scanned, unframe,
};
use crate::raster::{readable, require_readable, rgb_samples, samples_of};
use vstd::prelude::*;
use vstd::utf8::{encode_utf8, valid_utf8};

verus! {

/// Calls `String::from_utf8` and drops the description of the failure. The
/// contract claims that the call succeeds exactly on valid UTF-8, and that the
/// string then consists of the given bytes.
#[verifier::external_body]
fn string_from_utf8(bytes: Vec<u8>) -> (r: Option<String>)
    ensures
        r is Some <==> valid_utf8(bytes@),
        r matches Some(text) ==> encode_utf8(text@) == bytes@,
{
    String::from_utf8(bytes).ok()
}

/// A payload recovered from an image, terminator removed.
pub struct Data {
    data: Vec<u8>,
}

impl View for Data {
    type V = Seq<u8>;

    /// The bytes of the payload.
    closed spec fn view(&self) -> Seq<u8> {
        self.data@
    }
}

impl Data {
    /// The payload as text. Fails with `ImpossibleToParse` where the payload is
    /// not valid UTF-8.
    pub fn try_as_text(self) -> (r: Result<String, SteganoError>)
        ensures
            r is Ok <==> valid_utf8(self@),
            r matches Ok(text) ==> encode_utf8(text@) == self@,
            r matches Err(e) ==> e is ImpossibleToParse,
    {
        match string_from_utf8(self.data) {
            Some(text) => Ok(text),
            None => Err(SteganoError::ImpossibleToParse),
        }
    }

    /// The payload as raw bytes.
    pub fn data(&self) -> (bytes: &Vec<u8>)
        ensures
            bytes@ == self@,
    {
        &self.data
    }
}

/// Reads hidden payloads out of one image.
pub struct Decoder {
    image: image::DynamicImage,
}

impl Decoder {
    /// The image can be read.
    #[verifier::type_invariant]
    spec fn reads(&self) -> bool {
        readable(self.image)
    }

    /// The image that this decoder reads.
    pub closed spec fn source(&self) -> image::DynamicImage {
        self.image
    }

    /// A decoder for `image`. Fails with `BadFormat` on an image whose samples
    /// are not integers.
    pub fn new(image: image::DynamicImage) -> (r: Result<Self, SteganoError>)
        ensures
            r is Ok <==> readable(image),
            r matches Ok(decoder) ==> decoder.source() == image,
            r matches Err(e) ==> e is BadFormat,
    {
        match require_readable(&image) {
            Ok(()) => Ok(Decoder { image }),
            Err(e) => Err(e),
        }
    }

    /// Recovers the payload that the image carries. `Ok(None)` where the image
    /// carries none: that is an answer, not a failure, and this function never
    /// returns an error.
    pub fn decode(self) -> (r: Result<Option<Data>, SteganoError>)
        ensures
            r is Ok,
            r matches Ok(found) ==> match found {
                Some(data) => hidden_payload(rgb_samples(self.source())) == Some(data@),
                None => hidden_payload(rgb_samples(self.source())) is None,
            },
    {
        proof {
            use_type_invariant(&self);
        }
        let samples = samples_of(&self.image);
        match self.parse(samples.as_slice()) {
            Ok(message) => Ok(Some(Data { data: unframe(message) })),
            Err(_) => Ok(None),
        }
    }

    /// Scans channel samples for a terminated message.
    ///
    /// The samples are taken four at a time; each four give one byte, most
    /// significant pair first. A byte counts once the sample after it has been
    /// reached. The scan ends where the bytes so far end with the terminator,
    /// and returns them, terminator included. Where the samples run out first,
    /// the result is `ImpossibleToParse`.
    pub fn parse(&self, bytes: &[u8]) -> (r: Result<Vec<u8>, SteganoError>)
        ensures
            match r {
                Ok(message) => parsed(bytes@) == Some(message@),
                Err(e) => parsed(bytes@) is None && e is ImpossibleToParse,
            },
    {
        let ghost all = scanned(bytes@);
        let mut output: Vec<u8> = Vec::new();
        let mut accumulator: u8 = 0;
        let mut bit_count: usize = 0;
        let mut i: usize = 0;
        while i < bytes.len()
            invariant
                i <= bytes@.len(),
                bit_count <= 4,
                i == 4 * output@.len() + bit_count,
                i > 0 ==> bit_count >= 1,
                all == scanned(bytes@),
                accumulator == accumulated(bytes@, 4 * (output@.len() as int), bit_count as nat),
                output@.len() <= all.len(),
                output@ == all.take(output@.len() as int),
                forall|end: int| 0 <= end <= output@.len() ==> !ends_at(all, end),
            decreases bytes@.len() - i,
        {
            if bit_count == 4 {
                proof {
                    lemma_four_folds(bytes@, output@.len() as int);
                }
                output.push(accumulator);
                accumulator = 0;
                bit_count = 0;
                assert(output@ =~= all.take(output@.len() as int));
                if ends_with_terminator(&output) {
                    proof {
                        let end = output@.len() as int;
                        assert(ends_at(all, end));
                        assert forall|e: int| ends_at(all, e) implies end <= e by {
                            if e < end {
                                assert(!ends_at(all, e));
                            }
                        }
                        lemma_cut_at(all, end);
                    }
                    return Ok(output);
                }
            }
            proof {
                let base = 4 * (output@.len() as int);
                assert(accumulated(bytes@, base, (bit_count + 1) as nat) == folded(
                    accumulated(bytes@, base, bit_count as nat),
                    bytes@[base + bit_count],
                ));
            }
            accumulator = fold(accumulator, bytes[i]);
            bit_count = bit_count + 1;
            i = i + 1;
        }
        proof {
            assert(output@.len() == all.len());
            assert forall|end: int| !ends_at(all, end) by {
                if 0 <= end <= output@.len() {
                    assert(!ends_at(all, end));
                }
            }
            assert(!has_terminator(all));
        }
        Err(SteganoError::ImpossibleToParse)
    }
}

} // verus!
