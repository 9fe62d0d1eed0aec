//! Writes a payload into the low bits of an image's channel samples.

use crate::error::SteganoError;
use crate::protocol::{
    embed, embedded, frame, framed, has_terminator, hidden_payload, law_round_trip, pair_at,
    terminator,
};
use crate::raster::{
    height_of, image_from_vec_rgb, image_height, image_pixel, image_width, readable,
    require_readable, rgb_samples, sample_count, samples_of, width_of,
};
use vstd::prelude::*;
use vstd::utf8::encode_utf8;

verus! {

/// Holds one image and the message that is to be written into it.
pub struct Encoder {
    image: image::DynamicImage,
    buf: Vec<u8>,
}

impl Encoder {
    /// The image can be read, and the pending message never needs more
    /// samples than the image has.
    #[verifier::type_invariant]
    spec fn fits(&self) -> bool {
        &&& readable(self.image)
        &&& 4 * self.buf@.len() <= sample_count(self.image)
    }

    /// The image that this encoder writes into.
    pub closed spec fn source(&self) -> image::DynamicImage {
        self.image
    }

    /// The pending message: the last payload that was accepted, followed by the
    /// terminator. Empty as long as no payload has been accepted.
    pub closed spec fn pending(&self) -> Seq<u8> {
        self.buf@
    }

    /// How many channel samples the image has. Each carries two bits, so a
    /// message of `n` bytes needs `4 * n` of them.
    pub open spec fn capacity(&self) -> nat {
        sample_count(self.source())
    }

    /// The bytes that `encode` writes: the pending message, or the terminator
    /// alone where no payload has been accepted.
    pub open spec fn message(&self) -> Seq<u8> {
        if self.pending().len() == 0 {
            terminator()
        } else {
            self.pending()
        }
    }

    /// The channel samples of the image that `encode` returns. An image of
    /// fewer than four pixels has no room even for the terminator: with no
    /// payload accepted, its samples stay as they are.
    pub open spec fn encoded_samples(&self) -> Seq<u8> {
        if 4 * self.message().len() <= self.capacity() {
            embedded(rgb_samples(self.source()), self.message())
        } else {
            rgb_samples(self.source())
        }
    }

    /// An encoder for `image`, with no payload yet. Fails with `BadFormat` on
    /// an image whose samples are not integers.
    pub fn new(image: image::DynamicImage) -> (r: Result<Self, SteganoError>)
        ensures
            r is Ok <==> readable(image),
            r matches Ok(encoder) ==> encoder.source() == image && encoder.pending() == Seq::<
                u8,
            >::empty(),
            r matches Err(e) ==> e is BadFormat,
    {
        match require_readable(&image) {
            Ok(()) => Ok(Encoder { image, buf: Vec::new() }),
            Err(e) => Err(e),
        }
    }

    /// Makes the UTF-8 bytes of `message` the payload, as `try_update_from_bytes` does.
    pub fn try_update_message(&mut self, message: &str) -> (r: Result<(), SteganoError>)
        ensures
            final(self).source() == old(self).source(),
            r is Ok <==> 4 * (encode_utf8(message@).len() + 3) <= old(self).capacity(),
            r is Ok ==> final(self).pending() == framed(encode_utf8(message@)),
            r matches Err(e) ==> e is MessageTooLong && final(self).pending() == old(
                self,
            ).pending(),
    {
        self.try_update_from_bytes(message.as_bytes())
    }

    /// Makes `message` the payload, if the image has four channel samples for
    /// each of its bytes and of the three bytes of the terminator. Otherwise
    /// fails with `MessageTooLong` and keeps what was pending.
    pub fn try_update_from_bytes(&mut self, message: &[u8]) -> (r: Result<(), SteganoError>)
        ensures
            final(self).source() == old(self).source(),
            r is Ok <==> 4 * (message@.len() + 3) <= old(self).capacity(),
            r is Ok ==> final(self).pending() == framed(message@),
            r matches Err(e) ==> e is MessageTooLong && final(self).pending() == old(
                self,
            ).pending(),
    {
        proof {
            use_type_invariant(&*self);
        }
        let message = frame(message);
        let width: u32 = width_of(&self.image);
        let height: u32 = height_of(&self.image);
        let length: usize = message.len();
        assert((width as u128) * (height as u128) <= 0xFFFF_FFFF * 0xFFFF_FFFF) by (nonlinear_arith)
            requires
                width <= 0xFFFF_FFFF,
                height <= 0xFFFF_FFFF,
        ;
        let needed: u128 = (length as u128) * 4;
        let available: u128 = 3 * ((width as u128) * (height as u128));
        if needed > available {
            return Err(SteganoError::MessageTooLong);
        }
        self.buf = message;
        Ok(())
    }

    /// Writes the message into the low two bits of the image's first channel
    /// samples and returns the result as an 8-bit RGB image of the same size,
    /// which a decoder accepts.
    /// Every sample keeps its upper six bits, and the samples after the
    /// message are as they were.
    ///
    /// The returned image has no alpha channel: every pixel reads as opaque.
    ///
    /// An image without rows whose width is too large for an RGB image to be
    /// built has no samples to write into, and is returned as it is.
    pub fn encode(self) -> (out: image::DynamicImage)
        ensures
            readable(out),
            image_width(out) == image_width(self.source()),
            image_height(out) == image_height(self.source()),
            rgb_samples(out) == self.encoded_samples(),
            rgb_samples(out).len() == self.capacity(),
            forall|x: u32, y: u32|
                x < image_width(out) && y < image_height(out) ==> (#[trigger] image_pixel(
                    out,
                    x,
                    y,
                )).3 == 255,
            forall|i: int|
                0 <= i < self.capacity() ==> #[trigger] rgb_samples(out)[i] & 0xFC == rgb_samples(
                    self.source(),
                )[i] & 0xFC,
            forall|i: int|
                4 * self.message().len() <= i < self.capacity() ==> #[trigger] rgb_samples(out)[i]
                    == rgb_samples(self.source())[i],
            forall|i: int|
                0 <= i < 4 * self.message().len() <= self.capacity() ==> #[trigger] rgb_samples(
                    out,
                )[i] & 3 == pair_at(self.message(), i),
    {
        proof {
            use_type_invariant(&self);
        }
        let width: u32 = width_of(&self.image);
        let height: u32 = height_of(&self.image);
        let mut samples = samples_of(&self.image);
        let message = if self.buf.len() == 0 {
            frame(&[])
        } else {
            self.buf
        };
        assert(message@ == self.message());
        let _ = embed(&mut samples, message.as_slice());
        assert(samples@ == self.encoded_samples());
        assert(samples@.len() == samples.len() <= usize::MAX);
        match image_from_vec_rgb(samples, width, height) {
            Some(out) => out,
            None => {
                assert(height == 0) by (nonlinear_arith)
                    requires
                        3 * (width * height) < 3 * width,
                ;
                assert(rgb_samples(self.image) =~= self.encoded_samples());
                self.image
            },
        }
    }
}

/// What is encoded can be decoded: where an encoder holds `payload`, which
/// holds no terminator, and its image has at least one channel sample more
/// than the payload and the terminator need, the image that `encode` returns
/// carries exactly `payload`.
pub proof fn law_encode_then_decode(encoder: Encoder, payload: Seq<u8>)
    requires
        encoder.pending() == framed(payload),
        4 * (payload.len() + 3) < encoder.capacity(),
        !has_terminator(payload),
    ensures
        hidden_payload(encoder.encoded_samples()) == Some(payload),
{
    law_round_trip(rgb_samples(encoder.source()), payload);
}

} // verus!
