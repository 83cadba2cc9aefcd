//! Counting the red pixels of an image.

use crate::status::{answer_view, Status};
use crate::text::{decimal, digits_of, lemma_filter_step, string_of};
use vstd::prelude::*;

verus! {

/// Why an upload gave no pixels.
#[derive(Clone, Copy, Debug, PartialEq, Eq, Structural)]
pub enum ImageFault {
    /// The bytes could not be read while the format was looked for.
    Unreadable,
    /// The bytes are no image that can be decoded.
    Rejected,
}

/// The red, green and blue of one pixel.
pub type Pixel = (u8, u8, u8);

/// The pixels that some bytes decode to, row by row, or why they decode to
/// none.
pub uninterp spec fn image_pixels(bytes: Seq<u8>) -> Result<Seq<Pixel>, ImageFault>;

/// What the result of decoding holds.
pub open spec fn pixels_view(decoded: Result<Vec<Pixel>, ImageFault>) -> Result<
    Seq<Pixel>,
    ImageFault,
> {
    match decoded {
        Ok(pixels) => Ok(pixels@),
        Err(fault) => Err(fault),
    }
}

/// The image crate's `Reader::with_guessed_format` and `Reader::decode` on
/// the bytes, and `GenericImageView::pixels` on the image, each pixel given
/// by its first three channels. A failure of the first call and one of the
/// second are told apart. The outcome depends on the bytes alone and is
/// named, not spelt out.
#[verifier::external_body]
pub(crate) fn decode_image(buffer: Vec<u8>) -> (decoded: Result<Vec<Pixel>, ImageFault>)
    ensures
        pixels_view(decoded) == image_pixels(buffer@),
{
    let reader = match image::io::Reader::new(std::io::Cursor::new(buffer)).with_guessed_format() {
        Ok(reader) => reader,
        Err(_) => return Err(ImageFault::Unreadable),
    };
    match reader.decode() {
        Ok(image) => Ok(
            image::GenericImageView::pixels(&image).map(|(_, _, p)| (p[0], p[1], p[2])).collect(),
        ),
        Err(_) => Err(ImageFault::Rejected),
    }
}

/// A pixel is red when its red is more than its green and blue together.
pub open spec fn is_red(pixel: Pixel) -> bool {
    pixel.0 > pixel.1 + pixel.2
}

/// How many of some pixels are red.
pub open spec fn red_count(pixels: Seq<Pixel>) -> nat {
    pixels.filter(|p: Pixel| is_red(p)).len()
}

/// Counts the red pixels.
pub fn count_red(pixels: &Vec<Pixel>) -> (count: usize)
    ensures
        count == red_count(pixels@),
{
    let mut count: usize = 0;
    let mut i: usize = 0;
    while i < pixels.len()
        invariant
            i <= pixels.len(),
            count <= i,
            count == red_count(pixels@.take(i as int)),
        decreases pixels.len() - i,
    {
        proof {
            lemma_filter_step(pixels@, |p: Pixel| is_red(p), i as int);
        }
        let red: u16 = pixels[i].0 as u16;
        let green: u16 = pixels[i].1 as u16;
        let blue: u16 = pixels[i].2 as u16;
        if red > green + blue {
            count += 1;
        }
        i += 1;
    }
    assert(pixels@.take(pixels.len() as int) == pixels@);
    count
}

/// The answer for decoded pixels: the number of red ones in decimal. Bytes
/// that could not be read cannot be worked on; bytes that are no image are
/// rejected.
pub open spec fn red_outcome(decoded: Result<Seq<Pixel>, ImageFault>) -> Result<Seq<char>, Status> {
    match decoded {
        Ok(pixels) => Ok(decimal(red_count(pixels))),
        Err(ImageFault::Unreadable) => Err(Status::InternalServerError),
        Err(ImageFault::Rejected) => Err(Status::BadRequest),
    }
}

/// The answer for decoded pixels.
pub fn red_pixels_answer(decoded: Result<Vec<Pixel>, ImageFault>) -> (answer: Result<
    String,
    Status,
>)
    ensures
        answer_view(answer) == red_outcome(pixels_view(decoded)),
{
    match decoded {
        Ok(pixels) => Ok(string_of(&digits_of(count_red(&pixels) as u128))),
        Err(ImageFault::Unreadable) => Err(Status::InternalServerError),
        Err(ImageFault::Rejected) => Err(Status::BadRequest),
    }
}

/// The number of red pixels of an uploaded image.
pub fn count_red_pixels(buffer: Vec<u8>) -> (answer: Result<String, Status>)
    ensures
        answer_view(answer) == red_outcome(image_pixels(buffer@)),
{
    red_pixels_answer(decode_image(buffer))
}

/// The image endpoints.
pub struct Day11 {}

} // verus!
