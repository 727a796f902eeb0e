//! Limits on the animated backgrounds of rank cards.

use vstd::prelude::*;
use crate::text::{contains_spec, contains_str};

verus! {

/// Why an animated background is refused.
#[derive(Debug, Clone, Copy, PartialEq, Eq, Structural)]
pub enum AnimationError {
    /// The download is over 10 MiB.
    FileTooLarge,
    /// The link is an (A)PNG, which is not supported yet.
    ApngUnsupported,
    /// The frames together are too large to encode.
    FramesTooLarge,
    /// The download is not a GIF that decodes.
    DecodeFailed,
    /// The GIF holds no frame.
    NoFrames,
    /// The frames could not be encoded as a GIF.
    EncodeFailed,
}

impl AnimationError {
    /// The message reported for the error.
    pub fn message(&self) -> (r: &'static str)
        ensures
            r@ == match *self {
                AnimationError::FileTooLarge => "File too large"@,
                AnimationError::ApngUnsupported => "APNG support is not implemented yet"@,
                AnimationError::FramesTooLarge => "Total frame size exceeds 12MB"@,
                AnimationError::DecodeFailed => "Failed to decode the GIF"@,
                AnimationError::NoFrames => "No frames found in the GIF"@,
                AnimationError::EncodeFailed => "Failed to encode the GIF"@,
            },
    {
        match self {
            AnimationError::FileTooLarge => "File too large",
            AnimationError::ApngUnsupported => "APNG support is not implemented yet",
            AnimationError::FramesTooLarge => "Total frame size exceeds 12MB",
            AnimationError::DecodeFailed => "Failed to decode the GIF",
            AnimationError::NoFrames => "No frames found in the GIF",
            AnimationError::EncodeFailed => "Failed to encode the GIF",
        }
    }
}

/// The largest download accepted, in bytes.
pub const MAX_ANIMATION_BYTES: usize = 10485760;

/// The largest total size of decoded frames that is encoded, in bytes.
pub const MAX_FRAME_BYTES: usize = 130023424;

/// Whether a download of `size` bytes from `url` is decoded as a GIF: it must not
/// exceed 10 MiB, and links naming `.png` or `.apng` are refused.
pub open spec fn source_check(url: Seq<char>, size: int) -> Result<(), AnimationError> {
    if size > MAX_ANIMATION_BYTES {
        Err(AnimationError::FileTooLarge)
    } else if contains_spec(url, ".png"@) || contains_spec(url, ".apng"@) {
        Err(AnimationError::ApngUnsupported)
    } else {
        Ok(())
    }
}

/// Whether a downloaded background of `size` bytes from `url` is decoded as a GIF:
/// it must not exceed 10 MiB, and links naming `.png` or `.apng` are refused.
pub fn check_animation_source(url: &str, size: usize) -> (r: Result<(), AnimationError>)
    ensures
        r == source_check(url@, size as int),
{
    if size > MAX_ANIMATION_BYTES {
        return Err(AnimationError::FileTooLarge);
    }
    if contains_str(url, ".png") || contains_str(url, ".apng") {
        return Err(AnimationError::ApngUnsupported);
    }
    Ok(())
}

/// Whether decoded frames of `total` bytes are encoded.
pub fn check_frames_size(total: usize) -> (r: Result<(), AnimationError>)
    ensures
        r == (if total > MAX_FRAME_BYTES {
            Err::<(), AnimationError>(AnimationError::FramesTooLarge)
        } else {
            Ok(())
        }),
{
    if total > MAX_FRAME_BYTES {
        Err(AnimationError::FramesTooLarge)
    } else {
        Ok(())
    }
}

/// A frame of an animation: an RGBA picture (four bytes per pixel, row by row) and how
/// long it shows, `delay_numer / delay_denom` milliseconds.
#[derive(Debug, Clone, PartialEq, Eq)]
pub struct GifFrame {
    pub width: u32,
    pub height: u32,
    pub rgba: Vec<u8>,
    pub delay_numer: u32,
    pub delay_denom: u32,
}

impl GifFrame {
    /// Four bytes per pixel, and a delay with a denominator.
    pub open spec fn wf(&self) -> bool {
        &&& self.rgba@.len() == 4 * self.width * self.height
        &&& self.delay_denom != 0
    }
}

/// A frame as the contracts see it: width, height, bytes, delay numerator and
/// denominator.
pub open spec fn frame_view(f: GifFrame) -> (u32, u32, Seq<u8>, u32, u32) {
    (f.width, f.height, f.rgba@, f.delay_numer, f.delay_denom)
}

/// The views of frames.
pub open spec fn frames_view(v: Seq<GifFrame>) -> Seq<(u32, u32, Seq<u8>, u32, u32)> {
    v.map_values(|f: GifFrame| frame_view(f))
}

/// What `GifDecoder::new` and `into_frames` make of `bytes`: `None` when the decoder
/// refuses them; otherwise whether the frame iterator yields a first item, and the
/// frames after it as `collect_frames` gathers them (`None` when one fails to decode).
pub uninterp spec fn gif_frames(bytes: Seq<u8>) -> Option<(bool, Option<Seq<(u32, u32, Seq<u8>, u32, u32)>>)>;

/// `GifDecoder::new` on the bytes, `into_frames`, one `next`, then `collect_frames` on
/// what is left. The decoder gives every frame the full canvas in RGBA and a reduced
/// delay fraction.
#[verifier::external_body]
fn decode_gif(bytes: &Vec<u8>) -> (r: Option<(bool, Option<Vec<GifFrame>>)>)
    ensures
        match r {
            None => gif_frames(bytes@) is None,
            Some((first, rest)) => gif_frames(bytes@) == Some((first, match rest {
                Some(v) => Some(frames_view(v@)),
                None => None,
            })) && (rest matches Some(v) ==> forall|i: int| 0 <= i < v@.len() ==> (#[trigger] v@[i]).wf()),
        },
{
    let decoder = match image::codecs::gif::GifDecoder::new(std::io::Cursor::new(bytes)) {
        Ok(d) => d,
        Err(_) => return None,
    };
    let mut frames = image::AnimationDecoder::into_frames(decoder);
    let first = frames.next().is_some();
    let rest = frames.collect_frames().ok().map(|v| v.into_iter().map(|f| {
        let (n, d) = f.delay().numer_denom_ms();
        GifFrame { width: f.buffer().width(), height: f.buffer().height(), rgba: f.into_buffer().into_raw(), delay_numer: n, delay_denom: d }
    }).collect());
    Some((first, rest))
}

/// The frames of an animated background downloaded from `url`: the source check
/// first, then the GIF decoding; the first frame is read to make sure there is one,
/// and the frames after it are handed on.
pub open spec fn animation_spec(url: Seq<char>, bytes: Seq<u8>) -> Result<Seq<(u32, u32, Seq<u8>, u32, u32)>, AnimationError> {
    match source_check(url, bytes.len() as int) {
        Err(e) => Err(e),
        Ok(()) => match gif_frames(bytes) {
            None => Err(AnimationError::DecodeFailed),
            Some((first, rest)) => if !first {
                Err(AnimationError::NoFrames)
            } else {
                match rest {
                    None => Err(AnimationError::DecodeFailed),
                    Some(frames) => Ok(frames),
                }
            },
        },
    }
}

/// The frames of an animated background, from the link it was downloaded from and
/// the downloaded bytes.
pub fn animation_from_download(url: &str, bytes: &Vec<u8>) -> (r: Result<Vec<GifFrame>, AnimationError>)
    ensures
        match animation_spec(url@, bytes@) {
            Err(e) => r == Err::<Vec<GifFrame>, AnimationError>(e),
            Ok(frames) => r matches Ok(v) && frames_view(v@) == frames && forall|i: int| 0 <= i < v@.len()
                ==> (#[trigger] v@[i]).wf(),
        },
{
    match check_animation_source(url, bytes.len()) {
        Err(e) => return Err(e),
        Ok(()) => {},
    }
    match decode_gif(bytes) {
        None => Err(AnimationError::DecodeFailed),
        Some((first, rest)) => {
            if !first {
                Err(AnimationError::NoFrames)
            } else {
                match rest {
                    None => Err(AnimationError::DecodeFailed),
                    Some(v) => Ok(v),
                }
            }
        },
    }
}

/// The bytes of the frames' pictures, together.
pub open spec fn frames_bytes(frames: Seq<(u32, u32, Seq<u8>, u32, u32)>) -> int
    decreases frames.len(),
{
    if frames.len() == 0 {
        0
    } else {
        frames_bytes(frames.drop_last()) + frames.last().2.len()
    }
}

proof fn lemma_frames_bytes_prefix(frames: Seq<(u32, u32, Seq<u8>, u32, u32)>, i: int)
    requires
        0 <= i <= frames.len(),
    ensures
        frames_bytes(frames.subrange(0, i)) <= frames_bytes(frames),
    decreases frames.len(),
{
    if i < frames.len() {
        assert(frames.drop_last() =~= frames.subrange(0, frames.len() - 1));
        assert(frames.subrange(0, frames.len() - 1).subrange(0, i) =~= frames.subrange(0, i));
        lemma_frames_bytes_prefix(frames.drop_last(), i);
    } else {
        assert(frames.subrange(0, i) =~= frames);
    }
}

/// What `GifEncoder::new_with_speed` (speed 10), `set_repeat(Repeat::Infinite)` and
/// `try_encode_frames` write for frames at the origin; `None` when encoding fails.
pub uninterp spec fn gif_encoding(frames: Seq<(u32, u32, Seq<u8>, u32, u32)>) -> Option<Seq<u8>>;

/// Encodes the frames as a looping GIF at speed 10, each placed at the origin.
#[verifier::external_body]
fn encode_gif(frames: &Vec<GifFrame>) -> (r: Option<Vec<u8>>)
    requires
        forall|i: int| 0 <= i < frames@.len() ==> (#[trigger] frames@[i]).wf(),
    ensures
        match r {
            Some(b) => gif_encoding(frames_view(frames@)) == Some(b@),
            None => gif_encoding(frames_view(frames@)) is None,
        },
{
    let mut out: Vec<u8> = Vec::new();
    let written = {
        let mut encoder = image::codecs::gif::GifEncoder::new_with_speed(&mut out, 10);
        encoder.set_repeat(image::codecs::gif::Repeat::Infinite).and_then(|_| encoder.try_encode_frames(frames.iter().map(|f| Ok(image::Frame::from_parts(
            image::RgbaImage::from_raw(f.width, f.height, f.rgba.clone()).unwrap(), 0, 0,
            image::Delay::from_numer_denom_ms(f.delay_numer, f.delay_denom))))))
    };
    written.ok().map(|_| out)
}

/// The GIF file of an animation: refused when the frames' pictures together exceed
/// the frame limit, otherwise the encoding.
pub fn animation_file_bytes(frames: &Vec<GifFrame>) -> (r: Result<Vec<u8>, AnimationError>)
    requires
        forall|i: int| 0 <= i < frames@.len() ==> (#[trigger] frames@[i]).wf(),
    ensures
        frames_bytes(frames_view(frames@)) > MAX_FRAME_BYTES ==> r == Err::<Vec<u8>, AnimationError>(
            AnimationError::FramesTooLarge,
        ),
        frames_bytes(frames_view(frames@)) <= MAX_FRAME_BYTES ==> match gif_encoding(frames_view(frames@)) {
            Some(b) => r matches Ok(v) && v@ == b,
            None => r == Err::<Vec<u8>, AnimationError>(AnimationError::EncodeFailed),
        },
{
    let ghost all = frames_view(frames@);
    let mut total: usize = 0;
    let mut i: usize = 0;
    while i < frames.len()
        invariant
            i <= frames.len(),
            all == frames_view(frames@),
            total as int == frames_bytes(all.subrange(0, i as int)),
            total <= MAX_FRAME_BYTES,
        decreases frames.len() - i,
    {
        assert(all.subrange(0, i + 1).drop_last() =~= all.subrange(0, i as int));
        let n = frames[i].rgba.len();
        if n > MAX_FRAME_BYTES - total {
            proof {
                lemma_frames_bytes_prefix(all, i + 1);
            }
            return Err(AnimationError::FramesTooLarge);
        }
        total = total + n;
        i += 1;
    }
    assert(all.subrange(0, all.len() as int) =~= all);
    match check_frames_size(total) {
        Err(e) => return Err(e),
        Ok(()) => {},
    }
    match encode_gif(frames) {
        Some(b) => Ok(b),
        None => Err(AnimationError::EncodeFailed),
    }
}

} // verus!
