//! The encode half of the codec adapter.
//!
//! Decoding the source format is an external collaborator that hands over
//! plain sample buffers; this module carries them to PNG bytes. The only
//! trusted step is the call into `lodepng`; putting the 16-bit samples into
//! the PNG byte order — most significant byte first, whatever the machine's
//! own order — is verified here.

use vstd::prelude::*;

verus! {

/// A decoded image as plain sample buffers, row-major, one entry per
/// component: bytes for the 8-bit variants, native integers for the 16-bit
/// ones. The well-formedness invariant ties the buffer length to the
/// geometry.
pub enum DecodedImage {
    Rgb8 { samples: Vec<u8>, width: usize, height: usize },
    Rgb16 { samples: Vec<u16>, width: usize, height: usize },
    Rgba8 { samples: Vec<u8>, width: usize, height: usize },
    Rgba16 { samples: Vec<u16>, width: usize, height: usize },
    Gray8 { samples: Vec<u8>, width: usize, height: usize },
    Gray16 { samples: Vec<u16>, width: usize, height: usize },
}

impl DecodedImage {
    /// Components per pixel.
    pub open spec fn channels(&self) -> int {
        match *self {
            DecodedImage::Rgb8 { .. } => 3,
            DecodedImage::Rgb16 { .. } => 3,
            DecodedImage::Rgba8 { .. } => 4,
            DecodedImage::Rgba16 { .. } => 4,
            DecodedImage::Gray8 { .. } => 1,
            DecodedImage::Gray16 { .. } => 1,
        }
    }

    /// Bits per component.
    pub open spec fn depth(&self) -> int {
        match *self {
            DecodedImage::Rgb8 { .. } => 8,
            DecodedImage::Rgba8 { .. } => 8,
            DecodedImage::Gray8 { .. } => 8,
            DecodedImage::Rgb16 { .. } => 16,
            DecodedImage::Rgba16 { .. } => 16,
            DecodedImage::Gray16 { .. } => 16,
        }
    }

    /// Pixels across.
    pub open spec fn width(&self) -> int {
        match *self {
            DecodedImage::Rgb8 { width, .. } => width as int,
            DecodedImage::Rgb16 { width, .. } => width as int,
            DecodedImage::Rgba8 { width, .. } => width as int,
            DecodedImage::Rgba16 { width, .. } => width as int,
            DecodedImage::Gray8 { width, .. } => width as int,
            DecodedImage::Gray16 { width, .. } => width as int,
        }
    }

    /// Pixels down.
    pub open spec fn height(&self) -> int {
        match *self {
            DecodedImage::Rgb8 { height, .. } => height as int,
            DecodedImage::Rgb16 { height, .. } => height as int,
            DecodedImage::Rgba8 { height, .. } => height as int,
            DecodedImage::Rgba16 { height, .. } => height as int,
            DecodedImage::Gray8 { height, .. } => height as int,
            DecodedImage::Gray16 { height, .. } => height as int,
        }
    }

    /// How many component entries the buffer holds.
    pub open spec fn sample_count(&self) -> int {
        match *self {
            DecodedImage::Rgb8 { samples, .. } => samples@.len() as int,
            DecodedImage::Rgb16 { samples, .. } => samples@.len() as int,
            DecodedImage::Rgba8 { samples, .. } => samples@.len() as int,
            DecodedImage::Rgba16 { samples, .. } => samples@.len() as int,
            DecodedImage::Gray8 { samples, .. } => samples@.len() as int,
            DecodedImage::Gray16 { samples, .. } => samples@.len() as int,
        }
    }

    /// The buffer holds exactly one entry per component of every pixel.
    pub open spec fn wf(&self) -> bool {
        self.sample_count() == self.width() * self.height() * self.channels()
    }

    /// The raw bytes handed to the encoder: the buffer itself for 8-bit
    /// variants, the big-endian packing for 16-bit ones.
    pub open spec fn png_bytes(&self) -> Seq<u8> {
        match *self {
            DecodedImage::Rgb8 { samples, .. } => samples@,
            DecodedImage::Rgba8 { samples, .. } => samples@,
            DecodedImage::Gray8 { samples, .. } => samples@,
            DecodedImage::Rgb16 { samples, .. } => be_bytes_of(samples@),
            DecodedImage::Rgba16 { samples, .. } => be_bytes_of(samples@),
            DecodedImage::Gray16 { samples, .. } => be_bytes_of(samples@),
        }
    }
}

/// Each integer as two bytes, most significant first — the PNG sample
/// order, independent of the machine's own.
pub open spec fn be_bytes_of(samples: Seq<u16>) -> Seq<u8> {
    Seq::new(
        (2 * samples.len()) as nat,
        |i: int|
            if i % 2 == 0 {
                (samples[i / 2] >> 8) as u8
            } else {
                (samples[i / 2] & 0xff) as u8
            },
    )
}

/// Packs native 16-bit samples into big-endian byte order.
fn pack_be(samples: &Vec<u16>) -> (r: Vec<u8>)
    requires
        2 * samples@.len() <= usize::MAX,
    ensures
        r@ == be_bytes_of(samples@),
{
    let mut r: Vec<u8> = Vec::new();
    let mut i: usize = 0;
    while i < samples.len()
        invariant
            i <= samples@.len(),
            2 * samples@.len() <= usize::MAX,
            r@.len() == 2 * i,
            forall|j: int|
                0 <= j < i ==> r@[2 * j] == (samples@[j] >> 8) as u8 && r@[2 * j + 1] == (
                samples@[j] & 0xff) as u8,
        decreases samples@.len() - i,
    {
        let s = samples[i];
        r.push((s >> 8) as u8);
        r.push((s & 0xff) as u8);
        i = i + 1;
    }
    proof {
        assert forall|m: int| 0 <= m < 2 * samples@.len() implies r@[m] == be_bytes_of(samples@)[m]
        by {
            if m % 2 == 0 {
                assert(r@[2 * (m / 2)] == (samples@[m / 2] >> 8) as u8);
            } else {
                assert(r@[2 * (m / 2) + 1] == (samples@[m / 2] & 0xff) as u8);
            }
        }
        assert(r@ =~= be_bytes_of(samples@));
    }
    r
}

/// What `lodepng::encode_memory` returns for a raw component buffer with
/// the given geometry: the PNG stream, or nothing where it rejects the
/// input — a function of the arguments alone.
pub uninterp spec fn png_encoding(
    data: Seq<u8>,
    width: int,
    height: int,
    channels: int,
    depth: int,
) -> Option<Seq<u8>>;

/// Relies on `lodepng::encode_memory`: encodes the raw component buffer
/// `data` — already in PNG byte order — as a PNG of `width` by `height`
/// pixels, grey / RGB / RGBA by `channels`, at the given bit depth. The
/// encoder reads nothing but its arguments and uses fixed settings, so its
/// outcome is deterministic in them; its error is reported as text. The
/// buffer must fill the geometry exactly: a mismatch would trip the
/// encoder's own size assertion instead of returning its error.
#[verifier::external_body]
fn encode_memory_raw(data: &Vec<u8>, width: usize, height: usize, channels: u8, depth: u8) -> (r:
    Result<Vec<u8>, String>)
    requires
        channels == 1 || channels == 3 || channels == 4,
        depth == 8 || depth == 16,
        data@.len() == width * height * channels * (depth as int / 8),
    ensures
        match r {
            Ok(png) => png_encoding(data@, width as int, height as int, channels as int, depth as int)
                == Some(png@),
            Err(_) => png_encoding(data@, width as int, height as int, channels as int, depth as int)
                is None,
        },
{
    let color = match channels {
        1 => lodepng::ColorType::GREY,
        3 => lodepng::ColorType::RGB,
        _ => lodepng::ColorType::RGBA,
    };
    lodepng::encode_memory(data.as_slice(), width, height, color, depth as u32).map_err(|e| {
        format!("{}", e)
    })
}

/// Encodes a decoded image as PNG bytes — the compute half of one task,
/// between reading the source and writing the destination. The 16-bit
/// buffers are first packed to big-endian byte order; the packing is
/// verified, the encode itself is `lodepng`'s, named `png_encoding`.
/// Success and failure mirror the encoder's own verdict on exactly the
/// bytes and geometry stated.
pub fn encode_png(img: &DecodedImage) -> (r: Result<Vec<u8>, String>)
    requires
        img.wf(),
        img.depth() == 16 ==> 2 * img.sample_count() <= usize::MAX,
    ensures
        match r {
            Ok(png) => png_encoding(
                img.png_bytes(),
                img.width(),
                img.height(),
                img.channels(),
                img.depth(),
            ) == Some(png@),
            Err(_) => png_encoding(
                img.png_bytes(),
                img.width(),
                img.height(),
                img.channels(),
                img.depth(),
            ) is None,
        },
{
    match img {
        DecodedImage::Rgb8 { samples, width, height } => {
            encode_memory_raw(samples, *width, *height, 3, 8)
        },
        DecodedImage::Rgba8 { samples, width, height } => {
            encode_memory_raw(samples, *width, *height, 4, 8)
        },
        DecodedImage::Gray8 { samples, width, height } => {
            encode_memory_raw(samples, *width, *height, 1, 8)
        },
        DecodedImage::Rgb16 { samples, width, height } => {
            let packed = pack_be(samples);
            encode_memory_raw(&packed, *width, *height, 3, 16)
        },
        DecodedImage::Rgba16 { samples, width, height } => {
            let packed = pack_be(samples);
            encode_memory_raw(&packed, *width, *height, 4, 16)
        },
        DecodedImage::Gray16 { samples, width, height } => {
            let packed = pack_be(samples);
            encode_memory_raw(&packed, *width, *height, 1, 16)
        },
    }
}

} // verus!
