//! The two ends of rendering a tile: what is handed to the rasteriser, and
//! what is made of the pixels that come back.
//!
//! Rasterising itself happens between the two, outside this crate. The raster
//! is a `tiny_skia::Pixmap`, which this module treats as a sequence of bytes,
//! four per pixel, with a width and a height.

use crate::tile::{tile_transform, tile_transform_spec, TileConfig, TileCoordinate, TileTransform};
use tiny_skia::Pixmap;
use vstd::prelude::*;

verus! {

/// `tiny_skia::Pixmap`, a raster that owns its pixels. Nothing inside it is
/// visible here.
#[verifier::external_type_specification]
#[verifier::external_body]
pub struct ExPixmap(tiny_skia::Pixmap);

/// `png::EncodingError`, what `tiny_skia` fails with when it cannot write a
/// PNG. Nothing inside it is visible here.
#[verifier::external_type_specification]
#[verifier::external_body]
pub struct ExEncodingError(png::EncodingError);

/// The bytes that a pixmap holds, row after row, four bytes per pixel.
pub uninterp spec fn pixmap_bytes(pixmap: Pixmap) -> Seq<u8>;

/// The width in pixels that a pixmap was made with.
pub uninterp spec fn pixmap_width(pixmap: Pixmap) -> u32;

/// The height in pixels that a pixmap was made with.
pub uninterp spec fn pixmap_height(pixmap: Pixmap) -> u32;

/// What `tiny_skia` makes of a raster of the given width and height holding
/// the given bytes when it is asked for a PNG file: the bytes of the file, or
/// `None` where it refuses.
pub uninterp spec fn png_encoding(width: u32, height: u32, bytes: Seq<u8>) -> Option<Seq<u8>>;

/// Why a tile could not be produced.
#[derive(Clone, Copy, Debug, PartialEq, Eq, Structural)]
pub enum RenderError {
    /// A raster of the configured tile size cannot be allocated.
    Allocation,
    /// The encoder refused the raster.
    Encoding,
}

/// Whether `tiny_skia` makes a pixmap of this size: neither side is zero and
/// a row of four-byte pixels has a length that fits in 31 bits.
pub open spec fn pixmap_size_accepted(width: u32, height: u32) -> bool {
    &&& width > 0
    &&& height > 0
    &&& 4 * width <= i32::MAX
}

/// `tiny_skia::Pixmap::new`. It returns a pixmap exactly for the sizes of
/// `pixmap_size_accepted`, and that pixmap has the size asked for and holds
/// only zero bytes, that is transparent black. Sizes whose byte count exceeds
/// what a vector can hold are left out, as `Pixmap::new` would panic on them.
/// That the machine has the memory is taken for granted, as it is for every
/// vector.
#[verifier::external_body]
fn new_pixmap(width: u32, height: u32) -> (r: Option<Pixmap>)
    requires
        4 * width * height <= isize::MAX,
    ensures
        r is Some <==> pixmap_size_accepted(width, height),
        r matches Some(p) ==> {
            &&& pixmap_width(p) == width
            &&& pixmap_height(p) == height
            &&& pixmap_bytes(p) == Seq::new((4 * width * height) as nat, |i: int| 0u8)
        },
{
    Pixmap::new(width, height)
}

/// `tiny_skia::Pixmap::data`: the bytes of the pixmap, all of them.
#[verifier::external_body]
fn pixmap_data(pixmap: &Pixmap) -> (data: &[u8])
    ensures
        data@ == pixmap_bytes(*pixmap),
{
    pixmap.data()
}

/// `tiny_skia::Pixmap::encode_png`. Whether it succeeds, and the bytes it
/// gives where it does, depend on the size and the bytes of the pixmap alone:
/// it reads no clock and no setting, and writes into memory. Both are what
/// `png_encoding` names. A pixmap can hold more bytes than its size needs;
/// one whose bytes do not make up whole pixels is left out, as `encode_png`
/// panics on it.
#[verifier::external_body]
fn encode_pixmap(pixmap: &Pixmap) -> (r: Result<Vec<u8>, png::EncodingError>)
    requires
        pixmap_bytes(*pixmap).len() % 4 == 0,
    ensures
        r is Ok <==> png_encoding(
            pixmap_width(*pixmap),
            pixmap_height(*pixmap),
            pixmap_bytes(*pixmap),
        ) is Some,
        r matches Ok(bytes) ==> png_encoding(
            pixmap_width(*pixmap),
            pixmap_height(*pixmap),
            pixmap_bytes(*pixmap),
        ) == Some(bytes@),
{
    pixmap.encode_png()
}

/// Whether a square raster with this side can be had and drawn into: a row
/// of it fits the limit of `tiny_skia`, all of it fits in a vector, and the
/// canvas of five tiles a side that the rasteriser lays out around it fits
/// in 31 bits.
pub open spec fn tile_buffer_fits(tile_size: u32) -> bool {
    &&& 4 * tile_size <= i32::MAX
    &&& 5 * tile_size <= i32::MAX
    &&& 4 * tile_size * tile_size <= isize::MAX
}

/// What the rasteriser is handed for one tile: the transform to draw the
/// scene through, and an empty raster to draw into.
pub struct RenderJob {
    pub transform: TileTransform,
    pub buffer: Pixmap,
}

/// Prepares the rendering of the tile at `coord`: computes its transform and
/// allocates a transparent raster of one tile. Fails exactly when a raster of
/// the configured size cannot be had or cannot be drawn into.
pub fn prepare_tile(coord: TileCoordinate, config: &TileConfig) -> (r: Result<
    RenderJob,
    RenderError,
>)
    ensures
        r is Ok <==> tile_buffer_fits(config.size()),
        r matches Ok(job) ==> {
            &&& job.transform == tile_transform_spec(coord, config.size())
            &&& pixmap_width(job.buffer) == config.size()
            &&& pixmap_height(job.buffer) == config.size()
            &&& pixmap_bytes(job.buffer) == Seq::new(
                (4 * config.size() * config.size()) as nat,
                |i: int| 0u8,
            )
        },
        r matches Err(e) ==> e == RenderError::Allocation,
{
    let size = config.tile_size();
    let side: u64 = size as u64;
    if 5 * side > i32::MAX as u64 {
        return Err(RenderError::Allocation);
    }
    assert(4 * side * side <= 4 * 0x1fff_ffff * 0x1fff_ffff) by (nonlinear_arith)
        requires
            0 <= side <= 0x1fff_ffff,
    ;
    let bytes: u64 = 4 * side * side;
    if bytes > isize::MAX as u64 {
        return Err(RenderError::Allocation);
    }
    let transform = tile_transform(coord, config);
    match new_pixmap(size, size) {
        Some(buffer) => Ok(RenderJob { transform, buffer }),
        None => Err(RenderError::Allocation),
    }
}

/// What becomes of the encoder's answer: its bytes unchanged, or the one
/// error that stands for every refusal.
pub fn encoded(answer: Result<Vec<u8>, png::EncodingError>) -> (r: Result<Vec<u8>, RenderError>)
    ensures
        match answer {
            Ok(bytes) => r == Ok::<Vec<u8>, RenderError>(bytes),
            Err(_) => r == Err::<Vec<u8>, RenderError>(RenderError::Encoding),
        },
{
    match answer {
        Ok(bytes) => Ok(bytes),
        Err(_) => Err(RenderError::Encoding),
    }
}

/// Encodes a raster as a PNG file. It succeeds exactly when the bytes of the
/// raster make up whole pixels and the encoder accepts a raster of this size
/// with these bytes, and then gives the encoder's bytes; so two rasters of
/// the same size and bytes fare alike. Every refusal is
/// `RenderError::Encoding`.
pub fn encode_tile(buffer: &Pixmap) -> (r: Result<Vec<u8>, RenderError>)
    ensures
        r is Ok <==> pixmap_bytes(*buffer).len() % 4 == 0 && png_encoding(
            pixmap_width(*buffer),
            pixmap_height(*buffer),
            pixmap_bytes(*buffer),
        ) is Some,
        r matches Ok(bytes) ==> png_encoding(
            pixmap_width(*buffer),
            pixmap_height(*buffer),
            pixmap_bytes(*buffer),
        ) == Some(bytes@),
        r matches Err(e) ==> e == RenderError::Encoding,
{
    if pixmap_data(buffer).len() % 4 != 0 {
        return Err(RenderError::Encoding);
    }
    encoded(encode_pixmap(buffer))
}

} // verus!
