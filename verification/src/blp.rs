//! The texture-decode surface: the plain data the BLP decode service hands
//! back, and the verified conversion of decoded RGBA pixels to a PNG data
//! URL.
//!
//! The BLP container decode itself is an outside service; this module holds
//! what can be computed and checked around it: the info record, the
//! per-mipmap selection mask, and the PNG plus base64 encoding pipeline.

use vstd::prelude::*;

use vstd::string::StringExecFns;

verus! {

/// A decoded image: RGBA, four bytes per pixel.
#[derive(Clone, Debug, PartialEq, Eq)]
pub struct BlpImageData {
    pub width: u32,
    pub height: u32,
    pub data: Vec<u8>,
}

/// Header facts of a BLP texture.
#[derive(Clone, Debug, PartialEq, Eq)]
pub struct BlpInfo {
    pub width: u32,
    pub height: u32,
    pub mipmap_count: usize,
    pub format: String,
}

/// The name of a BLP compression kind.
pub open spec fn compression_text(c: u8) -> Seq<char> {
    if c == 1 {
        "JPEG"@
    } else if c == 2 {
        "Paletted"@
    } else if c == 3 {
        "DXT"@
    } else {
        "Unknown"@
    }
}

/// Names a BLP compression kind.
pub fn compression_name(c: u8) -> (r: &'static str)
    ensures
        r@ == compression_text(c),
{
    if c == 1 {
        "JPEG"
    } else if c == 2 {
        "Paletted"
    } else if c == 3 {
        "DXT"
    } else {
        "Unknown"
    }
}

/// Assembles the info record for a texture from its header fields.
pub fn blp_info_from_parts(width: u32, height: u32, mipmap_count: usize, compression: u8) -> (r:
    BlpInfo)
    ensures
        r.width == width,
        r.height == height,
        r.mipmap_count == mipmap_count,
        r.format@ == compression_text(compression),
{
    BlpInfo {
        width,
        height,
        mipmap_count,
        format: String::from_str(compression_name(compression)),
    }
}

/// The per-mipmap decode mask selecting exactly one level, or nothing when
/// the level lies outside the texture's mipmap range.
pub fn mipmap_selection(mipmap_count: usize, level: usize) -> (r: Option<Vec<bool>>)
    ensures
        (r is Some) == (level < mipmap_count),
        r matches Some(v) ==> v@.len() == mipmap_count && (forall|i: int|
            0 <= i < mipmap_count ==> v@[i] == (i == level)),
{
    if level >= mipmap_count {
        return None;
    }
    let mut v: Vec<bool> = Vec::new();
    let mut i: usize = 0;
    while i < mipmap_count
        invariant
            0 <= i <= mipmap_count,
            v@.len() == i,
            forall|k: int| 0 <= k < i ==> v@[k] == (k == level),
        decreases mipmap_count - i,
    {
        v.push(i == level);
        i = i + 1;
    }
    Some(v)
}

/// An RGBA raster held for the image codec.  The codec's view of it is
/// reached only through the named functions below.
#[verifier::external_body]
pub struct RgbaBuffer {
    img: image::RgbaImage,
}

/// The pixel width the raster was assembled with.
pub uninterp spec fn rgba_width(b: RgbaBuffer) -> u32;

/// The pixel height the raster was assembled with.
pub uninterp spec fn rgba_height(b: RgbaBuffer) -> u32;

/// The raw sample container of the raster.
pub uninterp spec fn rgba_pixels(b: RgbaBuffer) -> Seq<u8>;

/// What the PNG encoder produces for a raster of the given dimensions and
/// samples.  The encoding depends on those values alone.
pub uninterp spec fn png_of(width: u32, height: u32, pixels: Seq<u8>) -> Seq<u8>;

/// What the standard padded base64 alphabet encodes a byte sequence to.
pub uninterp spec fn base64_of(b: Seq<u8>) -> Seq<char>;

/// Relies on `image::RgbaImage::from_raw`: returns the raster when the
/// container is large enough for `width * height` four-byte pixels (so
/// always when the length matches exactly), keeping the container as given.
#[verifier::external_body]
fn rgba_from_raw(width: u32, height: u32, data: Vec<u8>) -> (r: Option<RgbaBuffer>)
    ensures
        data@.len() == 4 * width * height ==> r is Some,
        r matches Some(b) ==> rgba_width(b) == width && rgba_height(b) == height && rgba_pixels(b)
            == data@,
{
    image::RgbaImage::from_raw(width, height, data).map(|img| RgbaBuffer { img })
}

/// Relies on `image::ImageBuffer::write_to` with the PNG format: the
/// encoder writes a function of the raster's dimensions and samples alone.
#[verifier::external_body]
fn rgba_to_png(b: &RgbaBuffer) -> (r: Result<Vec<u8>, String>)
    ensures
        r matches Ok(v) ==> v@ == png_of(rgba_width(*b), rgba_height(*b), rgba_pixels(*b)),
{
    let mut out: Vec<u8> = Vec::new();
    let mut cursor = std::io::Cursor::new(&mut out);
    match b.img.write_to(&mut cursor, image::ImageFormat::Png) {
        Ok(()) => Ok(out),
        Err(e) => Err(format!("PNG encoding failed: {}", e)),
    }
}

/// Relies on `base64::engine::general_purpose::STANDARD`: padded standard
/// base64, four output characters for every three input bytes.
#[verifier::external_body]
fn base64_standard(data: &Vec<u8>) -> (r: String)
    ensures
        r@ == base64_of(data@),
        r@.len() == 4 * ((data@.len() + 2) / 3),
{
    base64::Engine::encode(&base64::engine::general_purpose::STANDARD, data)
}

/// Encodes decoded RGBA samples as a PNG data URL, for direct display.
/// Succeeds whenever the sample buffer matches the dimensions and the PNG
/// encoder accepts the raster.
pub fn rgba_to_png_data_url(width: u32, height: u32, data: Vec<u8>) -> (r: Result<String, String>)
    ensures
        r matches Ok(s) ==> s@ == "data:image/png;base64,"@ + base64_of(
            png_of(width, height, data@),
        ),
{
    let img = match rgba_from_raw(width, height, data) {
        Some(i) => i,
        None => {
            return Err(String::from_str("could not assemble an RGBA image from the raw buffer"));
        },
    };
    let png = match rgba_to_png(&img) {
        Ok(p) => p,
        Err(e) => {
            return Err(e);
        },
    };
    let b64 = base64_standard(&png);
    let mut s = String::from_str("data:image/png;base64,");
    s.append(b64.as_str());
    Ok(s)
}

} // verus!
