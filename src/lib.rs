//! Decode-free detection of an image's format and pixel dimensions from its
//! header bytes.

use vstd::prelude::*;

pub mod boxes;
pub mod bytes;
pub mod detect;
pub mod fixed;
pub mod hdr;
pub mod icons;
pub mod jpeg;
pub mod laws;
pub mod tga;
pub mod tiff;

verus! {

/// The closed set of image encodings that detection recognises.
#[derive(Debug, Clone, Copy, PartialEq, Eq, Structural)]
pub enum ImageFormat {
    AVIF,
    HEIC,
    BMP,
    CUR,
    ICO,
    DDS,
    GIF,
    HDR,
    ICNS,
    JP2,
    JPX,
    JPEG,
    KTX,
    PNG,
    PSD,
    QOI,
    TIFF,
    WEBP,
    TGA,
}

/// Short file extension of a format.
pub open spec fn ext_of(f: ImageFormat) -> Seq<char> {
    match f {
        ImageFormat::AVIF => "avif"@,
        ImageFormat::HEIC => "heic"@,
        ImageFormat::BMP => "bmp"@,
        ImageFormat::CUR => "cur"@,
        ImageFormat::ICO => "ico"@,
        ImageFormat::DDS => "dds"@,
        ImageFormat::GIF => "gif"@,
        ImageFormat::HDR => "hdr"@,
        ImageFormat::ICNS => "icns"@,
        ImageFormat::JP2 => "jp2"@,
        ImageFormat::JPX => "jpx"@,
        ImageFormat::JPEG => "jpg"@,
        ImageFormat::KTX => "ktx"@,
        ImageFormat::PNG => "png"@,
        ImageFormat::PSD => "psd"@,
        ImageFormat::QOI => "qoi"@,
        ImageFormat::TIFF => "tif"@,
        ImageFormat::WEBP => "webp"@,
        ImageFormat::TGA => "tga"@,
    }
}

/// Long file extension of a format.
pub open spec fn full_ext_of(f: ImageFormat) -> Seq<char> {
    match f {
        ImageFormat::AVIF => "avif"@,
        ImageFormat::HEIC => "heic"@,
        ImageFormat::BMP => "bmp"@,
        ImageFormat::CUR => "cur"@,
        ImageFormat::ICO => "ico"@,
        ImageFormat::DDS => "dds"@,
        ImageFormat::GIF => "gif"@,
        ImageFormat::HDR => "hdr"@,
        ImageFormat::ICNS => "icns"@,
        ImageFormat::JP2 => "jp2"@,
        ImageFormat::JPX => "jpx"@,
        ImageFormat::JPEG => "jpeg"@,
        ImageFormat::KTX => "ktx"@,
        ImageFormat::PNG => "png"@,
        ImageFormat::PSD => "psd"@,
        ImageFormat::QOI => "qoi"@,
        ImageFormat::TIFF => "tiff"@,
        ImageFormat::WEBP => "webp"@,
        ImageFormat::TGA => "tga"@,
    }
}

/// MIME type of a format.
pub open spec fn mime_of(f: ImageFormat) -> Seq<char> {
    match f {
        ImageFormat::AVIF => "image/avif"@,
        ImageFormat::HEIC => "image/heic"@,
        ImageFormat::BMP => "image/bmp"@,
        ImageFormat::CUR => "image/cur"@,
        ImageFormat::ICO => "image/ico"@,
        ImageFormat::DDS => "image/dds"@,
        ImageFormat::GIF => "image/gif"@,
        ImageFormat::HDR => "image/vnd.radiance"@,
        ImageFormat::ICNS => "image/icns"@,
        ImageFormat::JP2 => "image/jp2"@,
        ImageFormat::JPX => "image/jpx"@,
        ImageFormat::JPEG => "image/jpeg"@,
        ImageFormat::KTX => "image/ktx"@,
        ImageFormat::PNG => "image/png"@,
        ImageFormat::PSD => "image/psd"@,
        ImageFormat::QOI => "image/qoi"@,
        ImageFormat::TIFF => "image/tiff"@,
        ImageFormat::WEBP => "image/webp"@,
        ImageFormat::TGA => "image/tga"@,
    }
}

impl ImageFormat {
    /// The short file extension.
    pub fn ext(&self) -> (r: &'static str)
        ensures
            r@ == ext_of(*self),
    {
        match self {
            ImageFormat::AVIF => "avif",
            ImageFormat::HEIC => "heic",
            ImageFormat::BMP => "bmp",
            ImageFormat::CUR => "cur",
            ImageFormat::ICO => "ico",
            ImageFormat::DDS => "dds",
            ImageFormat::GIF => "gif",
            ImageFormat::HDR => "hdr",
            ImageFormat::ICNS => "icns",
            ImageFormat::JP2 => "jp2",
            ImageFormat::JPX => "jpx",
            ImageFormat::JPEG => "jpg",
            ImageFormat::KTX => "ktx",
            ImageFormat::PNG => "png",
            ImageFormat::PSD => "psd",
            ImageFormat::QOI => "qoi",
            ImageFormat::TIFF => "tif",
            ImageFormat::WEBP => "webp",
            ImageFormat::TGA => "tga",
        }
    }

    /// The long file extension.
    pub fn full_ext(&self) -> (r: &'static str)
        ensures
            r@ == full_ext_of(*self),
    {
        match self {
            ImageFormat::AVIF => "avif",
            ImageFormat::HEIC => "heic",
            ImageFormat::BMP => "bmp",
            ImageFormat::CUR => "cur",
            ImageFormat::ICO => "ico",
            ImageFormat::DDS => "dds",
            ImageFormat::GIF => "gif",
            ImageFormat::HDR => "hdr",
            ImageFormat::ICNS => "icns",
            ImageFormat::JP2 => "jp2",
            ImageFormat::JPX => "jpx",
            ImageFormat::JPEG => "jpeg",
            ImageFormat::KTX => "ktx",
            ImageFormat::PNG => "png",
            ImageFormat::PSD => "psd",
            ImageFormat::QOI => "qoi",
            ImageFormat::TIFF => "tiff",
            ImageFormat::WEBP => "webp",
            ImageFormat::TGA => "tga",
        }
    }

    /// The MIME type.
    pub fn mimetype(&self) -> (r: &'static str)
        ensures
            r@ == mime_of(*self),
    {
        match self {
            ImageFormat::AVIF => "image/avif",
            ImageFormat::HEIC => "image/heic",
            ImageFormat::BMP => "image/bmp",
            ImageFormat::CUR => "image/cur",
            ImageFormat::ICO => "image/ico",
            ImageFormat::DDS => "image/dds",
            ImageFormat::GIF => "image/gif",
            ImageFormat::HDR => "image/vnd.radiance",
            ImageFormat::ICNS => "image/icns",
            ImageFormat::JP2 => "image/jp2",
            ImageFormat::JPX => "image/jpx",
            ImageFormat::JPEG => "image/jpeg",
            ImageFormat::KTX => "image/ktx",
            ImageFormat::PNG => "image/png",
            ImageFormat::PSD => "image/psd",
            ImageFormat::QOI => "image/qoi",
            ImageFormat::TIFF => "image/tiff",
            ImageFormat::WEBP => "image/webp",
            ImageFormat::TGA => "image/tga",
        }
    }
}

/// Pixel dimensions of an image, as the header declares them.
#[derive(Debug, Clone, Copy, PartialEq, Eq, Structural)]
pub struct ImageSize {
    pub width: u64,
    pub height: u64,
}

/// Why detection produced no result.
#[derive(Debug, Clone, Copy, PartialEq, Eq, Structural)]
pub enum ImageInfoError {
    /// The byte source could not be read, or holds no byte at all.
    IoError,
    /// No prober claimed the input.
    UnrecognizedFormat,
}

/// Outcome of a detection.
pub type ImageInfoResult<T> = Result<T, ImageInfoError>;

/// What a detection states: the format, the primary size and the sizes of the
/// embedded entries, in the order the container declares them.
pub type Model = (ImageFormat, ImageSize, Seq<ImageSize>);

/// Result of a successful detection.
#[derive(Debug, PartialEq)]
pub struct ImageInfo {
    pub format: ImageFormat,
    pub ext: &'static str,
    pub full_ext: &'static str,
    pub mimetype: &'static str,
    pub size: ImageSize,
    pub entry_sizes: Vec<ImageSize>,
}

/// The model of an optional detection result.
pub open spec fn model_of(r: Option<ImageInfo>) -> Option<Model> {
    match r {
        Some(i) => Some(i.model()),
        None => None,
    }
}

/// A claim of a single-image format, refused when a dimension is zero.
pub open spec fn claim(f: ImageFormat, w: nat, h: nat) -> Option<Model> {
    if w == 0 || h == 0 || w > u64::MAX || h > u64::MAX {
        None
    } else {
        Some((f, ImageSize { width: w as u64, height: h as u64 }, Seq::empty()))
    }
}

impl ImageInfo {
    /// What the result states, without the names that follow from the format.
    pub open spec fn model(&self) -> Model {
        (self.format, self.size, self.entry_sizes@)
    }

    /// The three names are those of the format.
    pub open spec fn wf(&self) -> bool {
        &&& self.ext@ == ext_of(self.format)
        &&& self.full_ext@ == full_ext_of(self.format)
        &&& self.mimetype@ == mime_of(self.format)
    }

    /// Detects the format and size of an image held in memory.
    pub fn from_raw_data(data: &[u8]) -> (r: ImageInfoResult<ImageInfo>)
        ensures
            detect::outcome(r) == detect::detect(data@),
            r matches Ok(info) ==> info.wf(),
    {
        detect::detect_bytes(data)
    }

    /// A result for `format`, with the format's names filled in.
    pub fn new(format: ImageFormat, size: ImageSize, entry_sizes: Vec<ImageSize>) -> (r: ImageInfo)
        ensures
            r.wf(),
            r.model() == (format, size, entry_sizes@),
    {
        ImageInfo {
            format,
            ext: format.ext(),
            full_ext: format.full_ext(),
            mimetype: format.mimetype(),
            size,
            entry_sizes,
        }
    }
}

/// Builds the claim of a single-image format.
pub fn single(f: ImageFormat, w: u64, h: u64) -> (r: Option<ImageInfo>)
    ensures
        model_of(r) == claim(f, w as nat, h as nat),
        r matches Some(i) ==> i.wf(),
{
    if w == 0 || h == 0 {
        None
    } else {
        Some(ImageInfo::new(f, ImageSize { width: w, height: h }, Vec::new()))
    }
}

} // verus!
