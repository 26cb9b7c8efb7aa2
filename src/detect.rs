use vstd::prelude::*;

use crate::bytes::ReadInterface;
use crate::boxes::{avif_heic_spec, jp2_jpx_spec, try_avif_heic, try_jp2_jpx};
use crate::fixed::{
    bmp_spec, dds_spec, gif_spec, ktx_spec, png_spec, psd_spec, qoi_spec, try_bmp, try_dds, try_gif,
    try_ktx, try_png, try_psd, try_qoi, try_webp, webp_spec,
};
use crate::hdr::{hdr_spec, try_hdr};
use crate::icons::{cur_ico_spec, icns_spec, try_cur_ico, try_icns};
use crate::jpeg::{jpeg_spec, try_jpg};
use crate::tga::{tga_spec, try_tga};
use crate::tiff::{tiff_spec, try_tiff};
use crate::{ImageInfo, ImageInfoError, ImageInfoResult, Model};

verus! {

/// Number of probers.
pub const PROBER_COUNT: usize = 16;

/// The prober at position `i` of the priority order. The heuristic TGA
/// prober, which needs no magic, comes last.
pub open spec fn probe(i: int, d: Seq<u8>) -> Option<Model> {
    if i == 0 {
        avif_heic_spec(d)
    } else if i == 1 {
        bmp_spec(d)
    } else if i == 2 {
        cur_ico_spec(d)
    } else if i == 3 {
        dds_spec(d)
    } else if i == 4 {
        gif_spec(d)
    } else if i == 5 {
        hdr_spec(d)
    } else if i == 6 {
        icns_spec(d)
    } else if i == 7 {
        jp2_jpx_spec(d)
    } else if i == 8 {
        jpeg_spec(d)
    } else if i == 9 {
        ktx_spec(d)
    } else if i == 10 {
        png_spec(d)
    } else if i == 11 {
        psd_spec(d)
    } else if i == 12 {
        qoi_spec(d)
    } else if i == 13 {
        tiff_spec(d)
    } else if i == 14 {
        webp_spec(d)
    } else if i == 15 {
        tga_spec(d)
    } else {
        None
    }
}

/// The claim of the first prober from position `i` on that claims the input.
pub open spec fn first_claim(d: Seq<u8>, i: int) -> Result<Model, ImageInfoError>
    decreases PROBER_COUNT - i,
{
    if i < 0 || i >= PROBER_COUNT {
        Err(ImageInfoError::UnrecognizedFormat)
    } else {
        match probe(i, d) {
            Some(m) => Ok(m),
            None => first_claim(d, i + 1),
        }
    }
}

/// Detection of a byte source: an empty source cannot be read; otherwise the
/// first prober in priority order that claims it decides.
pub open spec fn detect(d: Seq<u8>) -> Result<Model, ImageInfoError> {
    if d.len() == 0 {
        Err(ImageInfoError::IoError)
    } else {
        first_claim(d, 0)
    }
}

/// The model of a detection outcome.
pub open spec fn outcome(r: ImageInfoResult<ImageInfo>) -> Result<Model, ImageInfoError> {
    match r {
        Ok(i) => Ok(i.model()),
        Err(e) => Err(e),
    }
}

/// Runs the prober at position `i`.
fn run_probe(ri: &ReadInterface, i: usize) -> (r: Option<ImageInfo>)
    requires
        i < PROBER_COUNT,
    ensures
        crate::model_of(r) == probe(i as int, ri@),
        r matches Some(info) ==> info.wf(),
{
    match i {
        0 => try_avif_heic(ri),
        1 => try_bmp(ri),
        2 => try_cur_ico(ri),
        3 => try_dds(ri),
        4 => try_gif(ri),
        5 => try_hdr(ri),
        6 => try_icns(ri),
        7 => try_jp2_jpx(ri),
        8 => try_jpg(ri),
        9 => try_ktx(ri),
        10 => try_png(ri),
        11 => try_psd(ri),
        12 => try_qoi(ri),
        13 => try_tiff(ri),
        14 => try_webp(ri),
        _ => try_tga(ri),
    }
}

/// Wraps the bytes in a reader, tries every prober in priority order on it
/// and returns the first claim.
pub fn detect_bytes(d: &[u8]) -> (r: ImageInfoResult<ImageInfo>)
    ensures
        outcome(r) == detect(d@),
        r matches Ok(info) ==> info.wf(),
{
    if d.len() == 0 {
        return Err(ImageInfoError::IoError);
    }
    let ri = ReadInterface::new(d);
    let mut i: usize = 0;
    while i < PROBER_COUNT
        invariant
            i <= PROBER_COUNT,
            d@.len() > 0,
            ri@ == d@,
            first_claim(d@, i as int) == detect(d@),
        decreases PROBER_COUNT - i,
    {
        if let Some(info) = run_probe(&ri, i) {
            return Ok(info);
        }
        i = i + 1;
    }
    Err(ImageInfoError::UnrecognizedFormat)
}

} // verus!
