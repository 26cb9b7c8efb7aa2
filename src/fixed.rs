use vstd::prelude::*;

use crate::bytes::{ReadInterface, be32, has_tag, le16, le32, match_tag, read_be32, read_le16, read_le32};
use crate::{claim, model_of, single, ImageFormat, ImageInfo, Model};

verus! {

pub open spec fn png_magic() -> Seq<u8> {
    seq![0x89u8, 0x50, 0x4e, 0x47, 0x0d, 0x0a, 0x1a, 0x0a]
}

pub open spec fn ihdr_tag() -> Seq<u8> {
    seq![0x49u8, 0x48, 0x44, 0x52]
}

/// PNG: signature, then the IHDR chunk with big-endian width and height.
#[verifier::opaque]
pub open spec fn png_spec(d: Seq<u8>) -> Option<Model> {
    if d.len() >= 24 && has_tag(d, 0, png_magic()) && has_tag(d, 12, ihdr_tag()) {
        claim(ImageFormat::PNG, be32(d, 16), be32(d, 20))
    } else {
        None
    }
}

pub fn try_png(ri: &ReadInterface) -> (r: Option<ImageInfo>)
    ensures
        model_of(r) == png_spec(ri@),
        r matches Some(i) ==> i.wf(),
{
    proof {
        reveal(png_spec);
    }
    let d = ri.bytes();
    if d.len() < 24 {
        return None;
    }
    let magic: [u8; 8] = [0x89, 0x50, 0x4e, 0x47, 0x0d, 0x0a, 0x1a, 0x0a];
    let ihdr: [u8; 4] = [0x49, 0x48, 0x44, 0x52];
    if !match_tag(d, 0, &magic) || !match_tag(d, 12, &ihdr) {
        return None;
    }
    single(ImageFormat::PNG, read_be32(d, 16) as u64, read_be32(d, 20) as u64)
}


/// GIF: "GIF87a" or "GIF89a", then little-endian width and height.
#[verifier::opaque]
pub open spec fn gif_spec(d: Seq<u8>) -> Option<Model> {
    if d.len() >= 10 && (has_tag(d, 0, seq![0x47u8, 0x49, 0x46, 0x38, 0x37, 0x61]) || has_tag(
        d,
        0,
        seq![0x47u8, 0x49, 0x46, 0x38, 0x39, 0x61],
    )) {
        claim(ImageFormat::GIF, le16(d, 6), le16(d, 8))
    } else {
        None
    }
}

pub fn try_gif(ri: &ReadInterface) -> (r: Option<ImageInfo>)
    ensures
        model_of(r) == gif_spec(ri@),
        r matches Some(i) ==> i.wf(),
{
    proof {
        reveal(gif_spec);
    }
    let d = ri.bytes();
    if d.len() < 10 {
        return None;
    }
    let v87: [u8; 6] = [0x47, 0x49, 0x46, 0x38, 0x37, 0x61];
    let v89: [u8; 6] = [0x47, 0x49, 0x46, 0x38, 0x39, 0x61];
    if !match_tag(d, 0, &v87) && !match_tag(d, 0, &v89) {
        return None;
    }
    single(ImageFormat::GIF, read_le16(d, 6) as u64, read_le16(d, 8) as u64)
}

/// DDS: "DDS ", then little-endian height and width.
#[verifier::opaque]
pub open spec fn dds_spec(d: Seq<u8>) -> Option<Model> {
    if d.len() >= 20 && has_tag(d, 0, seq![0x44u8, 0x44, 0x53, 0x20]) {
        claim(ImageFormat::DDS, le32(d, 16), le32(d, 12))
    } else {
        None
    }
}

pub fn try_dds(ri: &ReadInterface) -> (r: Option<ImageInfo>)
    ensures
        model_of(r) == dds_spec(ri@),
        r matches Some(i) ==> i.wf(),
{
    proof {
        reveal(dds_spec);
    }
    let d = ri.bytes();
    if d.len() < 20 {
        return None;
    }
    let magic: [u8; 4] = [0x44, 0x44, 0x53, 0x20];
    if !match_tag(d, 0, &magic) {
        return None;
    }
    single(ImageFormat::DDS, read_le32(d, 16) as u64, read_le32(d, 12) as u64)
}

/// PSD: "8BPS", then big-endian height and width.
#[verifier::opaque]
pub open spec fn psd_spec(d: Seq<u8>) -> Option<Model> {
    if d.len() >= 22 && has_tag(d, 0, seq![0x38u8, 0x42, 0x50, 0x53]) {
        claim(ImageFormat::PSD, be32(d, 18), be32(d, 14))
    } else {
        None
    }
}

pub fn try_psd(ri: &ReadInterface) -> (r: Option<ImageInfo>)
    ensures
        model_of(r) == psd_spec(ri@),
        r matches Some(i) ==> i.wf(),
{
    proof {
        reveal(psd_spec);
    }
    let d = ri.bytes();
    if d.len() < 22 {
        return None;
    }
    let magic: [u8; 4] = [0x38, 0x42, 0x50, 0x53];
    if !match_tag(d, 0, &magic) {
        return None;
    }
    single(ImageFormat::PSD, read_be32(d, 18) as u64, read_be32(d, 14) as u64)
}

/// QOI: "qoif", then big-endian width and height in a fourteen-byte header.
#[verifier::opaque]
pub open spec fn qoi_spec(d: Seq<u8>) -> Option<Model> {
    if d.len() >= 14 && has_tag(d, 0, seq![0x71u8, 0x6f, 0x69, 0x66]) {
        claim(ImageFormat::QOI, be32(d, 4), be32(d, 8))
    } else {
        None
    }
}

pub fn try_qoi(ri: &ReadInterface) -> (r: Option<ImageInfo>)
    ensures
        model_of(r) == qoi_spec(ri@),
        r matches Some(i) ==> i.wf(),
{
    proof {
        reveal(qoi_spec);
    }
    let d = ri.bytes();
    if d.len() < 14 {
        return None;
    }
    let magic: [u8; 4] = [0x71, 0x6f, 0x69, 0x66];
    if !match_tag(d, 0, &magic) {
        return None;
    }
    single(ImageFormat::QOI, read_be32(d, 4) as u64, read_be32(d, 8) as u64)
}

pub open spec fn ktx_magic() -> Seq<u8> {
    seq![0xabu8, 0x4b, 0x54, 0x58, 0x20, 0x31, 0x31, 0xbb, 0x0d, 0x0a, 0x1a, 0x0a]
}

/// KTX: its twelve-byte identifier, then little-endian width and height at 36 and 40.
#[verifier::opaque]
pub open spec fn ktx_spec(d: Seq<u8>) -> Option<Model> {
    if d.len() >= 44 && has_tag(d, 0, ktx_magic()) {
        claim(ImageFormat::KTX, le32(d, 36), le32(d, 40))
    } else {
        None
    }
}

pub fn try_ktx(ri: &ReadInterface) -> (r: Option<ImageInfo>)
    ensures
        model_of(r) == ktx_spec(ri@),
        r matches Some(i) ==> i.wf(),
{
    proof {
        reveal(ktx_spec);
    }
    let d = ri.bytes();
    if d.len() < 44 {
        return None;
    }
    let magic: [u8; 12] = [0xab, 0x4b, 0x54, 0x58, 0x20, 0x31, 0x31, 0xbb, 0x0d, 0x0a, 0x1a, 0x0a];
    if !match_tag(d, 0, &magic) {
        return None;
    }
    single(ImageFormat::KTX, read_le32(d, 36) as u64, read_le32(d, 40) as u64)
}

/// Magnitude of a 32-bit two's-complement value given by its bit pattern.
pub open spec fn abs32(raw: nat) -> nat {
    if raw >= 0x8000_0000 {
        (0x1_0000_0000 - raw) as nat
    } else {
        raw
    }
}

/// BMP: "BM", then the signed little-endian width (positive) and height
/// (negative for top-down rows: its magnitude counts).
#[verifier::opaque]
pub open spec fn bmp_spec(d: Seq<u8>) -> Option<Model> {
    if d.len() >= 26 && has_tag(d, 0, seq![0x42u8, 0x4d]) && le32(d, 18) < 0x8000_0000 {
        claim(ImageFormat::BMP, le32(d, 18), abs32(le32(d, 22)))
    } else {
        None
    }
}

pub fn try_bmp(ri: &ReadInterface) -> (r: Option<ImageInfo>)
    ensures
        model_of(r) == bmp_spec(ri@),
        r matches Some(i) ==> i.wf(),
{
    proof {
        reveal(bmp_spec);
    }
    let d = ri.bytes();
    if d.len() < 26 {
        return None;
    }
    let magic: [u8; 2] = [0x42, 0x4d];
    if !match_tag(d, 0, &magic) {
        return None;
    }
    let w = read_le32(d, 18);
    if w >= 0x8000_0000 {
        return None;
    }
    let raw_h = read_le32(d, 22);
    let h: u64 = if raw_h >= 0x8000_0000 {
        0x1_0000_0000u64 - raw_h as u64
    } else {
        raw_h as u64
    };
    single(ImageFormat::BMP, w as u64, h)
}

/// Little-endian value of the three bytes at `off`.
pub open spec fn le24(d: Seq<u8>, off: int) -> nat {
    d[off + 2] as nat * 65536 + le16(d, off)
}

/// WEBP: "RIFF", "WEBP", then a lossy, lossless or extended first chunk.
#[verifier::opaque]
pub open spec fn webp_spec(d: Seq<u8>) -> Option<Model> {
    if d.len() >= 30 && has_tag(d, 0, seq![0x52u8, 0x49, 0x46, 0x46]) && has_tag(
        d,
        8,
        seq![0x57u8, 0x45, 0x42, 0x50],
    ) {
        if has_tag(d, 12, seq![0x56u8, 0x50, 0x38, 0x20]) {
            claim(ImageFormat::WEBP, le16(d, 26) % 0x4000, le16(d, 28) % 0x4000)
        } else if has_tag(d, 12, seq![0x56u8, 0x50, 0x38, 0x4c]) {
            claim(ImageFormat::WEBP, le32(d, 21) % 0x4000 + 1, (le32(d, 21) / 0x4000) % 0x4000 + 1)
        } else if has_tag(d, 12, seq![0x56u8, 0x50, 0x38, 0x58]) {
            claim(ImageFormat::WEBP, le24(d, 24) + 1, le24(d, 27) + 1)
        } else {
            None
        }
    } else {
        None
    }
}

pub fn try_webp(ri: &ReadInterface) -> (r: Option<ImageInfo>)
    ensures
        model_of(r) == webp_spec(ri@),
        r matches Some(i) ==> i.wf(),
{
    proof {
        reveal(webp_spec);
    }
    let d = ri.bytes();
    if d.len() < 30 {
        return None;
    }
    let riff: [u8; 4] = [0x52, 0x49, 0x46, 0x46];
    let webp: [u8; 4] = [0x57, 0x45, 0x42, 0x50];
    if !match_tag(d, 0, &riff) || !match_tag(d, 8, &webp) {
        return None;
    }
    let lossy: [u8; 4] = [0x56, 0x50, 0x38, 0x20];
    let lossless: [u8; 4] = [0x56, 0x50, 0x38, 0x4c];
    let extended: [u8; 4] = [0x56, 0x50, 0x38, 0x58];
    if match_tag(d, 12, &lossy) {
        single(
            ImageFormat::WEBP,
            (read_le16(d, 26) % 0x4000) as u64,
            (read_le16(d, 28) % 0x4000) as u64,
        )
    } else if match_tag(d, 12, &lossless) {
        let b = read_le32(d, 21) as u64;
        single(ImageFormat::WEBP, b % 0x4000 + 1, (b / 0x4000) % 0x4000 + 1)
    } else if match_tag(d, 12, &extended) {
        let w = d[26] as u64 * 65536 + read_le16(d, 24) as u64;
        let h = d[29] as u64 * 65536 + read_le16(d, 27) as u64;
        single(ImageFormat::WEBP, w + 1, h + 1)
    } else {
        None
    }
}

} // verus!
