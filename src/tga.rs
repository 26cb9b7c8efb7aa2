use vstd::prelude::*;

use crate::bytes::{ReadInterface, has_tag, le16, match_tag, read_le16};
use crate::{claim, model_of, single, ImageFormat, ImageInfo, Model};

verus! {

pub open spec fn tga_footer() -> Seq<u8> {
    seq![
        0x54u8, 0x52, 0x55, 0x45, 0x56, 0x49, 0x53, 0x49, 0x4f,
        0x4e, 0x2d, 0x58, 0x46, 0x49, 0x4c, 0x45, 0x2e, 0x00,
    ]
}

/// A header that looks like a TGA one: a colour map type of 0 or 1, a known
/// image type, a usual pixel depth, and no colour map fields without a map.
pub open spec fn tga_plausible(d: Seq<u8>) -> bool {
    &&& d[1] <= 1
    &&& (d[2] == 1 || d[2] == 2 || d[2] == 3 || d[2] == 9 || d[2] == 10 || d[2] == 11)
    &&& (d[16] == 8 || d[16] == 15 || d[16] == 16 || d[16] == 24 || d[16] == 32)
    &&& (d[1] == 0 ==> d[3] == 0 && d[4] == 0 && d[5] == 0 && d[6] == 0 && d[7] == 0)
}

/// TGA: no magic at the start. Claimed when the file ends with the version 2
/// footer or, failing that, when the header is plausible; the little-endian
/// width and height stand at 12 and 14.
#[verifier::opaque]
pub open spec fn tga_spec(d: Seq<u8>) -> Option<Model> {
    if d.len() >= 18 && (has_tag(d, d.len() - 18, tga_footer()) || tga_plausible(d)) {
        claim(ImageFormat::TGA, le16(d, 12), le16(d, 14))
    } else {
        None
    }
}

fn plausible(d: &[u8]) -> (r: bool)
    requires
        d@.len() >= 18,
    ensures
        r == tga_plausible(d@),
{
    let cmap = d[1];
    let kind = d[2];
    let depth = d[16];
    cmap <= 1 && (kind == 1 || kind == 2 || kind == 3 || kind == 9 || kind == 10 || kind == 11)
        && (depth == 8 || depth == 15 || depth == 16 || depth == 24 || depth == 32) && (cmap != 0
        || (d[3] == 0 && d[4] == 0 && d[5] == 0 && d[6] == 0 && d[7] == 0))
}

pub fn try_tga(ri: &ReadInterface) -> (r: Option<ImageInfo>)
    ensures
        model_of(r) == tga_spec(ri@),
        r matches Some(i) ==> i.wf(),
{
    proof {
        reveal(tga_spec);
    }
    let d = ri.bytes();
    let len = d.len();
    if len < 18 {
        return None;
    }
    let footer: [u8; 18] = [
        0x54, 0x52, 0x55, 0x45, 0x56, 0x49, 0x53, 0x49, 0x4f,
        0x4e, 0x2d, 0x58, 0x46, 0x49, 0x4c, 0x45, 0x2e, 0x00,
    ];
    if !match_tag(d, len - 18, &footer) && !plausible(d) {
        return None;
    }
    single(ImageFormat::TGA, read_le16(d, 12) as u64, read_le16(d, 14) as u64)
}

} // verus!
