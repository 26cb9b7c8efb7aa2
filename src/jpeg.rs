use vstd::prelude::*;

use crate::bytes::{ReadInterface, be16, read_be16};
use crate::{claim, model_of, single, ImageFormat, ImageInfo, Model};

verus! {

/// Start-of-frame markers: those that carry the frame's dimensions.
pub open spec fn is_sof(m: u8) -> bool {
    0xc0 <= m <= 0xcf && m != 0xc4 && m != 0xc8 && m != 0xcc
}

/// Walks the segments from `off` up to the first start-of-frame segment.
pub open spec fn jpeg_walk(d: Seq<u8>, off: int) -> Option<Model>
    decreases d.len() - off,
{
    if off < 0 || off + 4 > d.len() || d[off] != 0xff {
        None
    } else if is_sof(d[off + 1]) {
        if off + 9 <= d.len() {
            claim(ImageFormat::JPEG, be16(d, off + 7), be16(d, off + 5))
        } else {
            None
        }
    } else {
        let next = off + 2 + be16(d, off + 2);
        if next > d.len() {
            None
        } else {
            jpeg_walk(d, next)
        }
    }
}

/// JPEG: the start-of-image marker, then segments up to a start-of-frame,
/// which holds the big-endian height and width.
#[verifier::opaque]
pub open spec fn jpeg_spec(d: Seq<u8>) -> Option<Model> {
    if d.len() >= 2 && d[0] == 0xff && d[1] == 0xd8 {
        jpeg_walk(d, 2)
    } else {
        None
    }
}

pub fn try_jpg(ri: &ReadInterface) -> (r: Option<ImageInfo>)
    ensures
        model_of(r) == jpeg_spec(ri@),
        r matches Some(i) ==> i.wf(),
{
    proof {
        reveal(jpeg_spec);
    }
    let d = ri.bytes();
    let len = d.len();
    if len < 2 || d[0] != 0xff || d[1] != 0xd8 {
        return None;
    }
    let mut off: usize = 2;
    loop
        invariant
            len == d@.len(),
            d@ == ri@,
            2 <= off <= len,
            jpeg_walk(d@, off as int) == jpeg_spec(d@),
        decreases len - off,
    {
        if len - off < 4 || d[off] != 0xff {
            return None;
        }
        let m = d[off + 1];
        if 0xc0 <= m && m <= 0xcf && m != 0xc4 && m != 0xc8 && m != 0xcc {
            if len - off < 9 {
                return None;
            }
            return single(ImageFormat::JPEG, read_be16(d, off + 7) as u64, read_be16(d, off + 5) as u64);
        }
        let seg = read_be16(d, off + 2) as usize;
        if seg > len - off - 2 {
            return None;
        }
        off = off + 2 + seg;
    }
}

} // verus!
