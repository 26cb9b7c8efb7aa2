use vstd::prelude::*;

use crate::bytes::{ReadInterface, be16, be32, has_tag, le16, le32, match_tag, read_be16, read_be32, read_le16, read_le32};
use crate::{claim, model_of, single, ImageFormat, ImageInfo, Model};

verus! {

/// A two-byte value in the byte order of the file.
pub open spec fn rd16(d: Seq<u8>, off: int, little: bool) -> nat {
    if little { le16(d, off) } else { be16(d, off) }
}

/// A four-byte value in the byte order of the file.
pub open spec fn rd32(d: Seq<u8>, off: int, little: bool) -> nat {
    if little { le32(d, off) } else { be32(d, off) }
}

fn get16(d: &[u8], off: usize, little: bool) -> (r: u16)
    requires
        off + 2 <= d@.len(),
    ensures
        r as nat == rd16(d@, off as int, little),
{
    if little { read_le16(d, off) } else { read_be16(d, off) }
}

fn get32(d: &[u8], off: usize, little: bool) -> (r: u32)
    requires
        off + 4 <= d@.len(),
    ensures
        r as nat == rd32(d@, off as int, little),
{
    if little { read_le32(d, off) } else { read_be32(d, off) }
}

/// The value of the directory entry at `e`: a SHORT or a LONG.
pub open spec fn entry_value(d: Seq<u8>, e: int, little: bool) -> Option<nat> {
    let t = rd16(d, e + 2, little);
    if t == 3 {
        Some(rd16(d, e + 8, little))
    } else if t == 4 {
        Some(rd32(d, e + 8, little))
    } else {
        None
    }
}

/// The value of the first entry with `tag` among the twelve-byte entries that
/// fill `e..end`.
pub open spec fn find_entry(d: Seq<u8>, e: int, end: int, little: bool, tag: nat) -> Option<nat>
    decreases end - e,
{
    if e < 0 || e + 12 > end || e + 12 > d.len() {
        None
    } else if rd16(d, e, little) == tag {
        entry_value(d, e, little)
    } else {
        find_entry(d, e + 12, end, little, tag)
    }
}

proof fn lemma_find_entry_past_end(d: Seq<u8>, e: int, a: int, b: int, little: bool, tag: nat)
    requires
        a >= d.len(),
        b >= d.len(),
    ensures
        find_entry(d, e, a, little, tag) == find_entry(d, e, b, little, tag),
    decreases d.len() - e,
{
    if e >= 0 && e + 12 <= d.len() {
        lemma_find_entry_past_end(d, e + 12, a, b, little, tag);
    }
}

fn seek_entry(d: &[u8], start: usize, end: usize, little: bool, tag: u16) -> (r: Option<u64>)
    ensures
        match r {
            Some(v) => find_entry(d@, start as int, end as int, little, tag as nat) == Some(v as nat),
            None => find_entry(d@, start as int, end as int, little, tag as nat) is None,
        },
{
    let len = d.len();
    let mut e = start;
    loop
        invariant
            len == d@.len(),
            start <= e,
            find_entry(d@, e as int, end as int, little, tag as nat) == find_entry(
                d@,
                start as int,
                end as int,
                little,
                tag as nat,
            ),
        decreases len - e,
    {
        if e > end || end - e < 12 || e > len || len - e < 12 {
            return None;
        }
        if get16(d, e, little) == tag {
            let t = get16(d, e + 2, little);
            if t == 3 {
                return Some(get16(d, e + 8, little) as u64);
            } else if t == 4 {
                return Some(get32(d, e + 8, little) as u64);
            } else {
                return None;
            }
        }
        e = e + 12;
    }
}

/// TIFF: "II*\0" (little-endian) or "MM\0*" (big-endian), the offset of the
/// first image directory, then its entries: tag 256 gives the width, 257 the height.
#[verifier::opaque]
pub open spec fn tiff_spec(d: Seq<u8>) -> Option<Model> {
    let little = has_tag(d, 0, seq![0x49u8, 0x49, 0x2a, 0x00]);
    let big = has_tag(d, 0, seq![0x4du8, 0x4d, 0x00, 0x2a]);
    if d.len() < 8 || (!little && !big) {
        None
    } else {
        let ifd = rd32(d, 4, little) as int;
        if ifd + 2 > d.len() {
            None
        } else {
            let end = ifd + 2 + 12 * rd16(d, ifd, little);
            match (find_entry(d, ifd + 2, end, little, 256), find_entry(d, ifd + 2, end, little, 257)) {
                (Some(w), Some(h)) => claim(ImageFormat::TIFF, w, h),
                _ => None,
            }
        }
    }
}

pub fn try_tiff(ri: &ReadInterface) -> (r: Option<ImageInfo>)
    ensures
        model_of(r) == tiff_spec(ri@),
        r matches Some(i) ==> i.wf(),
{
    proof {
        reveal(tiff_spec);
    }
    let d = ri.bytes();
    let len = d.len();
    if len < 8 {
        return None;
    }
    let little = match_tag(d, 0, &[0x49, 0x49, 0x2a, 0x00]);
    if !little && !match_tag(d, 0, &[0x4d, 0x4d, 0x00, 0x2a]) {
        return None;
    }
    let ifd = get32(d, 4, little) as usize;
    if ifd > len - 2 {
        return None;
    }
    let count = get16(d, ifd, little) as usize;
    let end = if count > (len - ifd - 2) / 12 {
        proof {
            lemma_find_entry_past_end(d@, ifd + 2, len as int, ifd + 2 + 12 * count, little, 256);
            lemma_find_entry_past_end(d@, ifd + 2, len as int, ifd + 2 + 12 * count, little, 257);
        }
        len
    } else {
        assert(12 * count <= len - ifd - 2) by (nonlinear_arith)
            requires count <= (len - ifd - 2) / 12, len >= ifd + 2;
        ifd + 2 + 12 * count
    };
    let w = seek_entry(d, ifd + 2, end, little, 256);
    let h = seek_entry(d, ifd + 2, end, little, 257);
    match (w, h) {
        (Some(w), Some(h)) => single(ImageFormat::TIFF, w, h),
        _ => None,
    }
}

} // verus!
