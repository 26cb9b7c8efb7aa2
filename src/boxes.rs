use vstd::prelude::*;

use crate::bytes::{ReadInterface, be32, has_tag, match_tag, read_be32};
use crate::{claim, model_of, single, ImageFormat, ImageInfo, Model};

verus! {

/// The first box tagged `tag` among the sibling boxes that fill `off..end`,
/// as its start and its size; none where a box header is cut off or a size
/// leaves the range.
pub open spec fn find_box(d: Seq<u8>, off: int, end: int, tag: Seq<u8>) -> Option<(int, int)>
    decreases end - off,
{
    if off < 0 || off + 8 > end {
        None
    } else {
        let size = be32(d, off) as int;
        if size < 8 || off + size > end {
            None
        } else if has_tag(d, off + 4, tag) {
            Some((off, size))
        } else {
            find_box(d, off + size, end, tag)
        }
    }
}

pub open spec fn span_of(r: Option<(usize, usize)>) -> Option<(int, int)> {
    match r {
        Some((s, n)) => Some((s as int, n as int)),
        None => None,
    }
}

pub fn seek_box(d: &[u8], off: usize, end: usize, tag: &[u8; 4]) -> (r: Option<(usize, usize)>)
    requires
        off <= end <= d@.len(),
    ensures
        span_of(r) == find_box(d@, off as int, end as int, tag@),
        r matches Some((s, n)) ==> off <= s && 8 <= n && s + n <= end,
{
    let mut pos = off;
    loop
        invariant
            off <= pos <= end <= d@.len(),
            find_box(d@, pos as int, end as int, tag@) == find_box(d@, off as int, end as int, tag@),
        decreases end - pos,
    {
        if end - pos < 8 {
            return None;
        }
        let size = read_be32(d, pos) as usize;
        if size < 8 || size > end - pos {
            return None;
        }
        if match_tag(d, pos + 4, tag) {
            return Some((pos, size));
        }
        pos = pos + size;
    }
}

/// One of the four-byte brands in `pos..end` is `brand`.
pub open spec fn has_brand(d: Seq<u8>, pos: int, end: int, brand: Seq<u8>) -> bool
    decreases end - pos,
{
    if pos < 0 || pos + 4 > end {
        false
    } else {
        has_tag(d, pos, brand) || has_brand(d, pos + 4, end, brand)
    }
}

fn find_brand(d: &[u8], start: usize, end: usize, brand: &[u8; 4]) -> (r: bool)
    requires
        start <= end <= d@.len(),
    ensures
        r == has_brand(d@, start as int, end as int, brand@),
{
    let mut pos = start;
    while end - pos >= 4
        invariant
            start <= pos <= end <= d@.len(),
            has_brand(d@, pos as int, end as int, brand@) == has_brand(d@, start as int, end as int, brand@),
        decreases end - pos,
    {
        if match_tag(d, pos, brand) {
            return true;
        }
        pos = pos + 4;
    }
    false
}

pub open spec fn tag4(a: u8, b: u8, c: u8, e: u8) -> Seq<u8> {
    seq![a, b, c, e]
}

/// A major brand of the AVIF or HEIF families.
pub open spec fn heif_major(d: Seq<u8>) -> bool {
    ||| has_tag(d, 8, tag4(0x61, 0x76, 0x69, 0x66))
    ||| has_tag(d, 8, tag4(0x61, 0x76, 0x69, 0x73))
    ||| has_tag(d, 8, tag4(0x6d, 0x69, 0x66, 0x31))
    ||| has_tag(d, 8, tag4(0x6d, 0x73, 0x66, 0x31))
    ||| has_tag(d, 8, tag4(0x68, 0x65, 0x69, 0x63))
    ||| has_tag(d, 8, tag4(0x68, 0x65, 0x69, 0x78))
    ||| has_tag(d, 8, tag4(0x68, 0x65, 0x76, 0x63))
    ||| has_tag(d, 8, tag4(0x68, 0x65, 0x76, 0x78))
}

/// The dimensions held by the `ispe` property of a `meta` box that fills `m..m + n`.
pub open spec fn ispe_in_meta(d: Seq<u8>, m: int, n: int) -> Option<(nat, nat)> {
    match find_box(d, m + 12, m + n, tag4(0x69, 0x70, 0x72, 0x70)) {
        Some((s1, n1)) => match find_box(d, s1 + 8, s1 + n1, tag4(0x69, 0x70, 0x63, 0x6f)) {
            Some((s2, n2)) => match find_box(d, s2 + 8, s2 + n2, tag4(0x69, 0x73, 0x70, 0x65)) {
                Some((s3, n3)) => if n3 >= 20 {
                    Some((be32(d, s3 + 12), be32(d, s3 + 16)))
                } else {
                    None
                },
                None => None,
            },
            None => None,
        },
        None => None,
    }
}

/// AVIF and HEIC: an `ftyp` box whose compatible brands name the format,
/// then a `meta` box whose item properties hold an `ispe` with the size.
#[verifier::opaque]
pub open spec fn avif_heic_spec(d: Seq<u8>) -> Option<Model> {
    let fl = be32(d, 0) as int;
    if d.len() < 16 || !has_tag(d, 4, tag4(0x66, 0x74, 0x79, 0x70)) || !heif_major(d) || fl < 16
        || fl + 12 > d.len() {
        None
    } else {
        let fmt = if has_brand(d, 16, fl, tag4(0x61, 0x76, 0x69, 0x66)) {
            Some(ImageFormat::AVIF)
        } else if has_brand(d, 16, fl, tag4(0x68, 0x65, 0x69, 0x63)) {
            Some(ImageFormat::HEIC)
        } else {
            None
        };
        let ml = be32(d, fl) as int;
        if fmt is None || !has_tag(d, fl + 4, tag4(0x6d, 0x65, 0x74, 0x61)) || ml < 12 || fl + ml
            > d.len() {
            None
        } else {
            match ispe_in_meta(d, fl, ml) {
                Some((w, h)) => claim(fmt->Some_0, w, h),
                None => None,
            }
        }
    }
}

fn major_brand_ok(d: &[u8]) -> (r: bool)
    requires
        d@.len() >= 16,
    ensures
        r == heif_major(d@),
{
    let brands: [[u8; 4]; 8] = [
        [0x61, 0x76, 0x69, 0x66],
        [0x61, 0x76, 0x69, 0x73],
        [0x6d, 0x69, 0x66, 0x31],
        [0x6d, 0x73, 0x66, 0x31],
        [0x68, 0x65, 0x69, 0x63],
        [0x68, 0x65, 0x69, 0x78],
        [0x68, 0x65, 0x76, 0x63],
        [0x68, 0x65, 0x76, 0x78],
    ];
    match_tag(d, 8, &brands[0]) || match_tag(d, 8, &brands[1]) || match_tag(d, 8, &brands[2])
        || match_tag(d, 8, &brands[3]) || match_tag(d, 8, &brands[4]) || match_tag(d, 8, &brands[5])
        || match_tag(d, 8, &brands[6]) || match_tag(d, 8, &brands[7])
}

fn ispe_size(d: &[u8], m: usize, n: usize) -> (r: Option<(u32, u32)>)
    requires
        12 <= n,
        m + n <= d@.len(),
    ensures
        match r {
            Some((w, h)) => ispe_in_meta(d@, m as int, n as int) == Some((w as nat, h as nat)),
            None => ispe_in_meta(d@, m as int, n as int) is None,
        },
{
    let _len = d.len();
    let (s1, n1) = match seek_box(d, m + 12, m + n, &[0x69, 0x70, 0x72, 0x70]) {
        Some(b) => b,
        None => return None,
    };
    let (s2, n2) = match seek_box(d, s1 + 8, s1 + n1, &[0x69, 0x70, 0x63, 0x6f]) {
        Some(b) => b,
        None => return None,
    };
    let (s3, n3) = match seek_box(d, s2 + 8, s2 + n2, &[0x69, 0x73, 0x70, 0x65]) {
        Some(b) => b,
        None => return None,
    };
    if n3 < 20 {
        return None;
    }
    Some((read_be32(d, s3 + 12), read_be32(d, s3 + 16)))
}

pub fn try_avif_heic(ri: &ReadInterface) -> (r: Option<ImageInfo>)
    ensures
        model_of(r) == avif_heic_spec(ri@),
        r matches Some(i) ==> i.wf(),
{
    proof {
        reveal(avif_heic_spec);
    }
    let d = ri.bytes();
    let len = d.len();
    if len < 16 {
        return None;
    }
    let fl = read_be32(d, 0) as usize;
    if !match_tag(d, 4, &[0x66, 0x74, 0x79, 0x70]) || !major_brand_ok(d) || fl < 16 || fl > len - 12 {
        return None;
    }
    let fmt = if find_brand(d, 16, fl, &[0x61, 0x76, 0x69, 0x66]) {
        ImageFormat::AVIF
    } else if find_brand(d, 16, fl, &[0x68, 0x65, 0x69, 0x63]) {
        ImageFormat::HEIC
    } else {
        return None;
    };
    let ml = read_be32(d, fl) as usize;
    if !match_tag(d, fl + 4, &[0x6d, 0x65, 0x74, 0x61]) || ml < 12 || ml > len - fl {
        return None;
    }
    match ispe_size(d, fl, ml) {
        Some((w, h)) => single(fmt, w as u64, h as u64),
        None => None,
    }
}


pub open spec fn jp2_signature() -> Seq<u8> {
    seq![0x00u8, 0x00, 0x00, 0x0c, 0x6a, 0x50, 0x20, 0x20, 0x0d, 0x0a, 0x87, 0x0a]
}

/// JP2 and JPX: the signature box, an `ftyp` box whose brand names the format,
/// then a `jp2h` header box whose `ihdr` holds the big-endian height and width.
#[verifier::opaque]
pub open spec fn jp2_jpx_spec(d: Seq<u8>) -> Option<Model> {
    let fl = be32(d, 12) as int;
    if d.len() < 24 || !has_tag(d, 0, jp2_signature()) || !has_tag(d, 16, tag4(0x66, 0x74, 0x79, 0x70))
        || fl < 12 || 12 + fl > d.len() {
        None
    } else {
        let fmt = if has_tag(d, 20, tag4(0x6a, 0x70, 0x32, 0x20)) {
            Some(ImageFormat::JP2)
        } else if has_tag(d, 20, tag4(0x6a, 0x70, 0x78, 0x20)) {
            Some(ImageFormat::JPX)
        } else {
            None
        };
        match (fmt, find_box(d, 12 + fl, d.len() as int, tag4(0x6a, 0x70, 0x32, 0x68))) {
            (Some(f), Some((s1, n1))) => match find_box(d, s1 + 8, s1 + n1, tag4(0x69, 0x68, 0x64, 0x72)) {
                Some((s2, n2)) => if n2 >= 16 {
                    claim(f, be32(d, s2 + 12), be32(d, s2 + 8))
                } else {
                    None
                },
                None => None,
            },
            _ => None,
        }
    }
}

pub fn try_jp2_jpx(ri: &ReadInterface) -> (r: Option<ImageInfo>)
    ensures
        model_of(r) == jp2_jpx_spec(ri@),
        r matches Some(i) ==> i.wf(),
{
    proof {
        reveal(jp2_jpx_spec);
    }
    let d = ri.bytes();
    let len = d.len();
    if len < 24 {
        return None;
    }
    let sig: [u8; 12] = [0x00, 0x00, 0x00, 0x0c, 0x6a, 0x50, 0x20, 0x20, 0x0d, 0x0a, 0x87, 0x0a];
    let fl = read_be32(d, 12) as usize;
    if !match_tag(d, 0, &sig) || !match_tag(d, 16, &[0x66, 0x74, 0x79, 0x70]) || fl < 12 || fl > len - 12 {
        return None;
    }
    let fmt = if match_tag(d, 20, &[0x6a, 0x70, 0x32, 0x20]) {
        ImageFormat::JP2
    } else if match_tag(d, 20, &[0x6a, 0x70, 0x78, 0x20]) {
        ImageFormat::JPX
    } else {
        return None;
    };
    let (s1, n1) = match seek_box(d, 12 + fl, len, &[0x6a, 0x70, 0x32, 0x68]) {
        Some(b) => b,
        None => return None,
    };
    let (s2, n2) = match seek_box(d, s1 + 8, s1 + n1, &[0x69, 0x68, 0x64, 0x72]) {
        Some(b) => b,
        None => return None,
    };
    if n2 < 16 {
        return None;
    }
    single(fmt, read_be32(d, s2 + 12) as u64, read_be32(d, s2 + 8) as u64)
}

} // verus!
