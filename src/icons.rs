use vstd::prelude::*;

use crate::bytes::{ReadInterface, be32, has_tag, le16, match_tag, read_be32, read_le16};
use crate::{model_of, ImageFormat, ImageInfo, ImageSize, Model};

verus! {

/// Size of an icon directory entry: a stored 0 stands for 256.
pub open spec fn ico_dim(b: u8) -> u64 {
    if b == 0 {
        256
    } else {
        b as u64
    }
}

/// The size declared by the `i`-th entry of an ICO or CUR directory.
pub open spec fn ico_entry(d: Seq<u8>, i: int) -> ImageSize {
    ImageSize { width: ico_dim(d[6 + 16 * i]), height: ico_dim(d[7 + 16 * i]) }
}

/// ICO and CUR: a reserved zero, the type (1 icon, 2 cursor), the entry count,
/// then one sixteen-byte entry each. The first entry is the primary size.
#[verifier::opaque]
pub open spec fn cur_ico_spec(d: Seq<u8>) -> Option<Model> {
    if d.len() < 6 || d[0] != 0 || d[1] != 0 || d[3] != 0 || (d[2] != 1 && d[2] != 2) {
        None
    } else {
        let n = le16(d, 4) as int;
        if n == 0 || 6 + 16 * n > d.len() {
            None
        } else {
            let f = if d[2] == 1 { ImageFormat::ICO } else { ImageFormat::CUR };
            Some((f, ico_entry(d, 0), Seq::new(n as nat, |i: int| ico_entry(d, i))))
        }
    }
}

fn ico_dim_of(b: u8) -> (r: u64)
    ensures
        r == ico_dim(b),
{
    if b == 0 {
        256
    } else {
        b as u64
    }
}

pub fn try_cur_ico(ri: &ReadInterface) -> (r: Option<ImageInfo>)
    ensures
        model_of(r) == cur_ico_spec(ri@),
        r matches Some(i) ==> i.wf(),
{
    proof {
        reveal(cur_ico_spec);
    }
    let d = ri.bytes();
    let len = d.len();
    if len < 6 || d[0] != 0 || d[1] != 0 || d[3] != 0 || (d[2] != 1 && d[2] != 2) {
        return None;
    }
    let n = read_le16(d, 4) as usize;
    if n == 0 || n > (len - 6) / 16 {
        return None;
    }
    assert(6 + 16 * n <= len) by (nonlinear_arith)
        requires n <= (len - 6) / 16, len >= 6;
    let f = if d[2] == 1 { ImageFormat::ICO } else { ImageFormat::CUR };
    let mut entries: Vec<ImageSize> = Vec::new();
    let mut i: usize = 0;
    while i < n
        invariant
            i <= n,
            6 + 16 * n <= len,
            len == d@.len(),
            entries@ =~= Seq::new(i as nat, |k: int| ico_entry(d@, k)),
        decreases n - i,
    {
        assert(7 + 16 * i < len) by (nonlinear_arith)
            requires i < n, 6 + 16 * n <= len;
        let e = 6 + 16 * i;
        entries.push(ImageSize { width: ico_dim_of(d[e]), height: ico_dim_of(d[e + 1]) });
        i = i + 1;
    }
    let primary = ImageSize { width: ico_dim_of(d[6]), height: ico_dim_of(d[7]) };
    Some(ImageInfo::new(f, primary, entries))
}

/// Size of an ICNS element, by its big-endian type code; (0, 0) for a type
/// that holds no image of known size.
pub open spec fn icns_dims(t: u32) -> (u64, u64) {
    match t {
        0x49434f4e => (32, 32),
        0x49434e23 => (32, 32),
        0x69636d23 => (16, 12),
        0x69636d34 => (16, 12),
        0x69636d38 => (16, 12),
        0x69637323 => (16, 16),
        0x69637334 => (16, 16),
        0x69637338 => (16, 16),
        0x69733332 => (16, 16),
        0x73386d6b => (16, 16),
        0x69636c34 => (32, 32),
        0x69636c38 => (32, 32),
        0x696c3332 => (32, 32),
        0x6c386d6b => (32, 32),
        0x69636823 => (48, 48),
        0x69636834 => (48, 48),
        0x69636838 => (48, 48),
        0x69683332 => (48, 48),
        0x68386d6b => (48, 48),
        0x69743332 => (128, 128),
        0x74386d6b => (128, 128),
        0x69637034 => (16, 16),
        0x69637035 => (32, 32),
        0x69637036 => (64, 64),
        0x69633037 => (128, 128),
        0x69633038 => (256, 256),
        0x69633039 => (512, 512),
        0x69633130 => (1024, 1024),
        0x69633131 => (32, 32),
        0x69633132 => (64, 64),
        0x69633133 => (256, 256),
        0x69633134 => (512, 512),
        0x69633034 => (16, 16),
        0x69633035 => (32, 32),
        0x69637342 => (36, 36),
        0x69637362 => (18, 18),
        _ => (0, 0),
    }
}

fn icns_dims_of(t: u32) -> (r: (u64, u64))
    ensures
        r == icns_dims(t),
{
    match t {
        0x49434f4e => (32, 32),
        0x49434e23 => (32, 32),
        0x69636d23 => (16, 12),
        0x69636d34 => (16, 12),
        0x69636d38 => (16, 12),
        0x69637323 => (16, 16),
        0x69637334 => (16, 16),
        0x69637338 => (16, 16),
        0x69733332 => (16, 16),
        0x73386d6b => (16, 16),
        0x69636c34 => (32, 32),
        0x69636c38 => (32, 32),
        0x696c3332 => (32, 32),
        0x6c386d6b => (32, 32),
        0x69636823 => (48, 48),
        0x69636834 => (48, 48),
        0x69636838 => (48, 48),
        0x69683332 => (48, 48),
        0x68386d6b => (48, 48),
        0x69743332 => (128, 128),
        0x74386d6b => (128, 128),
        0x69637034 => (16, 16),
        0x69637035 => (32, 32),
        0x69637036 => (64, 64),
        0x69633037 => (128, 128),
        0x69633038 => (256, 256),
        0x69633039 => (512, 512),
        0x69633130 => (1024, 1024),
        0x69633131 => (32, 32),
        0x69633132 => (64, 64),
        0x69633133 => (256, 256),
        0x69633134 => (512, 512),
        0x69633034 => (16, 16),
        0x69633035 => (32, 32),
        0x69637342 => (36, 36),
        0x69637362 => (18, 18),
        _ => (0, 0),
    }
}

/// The sizes of the known elements among those that fill `off..end` exactly,
/// in order; none where an element header or an element runs past `end`.
pub open spec fn icns_walk(d: Seq<u8>, off: int, end: int) -> Option<Seq<ImageSize>>
    decreases end - off,
{
    if off == end {
        Some(Seq::empty())
    } else if off < 0 || off + 8 > end {
        None
    } else {
        let n = be32(d, off + 4) as int;
        if n < 8 || off + n > end {
            None
        } else {
            let (w, h) = icns_dims(be32(d, off) as u32);
            match icns_walk(d, off + n, end) {
                None => None,
                Some(rest) => if w == 0 {
                    Some(rest)
                } else {
                    Some(seq![ImageSize { width: w, height: h }].add(rest))
                },
            }
        }
    }
}

/// Area of a size, as a mathematical integer.
pub open spec fn area(s: ImageSize) -> nat {
    s.width as nat * s.height as nat
}

/// The first entry of largest area.
pub open spec fn largest(s: Seq<ImageSize>) -> ImageSize
    decreases s.len(),
{
    if s.len() <= 1 {
        s[0]
    } else {
        let best = largest(s.drop_last());
        if area(s.last()) > area(best) {
            s.last()
        } else {
            best
        }
    }
}

/// ICNS: "icns" and the total length, then typed elements that fill it
/// exactly. A total past the end of the data is declined. Every element of a
/// known type gives an entry; the largest one is the primary size.
#[verifier::opaque]
pub open spec fn icns_spec(d: Seq<u8>) -> Option<Model> {
    if d.len() < 8 || !has_tag(d, 0, seq![0x69u8, 0x63, 0x6e, 0x73]) {
        None
    } else {
        let end = be32(d, 4) as int;
        if end > d.len() || end < 8 {
            None
        } else {
            match icns_walk(d, 8, end) {
                Some(entries) => if entries.len() == 0 {
                    None
                } else {
                    Some((ImageFormat::ICNS, largest(entries), entries))
                },
                None => None,
            }
        }
    }
}

fn area_of(s: ImageSize) -> (r: u128)
    ensures
        r as nat == area(s),
{
    assert(s.width as nat * s.height as nat <= u128::MAX) by (nonlinear_arith)
        requires s.width <= u64::MAX, s.height <= u64::MAX;
    s.width as u128 * s.height as u128
}

fn pick_largest(v: &Vec<ImageSize>) -> (r: ImageSize)
    requires
        v@.len() > 0,
    ensures
        r == largest(v@),
{
    let mut best = v[0];
    let mut i: usize = 1;
    assert(v@.subrange(0, 1).len() == 1);
    while i < v.len()
        invariant
            1 <= i <= v@.len(),
            best == largest(v@.subrange(0, i as int)),
        decreases v@.len() - i,
    {
        let ghost prev = v@.subrange(0, i as int);
        assert(v@.subrange(0, i + 1).drop_last() =~= prev);
        if area_of(v[i]) > area_of(best) {
            best = v[i];
        }
        i = i + 1;
    }
    assert(v@.subrange(0, v@.len() as int) =~= v@);
    best
}

pub fn try_icns(ri: &ReadInterface) -> (r: Option<ImageInfo>)
    ensures
        model_of(r) == icns_spec(ri@),
        r matches Some(i) ==> i.wf(),
{
    proof {
        reveal(icns_spec);
    }
    let d = ri.bytes();
    let len = d.len();
    if len < 8 || !match_tag(d, 0, &[0x69, 0x63, 0x6e, 0x73]) {
        return None;
    }
    let end = read_be32(d, 4) as usize;
    if end > len || end < 8 {
        return None;
    }
    let mut entries: Vec<ImageSize> = Vec::new();
    let mut off: usize = 8;
    while off < end
        invariant
            8 <= off <= end <= len,
            len == d@.len(),
            d@ == ri@,
            has_tag(d@, 0, seq![0x69u8, 0x63, 0x6e, 0x73]),
            end == be32(d@, 4),
            icns_walk(d@, off as int, end as int) is Some <==> icns_walk(d@, 8, end as int) is Some,
            icns_walk(d@, off as int, end as int) is Some ==> entries@ + icns_walk(
                d@,
                off as int,
                end as int,
            )->Some_0 == icns_walk(d@, 8, end as int)->Some_0,
        decreases end - off,
    {
        if end - off < 8 {
            assert(icns_walk(d@, off as int, end as int) is None);
            assert(icns_spec(d@) is None) by {
                reveal(icns_spec);
            }
            return None;
        }
        let n = read_be32(d, off + 4) as usize;
        if n < 8 || n > end - off {
            assert(icns_walk(d@, off as int, end as int) is None);
            assert(icns_spec(d@) is None) by {
                reveal(icns_spec);
            }
            return None;
        }
        let (w, h) = icns_dims_of(read_be32(d, off));
        let ghost before = entries@;
        if w != 0 {
            entries.push(ImageSize { width: w, height: h });
            proof {
                if icns_walk(d@, off + n, end as int) is Some {
                    assert(entries@ + icns_walk(d@, off + n, end as int)->Some_0 =~= before
                        + icns_walk(d@, off as int, end as int)->Some_0);
                }
            }
        }
        off = off + n;
    }
    assert(entries@ =~= entries@ + icns_walk(d@, off as int, end as int)->Some_0);
    if entries.len() == 0 {
        return None;
    }
    let primary = pick_largest(&entries);
    Some(ImageInfo::new(ImageFormat::ICNS, primary, entries))
}

} // verus!
