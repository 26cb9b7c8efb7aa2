use vstd::prelude::*;

use crate::bytes::{ReadInterface, has_tag, match_tag};
use crate::{claim, model_of, single, ImageFormat, ImageInfo, Model};

verus! {

/// Where the first empty line ends, searching from `i`: the header is over.
pub open spec fn blank_line(d: Seq<u8>, i: int) -> Option<int>
    decreases d.len() - i,
{
    if i < 0 || i + 2 > d.len() {
        None
    } else if d[i] == 0x0a && d[i + 1] == 0x0a {
        Some(i + 2)
    } else {
        blank_line(d, i + 1)
    }
}

pub open spec fn is_digit(b: u8) -> bool {
    0x30 <= b <= 0x39
}

pub open spec fn digit_val(b: u8) -> nat {
    if is_digit(b) { (b - 0x30) as nat } else { 0 }
}

/// The end of the run of decimal digits that starts at `i`.
pub open spec fn digits_end(d: Seq<u8>, i: int) -> int
    decreases d.len() - i,
{
    if i < 0 || i >= d.len() || !is_digit(d[i]) {
        i
    } else {
        digits_end(d, i + 1)
    }
}

/// The decimal value of the digits in `i..j`.
pub open spec fn digits_val(d: Seq<u8>, i: int, j: int) -> nat
    decreases j - i,
{
    if j <= i {
        0
    } else {
        digits_val(d, i, j - 1) * 10 + digit_val(d[j - 1])
    }
}

/// A decimal number at `i` that fits in 32 bits, with the index after it.
pub open spec fn number_at(d: Seq<u8>, i: int) -> Option<(nat, int)> {
    let j = digits_end(d, i);
    if j == i || digits_val(d, i, j) > 0xffff_ffff {
        None
    } else {
        Some((digits_val(d, i, j), j))
    }
}

/// A sign, the axis letter `c` and a space, at `i`.
pub open spec fn axis_at(d: Seq<u8>, i: int, c: u8) -> bool {
    0 <= i && i + 3 <= d.len() && (d[i] == 0x2b || d[i] == 0x2d) && d[i + 1] == c && d[i + 2] == 0x20
}

pub open spec fn radiance_magic() -> Seq<u8> {
    seq![0x23u8, 0x3f, 0x52, 0x41, 0x44, 0x49, 0x41, 0x4e, 0x43, 0x45, 0x0a]
}

pub open spec fn rgbe_magic() -> Seq<u8> {
    seq![0x23u8, 0x3f, 0x52, 0x47, 0x42, 0x45, 0x0a]
}

/// HDR: "#?RADIANCE" or "#?RGBE", header lines up to an empty line, then the
/// resolution line "<sign>Y <height> <sign>X <width>", ended by a newline.
#[verifier::opaque]
pub open spec fn hdr_spec(d: Seq<u8>) -> Option<Model> {
    if !has_tag(d, 0, radiance_magic()) && !has_tag(d, 0, rgbe_magic()) {
        None
    } else {
        match blank_line(d, 0) {
            None => None,
            Some(p) => if !axis_at(d, p, 0x59) {
                None
            } else {
                match number_at(d, p + 3) {
                    None => None,
                    Some((h, q)) => if !(q < d.len() && d[q] == 0x20 && axis_at(d, q + 1, 0x58)) {
                        None
                    } else {
                        match number_at(d, q + 4) {
                            None => None,
                            Some((w, e)) => if e < d.len() && d[e] == 0x0a {
                                claim(ImageFormat::HDR, w, h)
                            } else {
                                None
                            },
                        }
                    },
                }
            },
        }
    }
}

proof fn lemma_digits_monotone(d: Seq<u8>, i: int, j: int, k: int)
    requires
        j <= k,
    ensures
        digits_val(d, i, j) <= digits_val(d, i, k),
    decreases k - j,
{
    if j < k {
        lemma_digits_monotone(d, i, j, k - 1);
    }
}

proof fn lemma_digits_end_past(d: Seq<u8>, i: int)
    ensures
        digits_end(d, i) >= i,
    decreases d.len() - i,
{
    if !(i < 0 || i >= d.len() || !is_digit(d[i])) {
        lemma_digits_end_past(d, i + 1);
    }
}

fn find_blank_line(d: &[u8]) -> (r: Option<usize>)
    ensures
        match r {
            Some(p) => blank_line(d@, 0) == Some(p as int) && p <= d@.len(),
            None => blank_line(d@, 0) is None,
        },
{
    let len = d.len();
    let mut i: usize = 0;
    while len - i >= 2
        invariant
            len == d@.len(),
            i <= len,
            blank_line(d@, i as int) == blank_line(d@, 0),
        decreases len - i,
    {
        if d[i] == 0x0a && d[i + 1] == 0x0a {
            return Some(i + 2);
        }
        i = i + 1;
    }
    None
}

fn parse_number(d: &[u8], i: usize) -> (r: Option<(u64, usize)>)
    requires
        i <= d@.len(),
    ensures
        match r {
            Some((v, j)) => number_at(d@, i as int) == Some((v as nat, j as int)) && j <= d@.len(),
            None => number_at(d@, i as int) is None,
        },
{
    let len = d.len();
    let mut j = i;
    let mut acc: u64 = 0;
    while j < len && 0x30 <= d[j] && d[j] <= 0x39
        invariant
            len == d@.len(),
            i <= j <= len,
            acc as nat == digits_val(d@, i as int, j as int),
            acc <= 0xffff_ffff,
            digits_end(d@, j as int) == digits_end(d@, i as int),
        decreases len - j,
    {
        acc = acc * 10 + (d[j] - 0x30) as u64;
        j = j + 1;
        if acc > 0xffff_ffff {
            proof {
                lemma_digits_end_past(d@, j as int);
                lemma_digits_monotone(d@, i as int, j as int, digits_end(d@, i as int));
            }
            return None;
        }
    }
    if j == i {
        return None;
    }
    Some((acc, j))
}

fn axis_ok(d: &[u8], i: usize, c: u8) -> (r: bool)
    requires
        i <= d@.len(),
    ensures
        r == axis_at(d@, i as int, c),
{
    d.len() - i >= 3 && (d[i] == 0x2b || d[i] == 0x2d) && d[i + 1] == c && d[i + 2] == 0x20
}

pub fn try_hdr(ri: &ReadInterface) -> (r: Option<ImageInfo>)
    ensures
        model_of(r) == hdr_spec(ri@),
        r matches Some(i) ==> i.wf(),
{
    proof {
        reveal(hdr_spec);
    }
    let d = ri.bytes();
    let _len = d.len();
    let radiance: [u8; 11] = [0x23, 0x3f, 0x52, 0x41, 0x44, 0x49, 0x41, 0x4e, 0x43, 0x45, 0x0a];
    let rgbe: [u8; 7] = [0x23, 0x3f, 0x52, 0x47, 0x42, 0x45, 0x0a];
    if !match_tag(d, 0, &radiance) && !match_tag(d, 0, &rgbe) {
        return None;
    }
    let p = match find_blank_line(d) {
        Some(p) => p,
        None => return None,
    };
    if !axis_ok(d, p, 0x59) {
        return None;
    }
    let (h, q) = match parse_number(d, p + 3) {
        Some(n) => n,
        None => return None,
    };
    if !(q < d.len() && d[q] == 0x20 && axis_ok(d, q + 1, 0x58)) {
        return None;
    }
    match parse_number(d, q + 4) {
        Some((w, e)) => if e < d.len() && d[e] == 0x0a {
            single(ImageFormat::HDR, w, h)
        } else {
            None
        },
        None => None,
    }
}

} // verus!
