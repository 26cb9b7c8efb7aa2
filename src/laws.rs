use vstd::prelude::*;

use crate::bytes::{be32, is_prefix, lemma_tag_first_byte, lemma_tag_from_whole, lemma_tag_in_prefix, le16};
use crate::detect::{detect, first_claim, probe, PROBER_COUNT};
use crate::fixed::{png_magic, png_spec};
use crate::icons::{area, cur_ico_spec, ico_entry, icns_dims, icns_spec, icns_walk, largest};
use crate::{ImageFormat, ImageInfoError, ImageSize, Model};

verus! {

/// Detection depends on the bytes alone: the same content gives the same
/// outcome, whatever was detected before.
pub proof fn lemma_detect_deterministic(a: Seq<u8>, b: Seq<u8>)
    requires
        a == b,
    ensures
        detect(a) == detect(b),
{
}

proof fn lemma_first_claim_at(d: Seq<u8>, i: int, k: int)
    requires
        0 <= i <= k < PROBER_COUNT,
        probe(k, d) is Some,
        forall|l: int| i <= l < k ==> probe(l, d) is None,
    ensures
        first_claim(d, i) == Ok::<Model, ImageInfoError>(probe(k, d)->Some_0),
    decreases k - i,
{
    if i < k {
        lemma_first_claim_at(d, i + 1, k);
    }
}

proof fn earliest_claim(d: Seq<u8>, k: int, i: int) -> (r: int)
    requires
        0 <= k <= i < PROBER_COUNT,
        probe(i, d) is Some,
        forall|l: int| 0 <= l < k ==> probe(l, d) is None,
    ensures
        0 <= r <= i,
        probe(r, d) is Some,
        forall|l: int| 0 <= l < r ==> probe(l, d) is None,
    decreases i - k,
{
    if probe(k, d) is Some {
        k
    } else {
        earliest_claim(d, k + 1, i)
    }
}

/// Probers that decline leave no trace: when every prober before position `k`
/// declines and the one at `k` claims the input, its claim is the outcome.
pub proof fn lemma_declined_probers_leave_no_trace(d: Seq<u8>, k: int)
    requires
        d.len() > 0,
        0 <= k < PROBER_COUNT,
        probe(k, d) is Some,
        forall|l: int| 0 <= l < k ==> probe(l, d) is None,
    ensures
        detect(d) == Ok::<Model, ImageInfoError>(probe(k, d)->Some_0),
{
    lemma_first_claim_at(d, 0, k);
}

/// Of two probers that both claim an input, the earlier one in priority order
/// is not overruled by the later one: the outcome is the claim of the earliest
/// claiming prober, which stands at or before the first of the two.
pub proof fn lemma_priority(d: Seq<u8>, i: int, j: int)
    requires
        d.len() > 0,
        0 <= i < j < PROBER_COUNT,
        probe(i, d) is Some,
        probe(j, d) is Some,
    ensures
        exists|k: int|
            0 <= k <= i && detect(d) == Ok::<Model, ImageInfoError>(probe(k, d)->Some_0) && (forall|
                l: int,
            | 0 <= l < k ==> probe(l, d) is None),
{
    let k = earliest_claim(d, 0, i);
    lemma_first_claim_at(d, 0, k);
}


/// Neither dimension is zero.
pub open spec fn nonzero(s: ImageSize) -> bool {
    s.width > 0 && s.height > 0
}

/// The formats that list their embedded images.
pub open spec fn lists_entries(f: ImageFormat) -> bool {
    f == ImageFormat::ICO || f == ImageFormat::CUR || f == ImageFormat::ICNS
}

/// A multi-entry claim lists at least one entry and its primary size is one
/// of them; any other claim lists no entry.
pub open spec fn entries_shape(m: Model) -> bool {
    if lists_entries(m.0) {
        m.2.len() > 0 && m.2.contains(m.1)
    } else {
        m.2.len() == 0
    }
}

/// The primary size and every entry size of a claim are non-zero.
pub open spec fn sizes_nonzero(m: Model) -> bool {
    nonzero(m.1) && forall|k: int| 0 <= k < m.2.len() ==> nonzero(#[trigger] m.2[k])
}

proof fn lemma_icns_walk_nonzero(d: Seq<u8>, off: int, end: int)
    requires
        icns_walk(d, off, end) is Some,
    ensures
        forall|k: int|
            0 <= k < icns_walk(d, off, end)->Some_0.len() ==> nonzero(
                #[trigger] icns_walk(d, off, end)->Some_0[k],
            ),
    decreases end - off,
{
    if off != end {
        let n = crate::bytes::be32(d, off + 4) as int;
        lemma_icns_walk_nonzero(d, off + n, end);
        let (w, h) = icns_dims(crate::bytes::be32(d, off) as u32);
        assert(w != 0 ==> h != 0);
        let rest = icns_walk(d, off + n, end)->Some_0;
        if w != 0 {
            let s = seq![ImageSize { width: w, height: h }].add(rest);
            assert forall|k: int| 0 <= k < s.len() implies nonzero(#[trigger] s[k]) by {
                if k > 0 {
                    assert(s[k] == rest[k - 1]);
                }
            }
        }
    }
}

proof fn lemma_largest_is_entry(s: Seq<ImageSize>) -> (k: int)
    requires
        s.len() > 0,
    ensures
        0 <= k < s.len(),
        largest(s) == s[k],
    decreases s.len(),
{
    if s.len() <= 1 {
        0
    } else {
        let k = lemma_largest_is_entry(s.drop_last());
        if area(s.last()) > area(largest(s.drop_last())) {
            s.len() - 1
        } else {
            k
        }
    }
}

proof fn lemma_icns_nonzero(d: Seq<u8>)
    requires
        icns_spec(d) is Some,
    ensures
        sizes_nonzero(icns_spec(d)->Some_0),
        entries_shape(icns_spec(d)->Some_0),
{
    reveal(icns_spec);
    let end = crate::bytes::be32(d, 4) as int;
    lemma_icns_walk_nonzero(d, 8, end);
    let k = lemma_largest_is_entry(icns_walk(d, 8, end)->Some_0);
    assert(nonzero(icns_walk(d, 8, end)->Some_0[k]));
}

proof fn lemma_jpeg_walk_nonzero(d: Seq<u8>, off: int)
    requires
        crate::jpeg::jpeg_walk(d, off) is Some,
    ensures
        sizes_nonzero(crate::jpeg::jpeg_walk(d, off)->Some_0),
        crate::jpeg::jpeg_walk(d, off)->Some_0.0 == ImageFormat::JPEG,
        crate::jpeg::jpeg_walk(d, off)->Some_0.2.len() == 0,
    decreases d.len() - off,
{
    if !(off < 0 || off + 4 > d.len() || d[off] != 0xff) && !crate::jpeg::is_sof(d[off + 1]) {
        lemma_jpeg_walk_nonzero(d, off + 2 + crate::bytes::be16(d, off + 2));
    }
}

proof fn lemma_probe_nonzero(d: Seq<u8>, i: int)
    requires
        probe(i, d) is Some,
    ensures
        sizes_nonzero(probe(i, d)->Some_0),
        entries_shape(probe(i, d)->Some_0),
{
    if i == 0 {
        reveal(crate::boxes::avif_heic_spec);
    } else if i == 1 {
        reveal(crate::fixed::bmp_spec);
    } else if i == 2 {
        reveal(crate::icons::cur_ico_spec);
        assert(probe(i, d)->Some_0.2[0] == probe(i, d)->Some_0.1);
    } else if i == 3 {
        reveal(crate::fixed::dds_spec);
    } else if i == 4 {
        reveal(crate::fixed::gif_spec);
    } else if i == 5 {
        reveal(crate::hdr::hdr_spec);
    } else if i == 6 {
        lemma_icns_nonzero(d);
    } else if i == 7 {
        reveal(crate::boxes::jp2_jpx_spec);
    } else if i == 8 {
        reveal(crate::jpeg::jpeg_spec);
        lemma_jpeg_walk_nonzero(d, 2);
    } else if i == 9 {
        reveal(crate::fixed::ktx_spec);
    } else if i == 10 {
        reveal(png_spec);
    } else if i == 11 {
        reveal(crate::fixed::psd_spec);
    } else if i == 12 {
        reveal(crate::fixed::qoi_spec);
    } else if i == 13 {
        reveal(crate::tiff::tiff_spec);
    } else if i == 14 {
        reveal(crate::fixed::webp_spec);
    } else if i == 15 {
        reveal(crate::tga::tga_spec);
    }
}

/// A claimed image never has a zero dimension: a header that declares a zero
/// width or height is declined by its prober.
pub proof fn lemma_claims_have_nonzero_sizes(d: Seq<u8>)
    requires
        detect(d) is Ok,
    ensures
        sizes_nonzero(detect(d)->Ok_0),
{
    let k = claiming_prober(d, 0);
    lemma_probe_nonzero(d, k);
}

/// Multi-entry containers (icons, cursors, icon sets) list at least one
/// entry, and their primary size is one of the listed entries; every other
/// format lists none.
pub proof fn lemma_claims_entry_shape(d: Seq<u8>)
    requires
        detect(d) is Ok,
    ensures
        entries_shape(detect(d)->Ok_0),
{
    let k = claiming_prober(d, 0);
    lemma_probe_nonzero(d, k);
}

proof fn claiming_prober(d: Seq<u8>, i: int) -> (k: int)
    requires
        0 <= i,
        first_claim(d, i) is Ok,
    ensures
        probe(k, d) is Some,
        first_claim(d, i) == Ok::<Model, ImageInfoError>(probe(k, d)->Some_0),
    decreases PROBER_COUNT - i,
{
    if probe(i, d) is Some {
        i
    } else {
        claiming_prober(d, i + 1)
    }
}

/// The entries of an icon or cursor directory are the declared sizes in the
/// declared order, and the primary size is that of the first entry.
pub proof fn lemma_ico_entries_in_order(d: Seq<u8>)
    requires
        cur_ico_spec(d) is Some,
    ensures
        ({
            let m = cur_ico_spec(d)->Some_0;
            &&& m.2.len() == le16(d, 4)
            &&& forall|k: int| 0 <= k < m.2.len() ==> #[trigger] m.2[k] == ico_entry(d, k)
            &&& m.1 == m.2[0]
        }),
{
    reveal(cur_ico_spec);
}


/// A prefix of the PNG signature of at least `n` bytes, with `n` up to eight.
pub open spec fn png_signature_prefix(e: Seq<u8>, n: int) -> bool {
    forall|k: int| 0 <= k < n ==> e[k] == #[trigger] png_magic()[k]
}

#[verifier::rlimit(80)]
proof fn lemma_png_prefix_declined(e: Seq<u8>, i: int)
    requires
        e.len() >= 1,
        png_signature_prefix(e, if e.len() < 8 { e.len() as int } else { 8 }),
        0 <= i < PROBER_COUNT,
        i < 10 || (i != 10 && e.len() < 24),
    ensures
        probe(i, e) is None,
{
    broadcast use lemma_tag_first_byte;

    assert(e[0] == png_magic()[0]);
    if e.len() >= 2 {
        assert(e[1] == png_magic()[1]);
    }
    if e.len() >= 8 {
        assert(e[4] == png_magic()[4]);
    }
    if i == 0 {
        reveal(crate::boxes::avif_heic_spec);
    } else if i == 1 {
        reveal(crate::fixed::bmp_spec);
    } else if i == 2 {
        reveal(crate::icons::cur_ico_spec);
    } else if i == 3 {
        reveal(crate::fixed::dds_spec);
    } else if i == 4 {
        reveal(crate::fixed::gif_spec);
    } else if i == 5 {
        reveal(crate::hdr::hdr_spec);
    } else if i == 6 {
        reveal(icns_spec);
    } else if i == 7 {
        reveal(crate::boxes::jp2_jpx_spec);
    } else if i == 8 {
        reveal(crate::jpeg::jpeg_spec);
    } else if i == 9 {
        reveal(crate::fixed::ktx_spec);
    } else if i == 11 {
        reveal(crate::fixed::psd_spec);
    } else if i == 12 {
        reveal(crate::fixed::qoi_spec);
    } else if i == 13 {
        reveal(crate::tiff::tiff_spec);
    } else if i == 14 {
        reveal(crate::fixed::webp_spec);
    } else if i == 15 {
        reveal(crate::tga::tga_spec);
        if e.len() >= 18 {
            let p = e.len() - 18;
            assert(e[p] == png_magic()[p]);
        }
    }
}


proof fn lemma_no_claim_from(d: Seq<u8>, i: int)
    requires
        0 <= i <= PROBER_COUNT,
        forall|l: int| i <= l < PROBER_COUNT ==> probe(l, d) is None,
    ensures
        first_claim(d, i) == Err::<Model, ImageInfoError>(ImageInfoError::UnrecognizedFormat),
    decreases PROBER_COUNT - i,
{
    if i < PROBER_COUNT {
        lemma_no_claim_from(d, i + 1);
    }
}

/// Truncating a PNG file is safe: a prefix that keeps the 24 header bytes is
/// detected as the same PNG, and a shorter non-empty prefix is unrecognized.
pub proof fn lemma_png_truncation(d: Seq<u8>, n: int)
    requires
        png_spec(d) is Some,
        1 <= n <= d.len(),
    ensures
        detect(d) == Ok::<Model, ImageInfoError>(png_spec(d)->Some_0),
        n >= 24 ==> detect(d.take(n)) == detect(d),
        n < 24 ==> detect(d.take(n)) == Err::<Model, ImageInfoError>(ImageInfoError::UnrecognizedFormat),
{
    reveal(png_spec);
    let e = d.take(n);
    assert forall|k: int| 0 <= k < 8 implies d[k] == #[trigger] png_magic()[k] by {
        assert(d.subrange(0, 8)[k] == d[k]);
    }
    let m: int = if e.len() < 8 { e.len() as int } else { 8 };
    assert(png_signature_prefix(e, m));
    assert(png_signature_prefix(d, 8));
    assert forall|i: int| 0 <= i < 10 implies #[trigger] probe(i, d) is None by {
        lemma_png_prefix_declined(d, i);
    }
    lemma_declined_probers_leave_no_trace(d, 10);
    if n >= 24 {
        assert(e.subrange(0, 8) =~= d.subrange(0, 8));
        assert(e.subrange(12, 16) =~= d.subrange(12, 16));
        assert(png_spec(e) == png_spec(d));
        assert forall|i: int| 0 <= i < 10 implies #[trigger] probe(i, e) is None by {
            lemma_png_prefix_declined(e, i);
        }
        lemma_declined_probers_leave_no_trace(e, 10);
    } else {
        assert forall|i: int| 0 <= i < PROBER_COUNT implies #[trigger] probe(i, e) is None by {
            if i == 10 {
                assert(!(e.len() >= 24));
            } else {
                lemma_png_prefix_declined(e, i);
            }
        }
        lemma_no_claim_from(e, 0);
    }
}


proof fn lemma_largest_is_max(s: Seq<ImageSize>)
    requires
        s.len() > 0,
    ensures
        forall|k: int| 0 <= k < s.len() ==> area(#[trigger] s[k]) <= area(largest(s)),
    decreases s.len(),
{
    if s.len() > 1 {
        let p = s.drop_last();
        lemma_largest_is_max(p);
        assert forall|k: int| 0 <= k < s.len() implies area(#[trigger] s[k]) <= area(largest(s)) by {
            if k < s.len() - 1 {
                assert(s[k] == p[k]);
            }
        }
    }
}

/// The entries of an icon set are its elements of known type in the order the
/// file declares them, and the primary size is an entry of largest area.
pub proof fn lemma_icns_entries_in_order(d: Seq<u8>)
    requires
        icns_spec(d) is Some,
    ensures
        ({
            let m = icns_spec(d)->Some_0;
            &&& m.2 == icns_walk(d, 8, crate::bytes::be32(d, 4) as int)->Some_0
            &&& m.2.contains(m.1)
            &&& forall|k: int| 0 <= k < m.2.len() ==> area(#[trigger] m.2[k]) <= area(m.1)
        }),
{
    reveal(icns_spec);
    let s = icns_walk(d, 8, crate::bytes::be32(d, 4) as int)->Some_0;
    let k = lemma_largest_is_entry(s);
    lemma_largest_is_max(s);
}


proof fn lemma_icns_walk_in_prefix(e: Seq<u8>, d: Seq<u8>, off: int, end: int)
    requires
        is_prefix(e, d),
        end <= e.len(),
    ensures
        icns_walk(e, off, end) == icns_walk(d, off, end),
    decreases end - off,
{
    if off != end && !(off < 0 || off + 8 > end) {
        assert(e[off] == d[off] && e[off + 1] == d[off + 1] && e[off + 2] == d[off + 2] && e[off + 3] == d[off + 3]);
        assert(e[off + 4] == d[off + 4] && e[off + 5] == d[off + 5] && e[off + 6] == d[off + 6] && e[off + 7] == d[off + 7]);
        let n = be32(d, off + 4) as int;
        if !(n < 8 || off + n > end) {
            lemma_icns_walk_in_prefix(e, d, off + n, end);
        }
    }
}

/// Cutting an icon set short never changes what is claimed: a prefix is
/// either declined or claimed exactly as the whole file, and any prefix shorter
/// than the declared total length is declined.
pub proof fn lemma_icns_truncation(d: Seq<u8>, n: int)
    requires
        0 <= n <= d.len(),
    ensures
        icns_spec(d.take(n)) is Some ==> icns_spec(d.take(n)) == icns_spec(d),
        n >= 8 && n < be32(d, 4) ==> icns_spec(d.take(n)) is None,
{
    broadcast use lemma_tag_in_prefix;

    reveal(icns_spec);
    let e = d.take(n);
    assert(is_prefix(e, d));
    if n >= 8 {
        assert(e[4] == d[4] && e[5] == d[5] && e[6] == d[6] && e[7] == d[7]);
    }
    if icns_spec(e) is Some {
        lemma_icns_walk_in_prefix(e, d, 8, be32(e, 4) as int);
    }
}


proof fn lemma_jpeg_walk_in_prefix(e: Seq<u8>, d: Seq<u8>, off: int)
    requires
        is_prefix(e, d),
        crate::jpeg::jpeg_walk(e, off) is Some,
    ensures
        crate::jpeg::jpeg_walk(e, off) == crate::jpeg::jpeg_walk(d, off),
    decreases e.len() - off,
{
    assert(e[off] == d[off] && e[off + 1] == d[off + 1] && e[off + 2] == d[off + 2] && e[off + 3] == d[off + 3]);
    if !crate::jpeg::is_sof(e[off + 1]) {
        lemma_jpeg_walk_in_prefix(e, d, off + 2 + crate::bytes::be16(e, off + 2));
    } else {
        assert(e[off + 5] == d[off + 5] && e[off + 6] == d[off + 6] && e[off + 7] == d[off + 7] && e[off + 8] == d[off + 8]);
    }
}

proof fn lemma_find_box_bounds(d: Seq<u8>, off: int, end: int, tag: Seq<u8>)
    requires
        crate::boxes::find_box(d, off, end, tag) is Some,
    ensures
        ({
            let (s, n) = crate::boxes::find_box(d, off, end, tag)->Some_0;
            off <= s && 8 <= n && s + n <= end
        }),
    decreases end - off,
{
    if !crate::bytes::has_tag(d, off + 4, tag) {
        lemma_find_box_bounds(d, off + be32(d, off) as int, end, tag);
    }
}

proof fn lemma_find_box_in_prefix(e: Seq<u8>, d: Seq<u8>, off: int, end: int, tag: Seq<u8>)
    requires
        is_prefix(e, d),
        end <= e.len(),
        tag.len() == 4,
    ensures
        crate::boxes::find_box(e, off, end, tag) == crate::boxes::find_box(d, off, end, tag),
    decreases end - off,
{
    broadcast use lemma_tag_in_prefix, lemma_tag_from_whole;

    if !(off < 0 || off + 8 > end) {
        assert(e[off] == d[off] && e[off + 1] == d[off + 1] && e[off + 2] == d[off + 2] && e[off + 3] == d[off + 3]);
        let size = be32(d, off) as int;
        if !(size < 8 || off + size > end) {
            lemma_find_box_in_prefix(e, d, off + size, end, tag);
        }
    }
}

proof fn lemma_found_box_in_prefix(e: Seq<u8>, d: Seq<u8>, off: int, ee: int, ed: int, tag: Seq<u8>)
    requires
        is_prefix(e, d),
        ee <= e.len(),
        ee <= ed,
        tag.len() == 4,
        crate::boxes::find_box(e, off, ee, tag) is Some,
    ensures
        crate::boxes::find_box(d, off, ed, tag) == crate::boxes::find_box(e, off, ee, tag),
    decreases ee - off,
{
    broadcast use lemma_tag_in_prefix, lemma_tag_from_whole;

    assert(e[off] == d[off] && e[off + 1] == d[off + 1] && e[off + 2] == d[off + 2] && e[off + 3] == d[off + 3]);
    let size = be32(d, off) as int;
    if !crate::bytes::has_tag(e, off + 4, tag) {
        lemma_found_box_in_prefix(e, d, off + size, ee, ed, tag);
    }
}

proof fn lemma_has_brand_in_prefix(e: Seq<u8>, d: Seq<u8>, pos: int, end: int, brand: Seq<u8>)
    requires
        is_prefix(e, d),
        end <= e.len(),
        brand.len() == 4,
    ensures
        crate::boxes::has_brand(e, pos, end, brand) == crate::boxes::has_brand(d, pos, end, brand),
    decreases end - pos,
{
    broadcast use lemma_tag_in_prefix, lemma_tag_from_whole;

    if !(pos < 0 || pos + 4 > end) {
        lemma_has_brand_in_prefix(e, d, pos + 4, end, brand);
    }
}

proof fn lemma_avif_heic_truncation(e: Seq<u8>, d: Seq<u8>)
    requires
        is_prefix(e, d),
        crate::boxes::avif_heic_spec(e) is Some,
    ensures
        crate::boxes::avif_heic_spec(d) == crate::boxes::avif_heic_spec(e),
{
    broadcast use lemma_tag_in_prefix, lemma_tag_from_whole;

    reveal(crate::boxes::avif_heic_spec);
    assert(e[0] == d[0] && e[1] == d[1] && e[2] == d[2] && e[3] == d[3]);
    let fl = be32(e, 0) as int;
    assert(e[fl] == d[fl] && e[fl + 1] == d[fl + 1] && e[fl + 2] == d[fl + 2] && e[fl + 3] == d[fl + 3]);
    let ml = be32(e, fl) as int;
    lemma_has_brand_in_prefix(e, d, 16, fl, crate::boxes::tag4(0x61, 0x76, 0x69, 0x66));
    lemma_has_brand_in_prefix(e, d, 16, fl, crate::boxes::tag4(0x68, 0x65, 0x69, 0x63));
    let t1 = crate::boxes::tag4(0x69, 0x70, 0x72, 0x70);
    let t2 = crate::boxes::tag4(0x69, 0x70, 0x63, 0x6f);
    let t3 = crate::boxes::tag4(0x69, 0x73, 0x70, 0x65);
    lemma_find_box_in_prefix(e, d, fl + 12, fl + ml, t1);
    lemma_find_box_bounds(e, fl + 12, fl + ml, t1);
    let (s1, n1) = crate::boxes::find_box(e, fl + 12, fl + ml, t1)->Some_0;
    lemma_find_box_in_prefix(e, d, s1 + 8, s1 + n1, t2);
    lemma_find_box_bounds(e, s1 + 8, s1 + n1, t2);
    let (s2, n2) = crate::boxes::find_box(e, s1 + 8, s1 + n1, t2)->Some_0;
    lemma_find_box_in_prefix(e, d, s2 + 8, s2 + n2, t3);
    lemma_find_box_bounds(e, s2 + 8, s2 + n2, t3);
    let (s3, n3) = crate::boxes::find_box(e, s2 + 8, s2 + n2, t3)->Some_0;
    assert(e[s3 + 12] == d[s3 + 12] && e[s3 + 13] == d[s3 + 13] && e[s3 + 14] == d[s3 + 14] && e[s3 + 15] == d[s3 + 15]);
    assert(e[s3 + 16] == d[s3 + 16] && e[s3 + 17] == d[s3 + 17] && e[s3 + 18] == d[s3 + 18] && e[s3 + 19] == d[s3 + 19]);
}

proof fn lemma_jp2_jpx_truncation(e: Seq<u8>, d: Seq<u8>)
    requires
        is_prefix(e, d),
        crate::boxes::jp2_jpx_spec(e) is Some,
    ensures
        crate::boxes::jp2_jpx_spec(d) == crate::boxes::jp2_jpx_spec(e),
{
    broadcast use lemma_tag_in_prefix, lemma_tag_from_whole;

    reveal(crate::boxes::jp2_jpx_spec);
    assert(e[12] == d[12] && e[13] == d[13] && e[14] == d[14] && e[15] == d[15]);
    let fl = be32(e, 12) as int;
    let t1 = crate::boxes::tag4(0x6a, 0x70, 0x32, 0x68);
    let t2 = crate::boxes::tag4(0x69, 0x68, 0x64, 0x72);
    lemma_found_box_in_prefix(e, d, 12 + fl, e.len() as int, d.len() as int, t1);
    lemma_find_box_bounds(e, 12 + fl, e.len() as int, t1);
    let (s1, n1) = crate::boxes::find_box(e, 12 + fl, e.len() as int, t1)->Some_0;
    lemma_find_box_in_prefix(e, d, s1 + 8, s1 + n1, t2);
    lemma_find_box_bounds(e, s1 + 8, s1 + n1, t2);
    let (s2, n2) = crate::boxes::find_box(e, s1 + 8, s1 + n1, t2)->Some_0;
    assert(e[s2 + 8] == d[s2 + 8] && e[s2 + 9] == d[s2 + 9] && e[s2 + 10] == d[s2 + 10] && e[s2 + 11] == d[s2 + 11]);
    assert(e[s2 + 12] == d[s2 + 12] && e[s2 + 13] == d[s2 + 13] && e[s2 + 14] == d[s2 + 14] && e[s2 + 15] == d[s2 + 15]);
}

proof fn lemma_find_entry_in_prefix(e: Seq<u8>, d: Seq<u8>, pos: int, end: int, little: bool, tag: nat)
    requires
        is_prefix(e, d),
        crate::tiff::find_entry(e, pos, end, little, tag) is Some,
    ensures
        crate::tiff::find_entry(d, pos, end, little, tag) == crate::tiff::find_entry(e, pos, end, little, tag),
    decreases end - pos,
{
    assert(e[pos] == d[pos] && e[pos + 1] == d[pos + 1] && e[pos + 2] == d[pos + 2] && e[pos + 3] == d[pos + 3]);
    assert(e[pos + 8] == d[pos + 8] && e[pos + 9] == d[pos + 9] && e[pos + 10] == d[pos + 10] && e[pos + 11] == d[pos + 11]);
    if crate::tiff::rd16(e, pos, little) != tag {
        lemma_find_entry_in_prefix(e, d, pos + 12, end, little, tag);
    }
}

proof fn lemma_tiff_truncation(e: Seq<u8>, d: Seq<u8>)
    requires
        is_prefix(e, d),
        crate::tiff::tiff_spec(e) is Some,
    ensures
        crate::tiff::tiff_spec(d) == crate::tiff::tiff_spec(e),
{
    broadcast use lemma_tag_in_prefix, lemma_tag_from_whole;

    reveal(crate::tiff::tiff_spec);
    assert(e[4] == d[4] && e[5] == d[5] && e[6] == d[6] && e[7] == d[7]);
    let little = crate::bytes::has_tag(e, 0, seq![0x49u8, 0x49, 0x2a, 0x00]);
    assert(little == crate::bytes::has_tag(d, 0, seq![0x49u8, 0x49, 0x2a, 0x00]));
    let ifd = crate::tiff::rd32(e, 4, little) as int;
    assert(e[ifd] == d[ifd] && e[ifd + 1] == d[ifd + 1]);
    let end = ifd + 2 + 12 * crate::tiff::rd16(e, ifd, little);
    lemma_find_entry_in_prefix(e, d, ifd + 2, end, little, 256);
    lemma_find_entry_in_prefix(e, d, ifd + 2, end, little, 257);
}

proof fn lemma_blank_line_in_prefix(e: Seq<u8>, d: Seq<u8>, i: int)
    requires
        is_prefix(e, d),
        crate::hdr::blank_line(e, i) is Some,
    ensures
        crate::hdr::blank_line(d, i) == crate::hdr::blank_line(e, i),
    decreases e.len() - i,
{
    assert(e[i] == d[i] && e[i + 1] == d[i + 1]);
    if !(e[i] == 0x0a && e[i + 1] == 0x0a) {
        lemma_blank_line_in_prefix(e, d, i + 1);
    }
}

proof fn lemma_digits_end_in_prefix(e: Seq<u8>, d: Seq<u8>, i: int)
    requires
        is_prefix(e, d),
        crate::hdr::digits_end(e, i) < e.len(),
    ensures
        crate::hdr::digits_end(d, i) == crate::hdr::digits_end(e, i),
    decreases e.len() - i,
{
    if 0 <= i < e.len() {
        assert(e[i] == d[i]);
        if crate::hdr::is_digit(e[i]) {
            lemma_digits_end_in_prefix(e, d, i + 1);
        }
    }
}

proof fn lemma_digits_val_in_prefix(e: Seq<u8>, d: Seq<u8>, i: int, j: int)
    requires
        is_prefix(e, d),
        0 <= i,
        j <= e.len(),
    ensures
        crate::hdr::digits_val(d, i, j) == crate::hdr::digits_val(e, i, j),
    decreases j - i,
{
    if j > i {
        assert(e[j - 1] == d[j - 1]);
        lemma_digits_val_in_prefix(e, d, i, j - 1);
    }
}

proof fn lemma_number_in_prefix(e: Seq<u8>, d: Seq<u8>, i: int)
    requires
        is_prefix(e, d),
        0 <= i,
        crate::hdr::number_at(e, i) is Some,
        crate::hdr::number_at(e, i)->Some_0.1 < e.len(),
    ensures
        crate::hdr::number_at(d, i) == crate::hdr::number_at(e, i),
{
    lemma_digits_end_in_prefix(e, d, i);
    lemma_digits_val_in_prefix(e, d, i, crate::hdr::digits_end(e, i));
}

proof fn lemma_hdr_truncation(e: Seq<u8>, d: Seq<u8>)
    requires
        is_prefix(e, d),
        crate::hdr::hdr_spec(e) is Some,
    ensures
        crate::hdr::hdr_spec(d) == crate::hdr::hdr_spec(e),
{
    broadcast use lemma_tag_in_prefix, lemma_tag_from_whole;

    reveal(crate::hdr::hdr_spec);
    lemma_blank_line_in_prefix(e, d, 0);
    let p = crate::hdr::blank_line(e, 0)->Some_0;
    assert(e[p] == d[p] && e[p + 1] == d[p + 1] && e[p + 2] == d[p + 2]);
    lemma_number_in_prefix(e, d, p + 3);
    let q = crate::hdr::number_at(e, p + 3)->Some_0.1;
    assert(e[q] == d[q] && e[q + 1] == d[q + 1] && e[q + 2] == d[q + 2] && e[q + 3] == d[q + 3]);
    lemma_number_in_prefix(e, d, q + 4);
    let j = crate::hdr::number_at(e, q + 4)->Some_0.1;
    assert(e[j] == d[j]);
}

/// A prefix of the input claimed by any prober but the last, heuristic one is
/// claimed by it in the same way as the whole input: cutting a file short can
/// make such a prober decline, never claim another format or size.
#[verifier::rlimit(50)]
pub proof fn lemma_prober_truncation(d: Seq<u8>, n: int, i: int)
    requires
        0 <= n <= d.len(),
        0 <= i < PROBER_COUNT - 1,
        probe(i, d.take(n)) is Some,
    ensures
        probe(i, d) == probe(i, d.take(n)),
{
    broadcast use lemma_tag_in_prefix;

    let e = d.take(n);
    assert(is_prefix(e, d));
    if i == 0 {
        lemma_avif_heic_truncation(e, d);
    } else if i == 5 {
        lemma_hdr_truncation(e, d);
    } else if i == 13 {
        lemma_tiff_truncation(e, d);
    } else if i == 7 {
        lemma_jp2_jpx_truncation(e, d);
    } else if i == 1 {
        reveal(crate::fixed::bmp_spec);
    } else if i == 2 {
        reveal(crate::icons::cur_ico_spec);
        assert(e[4] == d[4] && e[5] == d[5]);
        assert(crate::icons::cur_ico_spec(e)->Some_0.2 =~= crate::icons::cur_ico_spec(d)->Some_0.2);
    } else if i == 3 {
        reveal(crate::fixed::dds_spec);
    } else if i == 4 {
        reveal(crate::fixed::gif_spec);
    } else if i == 6 {
        lemma_icns_truncation(d, n);
    } else if i == 8 {
        reveal(crate::jpeg::jpeg_spec);
        lemma_jpeg_walk_in_prefix(e, d, 2);
    } else if i == 9 {
        reveal(crate::fixed::ktx_spec);
    } else if i == 10 {
        reveal(png_spec);
    } else if i == 11 {
        reveal(crate::fixed::psd_spec);
    } else if i == 12 {
        reveal(crate::fixed::qoi_spec);
    } else if i == 14 {
        reveal(crate::fixed::webp_spec);
    }
}


proof fn lemma_no_claim_unrecognized(d: Seq<u8>, i: int)
    requires
        first_claim(d, i) is Err,
    ensures
        first_claim(d, i) == Err::<Model, ImageInfoError>(ImageInfoError::UnrecognizedFormat),
    decreases PROBER_COUNT - i,
{
    if 0 <= i < PROBER_COUNT {
        lemma_no_claim_unrecognized(d, i + 1);
    }
}

proof fn lemma_tga_truncation(e: Seq<u8>, d: Seq<u8>)
    requires
        is_prefix(e, d),
        crate::tga::tga_spec(e) is Some,
        !crate::bytes::has_tag(e, e.len() - 18, crate::tga::tga_footer()),
    ensures
        crate::tga::tga_spec(d) == crate::tga::tga_spec(e),
{
    reveal(crate::tga::tga_spec);
    assert(e[1] == d[1] && e[2] == d[2] && e[3] == d[3] && e[4] == d[4] && e[5] == d[5]);
    assert(e[6] == d[6] && e[7] == d[7] && e[12] == d[12] && e[13] == d[13]);
    assert(e[14] == d[14] && e[15] == d[15] && e[16] == d[16]);
}

/// Truncation is safe for an input that a single prober claims: every
/// non-empty prefix is either detected exactly as the whole input or
/// unrecognized. The one exception left out is a prefix that happens to end
/// with the TGA footer, which the heuristic TGA prober may claim.
pub proof fn lemma_truncation(d: Seq<u8>, n: int)
    requires
        1 <= n <= d.len(),
        forall|j: int, l: int|
            0 <= j < l < PROBER_COUNT && #[trigger] probe(j, d) is Some ==> #[trigger] probe(l, d) is None,
        !crate::bytes::has_tag(d.take(n), n - 18, crate::tga::tga_footer()),
    ensures
        detect(d.take(n)) == detect(d) || detect(d.take(n)) == Err::<Model, ImageInfoError>(
            ImageInfoError::UnrecognizedFormat,
        ),
{
    let e = d.take(n);
    assert(is_prefix(e, d));
    if detect(e) is Ok {
        let k = claiming_prober(e, 0);
        if k < PROBER_COUNT - 1 {
            lemma_prober_truncation(d, n, k);
        } else {
            lemma_tga_truncation(e, d);
            assert(probe(k, d) == probe(k, e));
        }
        assert forall|l: int| 0 <= l < k implies #[trigger] probe(l, d) is None by {
            if probe(l, d) is Some {
                assert(probe(k, d) is None);
            }
        }
        lemma_declined_probers_leave_no_trace(d, k);
    } else {
        lemma_no_claim_unrecognized(e, 0);
    }
}

} // verus!
