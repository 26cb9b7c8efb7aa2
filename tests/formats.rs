use imageinfo::{ImageFormat, ImageInfo, ImageInfoError, ImageSize};

fn be32(v: u32) -> [u8; 4] {
    v.to_be_bytes()
}

fn le32(v: u32) -> [u8; 4] {
    v.to_le_bytes()
}

fn png(w: u32, h: u32) -> Vec<u8> {
    let mut d = vec![0x89, b'P', b'N', b'G', 0x0d, 0x0a, 0x1a, 0x0a, 0, 0, 0, 13];
    d.extend_from_slice(b"IHDR");
    d.extend_from_slice(&be32(w));
    d.extend_from_slice(&be32(h));
    d.extend_from_slice(&[8, 6, 0, 0, 0, 0, 0, 0, 0]);
    d
}

fn ico(kind: u8, sizes: &[(u8, u8)]) -> Vec<u8> {
    let mut d = vec![0, 0, kind, 0, sizes.len() as u8, 0];
    for (w, h) in sizes {
        d.extend_from_slice(&[*w, *h, 0, 0, 1, 0, 32, 0]);
        d.extend_from_slice(&le32(40));
        d.extend_from_slice(&le32(0));
    }
    d
}

fn size(width: u64, height: u64) -> ImageSize {
    ImageSize { width, height }
}

#[test]
fn png_ten_by_ten() {
    let info = ImageInfo::from_raw_data(&png(10, 10)).unwrap();
    assert_eq!(info.format, ImageFormat::PNG);
    assert_eq!(info.size, size(10, 10));
    assert_eq!(info.entry_sizes, vec![]);
    assert_eq!(info.ext, "png");
    assert_eq!(info.full_ext, "png");
    assert_eq!(info.mimetype, "image/png");
}

#[test]
fn empty_source_is_io_error() {
    assert_eq!(ImageInfo::from_raw_data(&[]), Err(ImageInfoError::IoError));
}

#[test]
fn four_random_bytes_unrecognized() {
    assert_eq!(
        ImageInfo::from_raw_data(&[0x12, 0x34, 0x56, 0x78]),
        Err(ImageInfoError::UnrecognizedFormat)
    );
}

#[test]
fn same_bytes_same_outcome() {
    let d = png(640, 480);
    let other = vec![1u8, 2, 3, 4, 5];
    let a = ImageInfo::from_raw_data(&d);
    let _ = ImageInfo::from_raw_data(&other);
    let b = ImageInfo::from_raw_data(&d);
    assert_eq!(a, b);
    assert_eq!(ImageInfo::from_raw_data(&other), ImageInfo::from_raw_data(&other));
}

#[test]
fn declining_probers_leave_png_intact() {
    // Every prober before the PNG one runs on this input and declines it.
    let info = ImageInfo::from_raw_data(&png(3, 7)).unwrap();
    assert_eq!(info.format, ImageFormat::PNG);
    assert_eq!(info.size, size(3, 7));
}

#[test]
fn earlier_prober_wins() {
    // A PNG header that also ends with a TGA footer: PNG comes first.
    let mut d = png(5, 6);
    d.extend_from_slice(b"TRUEVISION-XFILE.\0");
    let info = ImageInfo::from_raw_data(&d).unwrap();
    assert_eq!(info.format, ImageFormat::PNG);
    assert_eq!(info.size, size(5, 6));
}

#[test]
fn zero_width_png_declined() {
    assert_eq!(ImageInfo::from_raw_data(&png(0, 10)), Err(ImageInfoError::UnrecognizedFormat));
    assert_eq!(ImageInfo::from_raw_data(&png(10, 0)), Err(ImageInfoError::UnrecognizedFormat));
}

#[test]
fn truncated_png_prefixes() {
    let d = png(10, 20);
    for n in 1..d.len() {
        let r = ImageInfo::from_raw_data(&d[..n]);
        if n >= 24 {
            assert_eq!(r.unwrap().size, size(10, 20));
        } else {
            assert_eq!(r, Err(ImageInfoError::UnrecognizedFormat));
        }
    }
}

#[test]
fn ico_entries_in_declared_order() {
    let info = ImageInfo::from_raw_data(&ico(1, &[(16, 16), (32, 32), (48, 48)])).unwrap();
    assert_eq!(info.format, ImageFormat::ICO);
    assert_eq!(info.entry_sizes, vec![size(16, 16), size(32, 32), size(48, 48)]);
    assert_eq!(info.size, size(16, 16));
}

#[test]
fn cur_with_full_size_entry() {
    let info = ImageInfo::from_raw_data(&ico(2, &[(0, 0), (24, 12)])).unwrap();
    assert_eq!(info.format, ImageFormat::CUR);
    assert_eq!(info.ext, "cur");
    assert_eq!(info.size, size(256, 256));
    assert_eq!(info.entry_sizes, vec![size(256, 256), size(24, 12)]);
}

#[test]
fn ico_with_no_entry_declined() {
    let mut d = ico(1, &[]);
    d.extend_from_slice(&[0; 32]);
    assert_eq!(ImageInfo::from_raw_data(&d), Err(ImageInfoError::UnrecognizedFormat));
}

#[test]
fn gif_size() {
    let mut d = b"GIF89a".to_vec();
    d.extend_from_slice(&[0x2c, 0x01, 0xc8, 0x00, 0, 0, 0]);
    let info = ImageInfo::from_raw_data(&d).unwrap();
    assert_eq!(info.format, ImageFormat::GIF);
    assert_eq!(info.size, size(300, 200));
}

#[test]
fn bmp_top_down_height() {
    let mut d = vec![b'B', b'M'];
    d.extend_from_slice(&[0; 16]);
    d.extend_from_slice(&le32(123));
    d.extend_from_slice(&le32((-45i32) as u32));
    d.extend_from_slice(&[0; 8]);
    let info = ImageInfo::from_raw_data(&d).unwrap();
    assert_eq!(info.format, ImageFormat::BMP);
    assert_eq!(info.size, size(123, 45));
}

#[test]
fn dds_size() {
    let mut d = b"DDS ".to_vec();
    d.extend_from_slice(&le32(124));
    d.extend_from_slice(&le32(0));
    d.extend_from_slice(&le32(64));
    d.extend_from_slice(&le32(128));
    let info = ImageInfo::from_raw_data(&d).unwrap();
    assert_eq!(info.format, ImageFormat::DDS);
    assert_eq!(info.size, size(128, 64));
}

#[test]
fn psd_size() {
    let mut d = b"8BPS".to_vec();
    d.extend_from_slice(&[0, 1, 0, 0, 0, 0, 0, 0, 0, 3]);
    d.extend_from_slice(&be32(50));
    d.extend_from_slice(&be32(70));
    d.extend_from_slice(&[0, 8, 0, 3]);
    let info = ImageInfo::from_raw_data(&d).unwrap();
    assert_eq!(info.format, ImageFormat::PSD);
    assert_eq!(info.size, size(70, 50));
}

#[test]
fn qoi_size() {
    let mut d = b"qoif".to_vec();
    d.extend_from_slice(&be32(800));
    d.extend_from_slice(&be32(600));
    d.extend_from_slice(&[4, 0]);
    let info = ImageInfo::from_raw_data(&d).unwrap();
    assert_eq!(info.format, ImageFormat::QOI);
    assert_eq!(info.mimetype, "image/qoi");
    assert_eq!(info.size, size(800, 600));
}

#[test]
fn ktx_size() {
    let mut d = vec![0xab, 0x4b, 0x54, 0x58, 0x20, 0x31, 0x31, 0xbb, 0x0d, 0x0a, 0x1a, 0x0a];
    d.extend_from_slice(&[0; 24]);
    d.extend_from_slice(&le32(256));
    d.extend_from_slice(&le32(512));
    d.extend_from_slice(&[0; 20]);
    let info = ImageInfo::from_raw_data(&d).unwrap();
    assert_eq!(info.format, ImageFormat::KTX);
    assert_eq!(info.size, size(256, 512));
}

fn webp(chunk: &[u8; 4], body: &[u8]) -> Vec<u8> {
    let mut d = b"RIFF".to_vec();
    d.extend_from_slice(&le32(100));
    d.extend_from_slice(b"WEBP");
    d.extend_from_slice(chunk);
    d.extend_from_slice(&le32(50));
    d.extend_from_slice(body);
    d.resize(40, 0);
    d
}

#[test]
fn webp_lossy_size() {
    // Frame tag and start code, then 14-bit dimensions with scale bits.
    let mut body = vec![0u8, 0, 0, 0x9d, 0x01, 0x2a];
    body.extend_from_slice(&[0x90, 0x01, 0x2c, 0xc1]);
    let info = ImageInfo::from_raw_data(&webp(b"VP8 ", &body)).unwrap();
    assert_eq!(info.format, ImageFormat::WEBP);
    assert_eq!(info.size, size(400, 300));
}

#[test]
fn webp_lossless_size() {
    let bits: u32 = 99 | (49 << 14);
    let mut body = vec![0x2f];
    body.extend_from_slice(&le32(bits));
    let info = ImageInfo::from_raw_data(&webp(b"VP8L", &body)).unwrap();
    assert_eq!(info.size, size(100, 50));
}

#[test]
fn webp_extended_size() {
    let body = [0, 0, 0, 0, 0x1f, 0x03, 0x00, 0xff, 0xff, 0x00];
    let info = ImageInfo::from_raw_data(&webp(b"VP8X", &body)).unwrap();
    assert_eq!(info.size, size(800, 65536));
}

fn jpeg(w: u16, h: u16) -> Vec<u8> {
    let mut d = vec![0xff, 0xd8, 0xff, 0xe0, 0x00, 0x10];
    d.extend_from_slice(b"JFIF\0");
    d.extend_from_slice(&[1, 1, 0, 0, 1, 0, 1, 0, 0]);
    d.extend_from_slice(&[0xff, 0xc0, 0x00, 0x11, 0x08]);
    d.extend_from_slice(&h.to_be_bytes());
    d.extend_from_slice(&w.to_be_bytes());
    d.extend_from_slice(&[3, 1, 0x22, 0, 2, 0x11, 1, 3, 0x11, 1]);
    d
}

#[test]
fn jpeg_after_app_segment() {
    let info = ImageInfo::from_raw_data(&jpeg(1024, 768)).unwrap();
    assert_eq!(info.format, ImageFormat::JPEG);
    assert_eq!(info.ext, "jpg");
    assert_eq!(info.full_ext, "jpeg");
    assert_eq!(info.size, size(1024, 768));
}

#[test]
fn jpeg_cut_before_frame_declined() {
    let d = jpeg(1024, 768);
    assert_eq!(ImageInfo::from_raw_data(&d[..24]), Err(ImageInfoError::UnrecognizedFormat));
}

fn tiff(little: bool, w: u32, h: u32) -> Vec<u8> {
    let u16b = |v: u16| if little { v.to_le_bytes() } else { v.to_be_bytes() };
    let u32b = |v: u32| if little { v.to_le_bytes() } else { v.to_be_bytes() };
    let mut d = if little { b"II*\0".to_vec() } else { b"MM\0*".to_vec() };
    d.extend_from_slice(&u32b(8));
    d.extend_from_slice(&u16b(3));
    // compression, width (LONG), height (SHORT)
    d.extend_from_slice(&u16b(259));
    d.extend_from_slice(&u16b(3));
    d.extend_from_slice(&u32b(1));
    d.extend_from_slice(&u16b(1));
    d.extend_from_slice(&[0, 0]);
    d.extend_from_slice(&u16b(256));
    d.extend_from_slice(&u16b(4));
    d.extend_from_slice(&u32b(1));
    d.extend_from_slice(&u32b(w));
    d.extend_from_slice(&u16b(257));
    d.extend_from_slice(&u16b(3));
    d.extend_from_slice(&u32b(1));
    d.extend_from_slice(&u16b(h as u16));
    d.extend_from_slice(&[0, 0]);
    d.extend_from_slice(&u32b(0));
    d
}

#[test]
fn tiff_both_byte_orders() {
    let le = ImageInfo::from_raw_data(&tiff(true, 70000, 300)).unwrap();
    assert_eq!(le.format, ImageFormat::TIFF);
    assert_eq!(le.size, size(70000, 300));
    let be = ImageInfo::from_raw_data(&tiff(false, 12, 34)).unwrap();
    assert_eq!(be.size, size(12, 34));
    assert_eq!(be.full_ext, "tiff");
}

fn boxed(tag: &[u8; 4], body: &[u8]) -> Vec<u8> {
    let mut d = be32(body.len() as u32 + 8).to_vec();
    d.extend_from_slice(tag);
    d.extend_from_slice(body);
    d
}

fn heif(major: &[u8; 4], compatible: &[&[u8; 4]], w: u32, h: u32) -> Vec<u8> {
    let mut ftyp = major.to_vec();
    ftyp.extend_from_slice(&[0, 0, 0, 0]);
    for b in compatible {
        ftyp.extend_from_slice(*b);
    }
    let mut ispe = vec![0, 0, 0, 0];
    ispe.extend_from_slice(&be32(w));
    ispe.extend_from_slice(&be32(h));
    let ipco = boxed(b"ipco", &boxed(b"ispe", &ispe));
    let iprp = boxed(b"iprp", &ipco);
    let mut meta = vec![0, 0, 0, 0];
    meta.extend_from_slice(&boxed(b"hdlr", &[0; 12]));
    meta.extend_from_slice(&iprp);
    let mut d = boxed(b"ftyp", &ftyp);
    d.extend_from_slice(&boxed(b"meta", &meta));
    d
}

#[test]
fn avif_size() {
    let info = ImageInfo::from_raw_data(&heif(b"avif", &[b"mif1", b"avif"], 640, 360)).unwrap();
    assert_eq!(info.format, ImageFormat::AVIF);
    assert_eq!(info.size, size(640, 360));
}

#[test]
fn heic_size() {
    let info = ImageInfo::from_raw_data(&heif(b"heic", &[b"mif1", b"heic"], 4032, 3024)).unwrap();
    assert_eq!(info.format, ImageFormat::HEIC);
    assert_eq!(info.mimetype, "image/heic");
    assert_eq!(info.size, size(4032, 3024));
}

#[test]
fn heif_without_known_brand_declined() {
    let d = heif(b"mif1", &[b"mif1"], 10, 10);
    assert_eq!(ImageInfo::from_raw_data(&d), Err(ImageInfoError::UnrecognizedFormat));
}

fn jp2(brand: &[u8; 4], w: u32, h: u32) -> Vec<u8> {
    let mut d = vec![0, 0, 0, 0x0c, b'j', b'P', b' ', b' ', 0x0d, 0x0a, 0x87, 0x0a];
    let mut ftyp = brand.to_vec();
    ftyp.extend_from_slice(&[0, 0, 0, 0]);
    ftyp.extend_from_slice(brand);
    d.extend_from_slice(&boxed(b"ftyp", &ftyp));
    let mut ihdr = be32(h).to_vec();
    ihdr.extend_from_slice(&be32(w));
    ihdr.extend_from_slice(&[0, 3, 7, 7, 0, 0]);
    d.extend_from_slice(&boxed(b"jp2h", &boxed(b"ihdr", &ihdr)));
    d
}

#[test]
fn jp2_and_jpx_sizes() {
    let a = ImageInfo::from_raw_data(&jp2(b"jp2 ", 1920, 1080)).unwrap();
    assert_eq!(a.format, ImageFormat::JP2);
    assert_eq!(a.size, size(1920, 1080));
    let b = ImageInfo::from_raw_data(&jp2(b"jpx ", 20, 10)).unwrap();
    assert_eq!(b.format, ImageFormat::JPX);
    assert_eq!(b.size, size(20, 10));
}

#[test]
fn icns_largest_is_primary() {
    let mut body = Vec::new();
    body.extend_from_slice(&boxed_icns(b"is32", 20));
    body.extend_from_slice(&boxed_icns(b"ic09", 20));
    body.extend_from_slice(&boxed_icns(b"TOC ", 12));
    body.extend_from_slice(&boxed_icns(b"icp6", 20));
    let mut d = b"icns".to_vec();
    d.extend_from_slice(&be32(body.len() as u32 + 8));
    d.extend_from_slice(&body);
    let info = ImageInfo::from_raw_data(&d).unwrap();
    assert_eq!(info.format, ImageFormat::ICNS);
    assert_eq!(info.entry_sizes, vec![size(16, 16), size(512, 512), size(64, 64)]);
    assert_eq!(info.size, size(512, 512));
}

fn boxed_icns(tag: &[u8; 4], total: u32) -> Vec<u8> {
    let mut d = tag.to_vec();
    d.extend_from_slice(&be32(total));
    d.resize(total as usize, 0);
    d
}

#[test]
fn hdr_resolution_line() {
    let d = b"#?RADIANCE\nFORMAT=32-bit_rle_rgbe\n\n-Y 480 +X 720\n\x01\x02".to_vec();
    let info = ImageInfo::from_raw_data(&d).unwrap();
    assert_eq!(info.format, ImageFormat::HDR);
    assert_eq!(info.mimetype, "image/vnd.radiance");
    assert_eq!(info.size, size(720, 480));
}

#[test]
fn hdr_oversized_number_declined() {
    let d = b"#?RGBE\n\n-Y 99999999999 +X 720\n".to_vec();
    assert_eq!(ImageInfo::from_raw_data(&d), Err(ImageInfoError::UnrecognizedFormat));
}

fn tga_header(w: u16, h: u16) -> Vec<u8> {
    let mut d = vec![0, 0, 2, 0, 0, 0, 0, 0, 0, 0, 0, 0];
    d.extend_from_slice(&w.to_le_bytes());
    d.extend_from_slice(&h.to_le_bytes());
    d.extend_from_slice(&[24, 0]);
    d
}

#[test]
fn tga_with_footer() {
    let mut d = tga_header(33, 44);
    d[16] = 7;
    d.extend_from_slice(&[0; 8]);
    d.extend_from_slice(b"TRUEVISION-XFILE.\0");
    let info = ImageInfo::from_raw_data(&d).unwrap();
    assert_eq!(info.format, ImageFormat::TGA);
    assert_eq!(info.size, size(33, 44));
}

#[test]
fn tga_plausible_header() {
    let mut d = tga_header(640, 480);
    d.extend_from_slice(&[0; 30]);
    let info = ImageInfo::from_raw_data(&d).unwrap();
    assert_eq!(info.format, ImageFormat::TGA);
    assert_eq!(info.size, size(640, 480));
}

#[test]
fn format_names() {
    assert_eq!(ImageFormat::JPEG.ext(), "jpg");
    assert_eq!(ImageFormat::JPEG.full_ext(), "jpeg");
    assert_eq!(ImageFormat::TIFF.ext(), "tif");
    assert_eq!(ImageFormat::HDR.mimetype(), "image/vnd.radiance");
}

#[test]
fn icns_prefix_declined() {
    let mut d = b"icns".to_vec();
    d.extend_from_slice(&be32(24));
    d.extend_from_slice(&boxed_icns(b"is32", 8));
    d.extend_from_slice(&boxed_icns(b"ic09", 8));
    let info = ImageInfo::from_raw_data(&d).unwrap();
    assert_eq!(info.format, ImageFormat::ICNS);
    assert_eq!(info.size, size(512, 512));
    assert_eq!(info.entry_sizes, vec![size(16, 16), size(512, 512)]);
    for n in 1..d.len() {
        assert_eq!(ImageInfo::from_raw_data(&d[..n]), Err(ImageInfoError::UnrecognizedFormat));
    }
}

#[test]
fn icns_element_past_total_declined() {
    let mut d = b"icns".to_vec();
    d.extend_from_slice(&be32(20));
    d.extend_from_slice(&boxed_icns(b"is32", 8));
    d.extend_from_slice(&boxed_icns(b"ic09", 8));
    assert_eq!(ImageInfo::from_raw_data(&d), Err(ImageInfoError::UnrecognizedFormat));
}

#[test]
fn hdr_prefix_of_width_declined() {
    let d = b"#?RADIANCE\n\n-Y 1 +X 12\n".to_vec();
    assert_eq!(ImageInfo::from_raw_data(&d).unwrap().size, size(12, 1));
    for n in 1..d.len() {
        assert_eq!(ImageInfo::from_raw_data(&d[..n]), Err(ImageInfoError::UnrecognizedFormat));
    }
}

#[test]
fn jpeg_prefixes_declined_or_same() {
    let d = jpeg(300, 200);
    let full = ImageInfo::from_raw_data(&d).unwrap();
    for n in 1..d.len() {
        let r = ImageInfo::from_raw_data(&d[..n]);
        assert!(r == Err(ImageInfoError::UnrecognizedFormat) || r.as_ref() == Ok(&full));
    }
}
