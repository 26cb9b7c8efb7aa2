use imageinfo::bytes::ReadInterface;
use imageinfo::ImageInfoError;

#[test]
fn reads_at_offsets_in_any_order() {
    let data = [0x01u8, 0x02, 0x03, 0x04, 0x05, 0x06];
    let ri = ReadInterface::new(&data);
    assert_eq!(ri.len(), 6);
    assert_eq!(ri.read_u32_be(2), Ok(0x03040506));
    assert_eq!(ri.read_u16_le(0), Ok(0x0201));
    assert_eq!(ri.read_u32_le(1), Ok(0x05040302));
    assert_eq!(ri.read_u16_be(4), Ok(0x0506));
    assert_eq!(ri.read_u32_be(2), Ok(0x03040506));
    assert_eq!(ri.read_u8(5), Ok(0x06));
    assert_eq!(ri.read_exact_at(1, 3), Ok(&data[1..4]));
    assert_eq!(ri.read_exact_at(6, 0), Ok(&data[6..6]));
}

#[test]
fn reads_past_the_end_fail() {
    let data = [0x01u8, 0x02, 0x03, 0x04, 0x05, 0x06];
    let ri = ReadInterface::new(&data);
    assert_eq!(ri.read_u8(6), Err(ImageInfoError::IoError));
    assert_eq!(ri.read_u16_le(5), Err(ImageInfoError::IoError));
    assert_eq!(ri.read_u16_be(usize::MAX), Err(ImageInfoError::IoError));
    assert_eq!(ri.read_u32_le(3), Err(ImageInfoError::IoError));
    assert_eq!(ri.read_u32_be(3), Err(ImageInfoError::IoError));
    assert_eq!(ri.read_exact_at(4, 3), Err(ImageInfoError::IoError));
    assert_eq!(ri.read_exact_at(1, usize::MAX), Err(ImageInfoError::IoError));
}

#[test]
fn empty_source_reads_fail() {
    let ri = ReadInterface::new(&[]);
    assert_eq!(ri.len(), 0);
    assert_eq!(ri.read_u8(0), Err(ImageInfoError::IoError));
}
