use mc_pointy::region_file::error::RegionError;
use mc_pointy::region_file::source::ByteSource;

#[test]
fn new_source_starts_at_zero() {
    let src = ByteSource::new(vec![1, 2, 3]);
    assert_eq!(src.len(), 3);
    assert_eq!(src.stream_position(), 0);
    assert_eq!(src.remaining(), &[1u8, 2, 3][..]);
}

#[test]
fn read_u8_steps_one_byte() {
    let mut src = ByteSource::new(vec![7, 9]);
    assert_eq!(src.read_u8(), Ok(7));
    assert_eq!(src.stream_position(), 1);
    assert_eq!(src.read_u8(), Ok(9));
    assert_eq!(src.stream_position(), 2);
    assert_eq!(src.read_u8(), Err(RegionError::Io));
    assert_eq!(src.stream_position(), 2);
}

#[test]
fn read_u32_is_big_endian() {
    let mut src = ByteSource::new(vec![0x12, 0x34, 0x56, 0x78, 0x00, 0x00, 0x00, 0x11]);
    assert_eq!(src.read_u32(), Ok(0x1234_5678));
    assert_eq!(src.stream_position(), 4);
    assert_eq!(src.read_u32(), Ok(17));
    assert_eq!(src.stream_position(), 8);
}

#[test]
fn read_u32_reads_at_the_position() {
    let mut src = ByteSource::new(vec![0xAA, 0x00, 0x00, 0x01, 0x02]);
    src.seek(1);
    assert_eq!(src.read_u32(), Ok(0x0000_0102));
    assert_eq!(src.stream_position(), 5);
}

#[test]
fn short_read_u32_fails_and_consumes_nothing() {
    let mut src = ByteSource::new(vec![1, 2, 3]);
    assert_eq!(src.read_u32(), Err(RegionError::Io));
    assert_eq!(src.stream_position(), 0);
    src.seek(100);
    assert_eq!(src.read_u32(), Err(RegionError::Io));
    assert_eq!(src.stream_position(), 100);
    assert_eq!(src.read_u8(), Err(RegionError::Io));
}

#[test]
fn read_u32_into_fills_every_word() {
    let mut src = ByteSource::new(vec![
        0xFF, 0x00, 0x00, 0x02, 0x01, 0xDE, 0xAD, 0xBE, 0xEF, 0x00, 0x00, 0x00, 0x00, 0x55,
    ]);
    src.seek(1);
    let mut words = vec![9u32; 3];
    assert_eq!(src.read_u32_into(&mut words), Ok(()));
    assert_eq!(words, vec![0x0000_0201, 0xDEAD_BEEF, 0]);
    assert_eq!(src.stream_position(), 13);
}

#[test]
fn short_read_u32_into_changes_nothing() {
    let mut src = ByteSource::new(vec![0u8; 11]);
    let mut words = vec![9u32; 3];
    assert_eq!(src.read_u32_into(&mut words), Err(RegionError::Io));
    assert_eq!(words, vec![9, 9, 9]);
    assert_eq!(src.stream_position(), 0);
}

#[test]
fn read_u32_into_of_nothing_succeeds() {
    let mut src = ByteSource::new(vec![1, 2]);
    src.seek(2);
    let mut words: Vec<u32> = Vec::new();
    assert_eq!(src.read_u32_into(&mut words), Ok(()));
    assert_eq!(src.stream_position(), 2);
}

#[test]
fn seek_past_the_end_is_allowed() {
    let mut src = ByteSource::new(vec![1, 2, 3, 4]);
    src.seek(2);
    assert_eq!(src.remaining(), &[3u8, 4][..]);
    src.seek(4);
    assert_eq!(src.remaining(), &[0u8; 0][..]);
    src.seek(u64::MAX);
    assert_eq!(src.stream_position(), u64::MAX);
    assert_eq!(src.remaining(), &[0u8; 0][..]);
    assert_eq!(src.len(), 4);
}
