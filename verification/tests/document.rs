use mc_pointy::region_file::chunk::Chunk;
use mc_pointy::region_file::decode::{decode_document, document_outcome, CompressionType};
use mc_pointy::region_file::error::RegionError;
use mc_pointy::region_file::header::Header;
use mc_pointy::region_file::source::ByteSource;
use mc_pointy::decimal::decimal;

fn sample_document() -> nbt::Blob {
    let mut blob = nbt::Blob::named("Level");
    blob.insert("name", "Herobrine".to_string()).unwrap();
    blob.insert("health", 100i8).unwrap();
    blob.insert("xPos", -3i32).unwrap();
    blob.insert("heights", vec![1i32, 2, 3]).unwrap();
    blob
}

fn zlib_bytes(blob: &nbt::Blob) -> Vec<u8> {
    let mut out = Vec::new();
    blob.to_zlib_writer(&mut out).unwrap();
    out
}

fn gzip_bytes(blob: &nbt::Blob) -> Vec<u8> {
    let mut out = Vec::new();
    blob.to_gzip_writer(&mut out).unwrap();
    out
}

// A container with one unit, in cell 0 at sector 2, padded to whole sectors.
fn container_with_payload(byte_count: u32, discriminator: u8, payload: &[u8]) -> Vec<u8> {
    let mut data = vec![0u8; 2 * 4096];
    data[0..4].copy_from_slice(&0x0000_0201u32.to_be_bytes());
    data.extend_from_slice(&byte_count.to_be_bytes());
    data.push(discriminator);
    data.extend_from_slice(payload);
    while data.len() % 4096 != 0 {
        data.push(0);
    }
    data
}

#[test]
fn zlib_unit_loads_the_document_that_was_stored() {
    let blob = sample_document();
    let mut src = ByteSource::new(container_with_payload(17, 2, &zlib_bytes(&blob)));
    let mut header = Header::new(&mut src, true).unwrap();
    let mut walk = header.iter_mut();
    let chunk = walk.next().unwrap();
    assert_eq!(chunk.offset(), 2);
    assert_eq!(chunk.get_byte_count(None), Some(17));
    assert_eq!(chunk.compression_type(), Some(CompressionType::Zlib));
    assert_eq!(chunk.parse_nbt(&mut src), Ok(blob));
    assert_eq!(src.stream_position(), 2 * 4096 + 5);
    assert!(walk.next().is_none());
}

#[test]
fn minimal_zlib_document_loads() {
    let blob = nbt::Blob::new();
    let mut src = ByteSource::new(container_with_payload(17, 2, &zlib_bytes(&blob)));
    let mut chunk = Chunk::new(0, 0, 0x0000_0201).unwrap();
    assert_eq!(chunk.parse_chunk_header(&mut src), Ok(()));
    assert_eq!(chunk.parse_nbt(&mut src), Ok(nbt::Blob::new()));
}

#[test]
fn gzip_unit_loads_the_document_that_was_stored() {
    let blob = sample_document();
    let mut src = ByteSource::new(container_with_payload(80, 1, &gzip_bytes(&blob)));
    let mut chunk = Chunk::new(0, 0, 0x0000_0201).unwrap();
    assert_eq!(chunk.parse_chunk_header(&mut src), Ok(()));
    assert_eq!(chunk.compression_type(), Some(CompressionType::Gzip));
    assert_eq!(chunk.parse_nbt(&mut src), Ok(blob));
}

#[test]
fn document_is_loaded_anew_each_time() {
    let first = sample_document();
    let mut second = nbt::Blob::new();
    second.insert("other", 5i64).unwrap();
    let mut chunk = Chunk::new(0, 0, 0x0000_0201).unwrap();
    let mut src = ByteSource::new(container_with_payload(17, 2, &zlib_bytes(&first)));
    assert_eq!(chunk.parse_chunk_header(&mut src), Ok(()));
    assert_eq!(chunk.parse_nbt(&mut src), Ok(first.clone()));
    assert_eq!(chunk.parse_nbt(&mut src), Ok(first));
    let mut changed = ByteSource::new(container_with_payload(17, 2, &zlib_bytes(&second)));
    assert_eq!(chunk.parse_nbt(&mut changed), Ok(second));
}

#[test]
fn corrupt_payload_is_a_decode_failure() {
    let mut src = ByteSource::new(container_with_payload(17, 2, &[0xDE, 0xAD, 0xBE, 0xEF]));
    let mut chunk = Chunk::new(0, 0, 0x0000_0201).unwrap();
    assert_eq!(chunk.parse_chunk_header(&mut src), Ok(()));
    let r = chunk.parse_nbt(&mut src);
    assert!(matches!(r, Err(RegionError::Decode(_))));
    assert_eq!(src.stream_position(), 2 * 4096 + 5);
}

#[test]
fn payload_under_the_wrong_framing_is_a_decode_failure() {
    let blob = sample_document();
    let mut src = ByteSource::new(container_with_payload(17, 1, &zlib_bytes(&blob)));
    let mut chunk = Chunk::new(0, 0, 0x0000_0201).unwrap();
    assert_eq!(chunk.parse_chunk_header(&mut src), Ok(()));
    assert!(matches!(chunk.parse_nbt(&mut src), Err(RegionError::Decode(_))));
}

#[test]
fn missing_payload_is_a_decode_failure() {
    let mut data = vec![0u8; 2 * 4096];
    data.extend_from_slice(&[0, 0, 0, 17, 2]);
    let mut src = ByteSource::new(data);
    let mut chunk = Chunk::new(0, 0, 0x0000_0201).unwrap();
    assert_eq!(chunk.parse_chunk_header(&mut src), Ok(()));
    assert!(matches!(chunk.parse_nbt(&mut src), Err(RegionError::Decode(_))));
}

#[test]
fn load_after_a_source_shrank_is_a_decode_failure() {
    let mut src = ByteSource::new(container_with_payload(17, 2, &zlib_bytes(&sample_document())));
    let mut chunk = Chunk::new(0, 0, 0x0000_0201).unwrap();
    assert_eq!(chunk.parse_chunk_header(&mut src), Ok(()));
    let mut short = ByteSource::new(vec![0u8; 100]);
    assert!(matches!(chunk.parse_nbt(&mut short), Err(RegionError::Decode(_))));
    assert_eq!(short.stream_position(), 2 * 4096 + 5);
}

#[test]
fn dispatch_without_a_kind_is_refused() {
    let bytes = zlib_bytes(&sample_document());
    assert_eq!(decode_document(None, &bytes), Err(RegionError::UnknownCompression));
}

#[test]
fn dispatch_selects_the_decoder_by_kind() {
    let blob = sample_document();
    let zlib = zlib_bytes(&blob);
    let gzip = gzip_bytes(&blob);
    assert_eq!(decode_document(Some(CompressionType::Zlib), &zlib), Ok(blob.clone()));
    assert_eq!(decode_document(Some(CompressionType::Gzip), &gzip), Ok(blob));
    assert!(matches!(
        decode_document(Some(CompressionType::Gzip), &zlib),
        Err(RegionError::Decode(_))
    ));
    assert!(matches!(
        decode_document(Some(CompressionType::Zlib), &gzip),
        Err(RegionError::Decode(_))
    ));
    assert!(matches!(
        decode_document(Some(CompressionType::Zlib), &[]),
        Err(RegionError::Decode(_))
    ));
}

#[test]
fn cut_stream_is_a_decode_failure() {
    let bytes = zlib_bytes(&sample_document());
    assert!(decode_document(Some(CompressionType::Zlib), &bytes).is_ok());
    assert!(matches!(
        decode_document(Some(CompressionType::Zlib), &bytes[..bytes.len() / 2]),
        Err(RegionError::Decode(_))
    ));
}

#[test]
fn outcome_keeps_document_and_wraps_error() {
    let blob = sample_document();
    assert_eq!(document_outcome(Ok(blob.clone())), Ok(blob));
    assert_eq!(
        document_outcome(Err(nbt::Error::NoRootCompound)),
        Err(RegionError::Decode(nbt::Error::NoRootCompound))
    );
    assert_eq!(
        document_outcome(Err(nbt::Error::InvalidTypeId(77))),
        Err(RegionError::Decode(nbt::Error::InvalidTypeId(77)))
    );
}

#[test]
fn discriminator_maps_to_kind_and_back() {
    assert_eq!(CompressionType::from_discriminator(1), Some(CompressionType::Gzip));
    assert_eq!(CompressionType::from_discriminator(2), Some(CompressionType::Zlib));
    for d in [0u8, 3, 4, 127, 128, 255] {
        assert_eq!(CompressionType::from_discriminator(d), None);
    }
    assert_eq!(CompressionType::Gzip.discriminator(), 1);
    assert_eq!(CompressionType::Zlib.discriminator(), 2);
    assert_eq!(CompressionType::Gzip.name(), "GZIP");
    assert_eq!(CompressionType::Zlib.name(), "ZLIB");
}

#[test]
fn error_messages() {
    assert_eq!(RegionError::Io.message(), "failed to fill whole buffer");
    assert_eq!(
        RegionError::HeaderNotParsed.message(),
        "Need to parse chunk header before trying to parse NBT"
    );
    assert_eq!(RegionError::UnknownCompression.message(), "Unknown chunk compression type");
    assert_eq!(
        RegionError::UnsoundDocument.message(),
        "Chunk document declares an unsound length or depth"
    );
    assert_eq!(
        RegionError::Decode(nbt::Error::NoRootCompound).message(),
        "the root value must be Compound-like (tag = 0x0a)"
    );
}

#[test]
fn decimal_text_of_integers() {
    assert_eq!(decimal(0), "0");
    assert_eq!(decimal(7), "7");
    assert_eq!(decimal(10), "10");
    assert_eq!(decimal(4096), "4096");
    assert_eq!(decimal(1234567890), "1234567890");
    assert_eq!(decimal(u32::MAX as u64), "4294967295");
    assert_eq!(decimal(u64::MAX), "18446744073709551615");
}
