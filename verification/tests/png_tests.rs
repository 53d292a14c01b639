use pngme::chunk::Chunk;
use pngme::chunk_type::ChunkType;
use pngme::commands::encode_message;
use pngme::error::PngError;
use pngme::png::Png;

fn signature() -> Vec<u8> {
    vec![137, 80, 78, 71, 13, 10, 26, 10]
}

fn crc32(bytes: &[u8]) -> u32 {
    crc::Crc::<u32>::new(&crc::CRC_32_ISO_HDLC).checksum(bytes)
}

fn chunk_bytes(type_code: &str, payload: &[u8]) -> Vec<u8> {
    let mut type_and_payload = type_code.as_bytes().to_vec();
    type_and_payload.extend_from_slice(payload);
    let crc = crc32(&type_and_payload);
    let mut out = (payload.len() as u32).to_be_bytes().to_vec();
    out.extend_from_slice(type_code.as_bytes());
    out.extend_from_slice(payload);
    out.extend_from_slice(&crc.to_be_bytes());
    out
}

fn file_bytes(chunks: &[(&str, &[u8])]) -> Vec<u8> {
    let mut out = signature();
    for (t, p) in chunks {
        out.extend_from_slice(&chunk_bytes(t, p));
    }
    out
}

#[test]
fn test_round_trip_parse_mutate_serialize() {
    let buffer = file_bytes(&[("IHDR", b"head"), ("teXt", b"one"), ("teXt", b"two")]);
    let mut png = Png::try_from(buffer.as_slice()).unwrap();
    png.append_chunk(Chunk::new(
        ChunkType::from_str("ruSt").unwrap(),
        b"secret".to_vec(),
    ));
    let removed = png.remove_chunk("teXt").unwrap();
    assert_eq!(removed.data(), b"one");
    let serialized = png.as_bytes();
    let reparsed = Png::try_from(serialized.as_slice()).unwrap();
    assert_eq!(reparsed.as_bytes(), serialized);
    assert_eq!(reparsed.chunks().len(), 3);
    assert_eq!(reparsed.chunks()[1].data(), b"two");
    assert_eq!(reparsed.chunks()[2].data(), b"secret");
}

#[test]
fn test_round_trip_fresh_build() {
    let mut png = Png::new();
    png.append_chunk(Chunk::new(
        ChunkType::from_str("TeSt").unwrap(),
        b"payload".to_vec(),
    ));
    let serialized = png.as_bytes();
    let reparsed = Png::try_from(serialized.as_slice()).unwrap();
    assert_eq!(reparsed.as_bytes(), serialized);
    assert_eq!(reparsed.chunks().len(), 1);
    assert_eq!(reparsed.chunks()[0].chunk_type().bytes(), *b"TeSt");
}

#[test]
fn test_checksum_integrity() {
    let t = ChunkType::from_str("RuSt").unwrap();
    let chunk = Chunk::new(t, b"hello".to_vec());
    assert_eq!(chunk.crc(), crc32(b"RuSthello"));
    let serialized = chunk.as_bytes();
    let reparsed = Chunk::try_from(serialized.as_slice()).unwrap();
    assert_eq!(reparsed.crc(), chunk.crc());
    assert_eq!(reparsed.data(), chunk.data());
}

#[test]
fn test_checksum_bit_flip_rejected() {
    let serialized = chunk_bytes("RuSt", b"hello");
    let crc_start = serialized.len() - 4;
    for byte_index in crc_start..serialized.len() {
        for bit in 0..8u8 {
            let mut corrupted = serialized.clone();
            corrupted[byte_index] ^= 1 << bit;
            match Chunk::try_from(corrupted.as_slice()) {
                Err(PngError::ChecksumMismatch { expected, computed }) => {
                    assert_eq!(computed, crc32(b"RuSthello"));
                    assert_ne!(expected, computed);
                }
                other => panic!("expected a checksum mismatch, got {:?}", other),
            }
        }
    }
}

#[test]
fn test_append_find_remove() {
    let mut png = Png::new();
    let chunk = Chunk::new(ChunkType::from_str("TEST").unwrap(), b"hello".to_vec());
    png.append_chunk(chunk);
    let found = png.chunk_by_type("TEST").unwrap();
    assert_eq!(found.data_as_string().unwrap(), "hello");
    let removed = png.remove_chunk("TEST").unwrap();
    assert_eq!(removed.data_as_string().unwrap(), "hello");
    assert!(png.chunk_by_type("TEST").is_none());
    assert!(matches!(
        png.remove_chunk("TEST"),
        Err(PngError::ChunkNotFound)
    ));
}

#[test]
fn test_lookup_and_remove_take_first_match_only() {
    let buffer = file_bytes(&[("teXt", b"first"), ("teXt", b"second")]);
    let mut png = Png::try_from(buffer.as_slice()).unwrap();
    assert_eq!(png.chunk_by_type("teXt").unwrap().data(), b"first");
    assert_eq!(png.remove_chunk("teXt").unwrap().data(), b"first");
    assert_eq!(png.chunk_by_type("teXt").unwrap().data(), b"second");
}

#[test]
fn test_truncated_short_buffer() {
    let short = [0u8; 11];
    assert!(matches!(
        Chunk::try_from(short.as_slice()),
        Err(PngError::TruncatedChunk)
    ));
}

#[test]
fn test_truncated_declared_length_too_long() {
    let mut bytes = chunk_bytes("RuSt", b"hello");
    // Declare six payload bytes while only five are present.
    bytes[3] = 6;
    assert!(matches!(
        Chunk::try_from(bytes.as_slice()),
        Err(PngError::TruncatedChunk)
    ));
    let mut buffer = signature();
    buffer.extend_from_slice(&bytes);
    assert!(matches!(
        Png::try_from(buffer.as_slice()),
        Err(PngError::TruncatedChunk)
    ));
}

#[test]
fn test_example_end_to_end() {
    let mut buffer = signature();
    buffer.extend_from_slice(&5u32.to_be_bytes());
    buffer.extend_from_slice(b"RuSt");
    buffer.extend_from_slice(b"hello");
    buffer.extend_from_slice(&crc32(b"RuSthello").to_be_bytes());
    let png = Png::try_from(buffer.as_slice()).unwrap();
    assert_eq!(png.chunks().len(), 1);
    assert_eq!(png.chunks()[0].length(), 5);
    assert_eq!(png.chunks()[0].chunk_type().to_string(), "RuSt");
    assert_eq!(png.as_bytes(), buffer);
}

#[test]
fn test_bad_signature() {
    let mut buffer = file_bytes(&[("teXt", b"x")]);
    buffer[0] = 0;
    assert!(matches!(
        Png::try_from(buffer.as_slice()),
        Err(PngError::BadSignature)
    ));
    assert!(matches!(
        Png::try_from(&buffer[..7]),
        Err(PngError::BadSignature)
    ));
}

#[test]
fn test_invalid_type_in_buffer() {
    let mut chunk = chunk_bytes("RuSt", b"hello");
    chunk[4] = b'1';
    assert!(matches!(
        Chunk::try_from(chunk.as_slice()),
        Err(PngError::InvalidChunkType)
    ));
    let reserved = chunk_bytes("Rust", b"hello");
    assert!(matches!(
        Chunk::try_from(reserved.as_slice()),
        Err(PngError::InvalidChunkType)
    ));
}

#[test]
fn test_payload_not_text() {
    let chunk = Chunk::new(ChunkType::from_str("teXt").unwrap(), vec![0xff, 0xfe]);
    assert_eq!(chunk.data_as_string(), Err(PngError::InvalidText));
}

#[test]
fn test_encode_message_appends_chunk() {
    let buffer = file_bytes(&[("IHDR", b"head")]);
    let out = encode_message(&buffer, "teXt", "hidden words").unwrap();
    let png = Png::try_from(out.as_slice()).unwrap();
    assert_eq!(png.chunks().len(), 2);
    let found = png.chunk_by_type("teXt").unwrap();
    assert_eq!(found.data_as_string().unwrap(), "hidden words");
}

#[test]
fn test_encode_message_rejects_bad_type() {
    let buffer = file_bytes(&[]);
    assert_eq!(
        encode_message(&buffer, "te1t", "message"),
        Err(PngError::InvalidChunkType)
    );
    assert_eq!(
        encode_message(&[1, 2, 3], "teXt", "message"),
        Err(PngError::BadSignature)
    );
}

#[test]
fn test_empty_payload_chunk() {
    let chunk = Chunk::new(ChunkType::from_str("IEND").unwrap(), Vec::new());
    assert_eq!(chunk.length(), 0);
    assert_eq!(chunk.crc(), crc32(b"IEND"));
    let serialized = chunk.as_bytes();
    assert_eq!(serialized.len(), 12);
    let reparsed = Chunk::try_from(serialized.as_slice()).unwrap();
    assert_eq!(reparsed.length(), 0);
}
