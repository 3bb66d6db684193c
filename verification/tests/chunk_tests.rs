use png_chunks::chunk::{Chunk, ChunkDecodingError};
use png_chunks::chunk_type::ChunkType;

fn testing_chunk() -> Chunk {
    let data_length: u32 = 42;
    let chunk_type = "RuSt".as_bytes();
    let message_bytes = "This is where your secret message will be!".as_bytes();
    let crc: u32 = 2882656334;

    let chunk_data: Vec<u8> = data_length
        .to_be_bytes()
        .iter()
        .chain(chunk_type.iter())
        .chain(message_bytes.iter())
        .chain(crc.to_be_bytes().iter())
        .copied()
        .collect();

    Chunk::try_from(chunk_data.as_ref()).unwrap()
}

#[test]
fn test_new_chunk() {
    let chunk_type = ChunkType::from_str("RuSt").unwrap();
    let data = "This is where your secret message will be!"
        .as_bytes()
        .to_vec();
    let chunk = Chunk::new(chunk_type, data);
    assert_eq!(chunk.length(), 42);
    assert_eq!(chunk.crc(), 2882656334);
}

#[test]
fn test_chunk_length() {
    let chunk = testing_chunk();
    assert_eq!(chunk.length(), 42);
}

#[test]
fn test_chunk_type() {
    let chunk = testing_chunk();
    assert_eq!(chunk.chunk_type().to_text(), String::from("RuSt"));
}

#[test]
fn test_chunk_string() {
    let chunk = testing_chunk();
    let chunk_string = chunk.data_as_string().unwrap();
    let expected_chunk_string = String::from("This is where your secret message will be!");
    assert_eq!(chunk_string, expected_chunk_string);
}

#[test]
fn test_chunk_crc() {
    let chunk = testing_chunk();
    assert_eq!(chunk.crc(), 2882656334);
}

#[test]
fn test_valid_chunk_from_bytes() {
    let data_length: u32 = 42;
    let chunk_type = "RuSt".as_bytes();
    let message_bytes = "This is where your secret message will be!".as_bytes();
    let crc: u32 = 2882656334;

    let chunk_data: Vec<u8> = data_length
        .to_be_bytes()
        .iter()
        .chain(chunk_type.iter())
        .chain(message_bytes.iter())
        .chain(crc.to_be_bytes().iter())
        .copied()
        .collect();

    let chunk = Chunk::try_from(chunk_data.as_ref()).unwrap();

    let chunk_string = chunk.data_as_string().unwrap();
    let expected_chunk_string = String::from("This is where your secret message will be!");

    assert_eq!(chunk.length(), 42);
    assert_eq!(chunk.chunk_type().to_text(), String::from("RuSt"));
    assert_eq!(chunk_string, expected_chunk_string);
    assert_eq!(chunk.crc(), 2882656334);
}

#[test]
fn test_invalid_chunk_from_bytes() {
    let data_length: u32 = 42;
    let chunk_type = "RuSt".as_bytes();
    let message_bytes = "This is where your secret message will be!".as_bytes();
    let crc: u32 = 2882656333;

    let chunk_data: Vec<u8> = data_length
        .to_be_bytes()
        .iter()
        .chain(chunk_type.iter())
        .chain(message_bytes.iter())
        .chain(crc.to_be_bytes().iter())
        .copied()
        .collect();

    let chunk = Chunk::try_from(chunk_data.as_ref());

    assert!(chunk.is_err());
}

#[test]
pub fn test_chunk_trait_impls() {
    let data_length: u32 = 42;
    let chunk_type = "RuSt".as_bytes();
    let message_bytes = "This is where your secret message will be!".as_bytes();
    let crc: u32 = 2882656334;

    let chunk_data: Vec<u8> = data_length
        .to_be_bytes()
        .iter()
        .chain(chunk_type.iter())
        .chain(message_bytes.iter())
        .chain(crc.to_be_bytes().iter())
        .copied()
        .collect();

    let chunk: Chunk = Chunk::try_from(chunk_data.as_ref()).unwrap();

    let _chunk_string = format!("{}", chunk.to_text());
}

#[test]
fn test_checksum_mismatch_carries_both_values() {
    // The same 54-byte buffer as the valid scenario, with the checksum off
    // by one: decoding must report the supplied and the computed CRC.
    let mut buffer: Vec<u8> = Vec::new();
    buffer.extend_from_slice(&42u32.to_be_bytes());
    buffer.extend_from_slice("RuSt".as_bytes());
    buffer.extend_from_slice("This is where your secret message will be!".as_bytes());
    buffer.extend_from_slice(&2882656333u32.to_be_bytes());

    let err = Chunk::try_from(buffer.as_ref()).unwrap_err();
    assert_eq!(err, ChunkDecodingError::BadCrc(2882656333, 2882656334));
}

#[test]
fn test_round_trip_bytes() {
    let chunk = testing_chunk();
    let encoded = chunk.as_bytes();
    assert_eq!(encoded.len(), 54);

    let again = Chunk::try_from(encoded.as_ref()).unwrap();
    assert_eq!(again.length(), chunk.length());
    assert_eq!(again.chunk_type().bytes(), chunk.chunk_type().bytes());
    assert_eq!(again.data(), chunk.data());
    assert_eq!(again.crc(), chunk.crc());
    assert_eq!(again.as_bytes(), encoded);
}

#[test]
fn test_decode_ignores_trailing_bytes() {
    let chunk = testing_chunk();
    let mut encoded = chunk.as_bytes();
    encoded.extend_from_slice(&[1, 2, 3, 4, 5]);

    let again = Chunk::try_from(encoded.as_ref()).unwrap();
    assert_eq!(again.length(), 42);
    assert_eq!(again.crc(), 2882656334);
}

#[test]
fn test_checksum_deterministic() {
    let a = Chunk::new(
        ChunkType::from_str("RuSt").unwrap(),
        b"same payload".to_vec(),
    );
    let b = Chunk::new(
        ChunkType::from_str("RuSt").unwrap(),
        b"same payload".to_vec(),
    );
    assert_eq!(a.crc(), b.crc());
}

#[test]
fn test_empty_data_chunk() {
    let chunk = Chunk::new(ChunkType::from_str("RuSt").unwrap(), Vec::new());
    assert_eq!(chunk.length(), 0);
    let encoded = chunk.as_bytes();
    assert_eq!(encoded.len(), 12);
    let again = Chunk::try_from(encoded.as_ref()).unwrap();
    assert_eq!(again.crc(), chunk.crc());
}

#[test]
fn test_truncated_buffer_errors() {
    // Too short for the length field itself.
    let err = Chunk::try_from([0u8, 0].as_ref()).unwrap_err();
    assert_eq!(err, ChunkDecodingError::BadLength(2, 4));

    // Length present, type code missing.
    let err = Chunk::try_from([0u8, 0, 0, 1, 82].as_ref()).unwrap_err();
    assert_eq!(err, ChunkDecodingError::BadLength(5, 8));

    // Declares 42 data bytes but carries none: 54 bytes needed.
    let err = Chunk::try_from([0u8, 0, 0, 42, 82, 117, 83, 116].as_ref()).unwrap_err();
    assert_eq!(err, ChunkDecodingError::BadLength(8, 54));
}

#[test]
fn test_length_too_large_error() {
    // A declared length of exactly 2^31 reaches the ceiling.
    let buffer: [u8; 12] = [0x80, 0, 0, 0, 82, 117, 83, 116, 0, 0, 0, 0];
    let err = Chunk::try_from(buffer.as_ref()).unwrap_err();
    assert_eq!(err, ChunkDecodingError::LongLength(0x8000_0000));
}

#[test]
fn test_bad_type_error_propagates() {
    // "Ru1t" as the type code: byte 49 is not a letter.
    let buffer: [u8; 12] = [0, 0, 0, 0, 82, 117, 49, 116, 0, 0, 0, 0];
    let err = Chunk::try_from(buffer.as_ref()).unwrap_err();
    match err {
        ChunkDecodingError::BadType(inner) => {
            assert_eq!(
                inner,
                png_chunks::chunk_type::ChunkTypeDecodingError::BadByte(49)
            );
        }
        other => panic!("expected BadType, got {:?}", other),
    }
}

#[test]
fn test_data_as_string_not_utf8() {
    let chunk = Chunk::new(ChunkType::from_str("RuSt").unwrap(), vec![0xff, 0xfe]);
    let err = chunk.data_as_string().unwrap_err();
    assert_eq!(err, ChunkDecodingError::NotUtf8);
}

#[test]
fn test_chunk_error_messages() {
    let err = ChunkDecodingError::BadCrc(2882656333, 2882656334);
    assert_eq!(
        &err.message(),
        "Bad chunk: Invalid CRC (received 2882656333, expected 2882656334)"
    );

    let err = ChunkDecodingError::BadLength(8, 54);
    assert_eq!(
        &err.message(),
        "Bad chunk: Invalid length (received 8, expected 54)"
    );

    let err = ChunkDecodingError::LongLength(0x8000_0000);
    assert_eq!(
        &err.message(),
        "Bad chunk: Length too long (2147483648 >= 2^31)"
    );

    let err = ChunkDecodingError::BadType(png_chunks::chunk_type::ChunkTypeDecodingError::BadByte(
        49,
    ));
    assert_eq!(
        &err.message(),
        "Bad chunk: Invalid type: Bad byte: 49 (110001)"
    );

    assert_eq!(
        &ChunkDecodingError::NotUtf8.message(),
        "Bad chunk: Data is not valid UTF-8"
    );
}
