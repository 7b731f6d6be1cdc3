use pngme::chunk::{Chunk, ChunkError};
use pngme::chunk_type::{ChunkType, ChunkTypeError};
use pngme::text::InvalidUtf8;

const MESSAGE: &str = "This is where your secret message will be!";
const MESSAGE_CRC: u32 = 2882656334;

fn encoded(length: u32, tag: &[u8], data: &[u8], crc: u32) -> Vec<u8> {
    let mut out = Vec::new();
    out.extend_from_slice(&length.to_be_bytes());
    out.extend_from_slice(tag);
    out.extend_from_slice(data);
    out.extend_from_slice(&crc.to_be_bytes());
    out
}

fn rust_tag() -> ChunkType {
    ChunkType::from_str("RuSt").unwrap()
}

#[test]
fn round_trip_of_constructed_chunk() {
    let chunk = Chunk::new(rust_tag(), MESSAGE.as_bytes().to_vec());
    let bytes = chunk.as_bytes();
    let back = Chunk::try_from(bytes.as_slice()).unwrap();
    assert_eq!(back.length(), chunk.length());
    assert_eq!(back.chunk_type().bytes(), chunk.chunk_type().bytes());
    assert_eq!(back.data(), chunk.data());
    assert_eq!(back.crc(), chunk.crc());
}

#[test]
fn round_trip_of_empty_data() {
    let chunk = Chunk::new(rust_tag(), Vec::new());
    assert_eq!(chunk.length(), 0);
    let bytes = chunk.as_bytes();
    assert_eq!(bytes.len(), 12);
    assert_eq!(&bytes[0..4], &[0, 0, 0, 0]);
    assert_eq!(&bytes[4..8], b"RuSt");
    let back = Chunk::try_from(bytes.as_slice()).unwrap();
    assert_eq!(back.length(), 0);
    assert_eq!(back.crc(), chunk.crc());
}

#[test]
fn length_counts_the_data() {
    for n in [0usize, 1, 7, 300] {
        let chunk = Chunk::new(rust_tag(), vec![0xAB; n]);
        assert_eq!(chunk.length(), n);
        assert_eq!(chunk.data().len(), n);
        assert_eq!(chunk.as_bytes().len(), n + 12);
    }
}

#[test]
fn checksum_is_deterministic() {
    let data = MESSAGE.as_bytes().to_vec();
    let a = Chunk::crc_checksum(&rust_tag(), &data);
    let b = Chunk::crc_checksum(&rust_tag(), &data);
    assert_eq!(a, b);
    assert_eq!(a, MESSAGE_CRC);
}

#[test]
fn checksum_matches_known_value() {
    // CRC-32/ISO-HDLC of "IEND" with no data, as every PNG file ends with it.
    let tag = ChunkType::from_str("IEND").unwrap();
    assert_eq!(Chunk::crc_checksum(&tag, &Vec::new()), 0xAE42_6082);
}

#[test]
fn checksum_changes_with_one_data_byte() {
    let data = MESSAGE.as_bytes().to_vec();
    let mut other = data.clone();
    other[0] ^= 1;
    assert_ne!(
        Chunk::crc_checksum(&rust_tag(), &data),
        Chunk::crc_checksum(&rust_tag(), &other)
    );
}

#[test]
fn short_buffer_is_length_error() {
    for n in 0..12usize {
        let bytes = vec![0u8; n];
        assert_eq!(Chunk::try_from(bytes.as_slice()).err(), Some(ChunkError::InvalidChunkLength));
    }
}

#[test]
fn length_field_past_the_end_is_length_error() {
    let bytes = encoded(43, b"RuSt", MESSAGE.as_bytes(), MESSAGE_CRC);
    assert_eq!(Chunk::try_from(bytes.as_slice()).err(), Some(ChunkError::InvalidChunkLength));
    let huge = encoded(u32::MAX, b"RuSt", &[], 0);
    assert_eq!(Chunk::try_from(huge.as_slice()).err(), Some(ChunkError::InvalidChunkLength));
}

#[test]
fn flipped_crc_bit_is_crc_error() {
    let bytes = encoded(42, b"RuSt", MESSAGE.as_bytes(), MESSAGE_CRC);
    for bit in 0..32u32 {
        let mut bad = bytes.clone();
        let i = 50 + (bit / 8) as usize;
        bad[i] ^= 1u8 << (bit % 8);
        let stored = u32::from_be_bytes([bad[50], bad[51], bad[52], bad[53]]);
        assert_ne!(stored, MESSAGE_CRC);
        assert_eq!(
            Chunk::try_from(bad.as_slice()).err(),
            Some(ChunkError::InvalidCrc(stored, MESSAGE_CRC))
        );
    }
}

#[test]
fn flipped_data_bit_is_crc_error() {
    let mut bad = encoded(42, b"RuSt", MESSAGE.as_bytes(), MESSAGE_CRC);
    bad[8] ^= 0x01;
    let expected = Chunk::crc_checksum(&rust_tag(), &bad[8..50].to_vec());
    assert_ne!(expected, MESSAGE_CRC);
    assert_eq!(
        Chunk::try_from(bad.as_slice()).err(),
        Some(ChunkError::InvalidCrc(MESSAGE_CRC, expected))
    );
}

#[test]
fn flipped_tag_bit_is_crc_error() {
    let mut bad = encoded(42, b"RuSt", MESSAGE.as_bytes(), MESSAGE_CRC);
    bad[5] ^= 0x20;
    let tag = ChunkType::from_str("RUSt").unwrap();
    let expected = Chunk::crc_checksum(&tag, &MESSAGE.as_bytes().to_vec());
    assert_eq!(
        Chunk::try_from(bad.as_slice()).err(),
        Some(ChunkError::InvalidCrc(MESSAGE_CRC, expected))
    );
}

#[test]
fn invalid_tag_is_tag_error() {
    let bytes = encoded(0, b"Ru5t", &[], 0);
    assert_eq!(Chunk::try_from(bytes.as_slice()).err(), Some(ChunkError::InvalidChunkType));
}

#[test]
fn scenario_rust_message() {
    let chunk = Chunk::new(rust_tag(), MESSAGE.as_bytes().to_vec());
    assert_eq!(MESSAGE.len(), 42);
    assert_eq!(chunk.length(), MESSAGE.len());
    let bytes = chunk.as_bytes();
    assert_eq!(&bytes[0..4], &42u32.to_be_bytes());
    let back = Chunk::try_from(bytes.as_slice()).unwrap();
    assert_eq!(back.chunk_type().to_string(), "RuSt");
    assert_eq!(back.data_as_string().unwrap(), MESSAGE);
    assert_eq!(back.crc(), Chunk::crc_checksum(&rust_tag(), &MESSAGE.as_bytes().to_vec()));
    assert_eq!(back.crc(), MESSAGE_CRC);
}

#[test]
fn trailing_bytes_are_ignored() {
    let exact = encoded(42, b"RuSt", MESSAGE.as_bytes(), MESSAGE_CRC);
    let mut longer = exact.clone();
    longer.extend_from_slice(&[1, 2, 3, 4, 5, 6, 7, 8, 9]);
    let a = Chunk::try_from(exact.as_slice()).unwrap();
    let b = Chunk::try_from(longer.as_slice()).unwrap();
    assert_eq!(a.as_bytes(), b.as_bytes());
    assert_eq!(b.as_bytes(), exact);
}

#[test]
fn check_crc_decides_on_the_given_values() {
    let data = vec![1u8, 2, 3];
    let ok = Chunk::check_crc(rust_tag(), data.clone(), 77, 77).unwrap();
    assert_eq!(ok.length(), 3);
    assert_eq!(ok.crc(), 77);
    let err = Chunk::check_crc(rust_tag(), data, 76, 77).err();
    assert_eq!(err, Some(ChunkError::InvalidCrc(76, 77)));
}

#[test]
fn encoding_layout_is_big_endian() {
    let chunk = Chunk::new(rust_tag(), vec![9u8; 258]);
    let bytes = chunk.as_bytes();
    assert_eq!(&bytes[0..4], &[0, 0, 1, 2]);
    assert_eq!(&bytes[4..8], b"RuSt");
    assert_eq!(&bytes[8..266], &vec![9u8; 258][..]);
    assert_eq!(&bytes[266..270], &chunk.crc().to_be_bytes());
}

#[test]
fn non_utf8_data_is_refused_as_text() {
    let chunk = Chunk::new(rust_tag(), vec![0xFF, 0xFE]);
    assert_eq!(chunk.data_as_string(), Err(InvalidUtf8));
    assert_eq!(chunk.to_string(), Err(InvalidUtf8));
}

#[test]
fn chunk_description_text() {
    let tag = ChunkType::from_str("IEND").unwrap();
    let chunk = Chunk::new(tag, Vec::new());
    assert_eq!(
        chunk.to_string().unwrap(),
        "Chunk { length: 0, chunk_type: IEND, data: , crc: 2923585666 }"
    );
}

#[test]
fn error_texts() {
    assert_eq!(ChunkError::InvalidChunkLength.to_string(), "Invalid chunk length");
    assert_eq!(ChunkError::InvalidCrc(12, 3400).to_string(), "Invalid crc 12, 3400");
    assert_eq!(ChunkError::InvalidChunkType.to_string(), "Invalid chunk type");
}

#[test]
fn tag_parsing() {
    assert_eq!(ChunkType::from_str("RuSt").unwrap().bytes(), *b"RuSt");
    assert_eq!(ChunkType::from_str("Rust!").err(), Some(ChunkTypeError::WrongLength));
    assert_eq!(ChunkType::from_str("Ru").err(), Some(ChunkTypeError::WrongLength));
    assert_eq!(ChunkType::from_str("Ru1t").err(), Some(ChunkTypeError::NotALetter));
    assert_eq!(ChunkType::from_bytes(*b"abcZ").unwrap().to_string(), "abcZ");
    assert_eq!(ChunkType::from_bytes([0, 65, 65, 65]).err(), Some(ChunkTypeError::NotALetter));
}
