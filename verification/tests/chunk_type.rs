use pna_cli::cli::value::chunk_type::{ChunkType, ChunkTypeError, ParseChunkTypeError, PrivateChunkType};

#[test]
fn from_str_valid_standard_chunk() {
    let chunk_type = ChunkType::from_str("FHED").unwrap();
    assert_eq!(chunk_type.0, *b"FHED");
}

#[test]
fn from_str_valid_private_chunk() {
    let chunk_type = ChunkType::from_str("myTy").unwrap();
    assert_eq!(chunk_type.0, *b"myTy");
}

#[test]
fn chunk_type_from_str_invalid_length() {
    assert_eq!(ChunkType::from_str("toolong").unwrap_err(), ParseChunkTypeError::InvalidLength);
    assert_eq!(ChunkType::from_str("abc").unwrap_err(), ParseChunkTypeError::InvalidLength);
}

#[test]
fn from_str_non_ascii_alphabetic() {
    assert_eq!(ChunkType::from_str("FH1D").unwrap_err(), ParseChunkTypeError::NonAsciiAlphabetic);
}

#[test]
fn chunk_type_multibyte_text_is_measured_in_bytes() {
    assert_eq!(ChunkType::from_str("é12").unwrap_err(), ParseChunkTypeError::NonAsciiAlphabetic);
    assert_eq!(
        ParseChunkTypeError::InvalidLength.to_string(),
        "chunk type must be exactly 4 ASCII characters"
    );
}

#[test]
fn from_str_valid() {
    let chunk_type = PrivateChunkType::from_str("myTy").unwrap();
    assert_eq!(chunk_type.0, ChunkType(*b"myTy"));
}

#[test]
fn private_chunk_type_from_str_invalid_length() {
    assert_eq!(PrivateChunkType::from_str("invalid").unwrap_err(), ChunkTypeError::NonPrivateChunkType);
}

#[test]
fn from_str_invalid_second_char() {
    assert_eq!(PrivateChunkType::from_str("pRIv").unwrap_err(), ChunkTypeError::NonPrivateChunkType);
}

#[test]
fn from_str_invalid_third_char() {
    assert_eq!(PrivateChunkType::from_str("rese").unwrap_err(), ChunkTypeError::Reserved);
}

#[test]
fn from_str_non_ascii() {
    assert_eq!(PrivateChunkType::from_str("zeR\0").unwrap_err(), ChunkTypeError::NonAsciiAlphabetic);
}
