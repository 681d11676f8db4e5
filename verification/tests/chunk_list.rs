use pna_cli::cli::value::chunk_type::ChunkType;
use pna_cli::command::chunk::{body_text, chunk_rows, column_names, offset_text, ChunkInfo, ChunkRow};

fn ty(s: &str) -> ChunkType {
    ChunkType::from_str(s).unwrap()
}

fn sample() -> Vec<ChunkInfo> {
    vec![
        ChunkInfo { ty: ty("AHED"), length: 8 },
        ChunkInfo { ty: ty("FHED"), length: 20 },
        ChunkInfo { ty: ty("FDAT"), length: 100 },
        ChunkInfo { ty: ty("FEND"), length: 0 },
        ChunkInfo { ty: ty("AEND"), length: 0 },
    ]
}

#[test]
fn every_chunk_is_listed_with_running_offsets() {
    let rows = chunk_rows(&sample(), &[], &[]);
    let offsets: Vec<u64> = rows.iter().map(|r| r.offset).collect();
    assert_eq!(offsets, vec![8, 28, 60, 172, 184]);
    let indices: Vec<u64> = rows.iter().map(|r| r.index).collect();
    assert_eq!(indices, vec![1, 2, 3, 4, 5]);
}

#[test]
fn wanted_and_excluded_types_filter_rows_but_keep_places() {
    let rows = chunk_rows(&sample(), &[ty("FDAT"), ty("FEND")], &[ty("FEND")]);
    assert_eq!(
        rows,
        vec![ChunkRow { index: 3, ty: ty("FDAT"), length: 100, offset: 60 }]
    );
    let rows = chunk_rows(&sample(), &[], &[ty("AHED"), ty("AEND")]);
    let indices: Vec<u64> = rows.iter().map(|r| r.index).collect();
    assert_eq!(indices, vec![2, 3, 4]);
}

#[test]
fn offsets_are_written_with_four_hex_digits_at_least() {
    assert_eq!(offset_text(8), "0x0008");
    assert_eq!(offset_text(0), "0x0000");
    assert_eq!(offset_text(0xabcd), "0xabcd");
    assert_eq!(offset_text(0x12345), "0x12345");
    assert_eq!(offset_text(8), format!("{:#06x}", 8));
    assert_eq!(offset_text(0x1f2e3), format!("{:#06x}", 0x1f2e3));
}

#[test]
fn bodies_are_text_or_hex() {
    assert_eq!(body_text(b"hello"), "hello");
    assert_eq!(body_text(&[0xff, 0x01, 0xa0]), "0xff01a0");
    assert_eq!(body_text(&[]), "");
}

#[test]
fn long_listing_adds_a_body_column() {
    assert_eq!(column_names(false), vec!["Index", "Type", "Size", "Offset"]);
    assert_eq!(column_names(true), vec!["Index", "Type", "Size", "Offset", "Body"]);
}
