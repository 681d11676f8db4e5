use pna_cli::cli::value::compression_level::{DeflateLevel, XzLevel, ZstdLevel};
use pna_cli::cli::value::options::{parse_global_compression_level, ArchiveOptions, CompressionLevel};

#[test]
fn global_compression_level() {
    let opts = ArchiveOptions::from_str("compression-level=9").unwrap();
    assert_eq!(opts.compression_level, Some(CompressionLevel::Level(9)));
    assert_eq!(opts.zstd_compression_level, None);
}

#[test]
fn parse_module_specific_compression_level() {
    let opts = ArchiveOptions::from_str("zstd:compression-level=15").unwrap();
    assert_eq!(opts.compression_level, None);
    assert_eq!(
        opts.zstd_compression_level,
        Some(ZstdLevel::Numeric(15.try_into().unwrap()))
    );
}

#[test]
fn parse_multiple_options() {
    let opts =
        ArchiveOptions::from_str("compression-level=5,zstd:compression-level=10").unwrap();
    assert_eq!(opts.compression_level, Some(CompressionLevel::Level(5)));
    assert_eq!(
        opts.zstd_compression_level,
        Some(ZstdLevel::Numeric(10.try_into().unwrap()))
    );
}

#[test]
fn parse_min_max_keywords() {
    let opts = ArchiveOptions::from_str("compression-level=min").unwrap();
    assert_eq!(opts.compression_level, Some(CompressionLevel::Min));

    let opts = ArchiveOptions::from_str("xz:compression-level=MAX").unwrap();
    assert_eq!(opts.xz_compression_level, Some(XzLevel::Max));
}

#[test]
fn parse_all_modules() {
    let opts = ArchiveOptions::from_str(
        "deflate:compression-level=6,zstd:compression-level=15,xz:compression-level=9",
    )
    .unwrap();
    assert_eq!(
        opts.deflate_compression_level,
        Some(DeflateLevel::Numeric(6.try_into().unwrap()))
    );
    assert_eq!(
        opts.zstd_compression_level,
        Some(ZstdLevel::Numeric(15.try_into().unwrap()))
    );
    assert_eq!(
        opts.xz_compression_level,
        Some(XzLevel::Numeric(9.try_into().unwrap()))
    );
}

#[test]
fn parse_empty_string() {
    let opts = ArchiveOptions::from_str("").unwrap();
    assert_eq!(opts, ArchiveOptions::default());
}

#[test]
fn parse_whitespace_handling() {
    let opts =
        ArchiveOptions::from_str(" compression-level=9 , zstd:compression-level=15 ").unwrap();
    assert_eq!(opts.compression_level, Some(CompressionLevel::Level(9)));
    assert_eq!(
        opts.zstd_compression_level,
        Some(ZstdLevel::Numeric(15.try_into().unwrap()))
    );
}

#[test]
fn error_unknown_option() {
    assert!(ArchiveOptions::from_str("unknown=value").is_err());
}

#[test]
fn error_unknown_module() {
    assert!(ArchiveOptions::from_str("lzma:compression-level=5").is_err());
}

#[test]
fn error_unknown_module_key() {
    assert!(ArchiveOptions::from_str("zstd:unknown=5").is_err());
}

#[test]
fn error_invalid_format_no_value() {
    assert!(ArchiveOptions::from_str("compression-level").is_err());
}

#[test]
fn error_invalid_level_value() {
    assert!(ArchiveOptions::from_str("compression-level=abc").is_err());
}

#[test]
fn parse_global_compression_level_max() {
    let opts = ArchiveOptions::from_str("compression-level=max").unwrap();
    assert_eq!(opts.compression_level, Some(CompressionLevel::Max));

    let opts = ArchiveOptions::from_str("compression-level=MAX").unwrap();
    assert_eq!(opts.compression_level, Some(CompressionLevel::Max));
}

#[test]
fn module_prefix_routes_to_correct_field() {
    let opts = ArchiveOptions::from_str("deflate:compression-level=5").unwrap();
    assert!(opts.deflate_compression_level.is_some());
    assert!(opts.zstd_compression_level.is_none());
    assert!(opts.xz_compression_level.is_none());

    let opts = ArchiveOptions::from_str("zstd:compression-level=10").unwrap();
    assert!(opts.deflate_compression_level.is_none());
    assert!(opts.zstd_compression_level.is_some());
    assert!(opts.xz_compression_level.is_none());
}

#[test]
fn error_propagates_with_module_context() {
    let err = ArchiveOptions::from_str("deflate:compression-level=invalid").unwrap_err();
    assert!(err.contains("deflate:compression-level:"));
}

#[test]
fn duplicate_option_last_wins() {
    let opts = ArchiveOptions::from_str("compression-level=5,compression-level=9").unwrap();
    assert_eq!(opts.compression_level, Some(CompressionLevel::Level(9)));
}

#[test]
fn options_error_messages() {
    assert_eq!(
        ArchiveOptions::from_str("compression-level").unwrap_err(),
        "Invalid option format `compression-level`, expected key=value"
    );
    assert_eq!(ArchiveOptions::from_str("zstd:unknown=5").unwrap_err(), "Unknown option `zstd:unknown`");
    assert_eq!(ArchiveOptions::from_str(" foo =1").unwrap_err(), "Unknown option `foo `");
    assert_eq!(
        ArchiveOptions::from_str("xz:compression-level=12").unwrap_err(),
        "xz:compression-level: 12 is not in 0..=9"
    );
    assert_eq!(
        ArchiveOptions::from_str("compression-level=300").unwrap_err(),
        "number too large to fit in target type"
    );
    assert_eq!(parse_global_compression_level("Min"), Ok(CompressionLevel::Min));
    assert_eq!(parse_global_compression_level("7"), Ok(CompressionLevel::Level(7)));
}
