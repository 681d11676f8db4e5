use pna_cli::cli::value::argon2id_params::Argon2idParams;
use pna_cli::cli::value::compression_level::{CompressionLevel, CompressionLevelInput};
use pna_cli::cli::value::pbkdf2_sha256_params::Pbkdf2Sha256Params;
use pna_cli::cli::{
    CipherAlgorithmArgs, CipherMode, Compression, CompressionAlgorithmArgs, Encryption, HashAlgorithm,
    HashAlgorithmArgs, ColorArgs, ColorChoice, FileArgsCompat, GlobalArgs, GlobalContext, LevelFilter, LogLevel,
    SolidEntriesTransformStrategy, SolidEntriesTransformStrategyArgs, VerbosityArgs,
};

#[test]
fn context_captures_umask() {
    let args = GlobalArgs::default();
    let ctx = GlobalContext::new(args);
    assert!(ctx.umask().apply(0o777) <= 0o777);
}

#[test]
fn context_delegates_to_global_args() {
    let args = GlobalArgs {
        unstable: true,
        ..Default::default()
    };
    let ctx = GlobalContext::new(args);
    assert!(ctx.unstable());
}

#[test]
fn context_delegates_color_to_global_args() {
    let args = GlobalArgs {
        color: ColorArgs {
            color: ColorChoice::Never,
        },
        ..Default::default()
    };
    let ctx = GlobalContext::new(args);
    assert_eq!(ctx.color(), ColorChoice::Never);
}

#[test]
fn is_root_returns_consistent_result() {
    let args = GlobalArgs::default();
    let ctx1 = GlobalContext::new(args.clone());
    let ctx2 = GlobalContext::new(args);
    assert_eq!(ctx1.is_root(), ctx2.is_root());
}

#[test]
fn verbosity_picks_the_filter() {
    let quiet = VerbosityArgs { quiet: true, verbose: false, log_level: LogLevel::Trace };
    assert_eq!(quiet.log_level_filter(), LevelFilter::Off);
    let verbose = VerbosityArgs { quiet: false, verbose: true, log_level: LogLevel::Error };
    assert_eq!(verbose.log_level_filter(), LevelFilter::Debug);
    assert_eq!(VerbosityArgs::default().log_level_filter(), LevelFilter::Warn);
}

#[test]
fn positional_archive_becomes_a_file_when_file_is_given() {
    let args = FileArgsCompat {
        file: Some("a.pna".into()),
        archive: Some("x.txt".into()),
        files: vec!["y.txt".into()],
    };
    assert_eq!(args.archive(), "a.pna");
    assert_eq!(args.files(), vec!["x.txt".to_string(), "y.txt".to_string()]);
    let old = FileArgsCompat { file: None, archive: Some("b.pna".into()), files: vec!["z".into()] };
    assert_eq!(old.archive(), "b.pna");
    assert_eq!(old.files(), vec!["z".to_string()]);
}

#[test]
fn solid_entries_strategy() {
    let unsolid = SolidEntriesTransformStrategyArgs { unsolid: true, keep_solid: false };
    assert_eq!(unsolid.strategy(), SolidEntriesTransformStrategy::UnSolid);
    assert_eq!(
        SolidEntriesTransformStrategyArgs::default().strategy(),
        SolidEntriesTransformStrategy::KeepSolid
    );
}


#[test]
fn compression_choice_and_level() {
    let none = CompressionAlgorithmArgs { store: false, deflate: None, zstd: None, xz: None };
    assert_eq!(none.algorithm(), (Compression::ZStandard, None));
    let store = CompressionAlgorithmArgs { store: true, ..none };
    assert_eq!(store.algorithm(), (Compression::No, None));
    let xz = CompressionAlgorithmArgs { xz: Some(Some(CompressionLevelInput::Numeric(6))), ..none };
    assert_eq!(xz.algorithm(), (Compression::XZ, Some(CompressionLevel::Level(6))));
    let deflate = CompressionAlgorithmArgs { deflate: Some(Some(CompressionLevelInput::Max)), ..none };
    assert_eq!(deflate.algorithm(), (Compression::Deflate, Some(CompressionLevel::Max)));
    let zstd = CompressionAlgorithmArgs { zstd: Some(None), ..none };
    assert_eq!(zstd.algorithm(), (Compression::ZStandard, None));
}

#[test]
fn cipher_choice_and_mode() {
    let none = CipherAlgorithmArgs { aes: None, camellia: None };
    assert_eq!(none.algorithm(), Encryption::Aes);
    assert_eq!(none.mode(), CipherMode::Ctr);
    let camellia = CipherAlgorithmArgs { aes: None, camellia: Some(Some(CipherMode::Cbc)) };
    assert_eq!(camellia.algorithm(), Encryption::Camellia);
    assert_eq!(camellia.mode(), CipherMode::Cbc);
    let aes = CipherAlgorithmArgs { aes: Some(None), camellia: None };
    assert_eq!(aes.mode(), CipherMode::Ctr);
}

#[test]
fn hash_choice_and_parameters() {
    let none = HashAlgorithmArgs { argon2: None, pbkdf2: None };
    assert_eq!(none.algorithm(), HashAlgorithm::Argon2id { time: None, memory: None, parallelism: None });
    let pbkdf2 = HashAlgorithmArgs { argon2: None, pbkdf2: Some(Some(Pbkdf2Sha256Params::from_str("r=1000").unwrap())) };
    assert_eq!(pbkdf2.algorithm(), HashAlgorithm::Pbkdf2Sha256 { rounds: Some(1000) });
    let argon2 = HashAlgorithmArgs {
        argon2: Some(Some(Argon2idParams::from_str("t=2,m=512").unwrap())),
        pbkdf2: None,
    };
    assert_eq!(
        argon2.algorithm(),
        HashAlgorithm::Argon2id { time: Some(2), memory: Some(512), parallelism: None }
    );
}

#[test]
fn umask_bits_keep_the_permission_bits() {
    assert_eq!(pna_cli::cli::umask_bits(0o022), 0o022);
    assert_eq!(pna_cli::cli::umask_bits(0o170777), 0o777);
    assert!(pna_cli::cli::current_umask() <= 0o7777);
}
