use pna_cli::cli::value::argon2id_params::Argon2idParams;
use pna_cli::cli::value::missing_time_policy::MissingTimePolicy;
use pna_cli::cli::value::datetime::{epoch_from_nanos, epoch_to_string, epoch_to_system_time, DateTime, DateTimeError, DateTimeValue};
use pna_cli::time::Timestamp;
use pna_cli::cli::value::compression_level::{
    DeflateLevel, ParseCompressionLevelError, XzLevel, ZstdLevel,
};
use pna_cli::cli::value::name_id_pair::{NameIdPair, NameIdParseError};
use pna_cli::cli::value::pbkdf2_sha256_params::Pbkdf2Sha256Params;
use pna_cli::text::IntErrorKind;

#[test]
fn parse_argon2id_params() {
    assert_eq!(
        Argon2idParams::from_str("t=1,m=2,p=3"),
        Ok(Argon2idParams {
            time: Some(1),
            memory: Some(2),
            parallelism: Some(3),
        })
    );
    assert_eq!(
        Argon2idParams::from_str("t=1,p=3"),
        Ok(Argon2idParams {
            time: Some(1),
            memory: None,
            parallelism: Some(3),
        })
    );
}

#[test]
fn parse_argon2id_empty_params() {
    assert!(Argon2idParams::from_str("").is_err());
}

#[test]
fn parse_argon2id_unknown_parms() {
    assert!(Argon2idParams::from_str("a=1").is_err());
    assert!(Argon2idParams::from_str("t=1,a=1").is_err());
}

#[test]
fn parse_argon2id_invalid_parms() {
    assert!(Argon2idParams::from_str("t").is_err());
    assert!(Argon2idParams::from_str("t=").is_err());
    assert!(Argon2idParams::from_str(",").is_err());
    assert!(Argon2idParams::from_str("t=1,").is_err());
    assert!(Argon2idParams::from_str("t=x").is_err());
    assert!(Argon2idParams::from_str("m=x").is_err());
    assert!(Argon2idParams::from_str("p=x").is_err());
}

#[test]
fn parse_pbkdf2_sha256_params() {
    assert_eq!(
        Pbkdf2Sha256Params::from_str("r=1"),
        Ok(Pbkdf2Sha256Params { rounds: Some(1) })
    );
}

#[test]
fn parse_pbkdf2_sha256_empty_params() {
    assert!(Pbkdf2Sha256Params::from_str("").is_err());
}

#[test]
fn parse_pbkdf2_sha256_unknown_params() {
    assert!(Pbkdf2Sha256Params::from_str("a=1").is_err());
    assert!(Pbkdf2Sha256Params::from_str("r=1,a=1").is_err());
}

#[test]
fn parse_pbkdf2_sha256_invalid_params() {
    assert!(Pbkdf2Sha256Params::from_str("r").is_err());
    assert!(Pbkdf2Sha256Params::from_str("r=").is_err());
    assert!(Pbkdf2Sha256Params::from_str(",").is_err());
    assert!(Pbkdf2Sha256Params::from_str("r=1,").is_err());
    assert!(Pbkdf2Sha256Params::from_str("r=x").is_err());
}

#[test]
fn parse_min() {
    assert_eq!(DeflateLevel::from_str("min").unwrap(), DeflateLevel::Min);
    assert_eq!(ZstdLevel::from_str("MIN").unwrap(), ZstdLevel::Min);
    assert_eq!(XzLevel::from_str("Min").unwrap(), XzLevel::Min);
}

#[test]
fn parse_max() {
    assert_eq!(DeflateLevel::from_str("max").unwrap(), DeflateLevel::Max);
    assert_eq!(ZstdLevel::from_str("MAX").unwrap(), ZstdLevel::Max);
    assert_eq!(XzLevel::from_str("Max").unwrap(), XzLevel::Max);
}

#[test]
fn deflate_range() {
    assert!(DeflateLevel::from_str("0").is_err());
    assert_eq!(
        DeflateLevel::from_str("1").unwrap(),
        DeflateLevel::Numeric(1)
    );
    assert_eq!(
        DeflateLevel::from_str("9").unwrap(),
        DeflateLevel::Numeric(9)
    );
    assert!(DeflateLevel::from_str("10").is_err());
}

#[test]
fn zstd_range() {
    assert!(ZstdLevel::from_str("0").is_err());
    assert_eq!(ZstdLevel::from_str("1").unwrap(), ZstdLevel::Numeric(1));
    assert_eq!(ZstdLevel::from_str("21").unwrap(), ZstdLevel::Numeric(21));
    assert!(ZstdLevel::from_str("22").is_err());
}

#[test]
fn xz_range() {
    assert_eq!(XzLevel::from_str("0").unwrap(), XzLevel::Numeric(0));
    assert_eq!(XzLevel::from_str("9").unwrap(), XzLevel::Numeric(9));
    assert!(XzLevel::from_str("10").is_err());
}

#[test]
fn compression_level_parse_invalid() {
    assert!(DeflateLevel::from_str("invalid").is_err());
    assert!(ZstdLevel::from_str("-1").is_err());
    assert!(XzLevel::from_str("256").is_err());
}

#[test]
fn parse_name_only() {
    let parsed = NameIdPair::from_str("alice").unwrap();
    assert_eq!(parsed.name.as_deref(), Some("alice"));
    assert_eq!(parsed.id, None);
}

#[test]
fn parse_id_only() {
    let parsed = NameIdPair::from_str("1000").unwrap();
    assert_eq!(parsed.name, None);
    assert_eq!(parsed.id, Some(1000));
}

#[test]
fn parse_name_and_id() {
    let parsed = NameIdPair::from_str("alice:1000").unwrap();
    assert_eq!(parsed.name.as_deref(), Some("alice"));
    assert_eq!(parsed.id, Some(1000));
}

#[test]
fn parse_empty_name_with_id() {
    let parsed = NameIdPair::from_str(":1000").unwrap();
    assert_eq!(parsed.name, None);
    assert_eq!(parsed.id, Some(1000));
}

#[test]
fn argon2id_error_messages() {
    assert_eq!(Argon2idParams::from_str("a=1"), Err("Unknown parameter `a=1`".to_string()));
    assert_eq!(Argon2idParams::from_str(""), Err("Unknown parameter ``".to_string()));
    assert_eq!(
        Argon2idParams::from_str("t=x"),
        Err("invalid digit found in string".to_string())
    );
    assert_eq!(
        Argon2idParams::from_str("m=4294967296"),
        Err("number too large to fit in target type".to_string())
    );
    assert_eq!(
        Argon2idParams::from_str("t="),
        Err("cannot parse integer from empty string".to_string())
    );
    assert_eq!(
        Argon2idParams::from_str("t=1,t=+7"),
        Ok(Argon2idParams { time: Some(7), memory: None, parallelism: None })
    );
}

#[test]
fn pbkdf2_error_messages() {
    assert_eq!(Pbkdf2Sha256Params::from_str("r"), Err("Unknown parameter `r`".to_string()));
    assert_eq!(
        Pbkdf2Sha256Params::from_str("r=4294967295"),
        Ok(Pbkdf2Sha256Params { rounds: Some(4294967295) })
    );
}

#[test]
fn compression_level_errors() {
    assert_eq!(
        DeflateLevel::from_str("10"),
        Err(ParseCompressionLevelError::OutOfRange { value: 10, min: 1, max: 9 })
    );
    assert_eq!(
        XzLevel::from_str("256"),
        Err(ParseCompressionLevelError::ParseInt(IntErrorKind::PosOverflow))
    );
    assert_eq!(
        ZstdLevel::from_str(""),
        Err(ParseCompressionLevelError::ParseInt(IntErrorKind::Empty))
    );
    assert_eq!(ZstdLevel::from_str("mAx").unwrap(), ZstdLevel::Max);
}

#[test]
fn name_id_pair_errors() {
    assert_eq!(NameIdPair::from_str(""), Err(NameIdParseError::Empty));
    assert_eq!(NameIdPair::from_str(":"), Err(NameIdParseError::Empty));
    assert_eq!(
        NameIdPair::from_str("alice:x"),
        Err(NameIdParseError::InvalidId(IntErrorKind::InvalidDigit))
    );
    assert_eq!(
        NameIdParseError::InvalidId(IntErrorKind::InvalidDigit).to_string(),
        "invalid id: invalid digit found in string"
    );
    assert_eq!(NameIdParseError::Empty.to_string(), "name or id must be provided");
    let parsed = NameIdPair::from_str("alice:").unwrap();
    assert_eq!(parsed.name.as_deref(), Some("alice"));
    assert_eq!(parsed.id, None);
    let parsed = NameIdPair::from_str("4294967296").unwrap();
    assert_eq!(parsed.name.as_deref(), Some("4294967296"));
    assert_eq!(parsed.id, None);
}

#[test]
fn parse_include() {
    let policy = MissingTimePolicy::from_str("include").unwrap();
    assert!(matches!(policy, MissingTimePolicy::Include));
}

#[test]
fn parse_exclude() {
    let policy = MissingTimePolicy::from_str("exclude").unwrap();
    assert!(matches!(policy, MissingTimePolicy::Exclude));
}

#[test]
fn parse_now() {
    let before = Timestamp::now().unwrap();
    let policy = MissingTimePolicy::from_str("now").unwrap();
    let after = Timestamp::now().unwrap();
    match policy {
        MissingTimePolicy::Assume(t) => {
            assert!(!t.is_before(&before) && !t.is_after(&after));
        }
        _ => panic!("expected Assume"),
    }
}

#[test]
fn parse_epoch() {
    let policy = MissingTimePolicy::from_str("epoch").unwrap();
    match policy {
        MissingTimePolicy::Assume(t) => assert_eq!(t, Timestamp::unix_epoch()),
        _ => panic!("expected Assume"),
    }
}

#[test]
fn parse_iso8601_datetime() {
    let policy = MissingTimePolicy::from_str("2024-03-20T12:00:00").unwrap();
    assert!(matches!(policy, MissingTimePolicy::Assume(_)));
}

#[test]
fn parse_epoch_format() {
    let policy = MissingTimePolicy::from_str("@1234567890").unwrap();
    assert!(matches!(policy, MissingTimePolicy::Assume(_)));
    match policy {
        MissingTimePolicy::Assume(t) => {
            assert_eq!(t, Timestamp::from_unix_secs(1234567890));
        }
        _ => panic!("expected Assume"),
    }
}

#[test]
fn missing_time_policy_parse_invalid() {
    assert!(MissingTimePolicy::from_str("???").is_err());
}

#[test]
fn missing_time_policy_shows_keywords() {
    assert_eq!(MissingTimePolicy::Include.to_string(), "include");
    assert_eq!(MissingTimePolicy::Exclude.to_string(), "exclude");
    assert_eq!(MissingTimePolicy::Assume(Timestamp::unix_epoch()).to_string(), "<datetime>");
}

#[test]
fn epoch_values_and_ranges() {
    assert_eq!(epoch_from_nanos(-1_500_000_000), Some((-2, 500_000_000)));
    assert_eq!(epoch_from_nanos(1_000_000_000), Some((1, 0)));
    assert_eq!(epoch_from_nanos(i128::MAX), None);
    assert_eq!(epoch_to_system_time(0, 0), Some(Timestamp::unix_epoch()));
    assert_eq!(epoch_to_system_time(i64::MAX, 1_000_000_000), None);
    assert!(epoch_to_system_time(i64::MIN, 0).is_some());
    let d = DateTime::from_str("@-1.5").unwrap();
    assert_eq!(d.epoch_components(), (-2, 500_000_000));
    let d = DateTime::from_str("@12.").unwrap();
    assert_eq!(d.epoch_components(), (12, 0));
    let d = DateTime::from_str("2024-03-20T12:34:56Z").unwrap();
    assert_eq!(d.to_system_time(), Timestamp::from_unix_secs(1710938096));
    assert!(matches!(DateTime::from_str("invalid-datetime"), Err(DateTimeError::ParseDateTime(_))));
}

#[test]
fn test_datetime_parse_valid() {
    let valid_dt = "2024-03-20T12:34:56";
    let datetime = DateTime::from_str(valid_dt).unwrap();
    assert_eq!(datetime.to_string(), "2024-03-20 12:34:56");
}

#[test]
fn test_datetime_parse_with_timezone() {
    let zoned_dt = "2024-03-20T12:34:56+09:00";
    let datetime = DateTime::from_str(zoned_dt).unwrap();
    assert_eq!(datetime.to_string(), "2024-03-20T12:34:56+09:00[+09:00]");
    let zoned_dt = "2024-03-20T12:34:56Z";
    let datetime = DateTime::from_str(zoned_dt).unwrap();
    assert_eq!(datetime.to_string(), "2024-03-20T12:34:56+00:00[UTC]");
}

#[test]
fn test_datetime_parse_invalid() {
    let invalid_dt = "invalid-datetime";
    assert!(DateTime::from_str(invalid_dt).is_err());
}

#[test]
fn test_to_system_time_after_epoch() {
    let positive_dt = "2024-03-20T12:34:56Z";
    let datetime = DateTime::from_str(positive_dt).unwrap();
    let system_time = datetime.to_system_time();
    assert!(system_time.is_after(&Timestamp::unix_epoch()));
}

#[test]
fn test_to_system_time_before_epoch() {
    let negative_dt = "1969-12-31T23:59:59Z";
    let datetime = DateTime::from_str(negative_dt).unwrap();
    let system_time = datetime.to_system_time();
    assert!(system_time.is_before(&Timestamp::unix_epoch()));
}

#[test]
fn test_relative_time_format_positive() {
    let datetime = DateTime::from_str("@1234567890").unwrap();
    assert_eq!(datetime.to_string(), "@1234567890.000000000");
}

#[test]
fn test_relative_time_format_negative() {
    let datetime = DateTime::from_str("@-1234567890").unwrap();
    assert_eq!(datetime.to_string(), "@-1234567890.000000000");
}

#[test]
fn test_relative_time_format_tailing_decimal_dot() {
    let datetime = DateTime::from_str("@123.").unwrap();
    assert_eq!(datetime.to_string(), "@123.000000000");
}

#[test]
fn test_relative_time_format_decimal_dot_zeros() {
    let datetime = DateTime::from_str("@123.0").unwrap();
    assert_eq!(datetime.to_string(), "@123.000000000");
}

#[test]
fn test_relative_time_format_decimal_dot_zero_one() {
    let datetime = DateTime::from_str("@123.01").unwrap();
    assert_eq!(datetime.to_string(), "@123.010000000");
}

#[test]
fn test_relative_time_format_decimal_dot() {
    let datetime = DateTime::from_str("@123.456").unwrap();
    assert_eq!(datetime.to_string(), "@123.456000000");
}

#[test]
fn test_relative_time_format_decimal_comma() {
    let datetime = DateTime::from_str("@123,456").unwrap();
    assert_eq!(datetime.to_string(), "@123.456000000");
}

#[test]
fn test_relative_time_format_negative_decimal_dot() {
    let datetime = DateTime::from_str("@-123.456").unwrap();
    assert_eq!(datetime.to_string(), "@-123.456000000");
}

#[test]
fn test_relative_time_format_negative_decimal_comma() {
    let datetime = DateTime::from_str("@-123,456").unwrap();
    assert_eq!(datetime.to_string(), "@-123.456000000");
}

#[test]
fn test_relative_time_format_zero() {
    let datetime = DateTime::from_str("@0").unwrap();
    assert_eq!(datetime.to_string(), "@0.000000000");
}

#[test]
fn test_relative_time_format_negative_one() {
    let datetime = DateTime::from_str("@-1").unwrap();
    assert_eq!(datetime.to_string(), "@-1.000000000");
}

#[test]
fn test_relative_time_format_negative_subsecond() {
    let datetime = DateTime::from_str("@-0.5").unwrap();
    assert_eq!(datetime.to_string(), "@-0.500000000");
}

#[test]
fn test_datetime_parse_and_display_date() {
    let datetime = DateTime::from_str("2024-04-01").unwrap();
    assert_eq!(datetime.to_string(), "2024-04-01");
}

#[test]
fn test_to_system_time_epoch() {
    let datetime = DateTime::from_str("@1234567890").unwrap();
    let system_time = datetime.to_system_time();
    assert!(system_time.is_after(&Timestamp::unix_epoch()));
}

#[test]
fn test_to_system_time_epoch_negative_subsecond() {
    let dt = DateTime::from_str("@-0.5").unwrap();
    assert_eq!(dt.to_system_time(), Timestamp::from_unix_nanos(-500_000_000).unwrap());
}

#[test]
fn test_to_system_time_epoch_negative_with_fraction() {
    let dt = DateTime::from_str("@-1.5").unwrap();
    assert_eq!(dt.to_system_time(), Timestamp::from_unix_nanos(-1_500_000_000).unwrap());
}

#[test]
fn test_to_system_time_epoch_negative_multi_second_fraction() {
    let dt = DateTime::from_str("@-123.456").unwrap();
    assert_eq!(dt.to_system_time(), Timestamp::from_unix_nanos(-123_456_000_000).unwrap());
}

#[test]
fn test_epoch_extreme_values_rejected() {
    assert!(matches!(DateTime::from_str("@9223372036854775807"), Err(DateTimeError::ParseDateTime(_))));
    assert!(matches!(DateTime::from_str("@-9223372036854775808"), Err(DateTimeError::ParseDateTime(_))));
}

#[test]
fn test_extreme_naive_accepted_on_unix() {
    let dt = DateTime::from_str("+200000-01-01T00:00:00").unwrap();
    assert!(dt.to_system_time().is_after(&Timestamp::unix_epoch()));
}

#[test]
fn epoch_text_pads_the_fraction_to_nine_digits() {
    assert_eq!(epoch_to_string(5, 7), "@5.000000007");
    assert_eq!(epoch_to_string(-1, 999_999_999), "@-0.000000001");
    assert_eq!(epoch_to_string(-3, 0), "@-3.000000000");
}

#[test]
fn test_to_system_time_naive() {
    let datetime = DateTime::from_str("2024-04-01T12:00:00").unwrap();
    let system_time = datetime.to_system_time();
    assert!(system_time.is_after(&Timestamp::unix_epoch()));
    assert_eq!(datetime.value(), &DateTimeValue::Naive("2024-04-01 12:00:00".to_string()));
}

#[test]
fn test_to_system_time_date() {
    let datetime = DateTime::from_str("2024-04-01").unwrap();
    let system_time = datetime.to_system_time();
    assert!(system_time.is_after(&Timestamp::unix_epoch()));
    assert_eq!(system_time, Timestamp::from_unix_secs(1_711_929_600));
}

#[test]
fn missing_time_policy_assumes_the_instant_of_the_text() {
    assert_eq!(
        MissingTimePolicy::from_str("@5").unwrap(),
        MissingTimePolicy::Assume(Timestamp::from_unix_secs(5))
    );
    assert_eq!(
        MissingTimePolicy::from_str("2024-04-01").unwrap(),
        MissingTimePolicy::Assume(Timestamp::from_unix_secs(1_711_929_600))
    );
}

#[test]
fn argon2id_last_value_of_a_key_wins() {
    let p = Argon2idParams::from_str("t=1,t=5,m=2").unwrap();
    assert_eq!(p, Argon2idParams { time: Some(5), memory: Some(2), parallelism: None });
    assert!(Argon2idParams::from_str("t=1,x=2").is_err());
}
