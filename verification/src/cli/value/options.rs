//! The `--options` argument: bsdtar-style `key=value` and
//! `module:key=value` settings, separated by commas.
use vstd::prelude::*;
use crate::cli::value::compression_level::{
    level_error_text, level_input_of, CompressionLevelInput, DeflateLevel, XzLevel, ZstdLevel,
};
pub use crate::cli::value::compression_level::CompressionLevel;
use crate::text::{
    chars_eq_ignore_ascii_case, chars_of, eq_ignore_ascii_case, int_error_message, int_error_to_string,
    parse_unsigned, parse_unsigned_spec, push_all, push_str, split_chars, split_on, split_once,
    split_once_chars, string_from_chars, trim_chars, trimmed, word_is, IntErrorKind,
};

verus! {

/// The settings of an `--options` argument; each is absent where it was
/// not given.
#[derive(Clone, Copy, Debug, PartialEq, Eq)]
pub struct ArchiveOptions {
    /// Compression level for any algorithm.
    pub compression_level: Option<CompressionLevel>,
    /// Deflate's compression level.
    pub deflate_compression_level: Option<DeflateLevel>,
    /// Zstandard's compression level.
    pub zstd_compression_level: Option<ZstdLevel>,
    /// Xz's compression level.
    pub xz_compression_level: Option<XzLevel>,
}

/// No setting given.
pub open spec fn no_options() -> ArchiveOptions {
    ArchiveOptions {
        compression_level: None,
        deflate_compression_level: None,
        zstd_compression_level: None,
        xz_compression_level: None,
    }
}

impl Default for ArchiveOptions {
    fn default() -> (r: Self)
        ensures
            r == no_options(),
    {
        ArchiveOptions {
            compression_level: None,
            deflate_compression_level: None,
            zstd_compression_level: None,
            xz_compression_level: None,
        }
    }
}

/// What the value of `compression-level` reads as: `min` or `max` in any
/// ASCII case, else a `u8`; the integer error's message where it is none.
pub open spec fn global_level_of(s: Seq<char>) -> Result<CompressionLevel, Seq<char>> {
    if eq_ignore_ascii_case(s, "min"@) {
        Ok(CompressionLevel::Min)
    } else if eq_ignore_ascii_case(s, "max"@) {
        Ok(CompressionLevel::Max)
    } else {
        match parse_unsigned_spec(s, 10, u8::MAX as nat) {
            Ok(n) => Ok(CompressionLevel::Level(n as u8)),
            Err(k) => Err(int_error_message(k)),
        }
    }
}

/// Reads the value of `compression-level`, `global_level_of` says how.
pub fn parse_global_compression_level(s: &str) -> (r: Result<CompressionLevel, String>)
    ensures
        match r {
            Ok(l) => global_level_of(s@) == Ok::<CompressionLevel, Seq<char>>(l),
            Err(e) => global_level_of(s@) == Err::<CompressionLevel, Seq<char>>(e@),
        },
{
    let cs = chars_of(s);
    if chars_eq_ignore_ascii_case(cs.as_slice(), "min") {
        Ok(CompressionLevel::Min)
    } else if chars_eq_ignore_ascii_case(cs.as_slice(), "max") {
        Ok(CompressionLevel::Max)
    } else {
        match parse_unsigned(cs.as_slice(), 10, 0xff) {
            Ok(v) => {
                proof {
                    crate::text::lemma_parse_digits_bound(s@, 10, u8::MAX as nat);
                    if s@.len() > 0 {
                        crate::text::lemma_parse_digits_bound(s@.drop_first(), 10, u8::MAX as nat);
                    }
                }
                Ok(CompressionLevel::Level(v as u8))
            },
            Err(k) => Err(int_error_to_string(k)),
        }
    }
}

/// The settings after one comma-separated parameter (white space around it
/// ignored, an empty one skipped), or the message of why it is refused.
pub open spec fn option_step(acc: ArchiveOptions, param: Seq<char>) -> Result<ArchiveOptions, Seq<char>> {
    let p = trimmed(param);
    if p.len() == 0 {
        Ok(acc)
    } else {
        match split_once(p, '=') {
            None => Err("Invalid option format `"@ + p + "`, expected key=value"@),
            Some((left, value)) => match split_once(left, ':') {
                Some((module, key)) => if module == "deflate"@ && key == "compression-level"@ {
                    match level_input_of::<1, 9>(value) {
                        Ok(l) => Ok(ArchiveOptions { deflate_compression_level: Some(l), ..acc }),
                        Err(e) => Err("deflate:compression-level: "@ + level_error_text(e)),
                    }
                } else if module == "zstd"@ && key == "compression-level"@ {
                    match level_input_of::<1, 21>(value) {
                        Ok(l) => Ok(ArchiveOptions { zstd_compression_level: Some(l), ..acc }),
                        Err(e) => Err("zstd:compression-level: "@ + level_error_text(e)),
                    }
                } else if module == "xz"@ && key == "compression-level"@ {
                    match level_input_of::<0, 9>(value) {
                        Ok(l) => Ok(ArchiveOptions { xz_compression_level: Some(l), ..acc }),
                        Err(e) => Err("xz:compression-level: "@ + level_error_text(e)),
                    }
                } else {
                    Err("Unknown option `"@ + module + ":"@ + key + "`"@)
                },
                None => if left == "compression-level"@ {
                    match global_level_of(value) {
                        Ok(l) => Ok(ArchiveOptions { compression_level: Some(l), ..acc }),
                        Err(e) => Err(e),
                    }
                } else {
                    Err("Unknown option `"@ + left + "`"@)
                },
            },
        }
    }
}

/// The settings after the parameters in turn, a later one overriding an
/// earlier one; the first refusal where there is one.
pub open spec fn options_fold(acc: ArchiveOptions, params: Seq<Seq<char>>) -> Result<ArchiveOptions, Seq<char>>
    decreases params.len(),
{
    if params.len() == 0 {
        Ok(acc)
    } else {
        match option_step(acc, params[0]) {
            Err(e) => Err(e),
            Ok(a) => options_fold(a, params.drop_first()),
        }
    }
}

/// What an `--options` argument reads as.
pub open spec fn options_of(s: Seq<char>) -> Result<ArchiveOptions, Seq<char>> {
    options_fold(no_options(), split_on(s, ','))
}

/// A message: `head`, the characters of `middle`, and `tail`.
fn message(head: &str, middle: &[char], tail: &str) -> (r: String)
    ensures
        r@ == head@ + middle@ + tail@,
{
    let mut out: Vec<char> = Vec::new();
    push_str(&mut out, head);
    push_all(&mut out, middle);
    push_str(&mut out, tail);
    string_from_chars(out.as_slice())
}

/// A message: `head` and the text of `rest`.
fn prefixed(head: &str, rest: String) -> (r: String)
    ensures
        r@ == head@ + rest@,
{
    let mut out = String::from_str(head);
    out.append(rest.as_str());
    out
}

/// The settings after one parameter, `option_step` says how.
fn option_step_exec(acc: ArchiveOptions, param: &[char]) -> (r: Result<ArchiveOptions, String>)
    ensures
        match r {
            Ok(a) => option_step(acc, param@) == Ok::<ArchiveOptions, Seq<char>>(a),
            Err(e) => option_step(acc, param@) == Err::<ArchiveOptions, Seq<char>>(e@),
        },
{
    let p = trim_chars(param);
    if p.len() == 0 {
        return Ok(acc);
    }
    let (left, value) = match split_once_chars(p.as_slice(), '=') {
        None => return Err(message("Invalid option format `", p.as_slice(), "`, expected key=value")),
        Some(lv) => lv,
    };
    let value_text = string_from_chars(value.as_slice());
    match split_once_chars(left.as_slice(), ':') {
        Some((module, key)) => {
            let level_key = word_is(key.as_slice(), "compression-level");
            if word_is(module.as_slice(), "deflate") && level_key {
                match DeflateLevel::from_str(value_text.as_str()) {
                    Ok(l) => Ok(ArchiveOptions { deflate_compression_level: Some(l), ..acc }),
                    Err(e) => Err(prefixed("deflate:compression-level: ", e.to_string())),
                }
            } else if word_is(module.as_slice(), "zstd") && level_key {
                match ZstdLevel::from_str(value_text.as_str()) {
                    Ok(l) => Ok(ArchiveOptions { zstd_compression_level: Some(l), ..acc }),
                    Err(e) => Err(prefixed("zstd:compression-level: ", e.to_string())),
                }
            } else if word_is(module.as_slice(), "xz") && level_key {
                match XzLevel::from_str(value_text.as_str()) {
                    Ok(l) => Ok(ArchiveOptions { xz_compression_level: Some(l), ..acc }),
                    Err(e) => Err(prefixed("xz:compression-level: ", e.to_string())),
                }
            } else {
                let mut out: Vec<char> = Vec::new();
                push_str(&mut out, "Unknown option `");
                push_all(&mut out, module.as_slice());
                push_str(&mut out, ":");
                push_all(&mut out, key.as_slice());
                push_str(&mut out, "`");
                Err(string_from_chars(out.as_slice()))
            }
        },
        None => {
            if word_is(left.as_slice(), "compression-level") {
                match parse_global_compression_level(value_text.as_str()) {
                    Ok(l) => Ok(ArchiveOptions { compression_level: Some(l), ..acc }),
                    Err(e) => Err(e),
                }
            } else {
                Err(message("Unknown option `", left.as_slice(), "`"))
            }
        },
    }
}

impl ArchiveOptions {
    /// Reads an `--options` argument, `options_of` says how.
    pub fn from_str(s: &str) -> (r: Result<ArchiveOptions, String>)
        ensures
            match r {
                Ok(o) => options_of(s@) == Ok::<ArchiveOptions, Seq<char>>(o),
                Err(e) => options_of(s@) == Err::<ArchiveOptions, Seq<char>>(e@),
            },
    {
        let cs = chars_of(s);
        let params = split_chars(cs.as_slice(), ',');
        let ghost pv = params.deep_view();
        let mut acc = ArchiveOptions::default();
        let mut i: usize = 0;
        assert(pv.skip(0) =~= pv);
        while i < params.len()
            invariant
                i <= params.len(),
                pv == params.deep_view(),
                pv == split_on(s@, ','),
                options_fold(acc, pv.skip(i as int)) == options_of(s@),
            decreases params.len() - i,
        {
            assert(pv.skip(i as int)[0] == params@[i as int]@);
            assert(pv.skip(i as int).drop_first() =~= pv.skip(i + 1));
            match option_step_exec(acc, params[i].as_slice()) {
                Err(e) => return Err(e),
                Ok(a) => acc = a,
            }
            i = i + 1;
        }
        Ok(acc)
    }
}

/// The level ranges of the algorithms: a numeric `deflate:compression-level`
/// is taken exactly when it lies in 1..=9, a `zstd` one in 1..=21 and an
/// `xz` one in 0..=9, and then it is stored as given; out of range it is
/// refused. The algorithm-free `compression-level` takes any `u8`.
pub proof fn level_ranges(acc: ArchiveOptions, param: Seq<char>, left: Seq<char>, value: Seq<char>, n: nat)
    requires
        split_once(trimmed(param), '=') == Some((left, value)),
        parse_unsigned_spec(value, 10, u8::MAX as nat) == Ok::<nat, IntErrorKind>(n),
        !eq_ignore_ascii_case(value, "min"@),
        !eq_ignore_ascii_case(value, "max"@),
    ensures
        split_once(left, ':') == Some(("deflate"@, "compression-level"@)) ==> {
            &&& (option_step(acc, param) is Ok <==> 1 <= n <= 9)
            &&& option_step(acc, param) is Ok ==> option_step(acc, param)->Ok_0.deflate_compression_level
                == Some(CompressionLevelInput::<1, 9>::Numeric(n as u8))
        },
        split_once(left, ':') == Some(("zstd"@, "compression-level"@)) ==> {
            &&& (option_step(acc, param) is Ok <==> 1 <= n <= 21)
            &&& option_step(acc, param) is Ok ==> option_step(acc, param)->Ok_0.zstd_compression_level
                == Some(CompressionLevelInput::<1, 21>::Numeric(n as u8))
        },
        split_once(left, ':') == Some(("xz"@, "compression-level"@)) ==> {
            &&& (option_step(acc, param) is Ok <==> n <= 9)
            &&& option_step(acc, param) is Ok ==> option_step(acc, param)->Ok_0.xz_compression_level
                == Some(CompressionLevelInput::<0, 9>::Numeric(n as u8))
        },
        split_once(left, ':') is None && left == "compression-level"@ ==> option_step(acc, param) == Ok::<
            ArchiveOptions,
            Seq<char>,
        >(ArchiveOptions { compression_level: Some(CompressionLevel::Level(n as u8)), ..acc }),
{
    reveal_strlit("deflate");
    reveal_strlit("zstd");
    reveal_strlit("xz");
    assert("zstd"@.len() != "deflate"@.len());
    assert("xz"@.len() != "deflate"@.len() && "xz"@.len() != "zstd"@.len());
    assert(trimmed(param).len() > 0) by {
        if trimmed(param).len() == 0 {
            assert(split_once(trimmed(param), '=') is None);
        }
    }
}

} // verus!
