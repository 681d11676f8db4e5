//! Errors that carry a process exit code, and the password-file check.
use vstd::prelude::*;
use crate::text::{contains_char, decimal, push_all, push_str, str_from_utf8, string_from_chars, u64_to_chars};

pub mod acl;
pub mod chmod;
pub mod chunk;
pub mod chown;
pub mod shared;

verus! {

/// An error from an outside crate carried through to `main`.
#[verifier::external_type_specification]
#[verifier::external_body]
pub struct ExAnyhowError(anyhow::Error);

/// Error that maps to a specific process exit code in `main`.
#[derive(Debug)]
pub struct ExitCodeError {
    code: u8,
    source: Option<anyhow::Error>,
}

impl ExitCodeError {
    /// The exit code.
    pub closed spec fn spec_code(&self) -> u8 {
        self.code
    }

    /// The error to print, if any.
    pub closed spec fn spec_source(&self) -> Option<anyhow::Error> {
        self.source
    }

    /// Exit with `code` without printing anything.
    pub fn silent(code: u8) -> (r: Self)
        ensures
            r.spec_code() == code,
            r.spec_source() is None,
    {
        ExitCodeError { code, source: None }
    }

    /// Exit with `code` after `main` prints `source`.
    pub fn with_source(code: u8, source: anyhow::Error) -> (r: Self)
        ensures
            r.spec_code() == code,
            r.spec_source() == Some(source),
    {
        ExitCodeError { code, source: Some(source) }
    }

    /// Process exit code to terminate with.
    pub fn code(&self) -> (r: u8)
        ensures
            r == self.spec_code(),
    {
        self.code
    }

    /// Consumes self and returns the wrapped error to print, if any.
    pub fn into_source(self) -> (r: Option<anyhow::Error>)
        ensures
            r == self.spec_source(),
    {
        self.source
    }

    /// The message printed for an error without a source.
    pub fn silent_message(&self) -> (r: String)
        ensures
            r@ == "process exited with code "@ + decimal(self.spec_code() as nat),
    {
        let mut out: Vec<char> = Vec::new();
        push_str(&mut out, "process exited with code ");
        let d = u64_to_chars(self.code as u64);
        push_all(&mut out, d.as_slice());
        string_from_chars(out.as_slice())
    }
}

/// Whether a password file will be read differently once only its first
/// non-empty line counts: it is not UTF-8, or it holds a line feed or a
/// carriage return.
pub open spec fn needs_raw_mode(password: Seq<u8>) -> bool {
    !vstd::utf8::valid_utf8(password) || vstd::utf8::decode_utf8(password).contains('\n')
        || vstd::utf8::decode_utf8(password).contains('\r')
}

/// Returns whether `password` will be read differently (or rejected) once
/// `--password-file` switches to first-non-empty-UTF-8-line semantics.
pub fn password_bytes_need_raw_mode(password: &[u8]) -> (r: bool)
    ensures
        r == needs_raw_mode(password@),
{
    match str_from_utf8(password) {
        Ok(text) => {
            proof {
                vstd::utf8::encode_utf8_decode_utf8(text@);
            }
            let cs = crate::text::chars_of(text);
            contains_char(cs.as_slice(), '\n') || contains_char(cs.as_slice(), '\r')
        },
        Err(_) => true,
    }
}


/// The bytes UTF-8 writes: a character below `0x80` as that byte, every
/// other character with bytes of `0x80` and above.
proof fn lemma_utf8_bytes(u: u32)
    by (bit_vector)
    ensures
        u <= 0x7f ==> vstd::utf8::leading_byte_width_1(u) as u32 == u,
        vstd::utf8::leading_byte_width_2(u) >= 0x80,
        vstd::utf8::leading_byte_width_3(u) >= 0x80,
        vstd::utf8::leading_byte_width_4(u) >= 0x80,
        vstd::utf8::last_continuation_byte(u) >= 0x80,
        vstd::utf8::second_last_continuation_byte(u) >= 0x80,
        vstd::utf8::third_last_continuation_byte(u) >= 0x80,
{
}

/// The UTF-8 bytes of characters hold a byte below `0x80` exactly when
/// the characters hold the character of that value.
proof fn lemma_encoded_ascii(chars: Seq<char>, b: u8)
    requires
        b <= 0x7f,
    ensures
        vstd::utf8::encode_utf8(chars).contains(b) <==> chars.contains(b as char),
    decreases chars.len(),
{
    if chars.len() > 0 {
        let rest = chars.drop_first();
        lemma_encoded_ascii(rest, b);
        let u = chars[0] as u32;
        lemma_utf8_bytes(u);
        let e = vstd::utf8::encode_scalar(u);
        let er = vstd::utf8::encode_utf8(rest);
        let all = vstd::utf8::encode_utf8(chars);
        assert(all == e + er);
        vstd::utf8::char_is_scalar(chars[0]);
        assert((b as char) as u32 == b as u32);
        vstd::utf8::char_u32_cast(chars[0], u);
        vstd::utf8::char_u32_cast(b as char, b as u32);
        assert(chars[0] == b as char <==> u == b as u32);
        if vstd::utf8::has_width_1_encoding(u) {
            assert(e == seq![vstd::utf8::leading_byte_width_1(u)]);
            assert(e.contains(b) ==> e[0] == b);
            assert(e[0] == b ==> e.contains(b));
        } else {
            assert forall|j: int| 0 <= j < e.len() implies #[trigger] e[j] >= 0x80 by {}
            assert(!e.contains(b));
        }
        assert(e.contains(b) <==> chars[0] == b as char);
        if all.contains(b) {
            let j = choose|j: int| 0 <= j < all.len() && all[j] == b;
            if j < e.len() {
                assert(e[j] == b);
                assert(chars[0] == b as char);
            } else {
                assert(er[j - e.len()] == b);
                let k = choose|k: int| 0 <= k < rest.len() && rest[k] == b as char;
                assert(chars[k + 1] == b as char);
            }
        }
        if chars.contains(b as char) {
            let k = choose|k: int| 0 <= k < chars.len() && chars[k] == b as char;
            if k == 0 {
                let j = choose|j: int| 0 <= j < e.len() && e[j] == b;
                assert(all[j] == b);
            } else {
                assert(rest[k - 1] == b as char);
                let j = choose|j: int| 0 <= j < er.len() && er[j] == b;
                assert(all[j + e.len()] == b);
            }
        }
    }
}

/// In UTF-8 text a byte below `0x80` stands only for the character of
/// that value: the text holds the character exactly when the bytes hold
/// the byte.
pub proof fn lemma_decoded_ascii(p: Seq<u8>, b: u8)
    requires
        vstd::utf8::valid_utf8(p),
        b <= 0x7f,
    ensures
        vstd::utf8::decode_utf8(p).contains(b as char) <==> p.contains(b),
{
    vstd::utf8::decode_utf8_encode_utf8(p);
    lemma_encoded_ascii(vstd::utf8::decode_utf8(p), b);
}

/// A password file needs the raw reading exactly when its bytes are not
/// UTF-8, or hold a line feed (`0x0A`) or a carriage return (`0x0D`).
pub proof fn raw_mode_over_bytes(p: Seq<u8>)
    ensures
        needs_raw_mode(p) == (!vstd::utf8::valid_utf8(p) || p.contains(0x0Au8) || p.contains(0x0Du8)),
{
    if vstd::utf8::valid_utf8(p) {
        lemma_decoded_ascii(p, 0x0Au8);
        lemma_decoded_ascii(p, 0x0Du8);
        assert(0x0Au8 as char == '\n');
        assert(0x0Du8 as char == '\r');
    }
}

} // verus!
