//! Text from bytes and from URLs: percent-decoding and the reading of UTF-8.

use vstd::prelude::*;
use vstd::string::{StringExecFns, StringSliceAdditionalSpecFns};
use vstd::utf8::{decode_utf8, encode_utf8, is_ascii_chars, valid_utf8};

verus! {

/// Why a helper failed.
#[derive(Clone, Copy, Debug, PartialEq, Eq, Structural)]
pub enum UtilError {
    /// The bytes are not UTF-8.
    InvalidUtf8,
    /// A text for the system log holds a NUL character.
    InteriorNul,
    /// Neither a user nor a group was named.
    NoIdentity,
    /// The name of the group holds a NUL character.
    BadGroupName,
    /// The name of the user holds a NUL character.
    BadUserName,
}

/// Whether a text holds the character that ends a C string.
pub open spec fn has_nul(text: Seq<char>) -> bool {
    exists|k: int| 0 <= k < text.len() && text[k] == '\0'
}

/// Whether a text holds a NUL character, so that no C string can carry it.
pub fn contains_nul(text: &str) -> (found: bool)
    ensures
        found == has_nul(text@),
{
    let mut found = false;
    for c in it: text.chars()
        invariant
            it.seq() == text@,
            found <==> exists|k: int| 0 <= k < it.index() && text@[k] == '\0',
    {
        found = found || c == '\0';
    }
    found
}

/// The message of a failure whose cause may have left no text.
pub open spec fn error_text(message: Option<Seq<char>>) -> Seq<char> {
    match message {
        Some(text) => text,
        None => "Unknown error type"@,
    }
}

/// What a failed helper says.
pub open spec fn util_error_text(e: UtilError) -> Seq<char> {
    match e {
        UtilError::InvalidUtf8 => "str_from_u8: "@ + error_text(None),
        UtilError::InteriorNul => "nul byte found in provided data"@,
        UtilError::NoIdentity => "No user or group found!"@,
        UtilError::BadGroupName => "Cannot create CString from String (group)!"@,
        UtilError::BadUserName => "Cannot create CString from String (user)!"@,
    }
}

/// The message of a failure: the text that its cause left, if it left one.
pub fn error_string(message: Option<String>) -> (text: String)
    ensures
        text@ == error_text(
            match message {
                Some(text) => Some(text@),
                None => None,
            },
        ),
{
    match message {
        Some(text) => text,
        None => String::from_str("Unknown error type"),
    }
}

impl UtilError {
    /// The error in words.
    pub fn to_string(&self) -> (text: String)
        ensures
            text@ == util_error_text(*self),
    {
        match self {
            UtilError::InvalidUtf8 => {
                let mut out = String::from_str("str_from_u8: ");
                out.append(error_string(None).as_str());
                out
            },
            UtilError::InteriorNul => String::from_str("nul byte found in provided data"),
            UtilError::NoIdentity => String::from_str("No user or group found!"),
            UtilError::BadGroupName => String::from_str(
                "Cannot create CString from String (group)!",
            ),
            UtilError::BadUserName => String::from_str("Cannot create CString from String (user)!"),
        }
    }
}

/// The error that [`core::str::from_utf8`] returns. Nothing is read from it.
#[verifier::external_type_specification]
#[verifier::external_body]
pub struct ExUtf8Error(core::str::Utf8Error);

/// [`core::str::from_utf8`] accepts exactly the byte slices that are valid
/// UTF-8, and the string it returns has the bytes it was given.
pub assume_specification[ core::str::from_utf8 ](v: &[u8]) -> (r: Result<
    &str,
    core::str::Utf8Error,
>)
    ensures
        r is Ok <==> valid_utf8(v@),
        r matches Ok(s) ==> s.spec_bytes() == v@,
;

/// [`String::push`] appends one character to the string.
pub assume_specification[ String::push ](s: &mut String, ch: char)
    ensures
        final(s)@ == old(s)@.push(ch),
;

/// The value of a hexadecimal digit, in either case.
pub open spec fn hex_value(c: char) -> Option<u8> {
    if '0' <= c <= '9' {
        Some((c as u8 - '0' as u8) as u8)
    } else if 'a' <= c <= 'f' {
        Some((c as u8 - 'a' as u8 + 10) as u8)
    } else if 'A' <= c <= 'F' {
        Some((c as u8 - 'A' as u8 + 10) as u8)
    } else {
        None
    }
}

/// The byte that the two characters behind a `%` stand for: two hexadecimal
/// digits, or a `+` and one digit.
pub open spec fn escape_value(left: char, right: char) -> Option<u8> {
    if left == '+' {
        hex_value(right)
    } else {
        match (hex_value(left), hex_value(right)) {
            (Some(high), Some(low)) => Some((high * 16 + low) as u8),
            _ => None,
        }
    }
}

/// Every `%` is followed by two characters that stand for a byte.
pub open spec fn well_escaped(s: Seq<char>) -> bool
    decreases s.len(),
{
    if s.len() == 0 {
        true
    } else if s[0] == '%' {
        s.len() >= 3 && escape_value(s[1], s[2]) is Some && well_escaped(s.skip(3))
    } else {
        well_escaped(s.skip(1))
    }
}

/// The text with each escape replaced by the character whose code point is
/// the byte that the escape stands for.
pub open spec fn unescaped(s: Seq<char>) -> Seq<char>
    decreases s.len(),
{
    if s.len() == 0 {
        Seq::empty()
    } else if s[0] == '%' && s.len() >= 3 {
        seq![escape_value(s[1], s[2]).unwrap() as char] + unescaped(s.skip(3))
    } else {
        seq![s[0]] + unescaped(s.skip(1))
    }
}

fn hex_digit(b: u8) -> (r: Option<u8>)
    requires
        b < 128,
    ensures
        r == hex_value(b as char),
{
    if 0x30 <= b && b <= 0x39 {
        Some(b - 0x30)
    } else if 0x61 <= b && b <= 0x66 {
        Some(b - 0x61 + 10)
    } else if 0x41 <= b && b <= 0x46 {
        Some(b - 0x41 + 10)
    } else {
        None
    }
}

fn escape_byte(left: u8, right: u8) -> (r: Option<u8>)
    requires
        left < 128,
        right < 128,
    ensures
        r == escape_value(left as char, right as char),
{
    if left == 0x2b {
        hex_digit(right)
    } else {
        match (hex_digit(left), hex_digit(right)) {
            (Some(high), Some(low)) => Some(high * 16 + low),
            _ => None,
        }
    }
}

/// Whether a URL can be decoded: it is ASCII, and each `%` in it is followed
/// by two characters that stand for a byte.
pub fn urldecodable(url: &str) -> (ok: bool)
    ensures
        ok == (is_ascii_chars(url@) && well_escaped(url@)),
{
    broadcast use vstd::utf8::is_ascii_chars_encode_utf8;

    if !url.is_ascii() {
        return false;
    }
    let bytes = url.as_bytes();
    let mut i: usize = 0;
    assert(url@.skip(0) =~= url@);
    while i < bytes.len()
        invariant
            i <= bytes.len(),
            bytes@.len() == url@.len(),
            is_ascii_chars(url@),
            forall|k: int| 0 <= k < url@.len() ==> url@[k] as u8 == bytes@[k],
            well_escaped(url@.skip(i as int)) == well_escaped(url@),
        decreases bytes.len() - i,
    {
        let ghost rest = url@.skip(i as int);
        assert(rest[0] == url@[i as int]);
        assert(bytes[i as int] as char == rest[0]);
        if bytes[i] == 0x25 {
            if bytes.len() - i < 3 {
                return false;
            }
            assert(rest[1] == url@[i + 1] && rest[2] == url@[i + 2]);
            if escape_byte(bytes[i + 1], bytes[i + 2]).is_none() {
                return false;
            }
            assert(rest.skip(3) =~= url@.skip(i + 3));
            i = i + 3;
        } else {
            assert(rest.skip(1) =~= url@.skip(i + 1));
            i = i + 1;
        }
    }
    true
}

/// Decodes a percent-encoded URL.
///
/// The URL is ASCII, and each `%` in it is followed by two hexadecimal
/// digits, or by `+` and one.
pub fn urldecode(url: &str) -> (decoded: String)
    requires
        is_ascii_chars(url@),
        well_escaped(url@),
    ensures
        decoded@ == unescaped(url@),
{
    broadcast use vstd::utf8::is_ascii_chars_encode_utf8;

    let bytes = url.as_bytes();
    let mut decoded = String::new();
    let mut i: usize = 0;
    assert(url@.skip(0) =~= url@);
    while i < bytes.len()
        invariant
            i <= bytes.len(),
            bytes@.len() == url@.len(),
            is_ascii_chars(url@),
            forall|k: int| 0 <= k < url@.len() ==> url@[k] as u8 == bytes@[k],
            well_escaped(url@.skip(i as int)),
            decoded@ + unescaped(url@.skip(i as int)) == unescaped(url@),
        decreases bytes.len() - i,
    {
        let ghost rest = url@.skip(i as int);
        let c: u8 = bytes[i];
        assert(rest[0] == url@[i as int]);
        assert(c as char == rest[0]);
        if c == 0x25 {
            assert(rest[1] == url@[i + 1] && rest[2] == url@[i + 2]);
            let byte = match escape_byte(bytes[i + 1], bytes[i + 2]) {
                Some(byte) => byte,
                None => 0,
            };
            decoded.push(byte as char);
            assert(rest.skip(3) =~= url@.skip(i + 3));
            i = i + 3;
        } else {
            decoded.push(c as char);
            assert(rest.skip(1) =~= url@.skip(i + 1));
            i = i + 1;
        }
        assert(decoded@ + unescaped(url@.skip(i as int)) =~= unescaped(url@));
    }
    assert(unescaped(url@.skip(i as int)) =~= Seq::<char>::empty());
    assert(decoded@ + Seq::<char>::empty() =~= decoded@);
    decoded
}

/// Reads bytes as UTF-8 text.
pub fn string_from_u8(data: &[u8]) -> (r: Result<String, UtilError>)
    ensures
        r is Ok <==> valid_utf8(data@),
        r matches Ok(s) ==> s@ == decode_utf8(data@) && encode_utf8(s@) == data@,
        r matches Err(e) ==> e == UtilError::InvalidUtf8,
{
    broadcast use vstd::utf8::encode_utf8_decode_utf8;

    match core::str::from_utf8(data) {
        Ok(s) => Ok(s.to_owned()),
        Err(_) => Err(UtilError::InvalidUtf8),
    }
}

} // verus!
