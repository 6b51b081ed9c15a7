//! What the library takes from std and from other crates without proof.
//!
//! Each function here is one call; its contract is what the called function's
//! documentation or source says. A result that takes pages to describe is only
//! given a name.

use sha2::Digest;
use unicode_normalization::UnicodeNormalization;
use vstd::prelude::*;
use vstd::utf8::{decode_utf8, valid_utf8};

verus! {

/// `String::push` appends one character.
pub assume_specification[ String::push ](s: &mut String, c: char)
    ensures
        final(s)@ == old(s)@.push(c),
;

/// The SHA-256 digest of a byte string.
pub uninterp spec fn sha256(bytes: Seq<u8>) -> Seq<u8>;

/// `sha2::Sha256::digest`: the digest is a function of the bytes alone, and is 32
/// bytes long. Nothing else is claimed of it.
#[verifier::external_body]
pub(crate) fn sha256_digest(bytes: &[u8]) -> (r: Vec<u8>)
    ensures
        r@ == sha256(bytes@),
        r@.len() == 32,
{
    sha2::Sha256::digest(bytes).to_vec()
}

pub open spec fn hex_digit(n: nat) -> char {
    if n < 10 {
        (('0' as u8) + n) as u8 as char
    } else {
        (('a' as u8) + n - 10) as u8 as char
    }
}

/// Two lower-case hexadecimal digits for each byte, the high half first.
pub open spec fn hex_text(bytes: Seq<u8>) -> Seq<char> {
    Seq::new(
        2 * bytes.len(),
        |i: int|
            if i % 2 == 0 {
                hex_digit((bytes[i / 2] / 16) as nat)
            } else {
                hex_digit((bytes[i / 2] % 16) as nat)
            },
    )
}

/// `hex::encode` writes each byte as two lower-case hexadecimal digits.
#[verifier::external_body]
pub(crate) fn hex_encode(bytes: &[u8]) -> (r: String)
    ensures
        r@ == hex_text(bytes@),
{
    hex::encode(bytes)
}

/// The Unicode normalization form KC of a text.
pub uninterp spec fn nfkc(s: Seq<char>) -> Seq<char>;

/// `UnicodeNormalization::nfkc`, collected: a function of the text alone.
#[verifier::external_body]
pub(crate) fn nfkc_text(s: &str) -> (r: String)
    ensures
        r@ == nfkc(s@),
{
    s.nfkc().collect()
}

/// The lower-case mapping of one character.
pub uninterp spec fn lowercase_mapping(c: char) -> Seq<char>;

/// `char::to_lowercase`, collected: a function of the character alone, and for an
/// ASCII character its ASCII lower case.
#[verifier::external_body]
pub(crate) fn lowercase_of(c: char) -> (r: String)
    ensures
        r@ == lowercase_mapping(c),
        (c as u32) < 128 ==> r@ == seq![crate::text::lower_char(c)],
{
    c.to_lowercase().collect()
}

/// A text in double quotes with its special characters escaped, as `{:?}` writes it.
pub uninterp spec fn quoted(s: Seq<char>) -> Seq<char>;

/// The `Debug` form of a `str`: a function of the text alone.
#[verifier::external_body]
pub(crate) fn quoted_text(s: &str) -> (r: String)
    ensures
        r@ == quoted(s@),
{
    format!("{s:?}")
}

/// What std says of bytes that are not UTF-8.
pub uninterp spec fn utf8_error(bytes: Seq<u8>) -> Seq<char>;

/// `std::str::from_utf8` succeeds exactly on valid UTF-8, with the text that the bytes
/// encode. The error's text is a function of the bytes.
#[verifier::external_body]
pub(crate) fn utf8_text(bytes: &[u8]) -> (r: Result<String, String>)
    ensures
        r is Ok == valid_utf8(bytes@),
        match r {
            Ok(text) => text@ == decode_utf8(bytes@),
            Err(e) => e@ == utf8_error(bytes@),
        },
{
    std::str::from_utf8(bytes).map(str::to_owned).map_err(|e| e.to_string())
}

pub open spec fn pow16(n: nat) -> nat
    decreases n,
{
    if n == 0 {
        1
    } else {
        16 * pow16((n - 1) as nat)
    }
}

/// Thirty-two lower-case hexadecimal digits in groups of 8, 4, 4, 4 and 12.
pub open spec fn uuid_form(id: u128) -> Seq<char> {
    Seq::new(
        36,
        |i: int|
            if i == 8 || i == 13 || i == 18 || i == 23 {
                '-'
            } else {
                let hyphens: int = (if i > 8 {
                    1int
                } else {
                    0
                }) + (if i > 13 {
                    1int
                } else {
                    0
                }) + (if i > 18 {
                    1int
                } else {
                    0
                }) + (if i > 23 {
                    1int
                } else {
                    0
                });
                hex_digit(((id as nat / pow16((31 - (i - hyphens)) as nat)) % 16) as nat)
            },
    )
}

/// `uuid::Uuid::from_u128` shown with `to_string`: the hyphenated lower-case form.
#[verifier::external_body]
pub(crate) fn uuid_text(id: u128) -> (r: String)
    ensures
        r@ == uuid_form(id),
{
    uuid::Uuid::from_u128(id).to_string()
}

/// What a text is as a SemVer version: its three numbers, its pre-release and its build
/// metadata; what the parser says of it when it is none.
pub uninterp spec fn semver_parse(text: Seq<char>) -> Result<
    (u64, u64, u64, Seq<char>, Seq<char>),
    Seq<char>,
>;

/// `semver::Version::parse`: the parts of the version, when the text is one. The error is the
/// parser's own text.
#[verifier::external_body]
pub(crate) fn parse_version(text: &str) -> (r: Result<(u64, u64, u64, String, String), String>)
    ensures
        match r {
            Ok(v) => semver_parse(text@) == Ok::<
                (u64, u64, u64, Seq<char>, Seq<char>),
                Seq<char>,
            >((v.0, v.1, v.2, v.3@, v.4@)),
            Err(e) => semver_parse(text@) == Err::<
                (u64, u64, u64, Seq<char>, Seq<char>),
                Seq<char>,
            >(e@),
        },
{
    let v = semver::Version::parse(text).map_err(|e| e.to_string())?;
    Ok((v.major, v.minor, v.patch, v.pre.as_str().to_owned(), v.build.as_str().to_owned()))
}

/// Whether the version that `a` is comes before the version that `b` is.
pub uninterp spec fn semver_before(a: Seq<char>, b: Seq<char>) -> bool;

/// `<` of `semver::Version` on two texts that are versions: a function of the two texts.
/// The crate orders versions totally, field by field. So of two versions at most one comes
/// before the other, and a third version stands to both as the order of the two says: what
/// `b` precedes, an earlier `a` precedes too, what precedes an earlier `a` precedes `b`
/// too, and the same of "does not precede" where `a` is not the earlier one.
#[verifier::external_body]
pub(crate) fn version_before(a: &str, b: &str) -> (r: bool)
    requires
        semver_parse(a@) is Ok,
        semver_parse(b@) is Ok,
    ensures
        r == semver_before(a@, b@),
        r ==> !semver_before(b@, a@),
        forall|c: Seq<char>|
            #![trigger semver_before(a@, c)]
            #![trigger semver_before(b@, c)]
            semver_parse(c) is Ok ==> (r && semver_before(b@, c) ==> semver_before(a@, c)) && (
            !r && !semver_before(b@, c) ==> !semver_before(a@, c)),
        forall|c: Seq<char>|
            #![trigger semver_before(c, a@)]
            #![trigger semver_before(c, b@)]
            semver_parse(c) is Ok ==> (r && semver_before(c, a@) ==> semver_before(c, b@)) && (
            !r && !semver_before(c, a@) ==> !semver_before(c, b@)),
{
    semver::Version::parse(a).unwrap() < semver::Version::parse(b).unwrap()
}

/// The text of a byte string, with replacement characters where it is not UTF-8.
pub uninterp spec fn lossy(bytes: Seq<u8>) -> Seq<char>;

/// `String::from_utf8_lossy`: a function of the bytes alone, and on valid UTF-8 the text
/// that they encode.
#[verifier::external_body]
pub(crate) fn lossy_text(bytes: &[u8]) -> (r: String)
    ensures
        r@ == lossy(bytes@),
        valid_utf8(bytes@) ==> r@ == decode_utf8(bytes@),
{
    String::from_utf8_lossy(bytes).into_owned()
}

/// The string at `table.inner.key` of a TOML document, `None` when there is no such string;
/// what the parser says of the text when it is not TOML.
pub uninterp spec fn toml_string(
    text: Seq<char>,
    table: Seq<char>,
    inner: Seq<char>,
    key: Seq<char>,
) -> Result<Option<Seq<char>>, Seq<char>>;

/// `toml::from_str` into a `toml::Value`, then `get` three times and `as_str`: a function
/// of the text and the keys. The error is the parser's own text.
#[verifier::external_body]
pub(crate) fn toml_string_at(text: &str, table: &str, inner: &str, key: &str) -> (r: Result<
    Option<String>,
    String,
>)
    ensures
        match r {
            Ok(found) => toml_string(text@, table@, inner@, key@) == Ok::<
                Option<Seq<char>>,
                Seq<char>,
            >(crate::text::opt_text(found)),
            Err(e) => toml_string(text@, table@, inner@, key@) == Err::<
                Option<Seq<char>>,
                Seq<char>,
            >(e@),
        },
{
    let document: toml::Value = toml::from_str(text).map_err(|e| e.to_string())?;
    let found = document.get(table).and_then(|v| v.get(inner)).and_then(|v| v.get(key));
    Ok(found.and_then(|v| v.as_str()).map(str::to_owned))
}

/// What std says of a text that is no `u64`; nothing of one that is.
pub uninterp spec fn u64_error(text: Seq<char>) -> Option<Seq<char>>;

/// `str::parse` into a `u64`, of which only the error's text is kept: there is one exactly
/// where the text is no optional `+` and digits, or their value does not fit. The text is a
/// function of what was parsed.
#[verifier::external_body]
pub(crate) fn u64_error_text(text: &str) -> (r: Option<String>)
    ensures
        crate::text::opt_text(r) == u64_error(text@),
        r is Some == (crate::upstream_cache::parsed_u64(text@) is None),
{
    text.parse::<u64>().err().map(|e| e.to_string())
}

/// What std says of a text that is no `u32`; nothing of one that is.
pub uninterp spec fn u32_error(text: Seq<char>) -> Option<Seq<char>>;

/// `str::parse` into a `u32`, of which only the error's text is kept, as for a `u64`.
#[verifier::external_body]
pub(crate) fn u32_error_text(text: &str) -> (r: Option<String>)
    ensures
        crate::text::opt_text(r) == u32_error(text@),
        r is None == (crate::upstream_cache::parsed_u64(text@) matches Some(n) && n <= u32::MAX),
{
    text.parse::<u32>().err().map(|e| e.to_string())
}

} // verus!
