//! Decoding done by outside crates: percent-escapes, form queries, URLs,
//! UUIDs and UTF-8.
//!
//! The functions here are the ones whose contracts are believed: each body is
//! a call into the crate that its comment names.
use crate::escapes::{form_pairs, percent_decoded, with_replacements};
use crate::text::opt_view;
use vstd::prelude::*;
use vstd::utf8::{decode_utf8, valid_utf8};

verus! {

/// Replaces the percent-escapes in `data`.
///
/// Calls `urlencoding::decode`. Believed: each percent sign with two
/// hexadecimal digits behind it is replaced by the byte that it stands for, all
/// else stays as it is, and the result is refused exactly where it is not UTF-8.
#[verifier::external_body]
pub(crate) fn percent_decode(data: &str) -> (r: Option<String>)
    ensures
        opt_view(r) == percent_decoded(data@),
{
    match urlencoding::decode(data) {
        Ok(decoded) => Some(decoded.into_owned()),
        Err(_) => None,
    }
}

/// The characters of the names and values of a list of pairs.
pub open spec fn pair_views(pairs: Seq<(String, String)>) -> Seq<(Seq<char>, Seq<char>)> {
    pairs.map_values(|pair: (String, String)| (pair.0@, pair.1@))
}

/// Splits a query string into its names and values.
///
/// Calls `url::form_urlencoded::parse` on the bytes of `query`. Believed: the
/// query is split at the ampersands, its empty parts are passed over, each
/// other part is split at its first equals sign, and on either side plus signs
/// become spaces, percent-escapes are replaced, and what is not UTF-8 then
/// becomes what `String::from_utf8_lossy` makes of it.
#[verifier::external_body]
pub(crate) fn parse_form(query: &str) -> (r: Vec<(String, String)>)
    ensures
        pair_views(r@) == form_pairs(query@),
{
    url::form_urlencoded::parse(query.as_bytes()).into_owned().collect()
}

/// The parts of a URL that tell where to connect and what to open.
#[derive(Debug)]
pub struct UrlParts {
    /// The host, if the URL has one.
    pub host: Option<String>,
    /// The user name, empty if there is none.
    pub username: String,
    /// The password, if there is one.
    pub password: Option<String>,
    /// The port, if it is given and is not the scheme's own.
    pub port: Option<u16>,
    /// The path, still percent-encoded.
    pub path: String,
}

impl View for UrlParts {
    type V = (Option<Seq<char>>, Seq<char>, Option<Seq<char>>, Option<u16>, Seq<char>);

    open spec fn view(&self) -> Self::V {
        (opt_view(self.host), self.username@, opt_view(self.password), self.port, self.path@)
    }
}

/// The parts of a URL, or the message of an error, by their characters.
pub open spec fn parsed_view(parsed: Result<UrlParts, String>) -> Result<
    (Option<Seq<char>>, Seq<char>, Option<Seq<char>>, Option<u16>, Seq<char>),
    Seq<char>,
> {
    match parsed {
        Ok(parts) => Ok(parts@),
        Err(message) => Err(message@),
    }
}

/// The host, user name, password, port and path that `url::Url::parse` finds
/// in a string, or the message of the error that it gives.
pub uninterp spec fn url_parts(url: Seq<char>) -> Result<
    (Option<Seq<char>>, Seq<char>, Option<Seq<char>>, Option<u16>, Seq<char>),
    Seq<char>,
>;

/// Takes a URL apart.
///
/// Calls `url::Url::parse`, and on what it returns `host`, `username`,
/// `password`, `port` and `path`. Believed: the parts, or the message of the
/// error, depend on `url` alone.
#[verifier::external_body]
pub(crate) fn split_url(url: &str) -> (r: Result<UrlParts, String>)
    ensures
        parsed_view(r) == url_parts(url@),
{
    match url::Url::parse(url) {
        Ok(url) => Ok(UrlParts {
            host: url.host().map(|host| host.to_string()),
            username: url.username().to_string(),
            password: url.password().map(|password| password.to_string()),
            port: url.port(),
            path: url.path().to_string(),
        }),
        Err(error) => Err(error.to_string()),
    }
}

/// Whether `c` is a hexadecimal digit.
pub open spec fn is_hex(c: char) -> bool {
    '0' <= c <= '9' || 'a' <= c <= 'f' || 'A' <= c <= 'F'
}

/// Thirty-two hexadecimal digits, in groups of 8, 4, 4, 4 and 12 with a hyphen
/// between each two.
pub open spec fn is_hyphenated_uuid(s: Seq<char>) -> bool {
    &&& s.len() == 36
    &&& forall|i: int|
        0 <= i < 36 ==> if i == 8 || i == 13 || i == 18 || i == 23 {
            #[trigger] s[i] == '-'
        } else {
            is_hex(s[i])
        }
}

/// Whether `c` is the letter `lower`, in either case.
pub open spec fn is_letter(c: char, lower: char) -> bool {
    c == lower || c as int + 32 == lower as int
}

/// The prefix `urn:uuid:`, its letters in either case.
pub open spec fn is_urn_prefix(s: Seq<char>) -> bool {
    &&& s.len() == 9
    &&& is_letter(s[0], 'u') && is_letter(s[1], 'r') && is_letter(s[2], 'n') && s[3] == ':'
    &&& is_letter(s[4], 'u') && is_letter(s[5], 'u') && is_letter(s[6], 'i')
    &&& is_letter(s[7], 'd') && s[8] == ':'
}

/// Whether `s` writes a UUID: as digits alone, with hyphens, with hyphens in
/// braces, or with hyphens as a URN.
pub open spec fn is_uuid_text(s: Seq<char>) -> bool {
    ||| s.len() == 32 && forall|i: int| 0 <= i < 32 ==> is_hex(#[trigger] s[i])
    ||| is_hyphenated_uuid(s)
    ||| s.len() == 38 && s[0] == '{' && s[37] == '}' && is_hyphenated_uuid(s.subrange(1, 37))
    ||| s.len() == 45 && is_urn_prefix(s.take(9)) && is_hyphenated_uuid(s.skip(9))
}

/// Tests whether `s` writes a UUID.
///
/// Calls `uuid::Uuid::parse_str`. Believed: it succeeds on the four notations
/// of a UUID and on nothing else.
#[verifier::external_body]
pub(crate) fn is_uuid(s: &str) -> (r: bool)
    ensures
        r == is_uuid_text(s@),
{
    uuid::Uuid::parse_str(s).is_ok()
}

/// Reads bytes as UTF-8, with replacement characters for what is not UTF-8.
///
/// Calls `String::from_utf8_lossy`. Believed: bytes that are UTF-8 become the
/// text that they encode, and the text of others depends on the bytes alone.
#[verifier::external_body]
pub(crate) fn utf8_lossy(bytes: &[u8]) -> (r: String)
    ensures
        r@ == if valid_utf8(bytes@) {
            decode_utf8(bytes@)
        } else {
            with_replacements(bytes@)
        },
{
    String::from_utf8_lossy(bytes).into_owned()
}

} // verus!
