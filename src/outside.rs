//! The calls that the library makes into outside crates and into parts of
//! std that carry no specification. Each one's contract is what the called
//! code documents.
use vstd::prelude::*;

verus! {

/// Relies on `rand::random`: a value drawn from the thread-local generator.
/// Nothing is promised of it.
pub assume_specification<T>[ rand::random::<T> ]() -> (r: T)
    where
        rand::distr::StandardUniform: rand::distr::Distribution<T>,
;

/// The URL-safe base64 text, without padding, of a byte string.
pub uninterp spec fn base64url_text(b: Seq<u8>) -> Seq<char>;

/// The bytes that a URL-safe unpadded base64 text decodes to, or `None`
/// where the text is not valid in that alphabet.
pub uninterp spec fn base64url_bytes(s: Seq<char>) -> Option<Seq<u8>>;

/// Relies on `base64::engine::general_purpose::URL_SAFE_NO_PAD.encode`:
/// the encoding depends on the bytes alone, and the same engine's `decode`
/// reads it back (that engine neither writes nor requires padding).
#[verifier::external_body]
pub(crate) fn base64url_encode(b: &[u8]) -> (r: String)
    ensures
        r@ == base64url_text(b@),
        base64url_bytes(r@) == Some(b@),
{
    base64::Engine::encode(&base64::engine::general_purpose::URL_SAFE_NO_PAD, b)
}

/// Relies on `base64::engine::general_purpose::URL_SAFE_NO_PAD.decode`:
/// the decoded bytes, or an error, depend on the text alone.
#[verifier::external_body]
pub(crate) fn base64url_decode(s: &str) -> (r: Option<Vec<u8>>)
    ensures
        r matches Some(v) ==> base64url_bytes(s@) == Some(v@),
        r is None ==> base64url_bytes(s@) is None,
{
    base64::Engine::decode(&base64::engine::general_purpose::URL_SAFE_NO_PAD, s).ok()
}

/// The lowercase hexadecimal digit of `n`, for `0 <= n < 16`.
pub open spec fn hex_digit(n: int) -> char {
    seq!['0', '1', '2', '3', '4', '5', '6', '7', '8', '9', 'a', 'b', 'c', 'd', 'e', 'f'][n]
}

/// Which of the 32 hex digits of a UUID stands at position `i` of its
/// hyphenated text, hyphens skipped.
pub open spec fn uuid_digit_index(i: int) -> int {
    if i < 8 {
        i
    } else if i < 13 {
        i - 1
    } else if i < 18 {
        i - 2
    } else if i < 23 {
        i - 3
    } else {
        i - 4
    }
}

/// The lowercase hyphenated text of the UUID whose 128-bit value is `u`:
/// its 32 hex digits, most significant first, in groups of 8, 4, 4, 4 and
/// 12 joined by hyphens.
pub open spec fn uuid_text(u: u128) -> Seq<char> {
    Seq::new(
        36,
        |i: int|
            if i == 8 || i == 13 || i == 18 || i == 23 {
                '-'
            } else {
                hex_digit(((u >> ((124 - 4 * uuid_digit_index(i)) as u32)) & 0xf) as int)
            },
    )
}

/// The UUID that a text denotes, in any of the forms that the `uuid`
/// crate reads, as its 128-bit value.
pub uninterp spec fn parsed_uuid(s: Seq<char>) -> Option<u128>;

/// Relies on `uuid::Uuid::from_u128` and its `Display`, which writes the
/// lowercase hyphenated form, and which `Uuid::parse_str` reads back.
#[verifier::external_body]
pub(crate) fn uuid_to_text(u: u128) -> (r: String)
    ensures
        r@ == uuid_text(u),
        parsed_uuid(r@) == Some(u),
{
    uuid::Uuid::from_u128(u).to_string()
}

/// Relies on `uuid::Uuid::parse_str`, read back with `Uuid::as_u128`: the
/// result depends on the text alone.
#[verifier::external_body]
pub(crate) fn uuid_from_text(s: &str) -> (r: Option<u128>)
    ensures
        r == parsed_uuid(s@),
{
    uuid::Uuid::parse_str(s).ok().map(|u| u.as_u128())
}

/// The base58 text (Bitcoin alphabet) of a byte string.
pub uninterp spec fn base58_text(b: Seq<u8>) -> Seq<char>;

/// Relies on `bs58::encode(..).into_string()`: the text depends on the
/// bytes alone.
#[verifier::external_body]
pub(crate) fn base58_encode(b: &[u8]) -> (r: String)
    ensures
        r@ == base58_text(b@),
{
    bs58::encode(b).into_string()
}

/// What `str::replace` returns: `s` with every non-overlapping occurrence
/// of `from`, taken from the left, replaced by `to`. An empty `from`
/// matches before every character and at the end.
pub open spec fn replaced(s: Seq<char>, from: Seq<char>, to: Seq<char>) -> Seq<char>
    decreases s.len(),
{
    if from.len() == 0 {
        if s.len() == 0 {
            to
        } else {
            to + seq![s[0]] + replaced(s.skip(1), from, to)
        }
    } else if s.len() < from.len() {
        s
    } else if s.subrange(0, from.len() as int) == from {
        to + replaced(s.skip(from.len() as int), from, to)
    } else {
        seq![s[0]] + replaced(s.skip(1), from, to)
    }
}

/// Relies on `str::replace`, as documented.
#[verifier::external_body]
pub(crate) fn replace_all(s: &str, from: &str, to: &str) -> (r: String)
    ensures
        r@ == replaced(s@, from@, to@),
{
    s.replace(from, to)
}

} // verus!
