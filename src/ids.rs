use vstd::prelude::*;

verus! {

/// The 128-bit identifier of a building, a storey, a room or a reservation.
#[derive(Clone, Copy, Debug, PartialEq, Eq, Hash, Structural)]
pub struct AssetId(pub u128);

/// The value of an ASCII hexadecimal digit of either case.
pub open spec fn hex_digit(c: char) -> Option<nat> {
    let n = c as u32;
    if 48 <= n <= 57 {
        Some((n - 48) as nat)
    } else if 97 <= n <= 102 {
        Some((n - 87) as nat)
    } else if 65 <= n <= 70 {
        Some((n - 55) as nat)
    } else {
        None
    }
}

/// The number that a string of hexadecimal digits denotes, most significant
/// digit first; `None` if some character is not a digit.
pub open spec fn hex_value(digits: Seq<char>) -> Option<nat>
    decreases digits.len(),
{
    if digits.len() == 0 {
        Some(0)
    } else {
        match (hex_value(digits.drop_last()), hex_digit(digits.last())) {
            (Some(v), Some(d)) => Some(v * 16 + d),
            _ => None,
        }
    }
}

/// The 32 digits of the hyphenated form `8-4-4-4-12`, hyphens removed.
pub open spec fn dehyphenated(s: Seq<char>) -> Option<Seq<char>> {
    if s.len() == 36 && s[8] == '-' && s[13] == '-' && s[18] == '-' && s[23] == '-' {
        Some(s.subrange(0, 8) + s.subrange(9, 13) + s.subrange(14, 18) + s.subrange(19, 23) + s.subrange(24, 36))
    } else {
        None
    }
}

/// `c` is the character `lower`, or its upper-case ASCII letter.
pub open spec fn ascii_ci_eq(c: char, lower: char) -> bool {
    c == lower || (97 <= lower as u32 <= 122 && c as u32 == lower as u32 - 32)
}

/// The first nine characters spell `urn:uuid:`, in any case.
pub open spec fn urn_prefix(s: Seq<char>) -> bool {
    &&& s.len() >= 9
    &&& ascii_ci_eq(s[0], 'u') && ascii_ci_eq(s[1], 'r') && ascii_ci_eq(s[2], 'n')
    &&& s[3] == ':'
    &&& ascii_ci_eq(s[4], 'u') && ascii_ci_eq(s[5], 'u') && ascii_ci_eq(s[6], 'i') && ascii_ci_eq(s[7], 'd')
    &&& s[8] == ':'
}

/// The 32 digits of a UUID written plain (32 digits), hyphenated, braced
/// (`{...}` round the hyphenated form) or as a URN (`urn:uuid:` before it).
pub open spec fn uuid_digits(s: Seq<char>) -> Option<Seq<char>> {
    if s.len() == 32 {
        Some(s)
    } else if s.len() == 36 {
        dehyphenated(s)
    } else if s.len() == 38 && s[0] == '{' && s[37] == '}' {
        dehyphenated(s.subrange(1, 37))
    } else if s.len() == 45 && urn_prefix(s) {
        dehyphenated(s.subrange(9, 45))
    } else {
        None
    }
}

/// The 128-bit value of a UUID written in one of its text forms.
pub open spec fn uuid_text_value(s: Seq<char>) -> Option<u128> {
    match uuid_digits(s) {
        Some(d) => match hex_value(d) {
            Some(v) => Some(v as u128),
            None => None,
        },
        None => None,
    }
}

/// Relies on `uuid::Uuid::parse_str`, which accepts the plain, hyphenated,
/// braced and URN forms of a UUID (hexadecimal digits of either case) and
/// fails on anything else, and on `uuid::Uuid::as_u128`, which reads the
/// sixteen bytes big-endian, so the value is the digits read as one number.
#[verifier::external_body]
fn parse_uuid(s: &str) -> (r: Option<u128>)
    ensures
        r == uuid_text_value(s@),
{
    match uuid::Uuid::parse_str(s) {
        Ok(u) => Some(u.as_u128()),
        Err(_) => None,
    }
}

/// Relies on `uuid::Uuid::new_v4`, which draws a random version-4 UUID
/// from the operating system's generator (and panics only if that
/// generator fails). Nothing is known of the value drawn.
#[verifier::external_body]
fn random_uuid() -> (r: u128) {
    uuid::Uuid::new_v4().as_u128()
}

/// The identifier a string denotes, if it is a well-formed UUID.
pub open spec fn uuid_of(s: Seq<char>) -> Option<AssetId> {
    match uuid_text_value(s) {
        Some(v) => Some(AssetId(v)),
        None => None,
    }
}

/// Parses a UUID given as text; `None` when the text is not a UUID.
pub fn validate_uuid(input: String) -> (r: Option<AssetId>)
    ensures
        r == uuid_of(input@),
{
    match parse_uuid(input.as_str()) {
        Some(v) => Some(AssetId(v)),
        None => None,
    }
}

/// A freshly drawn random identifier.
pub(crate) fn new_asset_id() -> (r: AssetId) {
    AssetId(random_uuid())
}

} // verus!
