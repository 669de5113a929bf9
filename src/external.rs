//! The outside crates that the library calls: argon2 for password hashes,
//! uuid for random values and session tokens as text, bson for record ids and
//! timestamps as text.
use vstd::prelude::*;
use vstd::string::StringSliceAdditionalSpecFns;
use vstd::utf8::encode_utf8;

verus! {

/// The argon2 encoding (default configuration) of a password's bytes under a
/// 128-bit salt given as its 16 big-endian bytes.
pub uninterp spec fn argon2_encoded_of(password: Seq<u8>, salt: u128) -> Seq<char>;

/// The value of a UUID written as text, or `None` when the text is no UUID.
pub uninterp spec fn uuid_of(text: Seq<u8>) -> Option<u128>;

/// The longest password, in bytes, that argon2 accepts.
pub const MAX_PASSWORD_BYTES: usize = 0xFFFF_FFFF;

/// Relies on `argon2::hash_encoded` with `argon2::Config::default()`: the
/// encoded hash depends on the password and the salt alone. With the default
/// configuration and a 16-byte salt it fails only on a password longer than
/// `u32::MAX` bytes, which `requires` leaves out.
#[verifier::external_body]
pub(crate) fn hash_password(password: &str, salt: u128) -> (r: String)
    requires
        password.spec_bytes().len() <= MAX_PASSWORD_BYTES,
    ensures
        r@ == argon2_encoded_of(password.spec_bytes(), salt),
{
    argon2::hash_encoded(password.as_bytes(), &salt.to_be_bytes(), &argon2::Config::default()).unwrap()
}

/// Relies on `uuid::Uuid::new_v4`: a random 128-bit value. Nothing is promised
/// of it.
#[verifier::external_body]
pub(crate) fn fresh_uuid() -> (r: u128) {
    uuid::Uuid::new_v4().as_u128()
}

/// Relies on `uuid::Uuid::parse_str`: the result depends on the text alone.
#[verifier::external_body]
pub(crate) fn parse_uuid(text: &str) -> (r: Option<u128>)
    ensures
        r == uuid_of(text.spec_bytes()),
{
    match uuid::Uuid::parse_str(text) {
        Ok(u) => Some(u.as_u128()),
        Err(_) => None,
    }
}

/// The lowercase hexadecimal digit of a value below 16.
pub open spec fn hex_char(d: u8) -> char {
    if d < 10 {
        (d + 48) as char
    } else {
        (d + 87) as char
    }
}

/// Two lowercase hexadecimal digits for each byte, high half first.
pub open spec fn hex_text(bytes: Seq<u8>) -> Seq<char> {
    Seq::new(
        2 * bytes.len(),
        |i: int|
            if i % 2 == 0 {
                hex_char(bytes[i / 2] / 16)
            } else {
                hex_char(bytes[i / 2] % 16)
            },
    )
}

/// The value of a hexadecimal digit of either case.
pub open spec fn hex_digit_value(c: u8) -> Option<u8> {
    if 48 <= c <= 57 {
        Some((c - 48) as u8)
    } else if 97 <= c <= 102 {
        Some((c - 87) as u8)
    } else if 65 <= c <= 70 {
        Some((c - 55) as u8)
    } else {
        None
    }
}

/// Whether a text is 24 hexadecimal digits, the form of a 12-byte ObjectId.
pub open spec fn is_object_id_text(text: Seq<u8>) -> bool {
    text.len() == 24 && forall|i: int| 0 <= i < 24 ==> (#[trigger] hex_digit_value(text[i])) is Some
}

/// The 12 bytes that 24 hexadecimal digits stand for.
pub open spec fn object_id_bytes(text: Seq<u8>) -> Seq<u8> {
    Seq::new(
        12,
        |i: int|
            (hex_digit_value(text[2 * i])->Some_0 * 16 + hex_digit_value(text[2 * i + 1])->Some_0) as u8,
    )
}

/// The 16 bytes of a 128-bit value, most significant first.
pub open spec fn u128_bytes(v: u128) -> Seq<u8> {
    Seq::new(16, |i: int| ((v >> ((8 * (15 - i)) as u128)) & 0xff) as u8)
}

/// 32 hexadecimal digits in the groups 8-4-4-4-12, joined by hyphens.
pub open spec fn hyphenated(hex: Seq<char>) -> Seq<char> {
    hex.subrange(0, 8) + seq!['-'] + hex.subrange(8, 12) + seq!['-'] + hex.subrange(12, 16)
        + seq!['-'] + hex.subrange(16, 20) + seq!['-'] + hex.subrange(20, 32)
}

/// The milliseconds since the Unix epoch that an RFC 3339 text denotes,
/// truncated to milliseconds, or `None` when the text is no such date.
pub uninterp spec fn rfc3339_millis_of(text: Seq<u8>) -> Option<i64>;

/// The RFC 3339 text of a time given in milliseconds since the Unix epoch, or
/// `None` when the time has no such text.
pub uninterp spec fn rfc3339_text_of(millis: i64) -> Option<Seq<char>>;

/// Relies on `uuid::Uuid::hyphenated`, written out with `to_string`: the
/// value's 16 bytes as lowercase hexadecimal in hyphen-separated groups, a
/// form that `uuid::Uuid::parse_str` reads back to the same value.
#[verifier::external_body]
pub(crate) fn uuid_text(v: u128) -> (r: String)
    ensures
        r@ == hyphenated(hex_text(u128_bytes(v))),
        uuid_of(encode_utf8(r@)) == Some(v),
{
    uuid::Uuid::from_u128(v).hyphenated().to_string()
}

/// Relies on `bson::oid::ObjectId::to_hex`, which is `hex::encode` of the
/// id's 12 bytes: two lowercase digits per byte.
#[verifier::external_body]
pub(crate) fn object_id_hex(bytes: [u8; 12]) -> (r: String)
    ensures
        r@ == hex_text(bytes@),
{
    bson::oid::ObjectId::from_bytes(bytes).to_hex()
}

/// Relies on `bson::oid::ObjectId::parse_str`, which decodes with
/// `hex::decode` and then asks for 12 bytes: it succeeds exactly on 24
/// hexadecimal digits of either case.
#[verifier::external_body]
pub(crate) fn parse_object_id(text: &str) -> (r: Option<[u8; 12]>)
    ensures
        r is Some <==> is_object_id_text(text.spec_bytes()),
        r is Some ==> r->Some_0@ == object_id_bytes(text.spec_bytes()),
{
    match bson::oid::ObjectId::parse_str(text) {
        Ok(oid) => Some(oid.bytes()),
        Err(_) => None,
    }
}

/// Relies on `bson::DateTime::parse_rfc3339_str` and `timestamp_millis`: the
/// result depends on the text alone.
#[verifier::external_body]
pub(crate) fn parse_rfc3339(text: &str) -> (r: Option<i64>)
    ensures
        r == rfc3339_millis_of(text.spec_bytes()),
{
    match bson::DateTime::parse_rfc3339_str(text) {
        Ok(t) => Some(t.timestamp_millis()),
        Err(_) => None,
    }
}

/// The first millisecond of year 0, in milliseconds since the Unix epoch.
pub const RFC3339_FIRST_MILLIS: i64 = -62_167_219_200_000;

/// The last millisecond of year 9999, in milliseconds since the Unix epoch.
pub const RFC3339_LAST_MILLIS: i64 = 253_402_300_799_999;

/// Whether a time lies in the years 0 to 9999, which RFC 3339 text can write.
pub open spec fn in_rfc3339_range(millis: i64) -> bool {
    RFC3339_FIRST_MILLIS <= millis <= RFC3339_LAST_MILLIS
}

/// Relies on `bson::DateTime::from_millis` and `try_to_rfc3339_string`: the
/// result depends on the time alone. A time in the years 0 to 9999 is
/// converted without clamping and written with its full fraction of a
/// second, so `parse_rfc3339_str` reads the text back to the same time.
#[verifier::external_body]
pub(crate) fn format_rfc3339(millis: i64) -> (r: Option<String>)
    ensures
        r is Some <==> rfc3339_text_of(millis) is Some,
        r is Some ==> rfc3339_text_of(millis) == Some(r->Some_0@),
        in_rfc3339_range(millis) ==> r is Some && rfc3339_millis_of(encode_utf8(r->Some_0@)) == Some(
            millis,
        ),
{
    match bson::DateTime::from_millis(millis).try_to_rfc3339_string() {
        Ok(t) => Some(t),
        Err(_) => None,
    }
}

} // verus!
