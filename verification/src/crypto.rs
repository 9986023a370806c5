//! Tokens, digests and identifiers: the calls into `sha2`, `base64`,
//! `constant_time_eq`, `rand` and `uuid`, and the verified functions built on
//! them.

use vstd::prelude::*;
use vstd::utf8::*;
use base64::Engine;
use rand::TryRng;
use sha2::Digest;

verus! {

/// The error `rand`'s operating-system generator reports.
#[verifier::external_type_specification]
#[verifier::external_body]
pub struct ExSysError(rand::rngs::SysError);

/// The SHA-256 digest of `data`, as `sha2::Sha256` computes it.
pub uninterp spec fn sha256(data: Seq<u8>) -> Seq<u8>;

/// The character of a six-bit value in the URL-safe base64 alphabet of
/// RFC 4648: `A`-`Z`, `a`-`z`, `0`-`9`, `-`, `_`.
pub open spec fn base64_url_char(v: int) -> char {
    if v < 26 {
        (65 + v) as char
    } else if v < 52 {
        (71 + v) as char
    } else if v < 62 {
        (v - 4) as char
    } else if v == 62 {
        '-'
    } else {
        '_'
    }
}

/// The URL-safe base64 text of `data` without padding (RFC 4648): every three
/// bytes give four characters of six bits each; a last one or two bytes give
/// two or three characters, the missing low bits being zero.
pub open spec fn base64_url_no_pad(data: Seq<u8>) -> Seq<char>
    decreases data.len(),
{
    if data.len() == 0 {
        Seq::empty()
    } else if data.len() == 1 {
        seq![base64_url_char((data[0] as int) / 4), base64_url_char(((data[0] as int) % 4) * 16)]
    } else if data.len() == 2 {
        seq![
            base64_url_char((data[0] as int) / 4),
            base64_url_char(((data[0] as int) % 4) * 16 + (data[1] as int) / 16),
            base64_url_char(((data[1] as int) % 16) * 4),
        ]
    } else {
        seq![
            base64_url_char((data[0] as int) / 4),
            base64_url_char(((data[0] as int) % 4) * 16 + (data[1] as int) / 16),
            base64_url_char(((data[1] as int) % 16) * 4 + (data[2] as int) / 64),
            base64_url_char((data[2] as int) % 64),
        ] + base64_url_no_pad(data.subrange(3, data.len() as int))
    }
}

/// The URL-safe base64 alphabet of RFC 4648: letters, digits, `-` and `_`.
pub open spec fn is_url_safe_base64_char(c: char) -> bool {
    let u = c as u32;
    ||| 65 <= u <= 90
    ||| 97 <= u <= 122
    ||| 48 <= u <= 57
    ||| c == '-'
    ||| c == '_'
}

/// A lower-case hexadecimal digit.
pub open spec fn is_lower_hex_char(c: char) -> bool {
    let u = c as u32;
    ||| 48 <= u <= 57
    ||| 97 <= u <= 102
}

/// The lower-case hexadecimal digit of a value below sixteen.
pub open spec fn hex_char(v: int) -> char {
    if v < 10 {
        (48 + v) as char
    } else {
        (87 + v) as char
    }
}

/// Byte `i` of a version 4, RFC variant UUID made from 16 random bytes: the
/// high four bits of byte 6 become the version 4, the high two bits of byte 8
/// become the variant `10`.
pub open spec fn uuid_v4_byte(bytes: Seq<u8>, i: int) -> int {
    if i == 6 {
        (bytes[6] as int) % 16 + 64
    } else if i == 8 {
        (bytes[8] as int) % 64 + 128
    } else {
        bytes[i] as int
    }
}

/// How many hyphens come before position `k` of hyphenated UUID text.
pub open spec fn uuid_hyphens_before(k: int) -> int {
    if k < 8 {
        0
    } else if k < 13 {
        1
    } else if k < 18 {
        2
    } else if k < 23 {
        3
    } else {
        4
    }
}

/// The hyphenated lower-case text of the version 4 UUID made from 16 random
/// bytes: two hex digits per byte, high digit first, with hyphens after the
/// 4th, 6th, 8th and 10th byte.
pub open spec fn uuid_v4_text_of(bytes: Seq<u8>) -> Seq<char> {
    Seq::new(
        36,
        |k: int|
            if k == 8 || k == 13 || k == 18 || k == 23 {
                '-'
            } else {
                let j = k - uuid_hyphens_before(k);
                let b = uuid_v4_byte(bytes, j / 2);
                if j % 2 == 0 {
                    hex_char(b / 16)
                } else {
                    hex_char(b % 16)
                }
            },
    )
}

/// The hyphenated lower-case text of a random (version 4, RFC variant) UUID:
/// `xxxxxxxx-xxxx-4xxx-Vxxx-xxxxxxxxxxxx` with `V` one of `8`, `9`, `a`, `b`.
pub open spec fn is_uuid_v4_text(s: Seq<char>) -> bool {
    &&& s.len() == 36
    &&& forall|i: int|
        0 <= i < 36 ==> if i == 8 || i == 13 || i == 18 || i == 23 {
            #[trigger] s[i] == '-'
        } else {
            is_lower_hex_char(s[i])
        }
    &&& s[14] == '4'
    &&& (s[19] == '8' || s[19] == '9' || s[19] == 'a' || s[19] == 'b')
}

/// `sha2::Sha256::digest`: the contract says that the 32 bytes returned are
/// the digest of `data`, named by `sha256`.
#[verifier::external_body]
fn sha256_digest(data: &[u8]) -> (d: [u8; 32])
    ensures
        d@ == sha256(data@),
{
    sha2::Sha256::digest(data).into()
}

/// `base64::engine::general_purpose::URL_SAFE_NO_PAD.encode`: the contract
/// says that the text returned is the unpadded URL-safe base64 text of
/// `data`, as `base64_url_no_pad` states it.
/// The engine panics when the encoded length overflows `usize`; the bound on
/// `data` keeps clear of that.
#[verifier::external_body]
fn encode_base64_url_no_pad(data: &[u8]) -> (s: String)
    requires
        data@.len() <= usize::MAX / 2,
    ensures
        s@ == base64_url_no_pad(data@),
{
    base64::engine::general_purpose::URL_SAFE_NO_PAD.encode(data)
}

/// `constant_time_eq::constant_time_eq`: the contract says that the result
/// is whether the two byte strings are equal (unequal lengths give `false`).
/// The time taken does not depend on the contents; nothing here states that.
#[verifier::external_body]
fn constant_time_eq_bytes(a: &[u8], b: &[u8]) -> (r: bool)
    ensures
        r == (a@ == b@),
{
    constant_time_eq::constant_time_eq(a, b)
}

/// `rand::rngs::SysRng::try_fill_bytes` on a buffer of `N` bytes. The bytes
/// come from the operating system's generator, so nothing is stated of them,
/// nor of when the call fails.
#[verifier::external_body]
fn os_random_bytes<const N: usize>() -> (r: Result<[u8; N], rand::rngs::SysError>) {
    let mut bytes = [0u8; N];
    rand::rngs::SysRng.try_fill_bytes(&mut bytes)?;
    Ok(bytes)
}

/// The text that the generator's error writes through `Display`. It comes
/// from the operating system; nothing is stated of it.
#[verifier::external_body]
fn sys_error_text(e: &rand::rngs::SysError) -> (s: String) {
    e.to_string()
}

/// `uuid::Builder::from_random_bytes(bytes).into_uuid()` written with
/// `to_string`: the contract says that the text is the hyphenated lower-case
/// text of the version 4 UUID made from `bytes`, as `uuid_v4_text_of` states it.
#[verifier::external_body]
fn uuid_v4_text_from_bytes(bytes: [u8; 16]) -> (s: String)
    ensures
        s@ == uuid_v4_text_of(bytes@),
{
    uuid::Builder::from_random_bytes(bytes).into_uuid().to_string()
}

/// Why a token or an identifier could not be made.
#[derive(Debug, PartialEq, Eq)]
pub enum TokenError {
    /// The operating system's random generator failed, with this message.
    RandomnessUnavailable { message: String },
}

/// The stored form of a device token: the URL-safe base64 text of the
/// SHA-256 digest of the token's UTF-8 bytes.
pub open spec fn token_hash(token: Seq<char>) -> Seq<char> {
    base64_url_no_pad(sha256(encode_utf8(token)))
}

/// Hashes a device token for storage.
pub fn hash_token(token: &str) -> (h: String)
    ensures
        h@ == token_hash(token@),
{
    let digest = sha256_digest(token.as_bytes());
    encode_base64_url_no_pad(&digest)
}

/// The SHA-256 digest of the UTF-8 bytes of `text`.
pub fn sha256_of_text(text: &str) -> (d: [u8; 32])
    ensures
        d@ == sha256(encode_utf8(text@)),
{
    sha256_digest(text.as_bytes())
}

/// Whether two byte strings are equal, compared in constant time.
pub fn bytes_equal_constant_time(a: &[u8], b: &[u8]) -> (r: bool)
    ensures
        r == (a@ == b@),
{
    constant_time_eq_bytes(a, b)
}

/// Whether two texts are equal, compared in constant time on their UTF-8
/// bytes.
pub fn text_equal_constant_time(a: &str, b: &str) -> (r: bool)
    ensures
        r == (a@ == b@),
{
    let r = constant_time_eq_bytes(a.as_bytes(), b.as_bytes());
    proof {
        if encode_utf8(a@) == encode_utf8(b@) {
            encode_utf8_decode_utf8(a@);
            encode_utf8_decode_utf8(b@);
        }
    }
    r
}

proof fn lemma_base64_url_char(v: int)
    requires
        0 <= v < 64,
    ensures
        is_url_safe_base64_char(base64_url_char(v)),
{
}

/// The unpadded base64 text of `n` bytes has `(4n + 2) / 3` characters, all in
/// the URL-safe alphabet.
pub proof fn lemma_base64_url_no_pad_shape(data: Seq<u8>)
    ensures
        base64_url_no_pad(data).len() == (4 * data.len() + 2) / 3,
        forall|i: int|
            0 <= i < base64_url_no_pad(data).len() ==> is_url_safe_base64_char(
                #[trigger] base64_url_no_pad(data)[i],
            ),
    decreases data.len(),
{
    let t = base64_url_no_pad(data);
    if data.len() == 0 {
    } else if data.len() < 3 {
        lemma_base64_url_char((data[0] as int) / 4);
        if data.len() == 1 {
            lemma_base64_url_char(((data[0] as int) % 4) * 16);
        } else {
            lemma_base64_url_char(((data[0] as int) % 4) * 16 + (data[1] as int) / 16);
            lemma_base64_url_char(((data[1] as int) % 16) * 4);
        }
    } else {
        let rest = data.subrange(3, data.len() as int);
        lemma_base64_url_no_pad_shape(rest);
        lemma_base64_url_char((data[0] as int) / 4);
        lemma_base64_url_char(((data[0] as int) % 4) * 16 + (data[1] as int) / 16);
        lemma_base64_url_char(((data[1] as int) % 16) * 4 + (data[2] as int) / 64);
        lemma_base64_url_char((data[2] as int) % 64);
        let head = seq![
            base64_url_char((data[0] as int) / 4),
            base64_url_char(((data[0] as int) % 4) * 16 + (data[1] as int) / 16),
            base64_url_char(((data[1] as int) % 16) * 4 + (data[2] as int) / 64),
            base64_url_char((data[2] as int) % 64),
        ];
        assert(t == head + base64_url_no_pad(rest));
        assert forall|i: int| 0 <= i < t.len() implies is_url_safe_base64_char(#[trigger] t[i]) by {
            if i >= 4 {
                assert(t[i] == base64_url_no_pad(rest)[i - 4]);
            }
        }
    }
}

/// Every text made from bytes by `uuid_v4_text_of` has the shape of a random
/// UUID.
pub proof fn lemma_uuid_v4_text_shape(bytes: Seq<u8>)
    requires
        bytes.len() == 16,
    ensures
        is_uuid_v4_text(uuid_v4_text_of(bytes)),
{
    let s = uuid_v4_text_of(bytes);
    assert forall|k: int| 0 <= k < 36 implies if k == 8 || k == 13 || k == 18 || k == 23 {
        #[trigger] s[k] == '-'
    } else {
        is_lower_hex_char(s[k])
    } by {
        if !(k == 8 || k == 13 || k == 18 || k == 23) {
            let j = k - uuid_hyphens_before(k);
            assert(0 <= j < 32);
            let b = uuid_v4_byte(bytes, j / 2);
            assert(0 <= b < 256);
        }
    }
    assert(s[14] == hex_char(uuid_v4_byte(bytes, 6) / 16));
    assert(uuid_v4_byte(bytes, 6) / 16 == 4);
    let v = uuid_v4_byte(bytes, 8) / 16;
    assert(s[19] == hex_char(v));
    assert(8 <= v < 12);
}

/// The token text for 32 random bytes: their URL-safe base64 encoding.
pub fn encode_token(bytes: &[u8; 32]) -> (t: String)
    ensures
        t@ == base64_url_no_pad(bytes@),
        forall|i: int| 0 <= i < t@.len() ==> is_url_safe_base64_char(#[trigger] t@[i]),
        t@.len() == 43,
{
    proof {
        lemma_base64_url_no_pad_shape(bytes@);
    }
    encode_base64_url_no_pad(bytes)
}

/// A fresh authentication token: 32 bytes from the operating system's
/// generator, encoded as URL-safe base64 without padding. When the generator
/// fails, the error carries its message.
pub fn generate_auth_token() -> (r: Result<String, TokenError>)
    ensures
        r matches Ok(t) ==> {
            &&& exists|b: Seq<u8>| b.len() == 32 && t@ == base64_url_no_pad(b)
            &&& forall|i: int| 0 <= i < t@.len() ==> is_url_safe_base64_char(#[trigger] t@[i])
            &&& t@.len() == 43
        },
{
    match os_random_bytes::<32>() {
        Ok(bytes) => {
            let t = encode_token(&bytes);
            proof {
                assert(bytes@.len() == 32);
            }
            Ok(t)
        },
        Err(e) => Err(TokenError::RandomnessUnavailable { message: sys_error_text(&e) }),
    }
}

/// The device identifier made from 16 random bytes: the hyphenated text of
/// the version 4 UUID they give.
pub fn device_uuid_from_bytes(bytes: [u8; 16]) -> (s: String)
    ensures
        s@ == uuid_v4_text_of(bytes@),
        is_uuid_v4_text(s@),
{
    proof {
        lemma_uuid_v4_text_shape(bytes@);
    }
    uuid_v4_text_from_bytes(bytes)
}

/// A fresh random device identifier, in hyphenated UUID text, from 16 bytes of
/// the operating system's generator. When the generator fails, the error
/// carries its message.
pub fn new_device_uuid() -> (r: Result<String, TokenError>)
    ensures
        r matches Ok(s) ==> {
            &&& exists|b: Seq<u8>| b.len() == 16 && s@ == uuid_v4_text_of(b)
            &&& is_uuid_v4_text(s@)
        },
{
    match os_random_bytes::<16>() {
        Ok(bytes) => {
            let s = device_uuid_from_bytes(bytes);
            proof {
                assert(bytes@.len() == 16);
            }
            Ok(s)
        },
        Err(e) => Err(TokenError::RandomnessUnavailable { message: sys_error_text(&e) }),
    }
}

} // verus!
