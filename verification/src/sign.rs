//! Minting IM user signatures.
//!
//! A signature is a deterministic function of the identifier, the
//! application id, the validity window, and the signing time: an
//! HMAC-SHA-256 over a fixed content string, wrapped in a JSON payload,
//! deflate-compressed, base64-encoded, and finally mapped onto a
//! URL-safe alphabet.  The outside digest, compression, encoding, and
//! string-escaping steps are named; the content and payload assembly,
//! the decimal rendering, and the URL-safe mapping are verified.

use vstd::prelude::*;
use vstd::string::{StrSliceExecFns, StringExecFns, StringSliceAdditionalSpecFns};
use crate::errors::CustomError;

verus! {

/// The digit character for one decimal digit.
pub open spec fn digit_char(d: nat) -> char {
    if d == 0 {
        '0'
    } else if d == 1 {
        '1'
    } else if d == 2 {
        '2'
    } else if d == 3 {
        '3'
    } else if d == 4 {
        '4'
    } else if d == 5 {
        '5'
    } else if d == 6 {
        '6'
    } else if d == 7 {
        '7'
    } else if d == 8 {
        '8'
    } else {
        '9'
    }
}

/// The decimal digits of `n`, most significant first.
pub open spec fn dec_of(n: nat) -> Seq<char>
    decreases n,
{
    if n < 10 {
        seq![digit_char(n)]
    } else {
        dec_of(n / 10).push(digit_char(n % 10))
    }
}

/// The decimal rendering of a signed value.
pub open spec fn i64_dec_of(v: int) -> Seq<char> {
    if v >= 0 {
        dec_of(v as nat)
    } else {
        seq!['-'] + dec_of((-v) as nat)
    }
}

/// The signed content string: the exact line format the IM service
/// verifies signatures against.
pub open spec fn content_of(identifier: Seq<char>, sdk_app_id: u64, now: i64, expire: u64) -> Seq<
    char,
> {
    "TLS.identifier:"@ + identifier + "\nTLS.sdkappid:"@ + dec_of(sdk_app_id as nat)
        + "\nTLS.time:"@ + i64_dec_of(now as int) + "\nTLS.expire:"@ + dec_of(expire as nat)
        + "\n"@
}

/// The URL-safe substitute of one base64 character.
pub open spec fn urlsafe_char(c: char) -> char {
    if c == '+' {
        '*'
    } else if c == '/' {
        '-'
    } else if c == '=' {
        '_'
    } else {
        c
    }
}

/// The URL-safe mapping of a whole string.
pub open spec fn urlsafe_map(s: Seq<char>) -> Seq<char> {
    Seq::new(s.len(), |i: int| urlsafe_char(s[i]))
}

/// What HMAC-SHA-256 computes over a key and a message.
pub uninterp spec fn hmac_sha256_of(key: Seq<u8>, msg: Seq<u8>) -> Seq<u8>;

/// What standard (padded) base64 encodes the bytes to.
pub uninterp spec fn base64_std_of(bytes: Seq<u8>) -> Seq<char>;

/// What zlib compression at the default level produces for the bytes.
pub uninterp spec fn zlib_of(bytes: Seq<u8>) -> Seq<u8>;

/// What a JSON string literal for these characters looks like, the
/// surrounding quotes included.
pub uninterp spec fn json_str_of(s: Seq<char>) -> Seq<char>;

/// The signature's JSON payload: a compact object whose keys appear in
/// sorted order, exactly as the service's reference rendering emits it.
pub open spec fn payload_of(
    identifier: Seq<char>,
    sdk_app_id: u64,
    expire: u64,
    now: i64,
    sig: Seq<char>,
) -> Seq<char> {
    "{\"TLS.expire\":"@ + dec_of(expire as nat) + ",\"TLS.identifier\":"@ + json_str_of(identifier)
        + ",\"TLS.sdkappid\":"@ + dec_of(sdk_app_id as nat) + ",\"TLS.sig\":"@ + json_str_of(sig)
        + ",\"TLS.time\":"@ + i64_dec_of(now as int) + ",\"TLS.ver\":\"2.0\"}"@
}

/// Relies on `hmac::Hmac<sha2::Sha256>`: the tag is a function of key
/// and message alone and is 32 bytes long; `new_from_slice` accepts
/// keys of any length for HMAC, so it cannot fail.
#[verifier::external_body]
fn hmac_sha256(key: &str, msg: &str) -> (r: Vec<u8>)
    ensures
        r@ == hmac_sha256_of(key.spec_bytes(), msg.spec_bytes()),
        r@.len() == 32,
{
    let mut mac = <hmac::Hmac<sha2::Sha256> as hmac::Mac>::new_from_slice(key.as_bytes())
        .expect("HMAC accepts keys of any length");
    hmac::Mac::update(&mut mac, msg.as_bytes());
    hmac::Mac::finalize(mac).into_bytes().to_vec()
}

/// Relies on `base64::engine::general_purpose::STANDARD.encode`: the
/// padded standard-alphabet encoding, a function of the bytes alone.
#[verifier::external_body]
fn base64_encode(bytes: &[u8]) -> (r: String)
    ensures
        r@ == base64_std_of(bytes@),
{
    base64::Engine::encode(&base64::engine::general_purpose::STANDARD, bytes)
}

/// Relies on `flate2::write::ZlibEncoder` at the default compression
/// level: deterministic for given input bytes; writing into an
/// in-memory buffer cannot fail.
#[verifier::external_body]
fn zlib_compress(bytes: &[u8]) -> (r: Vec<u8>)
    ensures
        r@ == zlib_of(bytes@),
{
    let mut enc = flate2::write::ZlibEncoder::new(Vec::new(), flate2::Compression::default());
    let _ = std::io::Write::write_all(&mut enc, bytes);
    enc.finish().unwrap_or_default()
}

/// Relies on `serde_json::to_string` on a `&str`: the quoted, escaped
/// JSON string literal, a function of the characters alone; rendering
/// a plain string cannot fail.
#[verifier::external_body]
fn json_quote(s: &str) -> (r: String)
    ensures
        r@ == json_str_of(s@),
{
    serde_json::to_string(s).unwrap_or_default()
}

/// Assembles the signature's JSON payload, keys in sorted order as the
/// reference rendering has them.
fn build_payload(
    identifier: &str,
    sdk_app_id: u64,
    expire_seconds: u64,
    now_seconds: i64,
    sig: &str,
) -> (r: String)
    ensures
        r@ == payload_of(identifier@, sdk_app_id, expire_seconds, now_seconds, sig@),
{
    let mut p = "{\"TLS.expire\":".to_owned();
    p.append(u64_to_string(expire_seconds).as_str());
    p.append(",\"TLS.identifier\":");
    p.append(json_quote(identifier).as_str());
    p.append(",\"TLS.sdkappid\":");
    p.append(u64_to_string(sdk_app_id).as_str());
    p.append(",\"TLS.sig\":");
    p.append(json_quote(sig).as_str());
    p.append(",\"TLS.time\":");
    p.append(i64_to_string(now_seconds).as_str());
    p.append(",\"TLS.ver\":\"2.0\"}");
    proof {
        assert(p@ =~= payload_of(identifier@, sdk_app_id, expire_seconds, now_seconds, sig@));
    }
    p
}

/// One decimal digit as text.
fn digit_str(d: u64) -> (r: &'static str)
    requires
        d < 10,
    ensures
        r@ == seq![digit_char(d as nat)],
{
    let r: &'static str = match d {
        0 => "0",
        1 => "1",
        2 => "2",
        3 => "3",
        4 => "4",
        5 => "5",
        6 => "6",
        7 => "7",
        8 => "8",
        _ => "9",
    };
    proof {
        reveal_strlit("0");
        reveal_strlit("1");
        reveal_strlit("2");
        reveal_strlit("3");
        reveal_strlit("4");
        reveal_strlit("5");
        reveal_strlit("6");
        reveal_strlit("7");
        reveal_strlit("8");
        reveal_strlit("9");
        assert(r@ =~= seq![digit_char(d as nat)]);
    }
    r
}

/// Renders an unsigned value in decimal.
fn u64_to_string(n: u64) -> (r: String)
    ensures
        r@ == dec_of(n as nat),
    decreases n,
{
    if n < 10 {
        let r = digit_str(n).to_owned();
        proof {
            assert(r@ =~= dec_of(n as nat));
        }
        r
    } else {
        let mut s = u64_to_string(n / 10);
        s.append(digit_str(n % 10));
        proof {
            assert(s@ =~= dec_of(n as nat));
        }
        s
    }
}

/// Renders a signed value in decimal.
fn i64_to_string(n: i64) -> (r: String)
    ensures
        r@ == i64_dec_of(n as int),
{
    if n >= 0 {
        let r = u64_to_string(n as u64);
        r
    } else {
        let m: u64 = (-(n as i128)) as u64;
        let mut s = "-".to_owned();
        s.append(u64_to_string(m).as_str());
        proof {
            reveal_strlit("-");
            assert(s@ =~= i64_dec_of(n as int));
        }
        s
    }
}

/// Builds the signed content string.
fn build_content(identifier: &str, sdk_app_id: u64, now_seconds: i64, expire_seconds: u64) -> (r:
    String)
    ensures
        r@ == content_of(identifier@, sdk_app_id, now_seconds, expire_seconds),
{
    let mut c = "TLS.identifier:".to_owned();
    c.append(identifier);
    c.append("\nTLS.sdkappid:");
    c.append(u64_to_string(sdk_app_id).as_str());
    c.append("\nTLS.time:");
    c.append(i64_to_string(now_seconds).as_str());
    c.append("\nTLS.expire:");
    c.append(u64_to_string(expire_seconds).as_str());
    c.append("\n");
    proof {
        assert(c@ =~= content_of(identifier@, sdk_app_id, now_seconds, expire_seconds));
    }
    c
}

/// Maps a base64 string onto the URL-safe alphabet the IM service
/// expects: `+` becomes `*`, `/` becomes `-`, `=` becomes `_`.
pub fn usersig_encode_urlsafe(b64: String) -> (r: String)
    ensures
        r@ == urlsafe_map(b64@),
{
    let s = b64.as_str();
    let n = s.unicode_len();
    let mut r = String::new();
    let mut i: usize = 0;
    while i < n
        invariant
            i <= n,
            n == s@.len(),
            s@ == b64@,
            r@.len() == i,
            forall|j: int| 0 <= j < i ==> r@[j] == urlsafe_char(s@[j]),
        decreases n - i,
    {
        let c = s.get_char(i);
        if c == '+' {
            r.append("*");
            proof {
                reveal_strlit("*");
            }
        } else if c == '/' {
            r.append("-");
            proof {
                reveal_strlit("-");
            }
        } else if c == '=' {
            r.append("_");
            proof {
                reveal_strlit("_");
            }
        } else {
            let piece = s.substring_char(i, i + 1);
            r.append(piece);
        }
        i = i + 1;
    }
    proof {
        assert(r@ =~= urlsafe_map(b64@));
    }
    r
}

/// What the whole minting pipeline produces for these inputs.
pub open spec fn spec_user_sig(
    identifier: Seq<char>,
    sdk_app_id: u64,
    secret: Seq<u8>,
    expire_seconds: u64,
    now_seconds: i64,
) -> Seq<char> {
    let content = content_of(identifier, sdk_app_id, now_seconds, expire_seconds);
    let sig = base64_std_of(hmac_sha256_of(secret, vstd::utf8::encode_utf8(content)));
    let payload = payload_of(identifier, sdk_app_id, expire_seconds, now_seconds, sig);
    urlsafe_map(base64_std_of(zlib_of(vstd::utf8::encode_utf8(payload))))
}

/// Mints the user signature: signs the content line, wraps the
/// signature in the JSON payload, compresses, encodes, and maps to the
/// URL-safe alphabet.  The pipeline cannot fail.
pub fn generate_user_sig(
    identifier: &str,
    sdk_app_id: u64,
    secret_key: &str,
    expire_seconds: u64,
    now_seconds: i64,
) -> (r: Result<String, CustomError>)
    ensures
        r matches Ok(s) && s@ == spec_user_sig(
            identifier@,
            sdk_app_id,
            secret_key.spec_bytes(),
            expire_seconds,
            now_seconds,
        ),
{
    let content = build_content(identifier, sdk_app_id, now_seconds, expire_seconds);
    let mac = hmac_sha256(secret_key, content.as_str());
    let sig = base64_encode(mac.as_slice());
    let payload = build_payload(
        identifier,
        sdk_app_id,
        expire_seconds,
        now_seconds,
        sig.as_str(),
    );
    let compressed = zlib_compress(payload.as_str().as_bytes());
    let b64 = base64_encode(compressed.as_slice());
    Ok(usersig_encode_urlsafe(b64))
}

} // verus!
