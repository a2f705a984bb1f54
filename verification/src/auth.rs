//! Webhook authentication: the `X-Hub-Signature-256` header against the
//! configured pre-shared keys.
//!
//! A request is accepted exactly when the header reads `sha256=<hex>`
//! and some configured key's HMAC-SHA256 over the raw body equals the
//! bytes the hex spells.  Digests are compared without short-circuiting,
//! so the time taken does not depend on where two digests differ.

use vstd::prelude::*;
use vstd::string::{StrSliceExecFns, StringSliceAdditionalSpecFns};
use vstd::utf8::is_ascii_chars;
use crate::strutil::str_eq;
use hmac::Mac;

verus! {

broadcast use vstd::string::is_ascii_spec_bytes;

/// What HMAC-SHA256 of a key and a message is.  The digest is a pure
/// function of the two inputs; its definition is RFC 2104 over SHA-256,
/// carried out by the hmac and sha2 crates, and is only named here.
pub uninterp spec fn hmac_sha256(key: Seq<u8>, msg: Seq<u8>) -> Seq<u8>;

/// Relies on hmac::Hmac over sha2::Sha256: the digest depends on the key
/// and message alone and is 32 bytes, SHA-256's output size.  Any key
/// length is accepted (the implementation hashes or pads the key).
#[verifier::external_body]
fn hmac_sha256_digest(key: &[u8], msg: &[u8]) -> (r: Vec<u8>)
    ensures
        r@ == hmac_sha256(key@, msg@),
        r@.len() == 32,
{
    let mut mac = <hmac::Hmac<sha2::Sha256> as Mac>::new_from_slice(key).expect(
        "HMAC accepts keys of any length",
    );
    mac.update(msg);
    mac.finalize().into_bytes().to_vec()
}

/// An ASCII hex digit, as a byte.
pub open spec fn is_hex_digit(b: u8) -> bool {
    (48 <= b <= 57) || (97 <= b <= 102) || (65 <= b <= 70)
}

/// The value of one hex digit; digits beyond `9` count from ten in
/// either case.
pub open spec fn hex_digit_val(b: u8) -> u8 {
    if 48 <= b <= 57 {
        (b - 48) as u8
    } else if 97 <= b <= 102 {
        (b - 87) as u8
    } else {
        (b - 55) as u8
    }
}

/// An even-length run of hex digits: what decodes to bytes.
pub open spec fn is_hex_seq(s: Seq<u8>) -> bool {
    s.len() % 2 == 0 && forall|i: int| 0 <= i < s.len() ==> is_hex_digit(#[trigger] s[i])
}

/// The bytes an even-length hex string spells, high digit first.
pub open spec fn hex_bytes(s: Seq<u8>) -> Seq<u8> {
    Seq::new((s.len() / 2) as nat, |i: int| (hex_digit_val(s[2 * i]) * 16 + hex_digit_val(s[2 * i + 1])) as u8)
}

/// Relies on hex::decode: it succeeds exactly on even-length sequences
/// of ASCII hex digits, of either case, and returns the bytes the digit
/// pairs spell, high digit first.
#[verifier::external_body]
fn hex_decode(data: &[u8]) -> (r: Option<Vec<u8>>)
    ensures
        match r {
            Some(bytes) => is_hex_seq(data@) && bytes@ == hex_bytes(data@),
            None => !is_hex_seq(data@),
        },
{
    match hex::decode(data) {
        Ok(v) => Some(v),
        Err(_) => None,
    }
}

/// Whether two byte strings are equal, visiting every byte of equal-length
/// inputs whatever the answer, so that comparison time does not reveal a
/// difference's position.
pub fn constant_time_eq(a: &Vec<u8>, b: &Vec<u8>) -> (r: bool)
    ensures
        r == (a@ == b@),
{
    let n = a.len();
    if n != b.len() {
        proof {
            assert(a@ != b@);
        }
        return false;
    }
    let mut acc: u8 = 0;
    let mut i: usize = 0;
    while i < n
        invariant
            n == a@.len(),
            n == b@.len(),
            i <= n,
            (acc == 0) <==> (forall|k: int| 0 <= k < i ==> a@[k] == b@[k]),
        decreases n - i,
    {
        let x = a[i];
        let y = b[i];
        let d = x ^ y;
        proof {
            assert((x ^ y == 0) == (x == y)) by (bit_vector);
            assert((acc | d == 0) == (acc == 0 && d == 0)) by (bit_vector);
        }
        acc = acc | d;
        i = i + 1;
    }
    if acc == 0 {
        proof {
            assert(a@ =~= b@);
        }
        true
    } else {
        false
    }
}

/// Some configured pre-shared key signs the body to exactly this digest.
pub open spec fn some_psk_signs(psks: Seq<Vec<u8>>, body: Seq<u8>, digest: Seq<u8>) -> bool {
    exists|i: int| 0 <= i < psks.len() && hmac_sha256((#[trigger] psks[i])@, body) == digest
}

/// The bytes of an ASCII character sequence, character for character.
pub open spec fn ascii_bytes(s: Seq<char>) -> Seq<u8> {
    Seq::new(s.len(), |i: int| s[i] as u8)
}

/// When a signature header authenticates a body against a set of keys:
/// the header is present, reads `sha256=` followed by ASCII hex, and the
/// bytes that hex spells are the HMAC-SHA256 digest of the body under at
/// least one configured key.
pub open spec fn auth_accepts(psks: Seq<Vec<u8>>, body: Seq<u8>, header: Option<Seq<char>>) -> bool {
    match header {
        None => false,
        Some(h) => {
            &&& h.len() >= 7
            &&& h.subrange(0, 7) == "sha256="@
            &&& is_ascii_chars(h.skip(7))
            &&& is_hex_seq(ascii_bytes(h.skip(7)))
            &&& some_psk_signs(psks, body, hex_bytes(ascii_bytes(h.skip(7))))
        },
    }
}

/// The view of the optional signature header.
pub open spec fn header_view(h: Option<&String>) -> Option<Seq<char>> {
    match h {
        Some(s) => Some(s@),
        None => None,
    }
}

/// Decide whether a webhook body is authenticated: true exactly when
/// some configured pre-shared key produces the digest the header sent.
/// Nothing about which key matched, or what digest was expected, leaves
/// this function.
pub fn webhook_auth_ok(
    psks: &Vec<Vec<u8>>,
    body: &Vec<u8>,
    signature_header: Option<&String>,
) -> (r: bool)
    ensures
        r == auth_accepts(psks@, body@, header_view(signature_header)),
{
    let h: &String = match signature_header {
        Some(h) => h,
        None => {
            return false;
        },
    };
    let hs: &str = h.as_str();
    let n = hs.unicode_len();
    if n < 7 {
        return false;
    }
    let prefix = hs.substring_char(0, 7);
    if !str_eq(prefix, "sha256=") {
        proof {
            assert(h@.subrange(0, 7) != "sha256="@);
        }
        return false;
    }
    let tail = hs.substring_char(7, n);
    proof {
        assert(tail@ =~= h@.skip(7));
    }
    if !tail.is_ascii() {
        return false;
    }
    let tail_bytes = tail.as_bytes_vec();
    proof {
        assert(tail_bytes@ =~= ascii_bytes(h@.skip(7)));
    }
    let digest = match hex_decode(tail_bytes.as_slice()) {
        Some(d) => d,
        None => {
            return false;
        },
    };
    let m = psks.len();
    let mut i: usize = 0;
    while i < m
        invariant
            m == psks@.len(),
            i <= m,
            header_view(signature_header) == Some(h@),
            h@.len() >= 7,
            h@.subrange(0, 7) == "sha256="@,
            is_ascii_chars(h@.skip(7)),
            is_hex_seq(ascii_bytes(h@.skip(7))),
            digest@ == hex_bytes(ascii_bytes(h@.skip(7))),
            forall|k: int|
                0 <= k < i ==> hmac_sha256((#[trigger] psks@[k])@, body@) != digest@,
        decreases m - i,
    {
        let mac = hmac_sha256_digest(psks[i].as_slice(), body.as_slice());
        if constant_time_eq(&mac, &digest) {
            proof {
                assert(hmac_sha256(psks@[i as int]@, body@) == digest@);
            }
            return true;
        }
        i = i + 1;
    }
    false
}

} // verus!
