//! Edit keys: a truncated HMAC-SHA256 of the identifier under the
//! process secret, in lower-case hexadecimal.

use crypto::hmac::Hmac;
use crypto::mac::Mac;
use crypto::sha2::Sha256;
use vstd::prelude::*;
use vstd::utf8::{encode_scalar, encode_utf8};

verus! {

/// Number of MAC bytes that make up an edit key.
pub const KEY_BYTES: usize = 8;

/// Number of bytes of an HMAC-SHA256 code.
pub const MAC_BYTES: usize = 32;

/// HMAC-SHA256 of `msg` under `key`.
pub uninterp spec fn hmac_sha256(key: Seq<u8>, msg: Seq<u8>) -> Seq<u8>;

/// Relies on rust-crypto's `Hmac::new(Sha256::new(), key)`, `Mac::input` and
/// `Mac::result`: the 32-byte HMAC-SHA256 code of `msg` under `key`.
#[verifier::external_body]
fn hmac_sha256_code(key: &[u8], msg: &[u8]) -> (r: Vec<u8>)
    ensures
        r@ == hmac_sha256(key@, msg@),
        r@.len() == MAC_BYTES,
{
    let mut mac = Hmac::new(Sha256::new(), key);
    mac.input(msg);
    mac.result().code().to_vec()
}

/// The lower-case hexadecimal digit of value `v`.
pub open spec fn hex_char(v: int) -> char {
    if v < 10 {
        ('0' as int + v) as char
    } else {
        ('a' as int + (v - 10)) as char
    }
}

/// Whether every character of `s` is a lower-case hexadecimal digit.
pub open spec fn is_lower_hex(s: Seq<char>) -> bool {
    forall|i: int| 0 <= i < s.len() ==> ('0' <= #[trigger] s[i] <= '9' || 'a' <= s[i] <= 'f')
}

/// Lower-case hexadecimal text of `b`: two digits per byte, high half first.
pub open spec fn hex_lower(b: Seq<u8>) -> Seq<char> {
    Seq::new(
        2 * b.len(),
        |i: int|
            if i % 2 == 0 {
                hex_char(b[i / 2] as int / 16)
            } else {
                hex_char(b[i / 2] as int % 16)
            },
    )
}

/// The edit key of the paste `id` under `secret`: the first `KEY_BYTES`
/// bytes of the HMAC-SHA256 of the identifier's UTF-8 bytes, in lower-case
/// hexadecimal.
pub open spec fn edit_key(secret: Seq<u8>, id: Seq<char>) -> Seq<char> {
    hex_lower(hmac_sha256(secret, encode_utf8(id)).take(KEY_BYTES as int))
}

/// The process-wide key under which edit keys are derived; never empty.
pub struct Secret {
    bytes: Vec<u8>,
}

impl View for Secret {
    type V = Seq<u8>;

    closed spec fn view(&self) -> Seq<u8> {
        self.bytes@
    }
}

impl Secret {
    #[verifier::type_invariant]
    spec fn nonempty(&self) -> bool {
        self.bytes@.len() > 0
    }

    /// A secret made of `bytes`, or `None` where `bytes` is empty: an empty
    /// secret would give every paste the same edit key.
    pub fn new(bytes: Vec<u8>) -> (r: Option<Secret>)
        ensures
            r is None <==> bytes@.len() == 0,
            r is Some ==> r->0@ == bytes@,
    {
        if bytes.len() == 0 {
            None
        } else {
            Some(Secret { bytes })
        }
    }

    /// A secret made of the UTF-8 bytes of `text`, or `None` where `text` is
    /// empty.
    pub fn from_text(text: &str) -> (r: Option<Secret>)
        ensures
            r is None <==> text@.len() == 0,
            r is Some ==> r->0@ == encode_utf8(text@),
    {
        let bytes = text.as_bytes();
        let mut v: Vec<u8> = Vec::new();
        for i in 0..bytes.len()
            invariant
                bytes@ == encode_utf8(text@),
                v@ == bytes@.take(i as int),
        {
            v.push(bytes[i]);
        }
        assert(v@ =~= bytes@);
        proof {
            lemma_encode_utf8_empty(text@);
        }
        Secret::new(v)
    }
}

/// A text encodes to no bytes exactly when it is empty.
proof fn lemma_encode_utf8_empty(s: Seq<char>)
    ensures
        encode_utf8(s).len() == 0 <==> s.len() == 0,
{
    if s.len() > 0 {
        assert(encode_scalar(s[0] as u32).len() >= 1);
    }
}

/// Returns the digit of value `v` as `hex_char` gives it.
fn hex_digit(v: u8) -> (c: char)
    requires
        v < 16,
    ensures
        c == hex_char(v as int),
{
    let b: u8 = if v < 10 {
        48u8 + v
    } else {
        97u8 + (v - 10)
    };
    b as char
}

/// Returns the lower-case hexadecimal text of the first `n` bytes of `b`.
pub fn hex_prefix(b: &[u8], n: usize) -> (r: String)
    requires
        n <= b@.len(),
    ensures
        r@ == hex_lower(b@.take(n as int)),
        is_lower_hex(r@),
{
    let mut r = String::new();
    for i in 0..n
        invariant
            n <= b@.len(),
            r@ =~= hex_lower(b@.take(i as int)),
    {
        let byte = b[i];
        r.push(hex_digit(byte / 16));
        r.push(hex_digit(byte % 16));
        assert(r@ =~= hex_lower(b@.take(i + 1)));
    }
    assert forall|i: int| 0 <= i < r@.len() implies ('0' <= #[trigger] r@[i] <= '9' || 'a' <= r@[i]
        <= 'f') by {
        let v = b@[i / 2];
        assert(v as int / 16 < 16 && v as int % 16 < 16);
    }
    r
}

/// Derives the edit key of paste `id`.
pub fn derive_key(secret: &Secret, id: &str) -> (k: String)
    ensures
        k@ == edit_key(secret@, id@),
        k@.len() == 2 * KEY_BYTES,
        is_lower_hex(k@),
{
    let code = hmac_sha256_code(secret.bytes.as_slice(), id.as_bytes());
    hex_prefix(code.as_slice(), KEY_BYTES)
}

/// Compares a supplied key with the expected one, looking at every
/// character of the expected key whatever the outcome.
pub fn keys_match(expected: &str, supplied: &str) -> (r: bool)
    ensures
        r == (expected@ == supplied@),
{
    let n = expected.unicode_len();
    let same_len = supplied.unicode_len() == n;
    let mut differ = !same_len;
    let mut i: usize = 0;
    while i < n
        invariant
            n == expected@.len(),
            same_len == (supplied@.len() == n),
            i <= n,
            differ == (!same_len || exists|j: int| 0 <= j < i && expected@[j] != supplied@[j]),
        decreases n - i,
    {
        let c = expected.get_char(i);
        let d = if same_len {
            supplied.get_char(i)
        } else {
            c
        };
        differ = differ || c != d;
        i = i + 1;
    }
    if !differ {
        assert(expected@ =~= supplied@);
    }
    !differ
}

} // verus!
