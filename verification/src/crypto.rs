//! Cryptographic helpers (all backed by `ring`), licence codes and phone numbers.
//!
//! Licence codes look like `SOUL-XXXX-YYYY-ZZZZ`: eight serial characters drawn from a
//! 32-letter alphabet (no I, O, 0, 1) followed by a four-character check segment that is
//! an HMAC-SHA256 of the serial under a server-side pepper. Forging a code therefore
//! requires the pepper.

use vstd::prelude::*;
use base64::Engine as _;
use vstd::string::StringSliceAdditionalSpecFns;
use vstd::utf8::{encode_utf8, encode_utf8_valid_utf8, is_char_boundary};
use crate::text::{
    all_ascii, ascii_alnum, ascii_bytes, ascii_upper, chars_of, is_alnum, is_digit, push_all, push_char,
    push_range, push_str, string_from, string_of, upper,
};

verus! {

/// PBKDF2 iteration count used for new password hashes.
pub const PBKDF2_ITERATIONS: u32 = 600_000;
/// Length in bytes of a password hash.
pub const HASH_LEN: usize = 32;
/// Length in bytes of a password salt.
pub const SALT_LEN: usize = 16;
/// Raw bytes in a session token.
pub const TOKEN_BYTES: usize = 32;

// ---------------------------------------------------------------- outside primitives

/// The HMAC-SHA256 tag of `msg` under `key`.
pub uninterp spec fn hmac_sha256_tag(key: Seq<u8>, msg: Seq<u8>) -> Seq<u8>;

/// The HMAC-SHA1 tag of `msg` under `key`.
pub uninterp spec fn hmac_sha1_tag(key: Seq<u8>, msg: Seq<u8>) -> Seq<u8>;

/// The first `len` bytes of PBKDF2-HMAC-SHA256 over `secret` and `salt` with `iterations` rounds.
pub uninterp spec fn pbkdf2_sha256(secret: Seq<u8>, salt: Seq<u8>, iterations: u32, len: nat) -> Seq<u8>;

/// URL-safe base64 (RFC 4648 §5) of `bytes`, without padding.
pub uninterp spec fn base64_url_nopad(bytes: Seq<u8>) -> Seq<char>;

/// Standard base64 (RFC 4648 §4) of `bytes`, with padding.
pub uninterp spec fn base64_standard(bytes: Seq<u8>) -> Seq<char>;

/// `n` bytes from the operating system's secure random source
/// (`ring::rand::SystemRandom::fill`). Nothing is claimed of the bytes beyond their
/// number. `ring` reports an error only when the OS source is unusable; the process
/// stops on that error, since continuing with predictable bytes would be worse.
#[verifier::external_body]
pub fn random_bytes(n: usize) -> (out: Vec<u8>)
    ensures
        out@.len() == n,
{
    let mut buf = vec![0u8; n];
    ring::rand::SecureRandom::fill(&ring::rand::SystemRandom::new(), &mut buf)
        .expect("系统随机数源不可用");
    buf
}

/// HMAC-SHA256 (`ring::hmac::sign` with `HMAC_SHA256`). The tag is named
/// `hmac_sha256_tag(key, msg)` and, as for any SHA-256 HMAC, is 32 bytes long.
#[verifier::external_body]
pub fn hmac_sha256(key: &[u8], msg: &[u8]) -> (tag: Vec<u8>)
    ensures
        tag@ == hmac_sha256_tag(key@, msg@),
        tag@.len() == 32,
{
    let k = ring::hmac::Key::new(ring::hmac::HMAC_SHA256, key);
    ring::hmac::sign(&k, msg).as_ref().to_vec()
}

/// HMAC-SHA1 (`ring::hmac::sign` with `HMAC_SHA1_FOR_LEGACY_USE_ONLY`), required by the
/// Aliyun RPC signature scheme. The tag is named `hmac_sha1_tag(key, msg)` and is 20 bytes.
#[verifier::external_body]
pub fn hmac_sha1(key: &[u8], msg: &[u8]) -> (tag: Vec<u8>)
    ensures
        tag@ == hmac_sha1_tag(key@, msg@),
        tag@.len() == 20,
{
    let k = ring::hmac::Key::new(ring::hmac::HMAC_SHA1_FOR_LEGACY_USE_ONLY, key);
    ring::hmac::sign(&k, msg).as_ref().to_vec()
}

/// Constant-time equality (`ring::constant_time::verify_slices_are_equal`), which is
/// `Ok` exactly when both slices have the same length and the same bytes.
#[verifier::external_body]
pub fn constant_time_eq(a: &[u8], b: &[u8]) -> (eq: bool)
    ensures
        eq == (a@ == b@),
{
    #[allow(deprecated)]
    let r = ring::constant_time::verify_slices_are_equal(a, b);
    r.is_ok()
}

/// PBKDF2-HMAC-SHA256 (`ring::pbkdf2::derive`) into a 32-byte buffer; the result is
/// named `pbkdf2_sha256(password bytes, salt, iterations, 32)`. `ring` needs a
/// non-zero iteration count.
#[verifier::external_body]
pub fn pbkdf2_hash(password: &str, salt: &[u8], iterations: u32) -> (hash: Vec<u8>)
    requires
        iterations > 0,
    ensures
        hash@ == pbkdf2_sha256(password.spec_bytes(), salt@, iterations, 32),
        hash@.len() == HASH_LEN,
{
    let mut out = vec![0u8; HASH_LEN];
    ring::pbkdf2::derive(
        ring::pbkdf2::PBKDF2_HMAC_SHA256,
        std::num::NonZeroU32::new(iterations).unwrap(),
        salt,
        password.as_bytes(),
        &mut out,
    );
    out
}

/// `ring::pbkdf2::verify`: true exactly when `expected` is non-empty and equals the
/// PBKDF2 output of the same length (a zero-length `expected` is always refused).
#[verifier::external_body]
fn pbkdf2_verify_nonzero(password: &str, salt: &[u8], iterations: u32, expected: &[u8]) -> (ok: bool)
    requires
        iterations > 0,
    ensures
        ok == (expected@.len() > 0 && expected@ == pbkdf2_sha256(
            password.spec_bytes(),
            salt@,
            iterations,
            expected@.len(),
        )),
{
    ring::pbkdf2::verify(
        ring::pbkdf2::PBKDF2_HMAC_SHA256,
        std::num::NonZeroU32::new(iterations).unwrap(),
        salt,
        password.as_bytes(),
        expected,
    ).is_ok()
}

/// Checks a password against a stored PBKDF2 hash; a zero iteration count never matches.
pub fn pbkdf2_verify(password: &str, salt: &[u8], iterations: u32, expected: &[u8]) -> (ok: bool)
    ensures
        ok == (iterations > 0 && expected@.len() > 0 && expected@ == pbkdf2_sha256(
            password.spec_bytes(),
            salt@,
            iterations,
            expected@.len(),
        )),
{
    if iterations == 0 {
        return false;
    }
    pbkdf2_verify_nonzero(password, salt, iterations, expected)
}

/// URL-safe, unpadded base64 (`base64::engine::general_purpose::URL_SAFE_NO_PAD.encode`).
#[verifier::external_body]
pub(crate) fn base64_url_encode(bytes: &[u8]) -> (s: String)
    ensures
        s@ == base64_url_nopad(bytes@),
{
    base64::engine::general_purpose::URL_SAFE_NO_PAD.encode(bytes)
}

/// Standard, padded base64 (`base64::engine::general_purpose::STANDARD.encode`).
#[verifier::external_body]
pub(crate) fn base64_standard_encode(bytes: &[u8]) -> (s: String)
    ensures
        s@ == base64_standard(bytes@),
{
    base64::engine::general_purpose::STANDARD.encode(bytes)
}

/// A fresh random session token: URL-safe base64 of `TOKEN_BYTES` random bytes.
pub fn random_token() -> (t: String)
    ensures
        exists|raw: Seq<u8>| raw.len() == TOKEN_BYTES && t@ == base64_url_nopad(raw),
{
    let raw = random_bytes(TOKEN_BYTES);
    let t = base64_url_encode(raw.as_slice());
    assert(raw@.len() == TOKEN_BYTES && t@ == base64_url_nopad(raw@));
    t
}

// ---------------------------------------------------------------- licence codes

/// The licence alphabet letter for a byte: `ABCDEFGHJKLMNPQRSTUVWXYZ23456789[b % 32]`.
pub open spec fn license_char(b: u8) -> char {
    let i = b % 32;
    if i < 8 {
        (65 + i) as char
    } else if i < 13 {
        (74 + (i - 8)) as char
    } else if i < 24 {
        (80 + (i - 13)) as char
    } else {
        (50 + (i - 24)) as char
    }
}

/// `c` belongs to the licence alphabet.
pub open spec fn is_license_char(c: char) -> bool {
    ||| ('A' <= c && c <= 'H')
    ||| ('J' <= c && c <= 'N')
    ||| ('P' <= c && c <= 'Z')
    ||| ('2' <= c && c <= '9')
}

/// The first `len` bytes of `bytes`, each mapped into the licence alphabet.
pub open spec fn map_to_alphabet_spec(bytes: Seq<u8>, len: nat) -> Seq<char> {
    let n = if len <= bytes.len() { len } else { bytes.len() };
    Seq::new(n, |i: int| license_char(bytes[i]))
}

/// The message whose HMAC gives a serial's check segment: `"license:" + serial`.
pub open spec fn license_message(serial: Seq<char>) -> Seq<u8> {
    seq![108u8, 105u8, 99u8, 101u8, 110u8, 115u8, 101u8, 58u8] + ascii_bytes(serial)
}

/// The four-character check segment of a serial under `pepper`.
pub open spec fn check_segment_spec(pepper: Seq<u8>, serial: Seq<char>) -> Seq<char> {
    map_to_alphabet_spec(hmac_sha256_tag(pepper, license_message(serial)), 4)
}

/// The display form `SOUL-a-b-c` of a licence.
pub open spec fn license_text(a: Seq<char>, b: Seq<char>, c: Seq<char>) -> Seq<char> {
    seq!['S', 'O', 'U', 'L', '-'] + a + seq!['-'] + b + seq!['-'] + c
}

/// The display shape of a licence: `SOUL-XXXX-XXXX-XXXX`, nineteen characters, each `X` from
/// the licence alphabet.
pub open spec fn license_shape(k: Seq<char>) -> bool {
    &&& k.len() == 19
    &&& k.subrange(0, 5) == seq!['S', 'O', 'U', 'L', '-']
    &&& k[9] == '-'
    &&& k[14] == '-'
    &&& forall|i: int| 5 <= i < 19 && i != 9 && i != 14 ==> is_license_char(#[trigger] k[i])
}

/// The licence generated from eight random bytes under `pepper`.
pub open spec fn license_from_bytes_spec(pepper: Seq<u8>, raw: Seq<u8>) -> Seq<char> {
    let a = map_to_alphabet_spec(raw.subrange(0, 4), 4);
    let b = map_to_alphabet_spec(raw.subrange(4, 8), 4);
    license_text(a, b, check_segment_spec(pepper, a + b))
}

/// Copy-paste normalisation: keep ASCII letters and digits, upper-cased.
pub open spec fn normalize_license_spec(s: Seq<char>) -> Seq<char>
    decreases s.len(),
{
    if s.len() == 0 {
        seq![]
    } else if is_alnum(s.last()) {
        normalize_license_spec(s.drop_last()).push(upper(s.last()))
    } else {
        normalize_license_spec(s.drop_last())
    }
}

/// A licence code is valid under `pepper`: normalised it is `SOUL` followed by twelve
/// alphabet characters whose last four are the check segment of the first eight.
pub open spec fn license_valid(pepper: Seq<u8>, key: Seq<char>) -> bool {
    let flat = normalize_license_spec(key);
    &&& flat.len() == 16
    &&& flat.subrange(0, 4) == seq!['S', 'O', 'U', 'L']
    &&& forall|i: int| 4 <= i < 16 ==> is_license_char(#[trigger] flat[i])
    &&& flat.subrange(12, 16) == check_segment_spec(pepper, flat.subrange(4, 12))
}

/// The canonical stored form of a licence: `SOUL-XXXX-YYYY-ZZZZ` when the normalised
/// text has sixteen characters, the normalised text itself otherwise.
pub open spec fn canonical_license_spec(key: Seq<char>) -> Seq<char> {
    let flat = normalize_license_spec(key);
    if flat.len() != 16 {
        flat
    } else {
        license_text(flat.subrange(4, 8), flat.subrange(8, 12), flat.subrange(12, 16))
    }
}

fn license_alphabet_char(b: u8) -> (c: char)
    ensures
        c == license_char(b),
        is_license_char(c),
{
    let i = b % 32;
    if i < 8 {
        (65u8 + i) as char
    } else if i < 13 {
        (74u8 + (i - 8)) as char
    } else if i < 24 {
        (80u8 + (i - 13)) as char
    } else {
        (50u8 + (i - 24)) as char
    }
}

fn is_license_alphabet(c: char) -> (r: bool)
    ensures
        r == is_license_char(c),
{
    ('A' <= c && c <= 'H') || ('J' <= c && c <= 'N') || ('P' <= c && c <= 'Z') || ('2' <= c
        && c <= '9')
}

/// Maps the first `len` bytes into the licence alphabet.
fn map_to_alphabet(bytes: &[u8], len: usize) -> (out: Vec<char>)
    ensures
        out@ == map_to_alphabet_spec(bytes@, len as nat),
{
    let n = if len <= bytes.len() { len } else { bytes.len() };
    let mut out: Vec<char> = Vec::new();
    let mut i: usize = 0;
    while i < n
        invariant
            n <= bytes@.len(),
            n == (if len <= bytes@.len() { len as nat } else { bytes@.len() }),
            i <= n,
            out@ == Seq::new(i as nat, |j: int| license_char(bytes@[j])),
        decreases n - i,
    {
        let c = license_alphabet_char(bytes[i]);
        out.push(c);
        i = i + 1;
        assert(out@ =~= Seq::new(i as nat, |j: int| license_char(bytes@[j])));
    }
    assert(out@ =~= map_to_alphabet_spec(bytes@, len as nat));
    out
}

/// The check segment of an ASCII serial under `pepper`.
fn check_segment(pepper: &[u8], serial: &Vec<char>) -> (seg: Vec<char>)
    requires
        all_ascii(serial@),
    ensures
        seg@ == check_segment_spec(pepper@, serial@),
        seg@.len() == 4,
{
    let mut msg: Vec<u8> = Vec::new();
    msg.push(108u8);
    msg.push(105u8);
    msg.push(99u8);
    msg.push(101u8);
    msg.push(110u8);
    msg.push(115u8);
    msg.push(101u8);
    msg.push(58u8);
    let mut i: usize = 0;
    while i < serial.len()
        invariant
            all_ascii(serial@),
            i <= serial@.len(),
            msg@ == seq![108u8, 105u8, 99u8, 101u8, 110u8, 115u8, 101u8, 58u8] + ascii_bytes(
                serial@.subrange(0, i as int),
            ),
        decreases serial@.len() - i,
    {
        let c = serial[i];
        assert((c as u32) < 128);
        msg.push(c as u8);
        i = i + 1;
        assert(ascii_bytes(serial@.subrange(0, i as int)) =~= ascii_bytes(
            serial@.subrange(0, (i - 1) as int),
        ).push(c as u8));
        assert(msg@ =~= seq![108u8, 105u8, 99u8, 101u8, 110u8, 115u8, 101u8, 58u8] + ascii_bytes(
            serial@.subrange(0, i as int),
        ));
    }
    assert(serial@.subrange(0, serial@.len() as int) =~= serial@);
    let mac = hmac_sha256(pepper, msg.as_slice());
    map_to_alphabet(mac.as_slice(), 4)
}

proof fn lemma_license_chars_ascii(s: Seq<char>)
    requires
        forall|i: int| 0 <= i < s.len() ==> is_license_char(#[trigger] s[i]),
    ensures
        all_ascii(s),
{
}

/// The licence built from eight random bytes: serial from the bytes, check segment
/// from the HMAC of the serial under `pepper`.
pub fn license_from_bytes(pepper: &[u8], raw: &[u8]) -> (key: String)
    requires
        raw@.len() == 8,
    ensures
        key@ == license_from_bytes_spec(pepper@, raw@),
        license_valid(pepper@, key@),
        license_shape(key@),
{
    let a = map_to_alphabet(&raw[0..4], 4);
    let b = map_to_alphabet(&raw[4..8], 4);
    let mut serial: Vec<char> = Vec::new();
    let mut i: usize = 0;
    while i < 4
        invariant
            a@.len() == 4,
            b@.len() == 4,
            i <= 4,
            serial@ == a@.subrange(0, i as int),
        decreases 4 - i,
    {
        serial.push(a[i]);
        i = i + 1;
        assert(serial@ =~= a@.subrange(0, i as int));
    }
    i = 0;
    while i < 4
        invariant
            a@.len() == 4,
            b@.len() == 4,
            i <= 4,
            serial@ == a@ + b@.subrange(0, i as int),
        decreases 4 - i,
    {
        serial.push(b[i]);
        i = i + 1;
        assert(serial@ =~= a@ + b@.subrange(0, i as int));
    }
    assert(a@ =~= a@.subrange(0, 4));
    assert(serial@ =~= a@ + b@);
    proof {
        assert forall|j: int| 0 <= j < serial@.len() implies is_license_char(#[trigger] serial@[j]) by {
            if j < 4 {
                assert(serial@[j] == license_char(raw@.subrange(0, 4)[j]));
            } else {
                assert(serial@[j] == license_char(raw@.subrange(4, 8)[j - 4]));
            }
        }
        lemma_license_chars_ascii(serial@);
    }
    let c = check_segment(pepper, &serial);
    let mut key = String::new();
    push_str(&mut key, "SOUL-");
    push_all(&mut key, &a);
    push_char(&mut key, '-');
    push_all(&mut key, &b);
    push_char(&mut key, '-');
    push_all(&mut key, &c);
    proof {
        reveal_strlit("SOUL-");
        assert(key@ =~= license_from_bytes_spec(pepper@, raw@));
        assert(a@ + b@ == serial@);
        lemma_generated_license_verifies(pepper@, raw@);
        lemma_map_to_alphabet_chars(raw@.subrange(0, 4), 4);
        lemma_map_to_alphabet_chars(raw@.subrange(4, 8), 4);
        lemma_map_to_alphabet_chars(hmac_sha256_tag(pepper@, license_message(serial@)), 4);
        assert forall|j: int| 5 <= j < 19 && j != 9 && j != 14 implies is_license_char(#[trigger] key@[j]) by {
            if j < 9 {
                assert(key@[j] == a@[j - 5]);
            } else if j < 14 {
                assert(key@[j] == b@[j - 10]);
            } else {
                assert(key@[j] == c@[j - 15]);
            }
        }
        assert(key@.subrange(0, 5) =~= seq!['S', 'O', 'U', 'L', '-']);
    }
    key
}

/// A new licence code under `pepper` (serial from eight fresh random bytes). Whatever
/// the random serial, the code is accepted by `verify_license` under the same pepper.
pub fn generate_license(pepper: &[u8]) -> (key: String)
    ensures
        exists|raw: Seq<u8>| raw.len() == 8 && key@ == license_from_bytes_spec(pepper@, raw),
        license_valid(pepper@, key@),
        license_shape(key@),
{
    let raw = random_bytes(8);
    let key = license_from_bytes(pepper, raw.as_slice());
    assert(raw@.len() == 8 && key@ == license_from_bytes_spec(pepper@, raw@));
    key
}

proof fn lemma_normalize_step(s: Seq<char>, c: char)
    ensures
        normalize_license_spec(s.push(c)) == (if is_alnum(c) {
            normalize_license_spec(s).push(upper(c))
        } else {
            normalize_license_spec(s)
        }),
{
    assert(s.push(c).drop_last() =~= s);
}

fn normalize_license_chars(v: &Vec<char>) -> (out: Vec<char>)
    ensures
        out@ == normalize_license_spec(v@),
        forall|i: int| 0 <= i < out@.len() ==> (out@[i] as u32) < 128,
{
    let mut out: Vec<char> = Vec::new();
    let mut i: usize = 0;
    while i < v.len()
        invariant
            i <= v@.len(),
            out@ == normalize_license_spec(v@.subrange(0, i as int)),
            forall|j: int| 0 <= j < out@.len() ==> (out@[j] as u32) < 128,
        decreases v@.len() - i,
    {
        let c = v[i];
        proof {
            lemma_normalize_step(v@.subrange(0, i as int), c);
            assert(v@.subrange(0, i + 1) =~= v@.subrange(0, i as int).push(c));
        }
        if ascii_alnum(c) {
            out.push(ascii_upper(c));
        }
        i = i + 1;
    }
    assert(v@.subrange(0, v@.len() as int) =~= v@);
    out
}

/// Normalises a pasted licence code: keeps ASCII letters and digits, upper-cased.
pub fn normalize_license(key: &str) -> (out: String)
    ensures
        out@ == normalize_license_spec(key@),
{
    let v = chars_of(key);
    let n = normalize_license_chars(&v);
    string_of(&n)
}

/// Checks a licence code under `pepper`: format, alphabet and check segment
/// (the check segment is compared in constant time).
pub fn verify_license(pepper: &[u8], key: &str) -> (ok: bool)
    ensures
        ok == license_valid(pepper@, key@),
{
    let v = chars_of(key);
    let flat = normalize_license_chars(&v);
    if flat.len() != 16 {
        return false;
    }
    if !(flat[0] == 'S' && flat[1] == 'O' && flat[2] == 'U' && flat[3] == 'L') {
        proof {
            if flat@.subrange(0, 4) == seq!['S', 'O', 'U', 'L'] {
                assert(flat@.subrange(0, 4)[0] == 'S');
                assert(flat@.subrange(0, 4)[1] == 'O');
                assert(flat@.subrange(0, 4)[2] == 'U');
                assert(flat@.subrange(0, 4)[3] == 'L');
            }
        }
        return false;
    }
    assert(flat@.subrange(0, 4) =~= seq!['S', 'O', 'U', 'L']);
    let mut i: usize = 4;
    while i < 16
        invariant
            flat@.len() == 16,
            flat@ == normalize_license_spec(key@),
            4 <= i <= 16,
            forall|j: int| 4 <= j < i ==> is_license_char(#[trigger] flat@[j]),
        decreases 16 - i,
    {
        if !is_license_alphabet(flat[i]) {
            return false;
        }
        i = i + 1;
    }
    let mut serial: Vec<char> = Vec::new();
    let mut given: Vec<u8> = Vec::new();
    i = 4;
    while i < 12
        invariant
            flat@.len() == 16,
            4 <= i <= 12,
            forall|j: int| 4 <= j < 16 ==> is_license_char(#[trigger] flat@[j]),
            serial@ == flat@.subrange(4, i as int),
        decreases 12 - i,
    {
        serial.push(flat[i]);
        i = i + 1;
        assert(serial@ =~= flat@.subrange(4, i as int));
    }
    while i < 16
        invariant
            flat@.len() == 16,
            12 <= i <= 16,
            forall|j: int| 4 <= j < 16 ==> is_license_char(#[trigger] flat@[j]),
            given@ == ascii_bytes(flat@.subrange(12, i as int)),
        decreases 16 - i,
    {
        given.push(flat[i] as u8);
        i = i + 1;
        assert(given@ =~= ascii_bytes(flat@.subrange(12, i as int)));
    }
    proof {
        assert forall|j: int| 0 <= j < serial@.len() implies is_license_char(#[trigger] serial@[j]) by {
            assert(serial@[j] == flat@[j + 4]);
        }
        lemma_license_chars_ascii(serial@);
    }
    let expected = check_segment(pepper, &serial);
    let mut expected_bytes: Vec<u8> = Vec::new();
    i = 0;
    while i < expected.len()
        invariant
            i <= expected@.len(),
            forall|j: int| 0 <= j < expected@.len() ==> is_license_char(#[trigger] expected@[j]),
            expected_bytes@ == ascii_bytes(expected@.subrange(0, i as int)),
        decreases expected@.len() - i,
    {
        expected_bytes.push(expected[i] as u8);
        i = i + 1;
        assert(expected_bytes@ =~= ascii_bytes(expected@.subrange(0, i as int)));
    }
    let ok = constant_time_eq(given.as_slice(), expected_bytes.as_slice());
    proof {
        let g = flat@.subrange(12, 16);
        let e = expected@;
        assert(e.subrange(0, e.len() as int) =~= e);
        lemma_ascii_bytes_injective(g, e);
    }
    ok
}

proof fn lemma_ascii_char_eq(c: char, d: char)
    requires
        (c as u32) < 128,
        (d as u32) < 128,
        (c as u8) == (d as u8),
    ensures
        c == d,
{
}

proof fn lemma_ascii_bytes_injective(a: Seq<char>, b: Seq<char>)
    requires
        all_ascii(a),
        all_ascii(b),
    ensures
        (ascii_bytes(a) == ascii_bytes(b)) == (a == b),
{
    if ascii_bytes(a) == ascii_bytes(b) {
        assert(a.len() == ascii_bytes(a).len());
        assert forall|i: int| 0 <= i < a.len() implies a[i] == b[i] by {
            assert(ascii_bytes(a)[i] == a[i] as u8);
            assert(ascii_bytes(b)[i] == b[i] as u8);
            assert((a[i] as u32) < 128 && (b[i] as u32) < 128);
            lemma_ascii_char_eq(a[i], b[i]);
        }
        assert(a =~= b);
    }
}

/// The canonical stored form `SOUL-XXXX-YYYY-ZZZZ` (or the normalised text when it is
/// not sixteen characters long).
pub fn canonical_license(key: &str) -> (out: String)
    ensures
        out@ == canonical_license_spec(key@),
{
    let v = chars_of(key);
    let flat = normalize_license_chars(&v);
    if flat.len() != 16 {
        return string_of(&flat);
    }
    let mut out = String::new();
    push_str(&mut out, "SOUL-");
    push_range(&mut out, &flat, 4, 8);
    push_char(&mut out, '-');
    push_range(&mut out, &flat, 8, 12);
    push_char(&mut out, '-');
    push_range(&mut out, &flat, 12, 16);
    proof {
        reveal_strlit("SOUL-");
        assert(out@ =~= canonical_license_spec(key@));
    }
    out
}

proof fn lemma_normalize_concat(s: Seq<char>, t: Seq<char>)
    ensures
        normalize_license_spec(s + t) == normalize_license_spec(s) + normalize_license_spec(t),
    decreases t.len(),
{
    if t.len() == 0 {
        assert(s + t =~= s);
        assert(normalize_license_spec(s) + seq![] =~= normalize_license_spec(s));
    } else {
        lemma_normalize_concat(s, t.drop_last());
        assert((s + t).drop_last() =~= s + t.drop_last());
        assert((s + t).last() == t.last());
        if is_alnum(t.last()) {
            assert(normalize_license_spec(s) + normalize_license_spec(t.drop_last()).push(
                upper(t.last()),
            ) =~= (normalize_license_spec(s) + normalize_license_spec(t.drop_last())).push(
                upper(t.last()),
            ));
        }
    }
}

proof fn lemma_normalize_license_chars(s: Seq<char>)
    requires
        forall|i: int| 0 <= i < s.len() ==> is_license_char(#[trigger] s[i]),
    ensures
        normalize_license_spec(s) == s,
    decreases s.len(),
{
    if s.len() > 0 {
        lemma_normalize_license_chars(s.drop_last());
        assert(is_license_char(s[s.len() - 1]));
        assert(s.drop_last().push(s.last()) =~= s);
    }
}

proof fn lemma_map_to_alphabet_chars(bytes: Seq<u8>, len: nat)
    ensures
        forall|i: int|
            0 <= i < map_to_alphabet_spec(bytes, len).len() ==> is_license_char(
                #[trigger] map_to_alphabet_spec(bytes, len)[i],
            ),
{
    assert forall|i: int| 0 <= i < map_to_alphabet_spec(bytes, len).len() implies is_license_char(
        #[trigger] map_to_alphabet_spec(bytes, len)[i],
    ) by {
        let b = bytes[i];
        let k = b % 32;
        assert(map_to_alphabet_spec(bytes, len)[i] == license_char(b));
    }
}

proof fn lemma_generated_license_verifies(pepper: Seq<u8>, raw: Seq<u8>)
    requires
        raw.len() == 8,
        check_segment_spec(
            pepper,
            map_to_alphabet_spec(raw.subrange(0, 4), 4) + map_to_alphabet_spec(raw.subrange(4, 8), 4),
        ).len() == 4,
    ensures
        license_valid(pepper, license_from_bytes_spec(pepper, raw)),
{
    let a = map_to_alphabet_spec(raw.subrange(0, 4), 4);
    let b = map_to_alphabet_spec(raw.subrange(4, 8), 4);
    let c = check_segment_spec(pepper, a + b);
    lemma_map_to_alphabet_chars(raw.subrange(0, 4), 4);
    lemma_map_to_alphabet_chars(raw.subrange(4, 8), 4);
    lemma_map_to_alphabet_chars(hmac_sha256_tag(pepper, license_message(a + b)), 4);
    let body = a + b + c;
    assert forall|i: int| 0 <= i < body.len() implies is_license_char(#[trigger] body[i]) by {
        if i < 4 {
            assert(body[i] == a[i]);
        } else if i < 8 {
            assert(body[i] == b[i - 4]);
        } else {
            assert(body[i] == c[i - 8]);
        }
    }
    let key = license_from_bytes_spec(pepper, raw);
    let soul = seq!['S', 'O', 'U', 'L', '-'];
    assert(key =~= soul + (a + (seq!['-'] + (b + (seq!['-'] + c)))));
    lemma_normalize_concat(soul, a + (seq!['-'] + (b + (seq!['-'] + c))));
    lemma_normalize_concat(a, seq!['-'] + (b + (seq!['-'] + c)));
    lemma_normalize_concat(seq!['-'], b + (seq!['-'] + c));
    lemma_normalize_concat(b, seq!['-'] + c);
    lemma_normalize_concat(seq!['-'], c);
    lemma_normalize_license_chars(a);
    lemma_normalize_license_chars(b);
    lemma_normalize_license_chars(c);
    assert(normalize_license_spec(seq!['-']) == Seq::<char>::empty()) by {
        reveal_with_fuel(normalize_license_spec, 2);
        assert(seq!['-'].drop_last() =~= Seq::<char>::empty());
        assert(seq!['-'].last() == '-');
        assert(!is_alnum('-'));
    }
    assert(normalize_license_spec(soul) =~= seq!['S', 'O', 'U', 'L']) by {
        reveal_with_fuel(normalize_license_spec, 6);
        assert(soul.drop_last() =~= seq!['S', 'O', 'U', 'L']);
        assert(seq!['S', 'O', 'U', 'L'].drop_last() =~= seq!['S', 'O', 'U']);
        assert(seq!['S', 'O', 'U'].drop_last() =~= seq!['S', 'O']);
        assert(seq!['S', 'O'].drop_last() =~= seq!['S']);
        assert(seq!['S'].drop_last() =~= Seq::<char>::empty());
    }
    let flat = normalize_license_spec(key);
    assert(flat =~= seq!['S', 'O', 'U', 'L'] + body);
    assert(flat.subrange(4, 12) =~= a + b);
    assert(flat.subrange(12, 16) =~= c);
    assert(flat.subrange(0, 4) =~= seq!['S', 'O', 'U', 'L']);
    assert forall|i: int| 4 <= i < 16 implies is_license_char(#[trigger] flat[i]) by {
        assert(flat[i] == body[i - 4]);
    }
}

/// Whether a code verifies depends only on its normalised text: spaces, dashes, other
/// punctuation and letter case picked up in copy and paste never change the verdict.
pub proof fn lemma_license_validity_ignores_noise(pepper: Seq<u8>, a: Seq<char>, b: Seq<char>)
    requires
        normalize_license_spec(a) == normalize_license_spec(b),
    ensures
        license_valid(pepper, a) == license_valid(pepper, b),
        canonical_license_spec(a) == canonical_license_spec(b),
{
}

// ---------------------------------------------------------------- phone numbers

/// The ASCII digits of `s`, in order.
pub open spec fn digits_of(s: Seq<char>) -> Seq<char>
    decreases s.len(),
{
    if s.len() == 0 {
        seq![]
    } else if is_digit(s.last()) {
        digits_of(s.drop_last()).push(s.last())
    } else {
        digits_of(s.drop_last())
    }
}

/// Drops a leading `86` (the country code), if there is one.
pub open spec fn strip_country_code(d: Seq<char>) -> Seq<char> {
    if d.len() >= 2 && d[0] == '8' && d[1] == '6' {
        d.subrange(2, d.len() as int)
    } else {
        d
    }
}

/// A mainland China mobile number: the digits of `raw` without a leading `86`, accepted
/// when they are eleven digits starting with `1` followed by `3`..`9`.
pub open spec fn normalize_phone_spec(raw: Seq<char>) -> Option<Seq<char>> {
    let d = strip_country_code(digits_of(raw));
    if d.len() == 11 && d[0] == '1' && '3' <= d[1] && d[1] <= '9' {
        Some(d)
    } else {
        None
    }
}

proof fn lemma_digits_of_digits(s: Seq<char>)
    requires
        forall|i: int| 0 <= i < s.len() ==> '0' <= #[trigger] s[i] && s[i] <= '9',
    ensures
        digits_of(s) == s,
    decreases s.len(),
{
    if s.len() > 0 {
        lemma_digits_of_digits(s.drop_last());
        assert(s.drop_last().push(s.last()) =~= s);
    }
}

proof fn lemma_digits_of_concat(a: Seq<char>, b: Seq<char>)
    ensures
        digits_of(a + b) == digits_of(a) + digits_of(b),
    decreases b.len(),
{
    if b.len() == 0 {
        assert(a + b =~= a);
        assert(digits_of(a) + digits_of(b) =~= digits_of(a));
    } else {
        lemma_digits_of_concat(a, b.drop_last());
        assert((a + b).drop_last() =~= a + b.drop_last());
        assert((a + b).last() == b.last());
        if is_digit(b.last()) {
            assert(digits_of(a) + digits_of(b.drop_last()).push(b.last()) =~= (digits_of(a) + digits_of(b.drop_last())).push(
                b.last(),
            ));
        }
    }
}

/// A mobile number may be typed with the country code and with spaces or dashes between its
/// digits: `+86`, then the eleven digits with one separator (a space or a dash) after the
/// third and the seventh, still gives the bare eleven digits.
pub proof fn lemma_mobile_number_as_typed(s: Seq<char>, sep: char)
    requires
        s.len() == 11,
        forall|i: int| 0 <= i < s.len() ==> '0' <= #[trigger] s[i] && s[i] <= '9',
        s[0] == '1',
        '3' <= s[1] && s[1] <= '9',
        sep == ' ' || sep == '-',
    ensures
        normalize_phone_spec(seq!['+', '8', '6'] + s) == Some(s),
        normalize_phone_spec(s.subrange(0, 3) + seq![sep] + s.subrange(3, 7) + seq![sep] + s.subrange(7, 11)) == Some(s),
{
    lemma_digits_of_digits(s);
    let cc = seq!['+', '8', '6'];
    lemma_digits_of_concat(cc, s);
    assert(digits_of(seq!['+']) =~= seq![]) by {
        assert(seq!['+'].drop_last() =~= Seq::<char>::empty());
        assert(seq!['+'].last() == '+');
        assert(digits_of(Seq::<char>::empty()) =~= seq![]);
    }
    assert(digits_of(seq!['+', '8']) =~= seq!['8']) by {
        assert(seq!['+', '8'].drop_last() =~= seq!['+']);
    }
    assert(digits_of(cc) =~= seq!['8', '6']) by {
        assert(cc.drop_last() =~= seq!['+', '8']);
    }
    assert(strip_country_code(seq!['8', '6'] + s) =~= s);
    let a = s.subrange(0, 3);
    let b = s.subrange(3, 7);
    let c = s.subrange(7, 11);
    let sp = seq![sep];
    assert(digits_of(sp) =~= seq![]) by {
        assert(sp.drop_last() =~= Seq::<char>::empty());
        assert(sp.last() == sep);
        assert(digits_of(Seq::<char>::empty()) =~= seq![]);
    }
    lemma_digits_of_digits(a);
    lemma_digits_of_digits(b);
    lemma_digits_of_digits(c);
    lemma_digits_of_concat(a, sp);
    lemma_digits_of_concat(a + sp, b);
    lemma_digits_of_concat(a + sp + b, sp);
    lemma_digits_of_concat(a + sp + b + sp, c);
    assert(a + b + c =~= s);
    assert(digits_of(a + sp) =~= a);
    assert(digits_of(a + sp + b) =~= a + b);
    assert(digits_of(a + sp + b + sp) =~= a + b);
    assert(digits_of(a + sp + b + sp + c) =~= s);
}

/// An eleven-digit number starting with `1` is accepted as it is exactly when its second
/// digit is 3 to 9 (every mainland mobile prefix from 13x to 19x), and refused otherwise.
pub proof fn lemma_mobile_numbers(s: Seq<char>)
    requires
        s.len() == 11,
        forall|i: int| 0 <= i < s.len() ==> '0' <= #[trigger] s[i] && s[i] <= '9',
        s[0] == '1',
    ensures
        '3' <= s[1] && s[1] <= '9' ==> normalize_phone_spec(s) == Some(s),
        !('3' <= s[1] && s[1] <= '9') ==> normalize_phone_spec(s) is None,
{
    lemma_digits_of_digits(s);
}

/// Normalises a phone number as typed (spaces, dashes, `+86` tolerated); `None` unless
/// it is a mainland China mobile number.
pub fn normalize_phone(raw: &str) -> (out: Option<String>)
    ensures
        match out {
            Some(p) => normalize_phone_spec(raw@) == Some(p@),
            None => normalize_phone_spec(raw@) is None,
        },
{
    let v = chars_of(raw);
    let mut d: Vec<char> = Vec::new();
    let mut i: usize = 0;
    while i < v.len()
        invariant
            i <= v@.len(),
            d@ == digits_of(v@.subrange(0, i as int)),
        decreases v@.len() - i,
    {
        let c = v[i];
        assert(v@.subrange(0, i + 1) =~= v@.subrange(0, i as int).push(c));
        assert(v@.subrange(0, i + 1).drop_last() =~= v@.subrange(0, i as int));
        if '0' <= c && c <= '9' {
            d.push(c);
        }
        i = i + 1;
    }
    assert(v@.subrange(0, v@.len() as int) =~= v@);
    let start: usize = if d.len() >= 2 && d[0] == '8' && d[1] == '6' { 2 } else { 0 };
    let n = d.len() - start;
    if n == 11 && d[start] == '1' && '3' <= d[start + 1] && d[start + 1] <= '9' {
        let mut out = String::new();
        push_range(&mut out, &d, start, d.len());
        assert(out@ =~= strip_country_code(d@));
        Some(out)
    } else {
        None
    }
}

proof fn lemma_encode_concat(a: Seq<char>, b: Seq<char>)
    ensures
        encode_utf8(a + b) == encode_utf8(a) + encode_utf8(b),
    decreases a.len(),
{
    if a.len() == 0 {
        assert(a + b =~= b);
    } else {
        lemma_encode_concat(a.drop_first(), b);
        assert((a + b).drop_first() =~= a.drop_first() + b);
        assert((a + b)[0] == a[0]);
    }
}

/// The masked display form of a phone number, `138****8000`. Its UTF-8 bytes are the
/// first three and the last four bytes of `phone` around four asterisks; any phone that is
/// not eleven bytes long shows as `***`. (Cutting at bytes 3 and 7 needs both to be
/// character boundaries.)
pub fn mask_phone(phone: &str) -> (out: String)
    requires
        phone.spec_bytes().len() == 11 ==> is_char_boundary(phone.spec_bytes(), 3)
            && is_char_boundary(phone.spec_bytes(), 7),
    ensures
        phone.spec_bytes().len() != 11 ==> out@ == seq!['*', '*', '*'],
        phone.spec_bytes().len() == 11 ==> encode_utf8(out@) == phone.spec_bytes().subrange(0, 3)
            + seq![42u8, 42u8, 42u8, 42u8] + phone.spec_bytes().subrange(7, 11),
{
    let bytes = phone.as_bytes();
    if bytes.len() != 11 {
        let out = string_from("***");
        proof {
            reveal_strlit("***");
        }
        return out;
    }
    proof {
        encode_utf8_valid_utf8(phone@);
    }
    let (_front, tail) = phone.split_at(7);
    let (head, _rest) = phone.split_at(3);
    let mut out = String::new();
    push_str(&mut out, head);
    push_str(&mut out, "****");
    push_str(&mut out, tail);
    proof {
        reveal_strlit("****");
        let stars = "****"@;
        assert(out@ =~= head@ + stars + tail@);
        lemma_encode_concat(head@ + stars, tail@);
        lemma_encode_concat(head@, stars);
        vstd::utf8::is_ascii_chars_encode_utf8(stars);
        assert(encode_utf8(stars) =~= seq![42u8, 42u8, 42u8, 42u8]);
    }
    out
}

} // verus!
