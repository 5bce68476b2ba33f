//! Local obfuscation of the remembered password: XOR with a key derived from
//! the machine identity, then URL-safe base64 without padding. It keeps the
//! plain text out of `credentials.json`; it is not encryption.

use vstd::prelude::*;
use vstd::string::StringExecFns;
use vstd::utf8::{encode_utf8, valid_utf8, decode_utf8};
use base64::Engine;

verus! {

broadcast use vstd::utf8::group_utf8_lib;

/// Digit `v` (0..63) of the URL-safe base64 alphabet `A-Z a-z 0-9 - _`.
pub open spec fn b64_digit(v: int) -> char {
    if v < 26 {
        (65 + v) as char
    } else if v < 52 {
        (97 + (v - 26)) as char
    } else if v < 62 {
        (48 + (v - 52)) as char
    } else if v == 62 {
        '-'
    } else {
        '_'
    }
}

/// URL-safe base64 without padding: each group of three bytes gives four
/// digits; a final group of one or two bytes gives two or three digits, the
/// unused low bits being zero.
pub open spec fn base64_url_nopad(b: Seq<u8>) -> Seq<char>
    decreases b.len(),
{
    if b.len() == 0 {
        seq![]
    } else if b.len() == 1 {
        seq![b64_digit(b[0] as int / 4), b64_digit((b[0] as int % 4) * 16)]
    } else if b.len() == 2 {
        seq![
            b64_digit(b[0] as int / 4),
            b64_digit((b[0] as int % 4) * 16 + b[1] as int / 16),
            b64_digit((b[1] as int % 16) * 4),
        ]
    } else {
        seq![
            b64_digit(b[0] as int / 4),
            b64_digit((b[0] as int % 4) * 16 + b[1] as int / 16),
            b64_digit((b[1] as int % 16) * 4 + b[2] as int / 64),
            b64_digit(b[2] as int % 64),
        ] + base64_url_nopad(b.skip(3))
    }
}

/// `URL_SAFE_NO_PAD.encode` of base64.
#[verifier::external_body]
fn base64_encode(bytes: &[u8]) -> (r: String)
    ensures
        r@ == base64_url_nopad(bytes@),
{
    base64::engine::general_purpose::URL_SAFE_NO_PAD.encode(bytes)
}

/// `URL_SAFE_NO_PAD.decode` of base64, which accepts only canonical input (no
/// padding, zero trailing bits): it succeeds exactly on the encodings of byte
/// strings and returns the bytes that encode to the input.
#[verifier::external_body]
fn base64_decode(text: &str) -> (r: Option<Vec<u8>>)
    ensures
        r matches Some(v) ==> base64_url_nopad(v@) == text@,
        (exists|b: Seq<u8>| #[trigger] base64_url_nopad(b) == text@) ==> r is Some,
{
    base64::engine::general_purpose::URL_SAFE_NO_PAD.decode(text).ok()
}

/// `String::from_utf8`: succeeds exactly on valid UTF-8 and decodes it.
#[verifier::external_body]
fn string_from_utf8(bytes: Vec<u8>) -> (r: Option<String>)
    ensures
        r is Some <==> valid_utf8(bytes@),
        r matches Some(s) ==> s@ == decode_utf8(bytes@),
{
    String::from_utf8(bytes).ok()
}

/// `machine_uid::get`: the machine id of the host, when the platform gives one.
/// What it returns depends on the machine; nothing is stated of it.
#[verifier::external_body]
fn machine_uid_get() -> (r: Option<String>)
{
    machine_uid::get().ok()
}

/// `hostname::get`: the host name, when it can be read and is valid UTF-8.
/// What it returns depends on the machine; nothing is stated of it.
#[verifier::external_body]
fn hostname_get() -> (r: Option<String>)
{
    hostname::get().ok().and_then(|h| h.into_string().ok())
}

/// Seed text used when neither a machine id nor host/user names are available.
pub open spec fn fallback_seed() -> Seq<char> {
    "pezmax-fallback-key"@
}

/// The seed of the key: the machine id when there is a usable (non-empty) one,
/// else `host:user` when either part is non-empty, else the fallback text.
pub open spec fn seed_spec(uid: Option<Seq<char>>, host: Option<Seq<char>>, user: Seq<char>) -> Seq<char> {
    let h = match host {
        Some(h) => h,
        None => seq![],
    };
    match uid {
        Some(u) if u.len() > 0 => u,
        _ => if h.len() == 0 && user.len() == 0 {
            fallback_seed()
        } else {
            h + ":"@ + user
        },
    }
}

pub open spec fn opt_view(o: Option<String>) -> Option<Seq<char>> {
    match o {
        Some(s) => Some(s@),
        None => None,
    }
}

/// Choose the key seed from the machine id, the host name and the user name.
pub fn machine_seed(uid: Option<String>, host: Option<String>, user: &str) -> (r: String)
    ensures
        r@ == seed_spec(opt_view(uid), opt_view(host), user@),
        r@.len() > 0,
{
    proof { reveal_strlit("pezmax-fallback-key"); reveal_strlit(":"); }
    match uid {
        Some(u) => {
            if !u.as_str().is_empty() {
                return u;
            }
        },
        None => {},
    }
    let h = match host {
        Some(h) => h,
        None => String::new(),
    };
    if h.as_str().is_empty() && user.is_empty() {
        "pezmax-fallback-key".to_string()
    } else {
        let mut s = h;
        s.append(":");
        s.append(user);
        s
    }
}

/// Key byte `i` stretched from the seed bytes.
pub open spec fn key_byte(seed: Seq<u8>, i: int) -> u8 {
    ((seed[i % (seed.len() as int)] as int + (((i as u8) ^ 0x5Au8) as int)) % 256) as u8
}

/// The 32-byte key: the seed bytes repeated cyclically, byte `i` plus `i ^ 0x5A` (wrapping).
pub open spec fn key_spec(seed: Seq<u8>) -> Seq<u8> {
    Seq::new(32, |i: int| key_byte(seed, i))
}

/// Stretch the seed bytes to the 32-byte key.
pub fn derive_key(seed: &[u8]) -> (r: Vec<u8>)
    requires
        seed@.len() > 0,
    ensures
        r@ == key_spec(seed@),
{
    let n = seed.len();
    let mut key: Vec<u8> = Vec::new();
    let mut i: usize = 0;
    while i < 32
        invariant
            n == seed@.len(),
            n > 0,
            0 <= i <= 32,
            key@ =~= Seq::new(i as nat, |j: int| key_byte(seed@, j)),
        decreases 32 - i,
    {
        let b = seed[i % n];
        let k = b.wrapping_add((i as u8) ^ 0x5A);
        assert(k == key_byte(seed@, i as int));
        key.push(k);
        i = i + 1;
    }
    assert(key@ =~= key_spec(seed@));
    key
}

/// XOR of `data` with `key` repeated cyclically.
pub open spec fn xor_spec(data: Seq<u8>, key: Seq<u8>) -> Seq<u8> {
    Seq::new(data.len(), |i: int| data[i] ^ key[i % (key.len() as int)])
}

/// XOR `data` with the key repeated cyclically.
pub fn xor_with_key(data: &[u8], key: &[u8]) -> (r: Vec<u8>)
    requires
        key@.len() > 0 || data@.len() == 0,
    ensures
        r@ == xor_spec(data@, key@),
{
    let mut out: Vec<u8> = Vec::new();
    let mut i: usize = 0;
    while i < data.len()
        invariant
            key@.len() > 0 || data@.len() == 0,
            0 <= i <= data@.len(),
            out@ =~= Seq::new(i as nat, |j: int| data@[j] ^ key@[j % (key@.len() as int)]),
        decreases data.len() - i,
    {
        out.push(data[i] ^ key[i % key.len()]);
        i = i + 1;
    }
    assert(out@ =~= xor_spec(data@, key@));
    out
}

/// The obfuscated text of `plain` under `key`.
pub open spec fn obfuscated(plain: Seq<char>, key: Seq<u8>) -> Seq<char> {
    base64_url_nopad(xor_spec(encode_utf8(plain), key))
}

/// Obfuscate `plain` with an explicit key.
pub fn obfuscate_with_key(plain: &str, key: &[u8]) -> (r: String)
    requires
        key@.len() > 0,
    ensures
        r@ == obfuscated(plain@, key@),
{
    let x = xor_with_key(plain.as_bytes(), key);
    base64_encode(x.as_slice())
}

/// What `deobfuscate_with_key` returns for `cipher` under `key`: the decoded
/// bytes XOR the key, as text, when `cipher` is base64 and that is UTF-8.
pub open spec fn deobfuscated(cipher: Seq<char>, key: Seq<u8>) -> Option<Seq<char>> {
    if exists|b: Seq<u8>| #[trigger] base64_url_nopad(b) == cipher {
        let b = choose|b: Seq<u8>| #[trigger] base64_url_nopad(b) == cipher;
        let x = xor_spec(b, key);
        if valid_utf8(x) {
            Some(decode_utf8(x))
        } else {
            None
        }
    } else {
        None
    }
}

/// Undo `obfuscate_with_key`: `None` when `cipher` is not base64 or the
/// recovered bytes are not UTF-8.
pub fn deobfuscate_with_key(cipher: &str, key: &[u8]) -> (r: Option<String>)
    requires
        key@.len() > 0,
    ensures
        match deobfuscated(cipher@, key@) {
            Some(p) => r matches Some(s) && s@ == p,
            None => r is None,
        },
{
    let bytes = match base64_decode(cipher) {
        Some(b) => b,
        None => return None,
    };
    proof {
        let c = choose|b: Seq<u8>| #[trigger] base64_url_nopad(b) == cipher@;
        lemma_base64_injective(c, bytes@);
    }
    let x = xor_with_key(bytes.as_slice(), key);
    string_from_utf8(x)
}


proof fn lemma_b64_digit_injective(a: int, b: int)
    requires
        0 <= a < 64,
        0 <= b < 64,
        b64_digit(a) == b64_digit(b),
    ensures
        a == b,
{
}

/// Length of the encoding of `n` bytes.
pub open spec fn encoded_len(n: nat) -> nat {
    4 * (n / 3) + if n % 3 == 0 { 0nat } else if n % 3 == 1 { 2nat } else { 3nat }
}

proof fn lemma_base64_len(b: Seq<u8>)
    ensures
        base64_url_nopad(b).len() == encoded_len(b.len()),
    decreases b.len(),
{
    if b.len() >= 3 {
        lemma_base64_len(b.skip(3));
    }
}

proof fn lemma_encoded_len_injective(m: nat, n: nat)
    requires
        encoded_len(m) == encoded_len(n),
    ensures
        m == n,
{
}

proof fn lemma_one_byte(x: u8, y: u8)
    requires
        x / 4 == y / 4,
        (x % 4) * 16 == (y % 4) * 16,
    ensures
        x == y,
{
}

proof fn lemma_two_bytes(x0: u8, x1: u8, y0: u8, y1: u8)
    requires
        x0 / 4 == y0 / 4,
        (x0 % 4) * 16 + x1 / 16 == (y0 % 4) * 16 + y1 / 16,
        (x1 % 16) * 4 == (y1 % 16) * 4,
    ensures
        x0 == y0,
        x1 == y1,
{
}

proof fn lemma_three_bytes(x0: u8, x1: u8, x2: u8, y0: u8, y1: u8, y2: u8)
    requires
        x0 / 4 == y0 / 4,
        (x0 % 4) * 16 + x1 / 16 == (y0 % 4) * 16 + y1 / 16,
        (x1 % 16) * 4 + x2 / 64 == (y1 % 16) * 4 + y2 / 64,
        x2 % 64 == y2 % 64,
    ensures
        x0 == y0,
        x1 == y1,
        x2 == y2,
{
}

/// Different byte strings have different encodings.
pub proof fn lemma_base64_injective(a: Seq<u8>, b: Seq<u8>)
    requires
        base64_url_nopad(a) == base64_url_nopad(b),
    ensures
        a == b,
    decreases a.len(),
{
    lemma_base64_len(a);
    lemma_base64_len(b);
    lemma_encoded_len_injective(a.len(), b.len());
    let ea = base64_url_nopad(a);
    let eb = base64_url_nopad(b);
    if a.len() == 0 {
        assert(a =~= b);
    } else if a.len() == 1 {
        assert(ea[0] == eb[0] && ea[1] == eb[1]);
        lemma_b64_digit_injective(a[0] as int / 4, b[0] as int / 4);
        lemma_b64_digit_injective((a[0] as int % 4) * 16, (b[0] as int % 4) * 16);
        lemma_one_byte(a[0], b[0]);
        assert(a =~= b);
    } else if a.len() == 2 {
        assert(ea[0] == eb[0] && ea[1] == eb[1] && ea[2] == eb[2]);
        lemma_b64_digit_injective(a[0] as int / 4, b[0] as int / 4);
        lemma_b64_digit_injective((a[0] as int % 4) * 16 + a[1] as int / 16, (b[0] as int % 4) * 16 + b[1] as int / 16);
        lemma_b64_digit_injective((a[1] as int % 16) * 4, (b[1] as int % 16) * 4);
        lemma_two_bytes(a[0], a[1], b[0], b[1]);
        assert(a =~= b);
    } else {
        assert(ea[0] == eb[0] && ea[1] == eb[1] && ea[2] == eb[2] && ea[3] == eb[3]);
        lemma_b64_digit_injective(a[0] as int / 4, b[0] as int / 4);
        lemma_b64_digit_injective((a[0] as int % 4) * 16 + a[1] as int / 16, (b[0] as int % 4) * 16 + b[1] as int / 16);
        lemma_b64_digit_injective((a[1] as int % 16) * 4 + a[2] as int / 64, (b[1] as int % 16) * 4 + b[2] as int / 64);
        lemma_b64_digit_injective(a[2] as int % 64, b[2] as int % 64);
        lemma_three_bytes(a[0], a[1], a[2], b[0], b[1], b[2]);
        assert(ea.skip(4) =~= base64_url_nopad(a.skip(3)));
        assert(eb.skip(4) =~= base64_url_nopad(b.skip(3)));
        lemma_base64_injective(a.skip(3), b.skip(3));
        assert(a =~= seq![a[0], a[1], a[2]] + a.skip(3));
        assert(b =~= seq![b[0], b[1], b[2]] + b.skip(3));
    }
}


proof fn lemma_encode_nonempty(s: Seq<char>)
    requires
        s.len() > 0,
    ensures
        encode_utf8(s).len() > 0,
{
}

proof fn lemma_xor_involution(data: Seq<u8>, key: Seq<u8>)
    requires
        key.len() > 0,
    ensures
        xor_spec(xor_spec(data, key), key) == data,
{
    let once = xor_spec(data, key);
    assert forall|i: int| 0 <= i < data.len() implies #[trigger] xor_spec(once, key)[i] == data[i] by {
        let b = data[i];
        let k = key[i % (key.len() as int)];
        assert((b ^ k) ^ k == b) by (bit_vector);
    }
    assert(xor_spec(once, key) =~= data);
}

/// Deobfuscating what obfuscation produced under the same key gives the plain
/// text back.
pub proof fn lemma_obfuscation_round_trip(plain: Seq<char>, key: Seq<u8>)
    requires
        key.len() > 0,
    ensures
        deobfuscated(obfuscated(plain, key), key) == Some(plain),
{
    let x = xor_spec(encode_utf8(plain), key);
    let cipher = base64_url_nopad(x);
    assert(base64_url_nopad(x) == cipher);
    let c = choose|b: Seq<u8>| #[trigger] base64_url_nopad(b) == cipher;
    lemma_base64_injective(c, x);
    lemma_xor_involution(encode_utf8(plain), key);
    vstd::utf8::encode_utf8_valid_utf8(plain);
    vstd::utf8::encode_utf8_decode_utf8(plain);
}

/// `key` is derived from some machine identity for the given user name.
pub open spec fn is_machine_key(key: Seq<u8>, user: Seq<char>) -> bool {
    exists|uid: Option<Seq<char>>, host: Option<Seq<char>>|
        key == #[trigger] key_spec(encode_utf8(seed_spec(uid, host, user)))
}

/// The key of this machine: derived from the machine id, or host and user
/// name, as `machine_seed` chooses. The machine id and host name come from the
/// system, so the key is known only to be one derived that way.
pub fn machine_key(user: &str) -> (r: Vec<u8>)
    ensures
        r@.len() == 32,
        is_machine_key(r@, user@),
{
    let uid = machine_uid_get();
    let host = hostname_get();
    let ghost u = opt_view(uid);
    let ghost h = opt_view(host);
    let seed = machine_seed(uid, host, user);
    proof { lemma_encode_nonempty(seed@); }
    let key = derive_key(seed.as_str().as_bytes());
    assert(key@ == key_spec(encode_utf8(seed_spec(u, h, user@))));
    key
}

/// Obfuscate `plain` with the key of this machine (`user` is the login name
/// from the environment, used when the machine id is missing).
pub fn obfuscate(plain: &str, user: &str) -> (r: String)
    ensures
        exists|k: Seq<u8>| is_machine_key(k, user@) && k.len() == 32 && r@ == obfuscated(plain@, k),
{
    let key = machine_key(user);
    obfuscate_with_key(plain, key.as_slice())
}

/// Undo `obfuscate` with the key of this machine; `None` when `cipher` is not
/// valid (not base64, or not UTF-8 once decoded).
pub fn deobfuscate(cipher: &str, user: &str) -> (r: Option<String>)
    ensures
        exists|k: Seq<u8>| is_machine_key(k, user@) && k.len() == 32 && match deobfuscated(cipher@, k) {
            Some(p) => r matches Some(s) && s@ == p,
            None => r is None,
        },
{
    let key = machine_key(user);
    deobfuscate_with_key(cipher, key.as_slice())
}

} // verus!
