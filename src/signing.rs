//! The two-pass request signing scheme of the service's private API: the JSON
//! body is encrypted twice with AES-128-CBC, once under a fixed passphrase and once
//! under a fresh random key, and that key travels RSA-encrypted beside it.

use vstd::prelude::*;
use vstd::arithmetic::power::{pow, lemma_pow1, lemma_pow_adds, lemma_pow_multiplies, lemma_pow_positive};
use vstd::utf8::encode_utf8;
use vstd::string::StringSliceAdditionalSpecFns;
use base64::Engine;
use cbc::cipher::{BlockDecryptMut, BlockEncryptMut, KeyIvInit};
use cbc::cipher::block_padding::Pkcs7;
use crate::encoding::{
    be_value, hex_value, is_lower_hex, hex_decode, hex_encode,
    lemma_be_value_concat, lemma_be_value_leading, lemma_be_value_zeros, lemma_hex_value_bound,
    lemma_hex_value_concat,
};

verus! {

/// The passphrase of the first encryption pass.
pub const PRESET_KEY: &'static str = "0CoJUm6Qyw8W8jud";

/// The initialisation vector of both passes.
pub const IV: &'static str = "0102030405060708";

/// The characters that a random secret key is made of.
pub const KEY_ALPHABET: &'static str = "0123456789abcdefghijklmnopqrstuvwxyzABCDEFGHIJKLMNOPQRSTUVWXYZ";

/// The public RSA modulus, in hexadecimal.
pub const MODULUS_HEX: &'static str = "00e0b509f6259df8642dbc35662901477df22677ec152b5ff68ace615bb7b725152b3ab17a876aea8a5aa76d2e417629ec4ee341f56135fccf695280104e0312ecbda92557c93870114af6c9d05c4f7f0c3685b7a46bee255932575cce10b424d813cfe4875d3e82047b97ddef52741d546b8e289dc6935b3ece0462db0a22b8e7";

/// The public RSA exponent.
pub const PUBLIC_EXPONENT: u64 = 65537;

/// Length in bytes of the random secret key.
pub const SECRET_KEY_LEN: usize = 16;

/// Length in hexadecimal digits of the encrypted secret key.
pub const ENC_KEY_HEX_LEN: usize = 256;

/// The transport parameters of one signed request: `params` and `encSecKey`.
pub struct SignedRequest {
    pub params: String,
    pub enc_sec_key: String,
}

/// AES-128 in CBC mode with PKCS#7 padding, as the `cbc` and `aes` crates compute it.
pub uninterp spec fn aes128_cbc_pkcs7(key: Seq<u8>, iv: Seq<u8>, data: Seq<u8>) -> Seq<u8>;

/// Standard base64 (with padding), as the `base64` crate writes it.
pub uninterp spec fn base64_of(data: Seq<u8>) -> Seq<char>;

/// Relies on `cbc::Encryptor::<aes::Aes128>` and `encrypt_padded_vec_mut::<Pkcs7>`:
/// AES-128-CBC encryption with PKCS#7 padding; the key and IV must be 16 bytes each.
#[verifier::external_body]
fn aes_cbc_encrypt(key: &[u8], iv: &[u8], data: &[u8]) -> (r: Vec<u8>)
    requires
        key@.len() == 16,
        iv@.len() == 16,
    ensures
        r@ == aes128_cbc_pkcs7(key@, iv@, data@),
{
    cbc::Encryptor::<aes::Aes128>::new(key.into(), iv.into()).encrypt_padded_vec_mut::<Pkcs7>(data)
}

/// Relies on `cbc::Decryptor::<aes::Aes128>` and `decrypt_padded_vec_mut::<Pkcs7>`:
/// decryption undoes the encryption under the same key and IV, and fails on
/// malformed padding or a length that is not a multiple of the block.
#[verifier::external_body]
fn aes_cbc_decrypt(key: &[u8], iv: &[u8], data: &[u8]) -> (r: Option<Vec<u8>>)
    requires
        key@.len() == 16,
        iv@.len() == 16,
    ensures
        r is None ==> forall|m: Seq<u8>| data@ != #[trigger] aes128_cbc_pkcs7(key@, iv@, m),
        r matches Some(v) ==> forall|m: Seq<u8>| data@ == #[trigger] aes128_cbc_pkcs7(key@, iv@, m) ==> v@ == m,
{
    cbc::Decryptor::<aes::Aes128>::new(key.into(), iv.into()).decrypt_padded_vec_mut::<Pkcs7>(data).ok()
}

/// Relies on `base64::engine::general_purpose::STANDARD.decode`: it reads back what
/// `encode` wrote, and fails on text that is not base64.
#[verifier::external_body]
fn base64_decode(text: &str) -> (r: Option<Vec<u8>>)
    ensures
        r is None ==> forall|b: Seq<u8>| text@ != #[trigger] base64_of(b),
        r matches Some(v) ==> forall|b: Seq<u8>| text@ == #[trigger] base64_of(b) ==> v@ == b,
{
    base64::engine::general_purpose::STANDARD.decode(text).ok()
}

/// Relies on std's `String::from_utf8`: valid UTF-8 decodes to the text it encodes.
#[verifier::external_body]
fn utf8_text(bytes: Vec<u8>) -> (r: Option<String>)
    ensures
        r is None ==> forall|t: Seq<char>| bytes@ != #[trigger] encode_utf8(t),
        r matches Some(s) ==> forall|t: Seq<char>| bytes@ == #[trigger] encode_utf8(t) ==> s@ == t,
{
    String::from_utf8(bytes).ok()
}

/// Relies on `base64::engine::general_purpose::STANDARD.encode`.
#[verifier::external_body]
fn base64_encode(data: &[u8]) -> (r: String)
    ensures
        r@ == base64_of(data@),
{
    base64::engine::general_purpose::STANDARD.encode(data)
}

/// Relies on `num_bigint::BigUint::modpow`, which returns `(base ^ exponent) % modulus`
/// and panics on a zero modulus; the numbers travel as big-endian bytes.
#[verifier::external_body]
fn mod_pow(base: &[u8], exponent: &[u8], modulus: &[u8]) -> (r: Vec<u8>)
    requires
        be_value(modulus@) > 0,
    ensures
        be_value(r@) == pow(be_value(base@) as int, be_value(exponent@)) % (be_value(
            modulus@,
        ) as int),
{
    let b = num_bigint::BigUint::from_bytes_be(base);
    let e = num_bigint::BigUint::from_bytes_be(exponent);
    let m = num_bigint::BigUint::from_bytes_be(modulus);
    b.modpow(&e, &m).to_bytes_be()
}

/// `rand::random` draws a value from the thread-local generator; nothing is promised
/// of the value.
pub assume_specification<T>[ rand::random::<T> ]() -> (r: T)
    where
        rand::distributions::Standard: rand::distributions::Distribution<T>,
;

pub open spec fn modulus_value() -> nat {
    hex_value(MODULUS_HEX@)
}

pub open spec fn reversed(s: Seq<u8>) -> Seq<u8> {
    Seq::new(s.len(), |i: int| s[s.len() - 1 - i])
}

/// The RSA encryption of a secret key: its bytes in reverse order, read as a
/// big-endian number, raised to the public exponent modulo the public modulus.
pub open spec fn rsa_value(key: Seq<u8>) -> nat {
    (pow(be_value(reversed(key)) as int, PUBLIC_EXPONENT as nat) % (modulus_value() as int)) as nat
}

/// The first pass: the JSON text encrypted under the fixed passphrase, in base64.
pub open spec fn first_pass(text: Seq<char>) -> Seq<char> {
    base64_of(aes128_cbc_pkcs7(PRESET_KEY.spec_bytes(), IV.spec_bytes(), encode_utf8(text)))
}

/// The `params` field: the first pass encrypted again under the secret key, in base64.
pub open spec fn cipher_text(text: Seq<char>, key: Seq<u8>) -> Seq<char> {
    base64_of(aes128_cbc_pkcs7(key, IV.spec_bytes(), encode_utf8(first_pass(text))))
}

pub open spec fn is_key_byte(b: u8) -> bool {
    KEY_ALPHABET.spec_bytes().contains(b)
}

/// A secret key as the scheme draws it: sixteen characters of the key alphabet.
pub open spec fn is_secret_key(key: Seq<u8>) -> bool {
    key.len() == SECRET_KEY_LEN && forall|i: int| 0 <= i < key.len() ==> is_key_byte(#[trigger] key[i])
}

/// `params` and `enc_sec_key` are the signature of `text` under the secret key `key`.
pub open spec fn signed_by(text: Seq<char>, params: Seq<char>, enc_sec_key: Seq<char>, key: Seq<u8>) -> bool {
    &&& params == cipher_text(text, key)
    &&& enc_sec_key.len() == ENC_KEY_HEX_LEN
    &&& forall|i: int| 0 <= i < enc_sec_key.len() ==> is_lower_hex(#[trigger] enc_sec_key[i])
    &&& hex_value(enc_sec_key) == rsa_value(key)
}

proof fn lemma_modulus_range()
    ensures
        MODULUS_HEX@.len() == 258,
        0 < modulus_value(),
        modulus_value() < pow(256, 128),
{
    reveal_strlit("00e0b509f6259df8642dbc35662901477df22677ec152b5ff68ace615bb7b725152b3ab17a876aea8a5aa76d2e417629ec4ee341f56135fccf695280104e0312ecbda92557c93870114af6c9d05c4f7f0c3685b7a46bee255932575cce10b424d813cfe4875d3e82047b97ddef52741d546b8e289dc6935b3ece0462db0a22b8e7");
    let s = MODULUS_HEX@;
    assert(s.len() == 258);
    let z = s.take(2);
    assert(z.drop_last() =~= s.take(1));
    assert(s.take(1).drop_last() =~= Seq::<char>::empty());
    assert(hex_value(Seq::<char>::empty()) == 0);
    assert(s[0] == '0' && s[1] == '0' && s[2] == 'e');
    assert(s.take(1).last() == '0');
    assert(hex_value(s.take(1)) == 0);
    assert(z.last() == '0');
    assert(hex_value(z) == 0);
    assert(z + s.skip(2) =~= s);
    lemma_hex_value_concat(z, s.skip(2));
    lemma_hex_value_bound(s.skip(2));
    lemma_pow_adds(16, 1, 1);
    lemma_pow1(16);
    lemma_pow_multiplies(16, 2, 128);
    let h = s.take(3);
    assert(h.drop_last() =~= z);
    assert(h.last() == 'e');
    assert(hex_value(h) == 14);
    assert(h + s.skip(3) =~= s);
    lemma_hex_value_concat(h, s.skip(3));
    lemma_pow_positive(16, 255);
    assert(hex_value(h) * pow(16, 255) > 0) by (nonlinear_arith)
        requires
            hex_value(h) == 14,
            pow(16, 255) > 0,
    ;
}

/// Encrypts a secret key for the service: the key's bytes reversed, raised to the
/// public exponent modulo the public modulus, as 256 lowercase hexadecimal digits.
pub fn encrypt_secret_key(key: &Vec<u8>) -> (r: String)
    ensures
        r@.len() == ENC_KEY_HEX_LEN,
        forall|i: int| 0 <= i < r@.len() ==> is_lower_hex(#[trigger] r@[i]),
        hex_value(r@) == rsa_value(key@),
{
    let n = key.len();
    let mut rev: Vec<u8> = Vec::new();
    let mut i: usize = 0;
    while i < n
        invariant
            n == key@.len(),
            i <= n,
            rev@ =~= Seq::new(i as nat, |j: int| key@[n - 1 - j]),
        decreases n - i,
    {
        rev.push(key[n - 1 - i]);
        i = i + 1;
    }
    assert(rev@ =~= reversed(key@));
    let exponent: Vec<u8> = vec![1u8, 0u8, 1u8];
    proof {
        let e = exponent@;
        assert(e.drop_last() =~= seq![1u8, 0u8]);
        assert(e.drop_last().drop_last() =~= seq![1u8]);
        assert(e.drop_last().drop_last().drop_last() =~= Seq::<u8>::empty());
        assert(be_value(Seq::<u8>::empty()) == 0);
        assert(be_value(seq![1u8]) == 1);
        assert(be_value(seq![1u8, 0u8]) == 256);
        assert(be_value(e) == 65537);
        lemma_modulus_range();
    }
    let modulus = hex_decode(MODULUS_HEX);
    let value = mod_pow(rev.as_slice(), exponent.as_slice(), modulus.as_slice());
    let m = value.len();
    let mut k: usize = 0;
    while k < m && value[k] == 0
        invariant
            m == value@.len(),
            k <= m,
            forall|j: int| 0 <= j < k ==> value@[j] == 0,
        decreases m - k,
    {
        k = k + 1;
    }
    let ghost digits = value@.skip(k as int);
    proof {
        assert(value@.take(k as int) + digits =~= value@);
        lemma_be_value_concat(value@.take(k as int), digits);
        lemma_be_value_zeros(value@.take(k as int));
        assert(be_value(modulus@) == modulus_value());
        assert(be_value(exponent@) == PUBLIC_EXPONENT as nat);
        assert(be_value(value@) == rsa_value(key@));
        assert(be_value(value@.take(k as int)) == 0);
        assert(be_value(value@.take(k as int)) * pow(256, digits.len()) == 0);
        assert(be_value(value@) == be_value(digits));
        assert(rsa_value(key@) < modulus_value());
        if digits.len() > 128 {
            lemma_be_value_leading(digits);
            vstd::arithmetic::power::lemma_pow_increases(256, 128, (digits.len() - 1) as nat);
            assert(false);
        }
    }
    let mut padded: Vec<u8> = Vec::new();
    let fill = 128 - (m - k);
    let mut j: usize = 0;
    while j < fill
        invariant
            j <= fill,
            padded@ =~= Seq::new(j as nat, |x: int| 0u8),
        decreases fill - j,
    {
        padded.push(0);
        j = j + 1;
    }
    let ghost zeros = padded@;
    let mut j: usize = k;
    while j < m
        invariant
            k <= j <= m,
            m == value@.len(),
            padded@ =~= zeros + value@.subrange(k as int, j as int),
        decreases m - j,
    {
        padded.push(value[j]);
        j = j + 1;
    }
    proof {
        assert(value@.subrange(k as int, m as int) =~= digits);
        lemma_be_value_concat(zeros, digits);
        lemma_be_value_zeros(zeros);
    }
    hex_encode(&padded)
}

/// Draws a secret key: sixteen characters of the key alphabet.
pub fn random_secret_key() -> (r: Vec<u8>)
    ensures
        r@.len() == SECRET_KEY_LEN,
        forall|i: int| 0 <= i < r@.len() ==> is_key_byte(#[trigger] r@[i]),
{
    let alphabet = KEY_ALPHABET.as_bytes();
    proof {
        reveal_strlit("0123456789abcdefghijklmnopqrstuvwxyzABCDEFGHIJKLMNOPQRSTUVWXYZ");
        assert(KEY_ALPHABET.is_ascii());
    }
    assert(alphabet@.len() == 62);
    let mut key: Vec<u8> = Vec::new();
    while key.len() < SECRET_KEY_LEN
        invariant
            alphabet@ == KEY_ALPHABET.spec_bytes(),
            alphabet@.len() == 62,
            key@.len() <= SECRET_KEY_LEN,
            forall|i: int| 0 <= i < key@.len() ==> is_key_byte(#[trigger] key@[i]),
        decreases SECRET_KEY_LEN - key@.len(),
    {
        let x: u8 = rand::random();
        let c = alphabet[(x % 62) as usize];
        assert(alphabet@[(x % 62) as int] == c);
        key.push(c);
        assert(is_key_byte(key@[key@.len() - 1]));
    }
    key
}

/// Signs a JSON text with a given secret key.
pub fn weapi_with_key(text: &str, key: &Vec<u8>) -> (r: SignedRequest)
    requires
        key@.len() == SECRET_KEY_LEN,
    ensures
        r.params@ == cipher_text(text@, key@),
        r.enc_sec_key@.len() == ENC_KEY_HEX_LEN,
        forall|i: int| 0 <= i < r.enc_sec_key@.len() ==> is_lower_hex(#[trigger] r.enc_sec_key@[i]),
        hex_value(r.enc_sec_key@) == rsa_value(key@),
{
    let preset = PRESET_KEY.as_bytes();
    let iv = IV.as_bytes();
    proof {
        reveal_strlit("0CoJUm6Qyw8W8jud");
        reveal_strlit("0102030405060708");
        assert(PRESET_KEY.is_ascii());
        assert(IV.is_ascii());
    }
    assert(preset@.len() == 16);
    assert(iv@.len() == 16);
    let first = base64_encode(aes_cbc_encrypt(preset, iv, text.as_bytes()).as_slice());
    let second = base64_encode(aes_cbc_encrypt(key.as_slice(), iv, first.as_str().as_bytes()).as_slice());
    SignedRequest { params: second, enc_sec_key: encrypt_secret_key(key) }
}

/// Signs a JSON text with a fresh random secret key.
pub fn weapi(text: &str) -> (r: SignedRequest)
    ensures
        exists|key: Seq<u8>| is_secret_key(key) && signed_by(text@, r.params@, r.enc_sec_key@, key),
{
    let key = random_secret_key();
    let r = weapi_with_key(text, &key);
    assert(is_secret_key(key@) && signed_by(text@, r.params@, r.enc_sec_key@, key@));
    r
}

/// Opens a cipher text with the secret key it was made with: the second pass is
/// undone into the base64 text of the first, which is undone with the fixed
/// passphrase into the JSON text that was signed.
pub fn open_signed(params: &str, key: &Vec<u8>) -> (r: Option<String>)
    requires
        key@.len() == SECRET_KEY_LEN,
    ensures
        forall|text: Seq<char>|
            params@ == #[trigger] cipher_text(text, key@) ==> (r matches Some(t) && t@ == text),
{
    let preset = PRESET_KEY.as_bytes();
    let iv = IV.as_bytes();
    proof {
        reveal_strlit("0CoJUm6Qyw8W8jud");
        reveal_strlit("0102030405060708");
        assert(PRESET_KEY.is_ascii());
        assert(IV.is_ascii());
    }
    assert(preset@.len() == 16);
    assert(iv@.len() == 16);
    let outer = match base64_decode(params) {
        Some(b) => b,
        None => return None,
    };
    let first_bytes = match aes_cbc_decrypt(key.as_slice(), iv, outer.as_slice()) {
        Some(b) => b,
        None => return None,
    };
    let first = match utf8_text(first_bytes) {
        Some(t) => t,
        None => return None,
    };
    let inner = match base64_decode(first.as_str()) {
        Some(b) => b,
        None => return None,
    };
    let plain = match aes_cbc_decrypt(preset, iv, inner.as_slice()) {
        Some(b) => b,
        None => return None,
    };
    let r = utf8_text(plain);
    assert forall|text: Seq<char>| params@ == #[trigger] cipher_text(text, key@) implies (r matches Some(
        t,
    ) && t@ == text) by {
        let c1 = aes128_cbc_pkcs7(PRESET_KEY.spec_bytes(), IV.spec_bytes(), encode_utf8(text));
        let c2 = aes128_cbc_pkcs7(key@, IV.spec_bytes(), encode_utf8(first_pass(text)));
        assert(params@ == base64_of(c2));
        assert(outer@ == c2);
        assert(first_bytes@ == encode_utf8(first_pass(text)));
        assert(first@ == first_pass(text));
        assert(first@ == base64_of(c1));
        assert(inner@ == c1);
        assert(plain@ == encode_utf8(text));
    }
    r
}

} // verus!
