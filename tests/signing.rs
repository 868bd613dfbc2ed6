use base64::Engine;
use cbc::cipher::block_padding::Pkcs7;
use cbc::cipher::{BlockDecryptMut, KeyIvInit};
use netease_player::encoding::{hex_decode, hex_encode};
use netease_player::request::{
    crypto_params, program_detail_call, song_detail_call, song_url_call, write_json_array, write_json_object,
};
use netease_player::signing::{
    encrypt_secret_key, open_signed, random_secret_key, weapi, weapi_with_key, IV, KEY_ALPHABET, MODULUS_HEX, PRESET_KEY,
};
use num_bigint::BigUint;

fn aes_decrypt(key: &[u8], data: &[u8]) -> Vec<u8> {
    cbc::Decryptor::<aes::Aes128>::new(key.into(), IV.as_bytes().into())
        .decrypt_padded_vec_mut::<Pkcs7>(data)
        .unwrap()
}

fn b64_decode(s: &str) -> Vec<u8> {
    base64::engine::general_purpose::STANDARD.decode(s).unwrap()
}

fn open_cipher_text(params: &str, key: &[u8]) -> String {
    let first = String::from_utf8(aes_decrypt(key, &b64_decode(params))).unwrap();
    String::from_utf8(aes_decrypt(PRESET_KEY.as_bytes(), &b64_decode(&first))).unwrap()
}

fn expected_enc_key(key: &[u8]) -> String {
    let mut rev = key.to_vec();
    rev.reverse();
    let m = BigUint::parse_bytes(MODULUS_HEX.as_bytes(), 16).unwrap();
    let v = BigUint::from_bytes_be(&rev).modpow(&BigUint::from(65537u32), &m);
    format!("{:0>256}", v.to_str_radix(16))
}

#[test]
fn signing_is_deterministic_for_a_fixed_key() {
    let key = b"abcdefghijklmnop".to_vec();
    let text = r#"{"ids":"[26209670]","br":"320000"}"#;
    let a = weapi_with_key(text, &key);
    let b = weapi_with_key(text, &key);
    assert_eq!(a.params, b.params);
    assert_eq!(a.enc_sec_key, b.enc_sec_key);
    assert_eq!(a.enc_sec_key.len(), 256);
    assert!(a.enc_sec_key.chars().all(|c| c.is_ascii_digit() || ('a'..='f').contains(&c)));
    assert_ne!(a.params, text);
}

#[test]
fn cipher_text_round_trip() {
    let key = b"0123456789ABCDEF".to_vec();
    let text = r#"{"id":"2493262449"}"#;
    let signed = weapi_with_key(text, &key);
    assert_eq!(open_cipher_text(&signed.params, &key), text);
}

#[test]
fn encrypted_key_matches_modular_exponentiation() {
    for key in [b"abcdefghijklmnop".to_vec(), b"0000000000000000".to_vec(), b"ZZZZZZZZZZZZZZZZ".to_vec()] {
        assert_eq!(encrypt_secret_key(&key), expected_enc_key(&key));
    }
}

#[test]
fn random_keys_are_alphanumeric() {
    let key = random_secret_key();
    assert_eq!(key.len(), 16);
    assert!(key.iter().all(|b| KEY_ALPHABET.as_bytes().contains(b)));
}

#[test]
fn random_signature_opens_with_its_key() {
    let text = r#"{"c":"[]"}"#;
    let signed = weapi(text);
    assert_eq!(signed.enc_sec_key.len(), 256);
    let m = BigUint::parse_bytes(MODULUS_HEX.as_bytes(), 16).unwrap();
    assert!(BigUint::parse_bytes(signed.enc_sec_key.as_bytes(), 16).unwrap() < m);
}

#[test]
fn hex_round_trip() {
    let bytes = hex_decode("00ff10a0");
    assert_eq!(bytes, vec![0x00, 0xff, 0x10, 0xa0]);
    assert_eq!(hex_encode(&bytes), "00ff10a0");
    assert_eq!(hex_decode("ABcd"), vec![0xab, 0xcd]);
    assert_eq!(hex_encode(&vec![]), "");
}

#[test]
fn json_object_keeps_order_and_escapes() {
    let pairs = vec![("ids".to_string(), "[26209670]".to_string()), ("br".to_string(), "320000".to_string())];
    assert_eq!(write_json_object(&pairs), r#"{"ids":"[26209670]","br":"320000"}"#);
    let pairs = vec![("a\"b".to_string(), "c\\d".to_string())];
    assert_eq!(write_json_object(&pairs), r#"{"a\"b":"c\\d"}"#);
    assert_eq!(write_json_object(&vec![]), "{}");
    assert_eq!(write_json_array(&vec!["1".to_string(), "2".to_string()]), "[1,2]");
}

#[test]
fn song_url_call_parameters() {
    let call = song_url_call(&vec![26209670]);
    assert_eq!(call.url, "https://music.163.com/weapi/song/enhance/player/url/");
    assert_eq!(
        call.params,
        vec![("ids".to_string(), "[26209670]".to_string()), ("br".to_string(), "320000".to_string())]
    );
    assert_eq!(song_url_call(&vec![1, 22]).params[0].1, "[1,22]");
}

#[test]
fn song_detail_call_parameters() {
    let call = song_detail_call(&vec![26209670]);
    assert_eq!(call.url, "https://music.163.com/weapi/song/detail");
    assert_eq!(
        call.params,
        vec![
            ("c".to_string(), r#"[{"id":"26209670"}]"#.to_string()),
            ("ids".to_string(), r#"["26209670"]"#.to_string())
        ]
    );
}

#[test]
fn program_detail_call_parameters() {
    let call = program_detail_call(2493262449);
    assert_eq!(call.url, "https://music.163.com/weapi/dj/program/detail");
    assert_eq!(call.params, vec![("id".to_string(), "2493262449".to_string())]);
}

#[test]
fn crypto_params_fields() {
    let params = program_detail_call(7).params;
    let form = crypto_params(&params);
    assert_eq!(form.len(), 2);
    assert_eq!(form[0].0, "params");
    assert_eq!(form[1].0, "encSecKey");
    assert_eq!(form[1].1.len(), 256);
    assert!(!form[0].1.is_empty());
}

#[test]
fn open_signed_recovers_text() {
    let key = b"qwertyuiopasdfgh".to_vec();
    let text = r#"{"ids":"[1]","br":"320000"}"#;
    let signed = weapi_with_key(text, &key);
    assert_eq!(open_signed(&signed.params, &key).as_deref(), Some(text));
    assert_eq!(open_signed("not base64!", &key), None);
    let other = b"aaaaaaaaaaaaaaaa".to_vec();
    assert_ne!(open_signed(&signed.params, &other).as_deref(), Some(text));
}

#[test]
fn json_control_characters_escaped() {
    let pairs = vec![("k".to_string(), "a\nb".to_string())];
    assert_eq!(write_json_object(&pairs), "{\"k\":\"a\\nb\"}");
}
