use age::secrecy::ExposeSecret;
use bech32::ToBase32;
use lettre::message::{Mailbox, Mailboxes};
use pay2email::encrypt::{decrypt, encrypt};
use pay2email::error::Error;
use pay2email::hex::{from_hex, to_hex};
use pay2email::qr::{create_bmp_base64_qr, to_data_url};
use pay2email::Config;
use std::io::Write;

/// Encrypt `payload` for `recipient` with age and return it bech32m
/// encoded, the same wire form the service's decoder expects.
fn age_blob(recipient: &str, payload: &[u8]) -> String {
    let rec: age::x25519::Recipient = recipient.parse().unwrap();
    let encryptor = age::Encryptor::with_recipients(vec![Box::new(rec)]).unwrap();
    let mut out = vec![];
    let mut writer = encryptor.wrap_output(&mut out).unwrap();
    writer.write_all(payload).unwrap();
    writer.finish().unwrap();
    bech32::encode("e", out.to_base32(), bech32::Variant::Bech32m).unwrap()
}

fn test_keypair() -> (String, String) {
    let identity = age::x25519::Identity::generate();
    let secret = identity.to_string().expose_secret().to_string();
    let public = identity.to_public().to_string();
    (secret, public)
}

#[test]
fn decode_round_trip() {
    let (secret, public) = test_keypair();
    let blob = age_blob(&public, "Hello world!".as_bytes());
    let decoded = decrypt(&blob, &secret).unwrap();
    assert_eq!(decoded, "Hello world!");
    assert_ne!(blob, "Hello world!");
}

#[test]
fn tamper_detection() {
    let (secret, public) = test_keypair();
    let blob = age_blob(&public, "Hello world!".as_bytes());
    // flip the last character to another charset character
    let mut tampered: Vec<char> = blob.chars().collect();
    let last = tampered.len() - 1;
    tampered[last] = if tampered[last] == 'q' { 'p' } else { 'q' };
    let tampered: String = tampered.into_iter().collect();
    assert_ne!(blob, tampered);
    let r = decrypt(&tampered, &secret);
    assert!(matches!(r, Err(Error::Bech32)));
}

#[test]
fn decode_wrong_key_fails() {
    let (_, public) = test_keypair();
    let (other_secret, _) = test_keypair();
    let blob = age_blob(&public, "Hello world!".as_bytes());
    let r = decrypt(&blob, &other_secret);
    assert!(matches!(r, Err(Error::Decryption)));
}

#[test]
fn decode_malformed_encoding() {
    let (secret, _) = test_keypair();
    assert!(matches!(
        decrypt("definitely not bech32", &secret),
        Err(Error::Bech32)
    ));
    assert!(matches!(decrypt("", &secret), Err(Error::Bech32)));
}

#[test]
fn decode_invalid_text() {
    let (secret, public) = test_keypair();
    // valid ciphertext of bytes that are not UTF-8
    let blob = age_blob(&public, &[0xff, 0xfe, 0xfd]);
    let r = decrypt(&blob, &secret);
    assert!(matches!(r, Err(Error::InvalidText)));
}

#[test]
fn encrypt_targets_the_service_key() {
    let blob = encrypt("Hello world!").unwrap();
    assert!(!blob.is_empty());
    assert_ne!(blob, "Hello world!");
    assert!(blob.starts_with("e1"));
    // the wire encoding is sound, but the ciphertext is not for our
    // freshly generated key
    let (other_secret, _) = test_keypair();
    let r = decrypt(&blob, &other_secret);
    assert!(matches!(r, Err(Error::Decryption)));
}

#[test]
fn config_refuses_foreign_keys() {
    let (secret, _) = test_keypair();
    // a fresh key is not the identity behind the service's public key
    assert!(Config::new(secret, "credential".to_string()).is_none());
}

#[test]
fn hex_codec() {
    assert_eq!(to_hex(&[0x00, 0xff, 0x1a]), "00ff1a");
    assert_eq!(to_hex(&[]), "");
    assert_eq!(from_hex("00ff1a"), Some(vec![0x00, 0xff, 0x1a]));
    assert_eq!(from_hex("00FF1A"), Some(vec![0x00, 0xff, 0x1a]));
    assert_eq!(from_hex(""), Some(vec![]));
    assert_eq!(from_hex("abc"), None);
    assert_eq!(from_hex("zz"), None);
}

#[test]
fn data_url_encoding() {
    assert_eq!(
        to_data_url("abc".as_bytes(), "text/plain"),
        "data:text/plain;base64,YWJj"
    );
    assert_eq!(
        to_data_url(&[], "image/bmp"),
        format!("data:image/bmp;base64,{}", base64::encode([]))
    );
}

#[test]
fn qr_data_url() {
    let url = create_bmp_base64_qr("LNBC1PVJLUEZ").unwrap();
    let prefix = "data:image/bmp;base64,";
    assert!(url.starts_with(prefix));
    let bytes = base64::decode(&url[prefix.len()..]).unwrap();
    // a bmp file starts with the two magic bytes
    assert_eq!(&bytes[0..2], "BM".as_bytes());
}

#[test]
fn test_parse() {
    let s = "mail@example.com";
    assert!(s.parse::<Mailbox>().is_ok());

    let s = "mail@example.com ";
    assert!(s.parse::<Mailbox>().is_err());

    let s = "mail@example.com ";
    assert!(s.trim().parse::<Mailbox>().is_ok());

    let s = "mail@example.com, another@asa.it";
    let mbs = s.trim().parse::<Mailboxes>();
    assert!(mbs.is_ok());

    let s = "mail@example.com";
    let mbs = s.trim().parse::<Mailboxes>();
    assert!(mbs.is_ok());
}

#[test]
fn qr_refuses_oversized_text() {
    // no QR version can hold this much data
    let huge = "x".repeat(8000);
    let r = create_bmp_base64_qr(&huge);
    assert!(matches!(r, Err(Error::Qr)));
}
