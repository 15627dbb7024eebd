//! The encrypted-field gate.
//!
//! A field may be submitted pre-encrypted so the server never sees it
//! before payment clears: anyone may encrypt against the service's
//! public key, only the service can decrypt. On the wire the ciphertext
//! travels bech32m-encoded, so transcription errors are caught by a
//! checksum before decryption is even attempted.
//!
//! [`decrypt`] distinguishes the three failure kinds of the pipeline:
//! a malformed wire encoding, a ciphertext that was not encrypted for
//! this service, and decrypted bytes that are not text.

use vstd::prelude::*;

use crate::error::Error;

use bech32::{FromBase32, ToBase32};
use std::io::{Read, Write};
use vstd::utf8::{
    decode_utf8, encode_utf8, encode_utf8_decode_utf8, encode_utf8_valid_utf8, valid_utf8,
};

verus! {

/// The service's public key: any party may encrypt fields against it.
pub open spec fn service_public_key() -> Seq<char> {
    "age1xxzrgrfjm3yrwh3u6a7exgrldked0pdauvr3mx870wl6xzrwm5ps8s2h0p"@
}

/// The service's public key, as executable text.
pub fn public_key() -> (r: &'static str)
    ensures
        r@ == service_public_key(),
{
    "age1xxzrgrfjm3yrwh3u6a7exgrldked0pdauvr3mx870wl6xzrwm5ps8s2h0p"
}

/// Whether the secret key text `sk` is the identity behind the public
/// key text `pk`.
pub uninterp spec fn is_identity_for(sk: Seq<char>, pk: Seq<char>) -> bool;

/// What decrypting `ct` with the x25519 identity `sk` yields, or `None`
/// when the key text is unparsable or the ciphertext was not encrypted
/// for that identity.
pub uninterp spec fn age_decrypt_of(sk: Seq<char>, ct: Seq<u8>) -> Option<Seq<u8>>;

/// What bech32m-decoding a string yields: the human-readable part and
/// the payload bytes, or `None` when a character, the length, the
/// checksum, the variant or the padding is wrong.
pub uninterp spec fn bech32m_decode_of(s: Seq<char>) -> Option<(Seq<char>, Seq<u8>)>;

/// A human-readable part the bech32 encoder accepts, kept to lower case
/// so that decoding returns it unchanged.
pub open spec fn valid_bech32_hrp(h: Seq<char>) -> bool {
    &&& 1 <= h.len() <= 83
    &&& forall|i: int| 0 <= i < h.len() ==> 33 <= (#[trigger] h[i]) as u32 <= 126
    &&& forall|i: int| 0 <= i < h.len() ==> !('A' <= #[trigger] h[i] && h[i] <= 'Z')
}

/// Relies on `age::x25519::Identity::to_public`: whether a secret key
/// text is the identity behind a recipient text is a function of the
/// two strings alone.
#[verifier::external_body]
pub fn identity_matches(secret_key: &str, pk: &str) -> (r: bool)
    ensures
        r == is_identity_for(secret_key@, pk@),
{
    match secret_key.parse::<age::x25519::Identity>() {
        Ok(id) => id.to_public().to_string() == pk,
        Err(_) => false,
    }
}

/// Relies on `bech32::encode` with the Bech32m variant: it succeeds on
/// a well-formed human-readable part, and `bech32::decode` returns the
/// lower-case human-readable part and the payload unchanged. The output
/// is the human-readable part, one separator, one character per five
/// payload bits and a six-character checksum, so it is never shorter
/// than the payload plus seven.
#[verifier::external_body]
fn bech32m_encode(hrp: &str, data: &[u8]) -> (r: Option<String>)
    ensures
        r is None ==> !valid_bech32_hrp(hrp@),
        (r matches Some(s) ==> (valid_bech32_hrp(hrp@) ==> bech32m_decode_of(s@) == Some(
            (hrp@, data@),
        ))),
        (r matches Some(s) ==> s@.len() >= hrp@.len() + 1 + data@.len() + 6),
{
    bech32::encode(hrp, data.to_base32(), bech32::Variant::Bech32m).ok()
}

/// Relies on `bech32::decode` and the crate's base-32-to-byte
/// conversion: the outcome is a function of the string alone; an error,
/// a variant other than Bech32m, or bad padding count as no result.
#[verifier::external_body]
fn bech32m_decode(s: &str) -> (r: Option<(String, Vec<u8>)>)
    ensures
        match r {
            Some(p) => bech32m_decode_of(s@) == Some((p.0@, p.1@)),
            None => bech32m_decode_of(s@) is None,
        },
{
    match bech32::decode(s) {
        Ok((hrp, data, bech32::Variant::Bech32m)) => match Vec::<u8>::from_base32(&data) {
            Ok(bytes) => Some((hrp, bytes)),
            Err(_) => None,
        },
        _ => None,
    }
}

/// Relies on `age::Encryptor::with_recipients` over one x25519
/// recipient: whatever key material the encryption draws, any identity
/// behind the recipient decrypts the output back to the plaintext. The
/// output carries the format's header, nonce and chunk tags around the
/// payload, so it is strictly longer than the plaintext.
#[verifier::external_body]
fn age_encrypt(recipient: &str, plaintext: &[u8]) -> (r: Option<Vec<u8>>)
    ensures
        (r matches Some(ct) ==> forall|sk: Seq<char>|
            is_identity_for(sk, recipient@) ==> age_decrypt_of(sk, ct@) == Some(plaintext@)),
        (r matches Some(ct) ==> ct@.len() > plaintext@.len()),
{
    let rec: age::x25519::Recipient = recipient.parse().ok()?;
    let encryptor = age::Encryptor::with_recipients(vec![Box::new(rec)])?;
    let mut out = vec![];
    let mut writer = encryptor.wrap_output(&mut out).ok()?;
    writer.write_all(plaintext).ok()?;
    writer.finish().ok()?;
    Some(out)
}

/// Relies on `age::Decryptor` with one x25519 identity: the outcome is
/// a function of the secret key text and the ciphertext alone.
#[verifier::external_body]
fn age_decrypt(secret_key: &str, ciphertext: &[u8]) -> (r: Option<Vec<u8>>)
    ensures
        match r {
            Some(p) => age_decrypt_of(secret_key@, ciphertext@) == Some(p@),
            None => age_decrypt_of(secret_key@, ciphertext@) is None,
        },
{
    let key: age::x25519::Identity = secret_key.parse().ok()?;
    let decryptor = match age::Decryptor::new(ciphertext).ok()? {
        age::Decryptor::Recipients(d) => d,
        _ => return None,
    };
    let mut out = vec![];
    let mut reader = decryptor.decrypt(core::iter::once(&key as &dyn age::Identity)).ok()?;
    reader.read_to_end(&mut out).ok()?;
    Some(out)
}

/// Relies on `String::from_utf8`: it succeeds exactly on valid UTF-8
/// and returns the decoded characters.
#[verifier::external_body]
fn bytes_to_string(v: Vec<u8>) -> (r: Option<String>)
    ensures
        match r {
            Some(s) => valid_utf8(v@) && s@ == decode_utf8(v@),
            None => !valid_utf8(v@),
        },
{
    String::from_utf8(v).ok()
}

/// What decoding `blob` with the secret key text `sk` yields: the
/// plaintext, or the first failure of the pipeline — wire decoding,
/// decryption, text validation.
pub open spec fn decode_spec(sk: Seq<char>, blob: Seq<char>) -> Result<Seq<char>, Error> {
    match bech32m_decode_of(blob) {
        None => Err(Error::Bech32),
        Some((hrp, ct)) => match age_decrypt_of(sk, ct) {
            None => Err(Error::Decryption),
            Some(bytes) => if valid_utf8(bytes) {
                Ok(decode_utf8(bytes))
            } else {
                Err(Error::InvalidText)
            },
        },
    }
}

/// A successful encoding of `plain`: any identity behind the service's
/// public key decodes the blob back to `plain`.
pub open spec fn encode_ok(plain: Seq<char>, blob: Seq<char>) -> bool {
    forall|sk: Seq<char>|
        is_identity_for(sk, service_public_key()) ==> decode_spec(sk, blob) == Ok::<
            Seq<char>,
            Error,
        >(plain)
}

/// A scalar encodes to at least one byte, so a text's UTF-8 encoding
/// is never shorter than the text.
proof fn lemma_encode_utf8_len(s: Seq<char>)
    ensures
        encode_utf8(s).len() >= s.len(),
    decreases s.len(),
{
    if s.len() > 0 {
        lemma_encode_utf8_len(s.drop_first());
    }
}

/// Encrypt `plaintext` against the service's public key and return the
/// ciphertext bech32m-encoded: a valid bech32m string under the
/// human-readable part `e`, longer than — so never equal to — the
/// plaintext. Any blob this returns decodes back to `plaintext` under
/// the service's secret key.
pub fn encrypt(plaintext: &str) -> (r: Result<String, Error>)
    ensures
        match r {
            Ok(blob) => encode_ok(plaintext@, blob@) && (bech32m_decode_of(
                blob@,
            ) matches Some(p) && p.0 == "e"@) && blob@.len() > plaintext@.len() && blob@
                != plaintext@,
            Err(e) => e == Error::Encryption,
        },
{
    let bytes = plaintext.as_bytes();
    let ct = match age_encrypt(public_key(), bytes) {
        Some(ct) => ct,
        None => {
            return Err(Error::Encryption);
        },
    };
    let blob = match bech32m_encode("e", ct.as_slice()) {
        Some(blob) => blob,
        None => {
            return Err(Error::Encryption);
        },
    };
    proof {
        reveal_strlit("e");
        assert(valid_bech32_hrp("e"@)) by {
            assert("e"@.len() == 1);
            assert("e"@[0] == 'e');
        }
        assert forall|sk: Seq<char>| is_identity_for(sk, service_public_key()) implies decode_spec(
            sk,
            blob@,
        ) == Ok::<Seq<char>, Error>(plaintext@) by {
            encode_utf8_valid_utf8(plaintext@);
            encode_utf8_decode_utf8(plaintext@);
        }
        lemma_encode_utf8_len(plaintext@);
        assert(blob@.len() > plaintext@.len());
    }
    Ok(blob)
}

/// Decode an encrypted field: bech32m decode with its checksum, then
/// decrypt with the service's secret key, then validate the text. The
/// three failure kinds stay distinguishable, and a success is exactly
/// the authentic decryption of the submitted blob — never a silently
/// different text.
pub fn decrypt(bech32_encrypted: &str, secret_key: &str) -> (r: Result<String, Error>)
    ensures
        match r {
            Ok(s) => decode_spec(secret_key@, bech32_encrypted@) == Ok::<Seq<char>, Error>(s@),
            Err(e) => decode_spec(secret_key@, bech32_encrypted@) == Err::<Seq<char>, Error>(e),
        },
{
    let decoded = match bech32m_decode(bech32_encrypted) {
        Some(p) => p,
        None => {
            return Err(Error::Bech32);
        },
    };
    let decrypted = match age_decrypt(secret_key, decoded.1.as_slice()) {
        Some(v) => v,
        None => {
            return Err(Error::Decryption);
        },
    };
    match bytes_to_string(decrypted) {
        Some(s) => Ok(s),
        None => Err(Error::InvalidText),
    }
}

/// Law (round trip): decoding an encoded text under the service's
/// secret key gives the text back — for every text and every blob the
/// encoder can produce, under any identity behind the service key.
pub proof fn lemma_encrypt_decrypt_round_trip(sk: Seq<char>, plain: Seq<char>, blob: Seq<char>)
    requires
        is_identity_for(sk, service_public_key()),
        encode_ok(plain, blob),
    ensures
        decode_spec(sk, blob) == Ok::<Seq<char>, Error>(plain),
{
}

} // verus!
