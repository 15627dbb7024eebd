use vstd::prelude::*;

verus! {

/// Every failure the protocol can report.
///
/// Client-facing validation, not-found and decoding failures are separate
/// variants so that callers can tell them apart; transport and store
/// failures are collapsed to single variants.
#[derive(Clone, Copy, Debug, PartialEq, Eq, Structural)]
pub enum Error {
    /// The wire encoding of an encrypted field is malformed: a bad
    /// character, a bad length, or a failed checksum.
    Bech32,
    /// The ciphertext was not encrypted for this service's key, or is
    /// corrupt.
    Decryption,
    /// The encryption backend refused to encrypt for the configured key.
    Encryption,
    /// The decrypted bytes are not valid text.
    InvalidText,
    /// The invoice text is not a parsable lightning invoice.
    Bolt11,
    /// A recipient or reply-to field does not hold valid mailbox addresses.
    EmailAddress,
    /// A hex field holds a non-hex character or has odd length.
    Hex,
    /// A QR code could not be produced for the invoice text.
    Qr,
    /// The invoice is already expired when it is ingested.
    InvoiceExpired,
    /// Neither a cleartext nor an encrypted recipient was supplied.
    MissingTo,
    /// Both a cleartext and an encrypted recipient were supplied.
    OnlyOneTo,
    /// Neither a cleartext nor an encrypted subject was supplied.
    MissingSubject,
    /// Both a cleartext and an encrypted subject were supplied.
    OnlyOneSubject,
    /// The message body is empty.
    EmptyMessage,
    /// The presented credential does not match the configured one.
    Unauthorized,
    /// No invoice is stored under the payment hash, or no invoice is
    /// eligible for reservation.
    InvoiceNotFound,
    /// No pending email is stored under the payment hash.
    EmailNotFound,
    /// A pending email already exists under the payment hash.
    DuplicateEmail,
    /// The outbound mail transport reported a failure.
    Dispatch,
    /// The store refused a write: a duplicate key, or a guard on a
    /// monotonic flag did not hold.
    Storage,
}

} // verus!
