//! The protocol handlers: invoice ingestion, the send-request composer,
//! payment confirmation and the status query.
//!
//! Every handler takes the store and the moment `now` explicitly; no
//! handler reads ambient state. Confirmation is split in two so that the
//! blocking delivery call runs between the two store transactions, never
//! inside one: [`invoice_paid_begin`] marks the invoice paid and hands
//! back the email to deliver, [`invoice_paid_finish`] records the
//! outcome. [`invoice_paid`] composes the two around a [`Dispatcher`].

use vstd::prelude::*;

use crate::db::{
    copy_email, evolves, find_email, find_email_from, find_inv, find_inv_from, first_eligible,
    has_paid_invoice, lemma_find_email_some, lemma_find_inv_some, lemma_has_paid_iff_found,
    mark_paid, mark_sent, with_paid, with_sent, with_showed, Db, DbV, EmailRow, EmailV,
    InvoiceRow, InvoiceV,
};
use crate::dispatch::Dispatcher;
use crate::encrypt::{decode_spec, decrypt};
use crate::error::Error;
use crate::hex::{from_hex, hex_decode, hex_of, to_hex};
use crate::GRACE_PERIOD_SECS;

use bitcoin_hashes::Hash as _;

verus! {

/// What the sha256 digest of a byte string is.
pub uninterp spec fn sha256_of(bytes: Seq<u8>) -> Seq<u8>;

/// Relies on `bitcoin_hashes::sha256`: the digest is 32 bytes and a
/// function of the input alone.
#[verifier::external_body]
fn sha256_digest(data: &[u8]) -> (r: Vec<u8>)
    ensures
        r@ == sha256_of(data@),
        r@.len() == 32,
{
    bitcoin_hashes::sha256::Hash::hash(data).to_byte_array().to_vec()
}

/// What parsing a lightning invoice yields: its payment hash and its
/// absolute expiry in unix seconds, or `None` for unparsable text.
pub uninterp spec fn bolt11_parse_of(s: Seq<char>) -> Option<(Seq<u8>, int)>;

/// Relies on lightning-invoice parsing: the payment hash (a 32-byte
/// sha256 digest) and the absolute expiry of an invoice are functions
/// of its text alone.
#[verifier::external_body]
fn parse_bolt11(s: &str) -> (r: Option<(Vec<u8>, i64)>)
    ensures
        match r {
            Some(p) => bolt11_parse_of(s@) == Some((p.0@, p.1 as int)) && p.0@.len() == 32,
            None => bolt11_parse_of(s@) is None,
        },
{
    let invoice: lightning_invoice::Invoice = s.parse().ok()?;
    // the expiry field may carry any u64, so the absolute expiry is
    // computed as a checked sum of plain seconds, never a panicking
    // `SystemTime + Duration`
    let secs = invoice
        .duration_since_epoch()
        .as_secs()
        .checked_add(invoice.expiry_time().as_secs())?;
    let secs = i64::try_from(secs).ok()?;
    Some((invoice.payment_hash()[..].to_vec(), secs))
}

/// Whether a text is one valid mailbox address.
pub uninterp spec fn is_mailbox(s: Seq<char>) -> bool;

/// Whether a text is a valid, possibly empty, comma-separated mailbox
/// list.
pub uninterp spec fn is_mailbox_list(s: Seq<char>) -> bool;

/// Relies on lettre's mailbox parser: validity of an address is a
/// function of the text alone.
#[verifier::external_body]
fn valid_mailbox(s: &str) -> (r: bool)
    ensures
        r == is_mailbox(s@),
{
    s.parse::<lettre::message::Mailbox>().is_ok()
}

/// Relies on lettre's mailbox-list parser: validity of an address list
/// is a function of the text alone.
#[verifier::external_body]
fn valid_mailbox_list(s: &str) -> (r: bool)
    ensures
        r == is_mailbox_list(s@),
{
    s.parse::<lettre::message::Mailboxes>().is_ok()
}

/// The current payment and dispatch state of one invoice.
#[derive(Clone, Copy, Debug, PartialEq, Eq, Structural)]
pub struct PaymentStatus {
    pub paid: bool,
    pub sent: bool,
}

/// The status projection for one payment hash.
pub struct Info {
    pub payment_hash: String,
    pub invoice_paid: bool,
    pub email_sent: bool,
}

/// One send-request: the message, an optional reply-to mailbox, and
/// exactly one of each cleartext/encrypted field pair.
pub struct SendData {
    pub reply_to: Option<String>,
    pub message: String,
    pub to: Option<String>,
    pub to_enc: Option<String>,
    pub subject: Option<String>,
    pub subject_enc: Option<String>,
}

/// The mathematical value of a [`SendData`].
pub struct SendDataV {
    pub reply_to: Option<Seq<char>>,
    pub message: Seq<char>,
    pub to: Option<Seq<char>>,
    pub to_enc: Option<Seq<char>>,
    pub subject: Option<Seq<char>>,
    pub subject_enc: Option<Seq<char>>,
}

impl View for SendData {
    type V = SendDataV;

    open spec fn view(&self) -> SendDataV {
        SendDataV {
            reply_to: match self.reply_to {
                Some(s) => Some(s@),
                None => None,
            },
            message: self.message@,
            to: match self.to {
                Some(s) => Some(s@),
                None => None,
            },
            to_enc: match self.to_enc {
                Some(s) => Some(s@),
                None => None,
            },
            subject: match self.subject {
                Some(s) => Some(s@),
                None => None,
            },
            subject_enc: match self.subject_enc {
                Some(s) => Some(s@),
                None => None,
            },
        }
    }
}

/// The recipient a send-request denotes: exactly one of the cleartext
/// and the encrypted field must be present, and an encrypted one must
/// decode.
pub open spec fn resolve_to(d: SendDataV, sk: Seq<char>) -> Result<Seq<char>, Error> {
    match (d.to, d.to_enc) {
        (Some(_), Some(_)) => Err(Error::OnlyOneTo),
        (None, None) => Err(Error::MissingTo),
        (Some(t), None) => Ok(t),
        (None, Some(e)) => decode_spec(sk, e),
    }
}

/// The subject a send-request denotes, under the same exactly-one rule.
pub open spec fn resolve_subject(d: SendDataV, sk: Seq<char>) -> Result<Seq<char>, Error> {
    match (d.subject, d.subject_enc) {
        (Some(_), Some(_)) => Err(Error::OnlyOneSubject),
        (None, None) => Err(Error::MissingSubject),
        (Some(s), None) => Ok(s),
        (None, Some(e)) => decode_spec(sk, e),
    }
}

/// The resolved fields of a valid send-request.
pub struct ResolvedFields {
    pub reply_to: Option<Seq<char>>,
    pub to: Seq<char>,
    pub subject: Seq<char>,
}

/// Validation of a send-request, in the order the composer applies it:
/// resolve the recipient, resolve the subject, require a non-empty
/// message, require one-or-more valid recipient mailboxes, and require
/// a valid reply-to mailbox when one is given.
pub open spec fn validate_send(d: SendDataV, sk: Seq<char>) -> Result<ResolvedFields, Error> {
    match resolve_to(d, sk) {
        Err(e) => Err(e),
        Ok(t) => match resolve_subject(d, sk) {
            Err(e) => Err(e),
            Ok(su) => if d.message.len() == 0 {
                Err(Error::EmptyMessage)
            } else if !(t.len() > 0 && is_mailbox_list(t)) {
                Err(Error::EmailAddress)
            } else if !(match d.reply_to {
                Some(rt) => is_mailbox(rt),
                None => true,
            }) {
                Err(Error::EmailAddress)
            } else {
                Ok(ResolvedFields { reply_to: d.reply_to, to: t, subject: su })
            },
        },
    }
}

/// One send-request against the store: every validation failure leaves
/// the store untouched; a valid request reserves the first eligible
/// invoice and persists the pending email under its payment hash, with
/// the dispatch flag down.
pub open spec fn send_step(
    pre: DbV,
    post: DbV,
    d: SendDataV,
    sk: Seq<char>,
    now: int,
    r: Result<(InvoiceV, EmailV), Error>,
) -> bool {
    match validate_send(d, sk) {
        Err(e) => r == Err::<(InvoiceV, EmailV), Error>(e) && post == pre,
        Ok(f) => match first_eligible(pre.invoices, now) {
            None => r == Err::<(InvoiceV, EmailV), Error>(Error::InvoiceNotFound) && post == pre,
            Some(i) => {
                let inv = with_showed(pre.invoices[i]);
                let reserved = DbV { invoices: pre.invoices.update(i, inv), emails: pre.emails };
                match find_email(pre.emails, inv.id) {
                    Some(_) => r == Err::<(InvoiceV, EmailV), Error>(Error::DuplicateEmail) && post
                        == reserved,
                    None => {
                        let em = EmailV {
                            payment_hash: inv.id,
                            reply_to_email: f.reply_to,
                            to_email: f.to,
                            subject: f.subject,
                            message: d.message,
                            sent: false,
                        };
                        r == Ok::<(InvoiceV, EmailV), Error>((inv, em)) && post == DbV {
                            invoices: reserved.invoices,
                            emails: pre.emails.push(em),
                        }
                    },
                }
            },
        },
    }
}

/// Handle one send-request: validate and resolve its fields, reserve an
/// invoice, and persist the pending email keyed by the invoice's
/// payment hash. Returns the reserved invoice and the persisted email.
pub fn email(db: &mut Db, data: &SendData, secret_key: &str, now: i64) -> (r: Result<
    (InvoiceRow, EmailRow),
    Error,
>)
    requires
        old(db).wf(),
        now <= i64::MAX - GRACE_PERIOD_SECS,
    ensures
        final(db).wf(),
        send_step(
            old(db)@,
            final(db)@,
            data@,
            secret_key@,
            now as int,
            match r {
                Ok(p) => Ok((p.0@, p.1@)),
                Err(e) => Err(e),
            },
        ),
{
    let to: String = match (&data.to, &data.to_enc) {
        (Some(_), Some(_)) => {
            return Err(Error::OnlyOneTo);
        },
        (None, None) => {
            return Err(Error::MissingTo);
        },
        (Some(t), None) => t.clone(),
        (None, Some(e)) => match decrypt(e.as_str(), secret_key) {
            Ok(s) => s,
            Err(err) => {
                return Err(err);
            },
        },
    };
    let subject: String = match (&data.subject, &data.subject_enc) {
        (Some(_), Some(_)) => {
            return Err(Error::OnlyOneSubject);
        },
        (None, None) => {
            return Err(Error::MissingSubject);
        },
        (Some(s), None) => s.clone(),
        (None, Some(e)) => match decrypt(e.as_str(), secret_key) {
            Ok(s) => s,
            Err(err) => {
                return Err(err);
            },
        },
    };
    if data.message.as_str().is_empty() {
        return Err(Error::EmptyMessage);
    }
    if to.as_str().is_empty() || !valid_mailbox_list(to.as_str()) {
        return Err(Error::EmailAddress);
    }
    match &data.reply_to {
        Some(rt) => {
            if !valid_mailbox(rt.as_str()) {
                return Err(Error::EmailAddress);
            }
        },
        None => {},
    }
    let invoice = match InvoiceRow::get_first_available(db, now) {
        Ok(inv) => inv,
        Err(e) => {
            return Err(e);
        },
    };
    let email_row = EmailRow {
        payment_hash: invoice.id.clone(),
        reply_to_email: match &data.reply_to {
            Some(rt) => Some(rt.clone()),
            None => None,
        },
        to_email: to,
        subject,
        message: data.message.clone(),
        sent: false,
    };
    let returned = copy_email(&email_row);
    match EmailRow::add(db, email_row) {
        Ok(_) => Ok((invoice, returned)),
        Err(e) => Err(e),
    }
}

/// Ingest a privileged invoice submission: parse the text, derive the
/// payment hash and expiry, refuse an invoice that is already expired
/// at `now`, and insert the fresh record.
pub fn invoice_add(db: &mut Db, bolt11: String, now: i64) -> (r: Result<InvoiceRow, Error>)
    requires
        old(db).wf(),
    ensures
        final(db).wf(),
        match r {
            Ok(row) => {
                &&& bolt11_parse_of(bolt11@) matches Some(p)
                &&& p.1 > now
                &&& row@ == (InvoiceV {
                    id: hex_of(p.0),
                    bolt11: bolt11@,
                    expiration: p.1,
                    paid: false,
                    showed: false,
                })
                &&& find_inv(old(db)@.invoices, hex_of(p.0)) is None
                &&& final(db)@.invoices == old(db)@.invoices.push(row@)
                &&& final(db)@.emails == old(db)@.emails
            },
            Err(e) => final(db)@ == old(db)@ && match bolt11_parse_of(bolt11@) {
                None => e == Error::Bolt11,
                Some(p) => if p.1 <= now {
                    e == Error::InvoiceExpired
                } else {
                    e == Error::Storage && find_inv(old(db)@.invoices, hex_of(p.0)) is Some
                },
            },
        },
{
    let parsed = match parse_bolt11(bolt11.as_str()) {
        Some(p) => p,
        None => {
            return Err(Error::Bolt11);
        },
    };
    if parsed.1 <= now {
        return Err(Error::InvoiceExpired);
    }
    let id = to_hex(parsed.0.as_slice());
    let row = InvoiceRow { id, bolt11, expiration: parsed.1, paid: false, showed: false };
    let returned = InvoiceRow {
        id: row.id.clone(),
        bolt11: row.bolt11.clone(),
        expiration: row.expiration,
        paid: row.paid,
        showed: row.showed,
    };
    match InvoiceRow::add(db, row) {
        Ok(_) => Ok(returned),
        Err(e) => Err(e),
    }
}

/// The payment hash a preimage submission denotes: the hex decoding of
/// the submission, hashed, re-encoded as 64 hex characters.
pub open spec fn preimage_to_id(p: Seq<char>) -> Option<Seq<char>> {
    match hex_decode(p) {
        None => None,
        Some(bytes) => Some(hex_of(sha256_of(bytes))),
    }
}

/// What confirmation decides before any delivery is attempted.
pub enum ConfirmAction {
    /// Confirmation is complete; no delivery is owed.
    Done(PaymentStatus),
    /// The invoice is now paid and this pending email awaits delivery.
    Dispatch(EmailRow),
}

/// The first confirmation transaction: hash the preimage, load the
/// invoice, and — unless it was already paid — mark it paid and look up
/// the pending email. Everything after an already-paid invoice is a
/// pure read, which makes confirmation idempotent.
pub open spec fn confirm_begin_step(
    pre: DbV,
    post: DbV,
    p: Seq<char>,
    r: Result<ConfirmAction, Error>,
) -> bool {
    match preimage_to_id(p) {
        None => r == Err::<ConfirmAction, Error>(Error::Hex) && post == pre,
        Some(id) => match find_inv(pre.invoices, id) {
            None => r == Err::<ConfirmAction, Error>(Error::InvoiceNotFound) && post == pre,
            Some(inv) => if inv.paid {
                let sent = match find_email(pre.emails, id) {
                    Some(em) => em.sent,
                    None => false,
                };
                r matches Ok(ConfirmAction::Done(st)) && st == (PaymentStatus {
                    paid: true,
                    sent,
                }) && post == pre
            } else {
                let marked = DbV { invoices: mark_paid(pre.invoices, id), emails: pre.emails };
                match find_email(pre.emails, id) {
                    None => r matches Ok(ConfirmAction::Done(st)) && st == (PaymentStatus {
                        paid: true,
                        sent: false,
                    }) && post == marked,
                    Some(em) => r matches Ok(ConfirmAction::Dispatch(e)) && e@ == em && post
                        == marked,
                }
            },
        },
    }
}

/// Begin confirmation of a disclosed preimage. On an unpaid invoice the
/// paid flag rises in this very transaction; the delivery itself,
/// if one is owed, happens outside it.
pub fn invoice_paid_begin(db: &mut Db, preimage: &str) -> (r: Result<ConfirmAction, Error>)
    requires
        old(db).wf(),
    ensures
        final(db).wf(),
        confirm_begin_step(old(db)@, final(db)@, preimage@, r),
        (r matches Ok(a) ==> (a matches ConfirmAction::Dispatch(em) ==> !em@.sent
            && has_paid_invoice(final(db)@.invoices, em@.payment_hash))),
{
    let bytes = match from_hex(preimage) {
        Some(b) => b,
        None => {
            return Err(Error::Hex);
        },
    };
    let digest = sha256_digest(bytes.as_slice());
    let id = to_hex(digest.as_slice());
    let mut invoice = match InvoiceRow::get(db, &id) {
        Ok(inv) => inv,
        Err(e) => {
            return Err(e);
        },
    };
    proof {
        lemma_find_inv_some(db@.invoices, id@, 0);
    }
    if invoice.paid {
        let sent = match EmailRow::get(db, &id) {
            Ok(em) => em.sent,
            Err(_) => false,
        };
        return Ok(ConfirmAction::Done(PaymentStatus { paid: true, sent }));
    }
    let ghost pre = db@;
    let _ = invoice.set_paid(db);
    match EmailRow::get(db, &id) {
        Err(_) => Ok(ConfirmAction::Done(PaymentStatus { paid: true, sent: false })),
        Ok(em) => {
            proof {
                lemma_find_email_some(pre.emails, id@, 0);
                if em@.sent {
                    let k = choose|k: int|
                        0 <= k < pre.emails.len() && pre.emails[k] == em@
                            && pre.emails[k].payment_hash == id@;
                    assert(pre.emails[k].sent);
                    assert(has_paid_invoice(pre.invoices, id@));
                    lemma_has_paid_iff_found(pre.invoices, id@);
                    assert(false);
                }
                lemma_find_inv_mark_paid(pre.invoices, id@, id@, 0);
                lemma_has_paid_iff_found(db@.invoices, id@);
            }
            Ok(ConfirmAction::Dispatch(em))
        },
    }
}

/// The second confirmation transaction: record the outcome of the
/// delivery attempt. A transport failure leaves the dispatch flag down
/// and the paid flag untouched, so a later retry can still succeed.
pub fn invoice_paid_finish(db: &mut Db, email: &EmailRow, delivered: bool) -> (r: Result<
    PaymentStatus,
    Error,
>)
    requires
        old(db).wf(),
    ensures
        final(db).wf(),
        !delivered ==> r == Err::<PaymentStatus, Error>(Error::Dispatch) && final(db)@ == old(db)@,
        (delivered && has_paid_invoice(old(db)@.invoices, email@.payment_hash)) ==> r == Ok::<
            PaymentStatus,
            Error,
        >(PaymentStatus { paid: true, sent: true }) && final(db)@.emails == mark_sent(
            old(db)@.emails,
            email@.payment_hash,
        ) && final(db)@.invoices == old(db)@.invoices,
        (delivered && !has_paid_invoice(old(db)@.invoices, email@.payment_hash)) ==> r == Err::<
            PaymentStatus,
            Error,
        >(Error::Storage) && final(db)@ == old(db)@,
{
    if !delivered {
        return Err(Error::Dispatch);
    }
    let mut em = copy_email(email);
    match em.set_sent(db) {
        Ok(_) => Ok(PaymentStatus { paid: true, sent: true }),
        Err(e) => Err(e),
    }
}

/// One whole confirmation against the store and a transport: the
/// outcome, the new store, and the emails handed to the transport, as
/// functions of the preimage and of the one free choice the transport
/// makes.
pub open spec fn confirm_step(
    pre: DbV,
    post: DbV,
    log_pre: Seq<EmailV>,
    log_post: Seq<EmailV>,
    p: Seq<char>,
    r: Result<PaymentStatus, Error>,
) -> bool {
    match preimage_to_id(p) {
        None => r == Err::<PaymentStatus, Error>(Error::Hex) && post == pre && log_post == log_pre,
        Some(id) => match find_inv(pre.invoices, id) {
            None => r == Err::<PaymentStatus, Error>(Error::InvoiceNotFound) && post == pre
                && log_post == log_pre,
            Some(inv) => if inv.paid {
                let sent = match find_email(pre.emails, id) {
                    Some(em) => em.sent,
                    None => false,
                };
                r == Ok::<PaymentStatus, Error>(PaymentStatus { paid: true, sent }) && post == pre
                    && log_post == log_pre
            } else {
                let marked = DbV { invoices: mark_paid(pre.invoices, id), emails: pre.emails };
                match find_email(pre.emails, id) {
                    None => r == Ok::<PaymentStatus, Error>(PaymentStatus {
                        paid: true,
                        sent: false,
                    }) && post == marked && log_post == log_pre,
                    Some(em) => log_post == log_pre.push(em) && (
                    // the transport delivered
                    (r == Ok::<PaymentStatus, Error>(PaymentStatus { paid: true, sent: true })
                        && post == DbV {
                        invoices: marked.invoices,
                        emails: mark_sent(pre.emails, id),
                    })
                        // or it failed, and only the paid flag remains
                        || (r == Err::<PaymentStatus, Error>(Error::Dispatch) && post == marked)),
                }
            },
        },
    }
}

/// Confirm a disclosed preimage end to end: mark paid, then hand the
/// pending email (if any, and not yet sent) to the transport exactly
/// once, then record the outcome.
pub fn invoice_paid<D: Dispatcher>(db: &mut Db, d: &mut D, preimage: &str) -> (r: Result<
    PaymentStatus,
    Error,
>)
    requires
        old(db).wf(),
    ensures
        final(db).wf(),
        confirm_step(
            old(db)@,
            final(db)@,
            old(d).dispatched(),
            final(d).dispatched(),
            preimage@,
            r,
        ),
{
    match invoice_paid_begin(db, preimage) {
        Err(e) => Err(e),
        Ok(ConfirmAction::Done(st)) => Ok(st),
        Ok(ConfirmAction::Dispatch(em)) => {
            proof {
                let id = preimage_to_id(preimage@)->Some_0;
                lemma_find_email_some(old(db)@.emails, id, 0);
            }
            let delivered = d.dispatch(&em);
            invoice_paid_finish(db, &em, delivered)
        },
    }
}

/// `find_inv` looks through `mark_paid` unchanged keys: the found row
/// is the old one, with the paid flag raised exactly on the marked key.
proof fn lemma_find_inv_mark_paid(s: Seq<InvoiceV>, id: Seq<char>, id2: Seq<char>, i0: int)
    requires
        0 <= i0,
    ensures
        find_inv_from(mark_paid(s, id), id2, i0) == match find_inv_from(s, id2, i0) {
            Some(r) => Some(
                if r.id == id {
                    with_paid(r)
                } else {
                    r
                },
            ),
            None => None,
        },
    decreases s.len() - i0,
{
    if i0 < s.len() {
        lemma_find_inv_mark_paid(s, id, id2, i0 + 1);
    }
}

/// `find_email` looks through `mark_sent` the same way.
proof fn lemma_find_email_mark_sent(s: Seq<EmailV>, id: Seq<char>, id2: Seq<char>, i0: int)
    requires
        0 <= i0,
    ensures
        find_email_from(mark_sent(s, id), id2, i0) == match find_email_from(s, id2, i0) {
            Some(r) => Some(
                if r.payment_hash == id {
                    with_sent(r)
                } else {
                    r
                },
            ),
            None => None,
        },
    decreases s.len() - i0,
{
    if i0 < s.len() {
        lemma_find_email_mark_sent(s, id, id2, i0 + 1);
    }
}

/// A handled send-request is an evolution of the store: it only raises
/// one `showed` flag and may append one pending email.
pub proof fn lemma_send_step_evolves(
    pre: DbV,
    post: DbV,
    d: SendDataV,
    sk: Seq<char>,
    now: int,
    r: Result<(InvoiceV, EmailV), Error>,
)
    requires
        send_step(pre, post, d, sk, now, r),
    ensures
        evolves(pre, post),
{
    match validate_send(d, sk) {
        Err(_) => {},
        Ok(_) => match first_eligible(pre.invoices, now) {
            None => {},
            Some(i) => {
                crate::db::lemma_first_eligible_some(pre.invoices, now, 0);
            },
        },
    }
}

/// A confirmation is an evolution of the store: it only raises `paid`
/// and `sent` flags.
pub proof fn lemma_confirm_step_evolves(
    pre: DbV,
    post: DbV,
    log_pre: Seq<EmailV>,
    log_post: Seq<EmailV>,
    p: Seq<char>,
    r: Result<PaymentStatus, Error>,
)
    requires
        confirm_step(pre, post, log_pre, log_post, p, r),
    ensures
        evolves(pre, post),
{
}

/// Law (confirmation idempotence): once a confirmation has returned
/// paid-and-sent, confirming the same preimage again returns the same
/// state, hands nothing further to the transport, and leaves the store
/// as it was.
pub proof fn lemma_confirm_idempotent(
    s1: DbV,
    s2: DbV,
    s3: DbV,
    l1: Seq<EmailV>,
    l2: Seq<EmailV>,
    l3: Seq<EmailV>,
    p: Seq<char>,
    r2: Result<PaymentStatus, Error>,
)
    requires
        confirm_step(
            s1,
            s2,
            l1,
            l2,
            p,
            Ok(PaymentStatus { paid: true, sent: true }),
        ),
        confirm_step(s2, s3, l2, l3, p, r2),
    ensures
        r2 == Ok::<PaymentStatus, Error>(PaymentStatus { paid: true, sent: true }),
        s3 == s2,
        l3 == l2,
{
    let id = preimage_to_id(p)->Some_0;
    let inv = find_inv(s1.invoices, id)->Some_0;
    lemma_find_inv_some(s1.invoices, id, 0);
    if inv.paid {
        assert(s2 == s1);
    } else {
        let em = find_email(s1.emails, id)->Some_0;
        lemma_find_email_some(s1.emails, id, 0);
        lemma_find_inv_mark_paid(s1.invoices, id, id, 0);
        lemma_find_email_mark_sent(s1.emails, id, id, 0);
        assert(find_inv(s2.invoices, id) == Some(with_paid(inv)));
        assert(find_email(s2.emails, id) == Some(with_sent(em)));
    }
}

/// Read-only status projection for a payment hash. A reported dispatch
/// always implies a reported payment.
pub fn info(db: &Db, payment_hash: &String) -> (r: Option<Info>)
    requires
        db.wf(),
    ensures
        match r {
            Some(i) => {
                &&& find_inv(db@.invoices, payment_hash@) matches Some(inv)
                &&& i.payment_hash@ == payment_hash@
                &&& i.invoice_paid == inv.paid
                &&& i.email_sent == (match find_email(db@.emails, payment_hash@) {
                    Some(em) => em.sent,
                    None => false,
                })
                &&& (i.email_sent ==> i.invoice_paid)
            },
            None => find_inv(db@.invoices, payment_hash@) is None,
        },
{
    let invoice = match InvoiceRow::get(db, payment_hash) {
        Ok(inv) => inv,
        Err(_) => {
            return None;
        },
    };
    let email_sent = match EmailRow::get(db, payment_hash) {
        Ok(em) => em.sent,
        Err(_) => false,
    };
    proof {
        if email_sent {
            let em = find_email(db@.emails, payment_hash@)->Some_0;
            lemma_find_email_some(db@.emails, payment_hash@, 0);
            let k = choose|k: int|
                0 <= k < db@.emails.len() && db@.emails[k] == em && db@.emails[k].payment_hash
                    == payment_hash@;
            assert(db@.emails[k].sent);
            assert(has_paid_invoice(db@.invoices, payment_hash@));
            lemma_has_paid_iff_found(db@.invoices, payment_hash@);
        }
    }
    Some(Info { payment_hash: payment_hash.clone(), invoice_paid: invoice.paid, email_sent })
}

} // verus!
