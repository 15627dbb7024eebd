use bitcoin_hashes::Hash as _;
use pay2email::db::{Db, EmailRow, InvoiceRow};
use pay2email::dispatch::RecordingDispatcher;
use pay2email::error::Error;
use pay2email::handlers::{
    email, info, invoice_add, invoice_paid, invoice_paid_finish, PaymentStatus, SendData,
};
use pay2email::hex::to_hex;
use pay2email::unauthorized;

const NOW: i64 = 1_000_000;

fn row(id: &str, expiration: i64, paid: bool, showed: bool) -> InvoiceRow {
    InvoiceRow {
        id: id.to_string(),
        bolt11: format!("bolt11-{}", id),
        expiration,
        paid,
        showed,
    }
}

fn hash_hex(preimage: &[u8]) -> String {
    let digest = bitcoin_hashes::sha256::Hash::hash(preimage).to_byte_array();
    to_hex(&digest[..])
}

fn send_data(to: &str, subject: &str, message: &str) -> SendData {
    SendData {
        reply_to: None,
        message: message.to_string(),
        to: Some(to.to_string()),
        to_enc: None,
        subject: Some(subject.to_string()),
        subject_enc: None,
    }
}

#[test]
fn reserve_is_exactly_once() {
    let mut db = Db::new();
    InvoiceRow::add(&mut db, row("aa", NOW + 10_000, false, false)).unwrap();
    InvoiceRow::add(&mut db, row("bb", NOW + 10_000, false, false)).unwrap();
    InvoiceRow::add(&mut db, row("cc", NOW + 10_000, true, false)).unwrap();
    assert_eq!(InvoiceRow::count_available(&db, NOW), 2);

    let r1 = InvoiceRow::get_first_available(&mut db, NOW).unwrap();
    let r2 = InvoiceRow::get_first_available(&mut db, NOW).unwrap();
    assert_ne!(r1.id, r2.id);
    assert!(r1.showed && r2.showed);
    let r3 = InvoiceRow::get_first_available(&mut db, NOW);
    assert!(matches!(r3, Err(Error::InvoiceNotFound)));
    assert_eq!(InvoiceRow::count_available(&db, NOW), 0);
}

#[test]
fn reserve_pool_exhausted() {
    let mut db = Db::new();
    // paid, already handed out, expired, and within the grace window
    InvoiceRow::add(&mut db, row("aa", NOW + 10_000, true, false)).unwrap();
    InvoiceRow::add(&mut db, row("bb", NOW + 10_000, false, true)).unwrap();
    InvoiceRow::add(&mut db, row("cc", NOW - 1, false, false)).unwrap();
    InvoiceRow::add(&mut db, row("dd", NOW + 3600, false, false)).unwrap();
    assert_eq!(InvoiceRow::count_available(&db, NOW), 0);
    let r = InvoiceRow::get_first_available(&mut db, NOW);
    assert!(matches!(r, Err(Error::InvoiceNotFound)));
}

#[test]
fn send_request_ambiguous_recipient() {
    let mut db = Db::new();
    InvoiceRow::add(&mut db, row("aa", NOW + 10_000, false, false)).unwrap();
    let mut data = send_data("a@b.com", "Hi", "hello");
    data.to_enc = Some("e1qqqq".to_string());
    let r = email(&mut db, &data, "", NOW);
    assert!(matches!(r, Err(Error::OnlyOneTo)));
    // neither a pending email was persisted nor a reservation consumed
    assert!(matches!(
        EmailRow::get(&db, &"aa".to_string()),
        Err(Error::EmailNotFound)
    ));
    assert_eq!(InvoiceRow::count_available(&db, NOW), 1);
}

#[test]
fn send_request_field_validation() {
    let mut db = Db::new();
    InvoiceRow::add(&mut db, row("aa", NOW + 10_000, false, false)).unwrap();

    let mut data = send_data("a@b.com", "Hi", "hello");
    data.to = None;
    assert!(matches!(email(&mut db, &data, "", NOW), Err(Error::MissingTo)));

    let mut data = send_data("a@b.com", "Hi", "hello");
    data.subject = None;
    assert!(matches!(
        email(&mut db, &data, "", NOW),
        Err(Error::MissingSubject)
    ));

    let mut data = send_data("a@b.com", "Hi", "hello");
    data.subject_enc = Some("e1qqqq".to_string());
    assert!(matches!(
        email(&mut db, &data, "", NOW),
        Err(Error::OnlyOneSubject)
    ));

    let data = send_data("a@b.com", "Hi", "");
    assert!(matches!(
        email(&mut db, &data, "", NOW),
        Err(Error::EmptyMessage)
    ));

    let data = send_data("not an email", "Hi", "hello");
    assert!(matches!(
        email(&mut db, &data, "", NOW),
        Err(Error::EmailAddress)
    ));

    let mut data = send_data("a@b.com", "Hi", "hello");
    data.reply_to = Some("also not an email".to_string());
    assert!(matches!(
        email(&mut db, &data, "", NOW),
        Err(Error::EmailAddress)
    ));

    // none of the failures consumed the one eligible invoice
    assert_eq!(InvoiceRow::count_available(&db, NOW), 1);
}

#[test]
fn send_request_no_invoice_available() {
    let mut db = Db::new();
    let data = send_data("a@b.com", "Hi", "hello");
    assert!(matches!(
        email(&mut db, &data, "", NOW),
        Err(Error::InvoiceNotFound)
    ));
}

#[test]
fn end_to_end_paid_email() {
    let preimage = b"end-to-end-preimage";
    let preimage_hex = to_hex(preimage);
    let hash = hash_hex(preimage);

    let mut db = Db::new();
    // expiry two hours out
    let mut invoice = row("zz", NOW + 7200, false, false);
    invoice.id = hash.clone();
    InvoiceRow::add(&mut db, invoice).unwrap();

    let data = send_data("a@b.com", "Hi", "hello");
    let (reserved, pending) = email(&mut db, &data, "", NOW).unwrap();
    assert_eq!(reserved.id, hash);
    assert!(reserved.showed);
    assert_eq!(pending.payment_hash, hash);
    assert_eq!(pending.to_email, "a@b.com");
    assert_eq!(pending.subject, "Hi");
    assert_eq!(pending.message, "hello");
    assert_eq!(pending.reply_to_email, None);
    assert!(!pending.sent);

    let stored = EmailRow::get(&db, &hash).unwrap();
    assert!(!stored.sent);

    let mut transport = RecordingDispatcher::new(true);
    let status = invoice_paid(&mut db, &mut transport, &preimage_hex).unwrap();
    assert_eq!(status, PaymentStatus { paid: true, sent: true });

    // exactly one dispatch, with the composed fields
    assert_eq!(transport.dispatch_count(), 1);
    assert_eq!(transport.log[0].payment_hash, hash);
    assert_eq!(transport.log[0].to_email, "a@b.com");
    assert_eq!(transport.log[0].subject, "Hi");
    assert_eq!(transport.log[0].message, "hello");

    let st = info(&db, &hash).unwrap();
    assert!(st.invoice_paid && st.email_sent);
    assert_eq!(EmailRow::count_sent(&db), 1);
}

#[test]
fn confirmation_is_idempotent() {
    let preimage = b"idempotent-preimage";
    let preimage_hex = to_hex(preimage);
    let hash = hash_hex(preimage);

    let mut db = Db::new();
    let mut invoice = row("zz", NOW + 10_000, false, false);
    invoice.id = hash.clone();
    InvoiceRow::add(&mut db, invoice).unwrap();
    let data = send_data("a@b.com", "Hi", "hello");
    email(&mut db, &data, "", NOW).unwrap();

    let mut transport = RecordingDispatcher::new(true);
    let first = invoice_paid(&mut db, &mut transport, &preimage_hex).unwrap();
    let second = invoice_paid(&mut db, &mut transport, &preimage_hex).unwrap();
    assert_eq!(first, PaymentStatus { paid: true, sent: true });
    assert_eq!(second, PaymentStatus { paid: true, sent: true });
    // the second confirmation did not dispatch again
    assert_eq!(transport.dispatch_count(), 1);
    assert_eq!(EmailRow::count_sent(&db), 1);
}

#[test]
fn orphan_payment_resolves_cleanly() {
    let preimage = b"orphan-preimage";
    let preimage_hex = to_hex(preimage);
    let hash = hash_hex(preimage);

    let mut db = Db::new();
    let mut invoice = row("zz", NOW + 10_000, false, false);
    invoice.id = hash.clone();
    InvoiceRow::add(&mut db, invoice).unwrap();

    let mut transport = RecordingDispatcher::new(true);
    let status = invoice_paid(&mut db, &mut transport, &preimage_hex).unwrap();
    assert_eq!(status, PaymentStatus { paid: true, sent: false });
    assert_eq!(transport.dispatch_count(), 0);

    let st = info(&db, &hash).unwrap();
    assert!(st.invoice_paid);
    assert!(!st.email_sent);
}

#[test]
fn dispatch_failure_keeps_paid_state() {
    let preimage = b"retry-preimage";
    let preimage_hex = to_hex(preimage);
    let hash = hash_hex(preimage);

    let mut db = Db::new();
    let mut invoice = row("zz", NOW + 10_000, false, false);
    invoice.id = hash.clone();
    InvoiceRow::add(&mut db, invoice).unwrap();
    let data = send_data("a@b.com", "Hi", "hello");
    email(&mut db, &data, "", NOW).unwrap();

    let mut failing = RecordingDispatcher::new(false);
    let r = invoice_paid(&mut db, &mut failing, &preimage_hex);
    assert!(matches!(r, Err(Error::Dispatch)));
    assert_eq!(failing.dispatch_count(), 1);

    // the paid flag survived the transport failure, nothing was sent
    let st = info(&db, &hash).unwrap();
    assert!(st.invoice_paid);
    assert!(!st.email_sent);

    // confirming again does not re-dispatch: it reports the current state
    let mut transport = RecordingDispatcher::new(true);
    let status = invoice_paid(&mut db, &mut transport, &preimage_hex).unwrap();
    assert_eq!(status, PaymentStatus { paid: true, sent: false });
    assert_eq!(transport.dispatch_count(), 0);

    // an external retry of the dispatch alone can still succeed
    let pending = EmailRow::get(&db, &hash).unwrap();
    let status = invoice_paid_finish(&mut db, &pending, true).unwrap();
    assert_eq!(status, PaymentStatus { paid: true, sent: true });
    let st = info(&db, &hash).unwrap();
    assert!(st.invoice_paid && st.email_sent);
}

#[test]
fn confirm_rejects_unknown_and_malformed_preimages() {
    let mut db = Db::new();
    let mut transport = RecordingDispatcher::new(true);
    let r = invoice_paid(&mut db, &mut transport, &to_hex(b"nobody"));
    assert!(matches!(r, Err(Error::InvoiceNotFound)));
    let r = invoice_paid(&mut db, &mut transport, "zz");
    assert!(matches!(r, Err(Error::Hex)));
    let r = invoice_paid(&mut db, &mut transport, "abc");
    assert!(matches!(r, Err(Error::Hex)));
    assert_eq!(transport.dispatch_count(), 0);
}

const BOLT11_VECTOR: &str = "lnbc1pvjluezsp5zyg3zyg3zyg3zyg3zyg3zyg3zyg3zyg3zyg3zyg3zyg3zyg3zygspp5qqqsyqcyq5rqwzqfqqqsyqcyq5rqwzqfqqqsyqcyq5rqwzqfqypqdpl2pkx2ctnv5sxxmmwwd5kgetjypeh2ursdae8g6twvus8g6rfwvs8qun0dfjkxaq9qrsgq357wnc5r2ueh7ck6q93dj32dlqnls087fxdwk8qakdyafkq3yap9us6v52vjjsrvywa6rt52cm9r9zqt8r2t7mlcwspyetp5h2tztugp9lfyql";

#[test]
fn invoice_ingestion() {
    // the invoice above is timestamped 1496314658 with the default
    // expiry of 3600 seconds
    let mut db = Db::new();
    let added = invoice_add(&mut db, BOLT11_VECTOR.to_string(), 1_496_314_000).unwrap();
    assert_eq!(
        added.id,
        "0001020304050607080900010203040506070809000102030405060708090102"
    );
    assert_eq!(added.bolt11, BOLT11_VECTOR);
    assert_eq!(added.expiration, 1_496_318_258);
    assert!(!added.paid);
    assert!(!added.showed);

    // a second submission of the same invoice is refused
    let dup = invoice_add(&mut db, BOLT11_VECTOR.to_string(), 1_496_314_000);
    assert!(matches!(dup, Err(Error::Storage)));

    // an expired invoice is refused at ingestion
    let mut fresh = Db::new();
    let late = invoice_add(&mut fresh, BOLT11_VECTOR.to_string(), 1_496_318_258);
    assert!(matches!(late, Err(Error::InvoiceExpired)));

    // unparsable text is refused
    let junk = invoice_add(&mut fresh, "junk".to_string(), 1_496_314_000);
    assert!(matches!(junk, Err(Error::Bolt11)));
}

#[test]
fn status_of_unknown_hash() {
    let db = Db::new();
    assert!(info(&db, &"00".repeat(32)).is_none());
}

#[test]
fn credential_check() {
    let secret = "expected-credential".to_string();
    assert!(!unauthorized(Some(&secret), &secret));
    let wrong = "wrong".to_string();
    assert!(unauthorized(Some(&wrong), &secret));
    assert!(unauthorized(None, &secret));
}

#[test]
fn duplicate_pending_email_refused() {
    let mut db = Db::new();
    let first = EmailRow {
        payment_hash: "aa".to_string(),
        reply_to_email: None,
        to_email: "a@b.com".to_string(),
        subject: "Hi".to_string(),
        message: "hello".to_string(),
        sent: false,
    };
    let second = EmailRow {
        payment_hash: "aa".to_string(),
        reply_to_email: None,
        to_email: "c@d.com".to_string(),
        subject: "Other".to_string(),
        message: "other".to_string(),
        sent: false,
    };
    assert_eq!(EmailRow::add(&mut db, first), Ok(1));
    assert!(matches!(
        EmailRow::add(&mut db, second),
        Err(Error::DuplicateEmail)
    ));
    // the stored email is the first one
    assert_eq!(EmailRow::get(&db, &"aa".to_string()).unwrap().to_email, "a@b.com");
}

#[test]
fn finish_refuses_unpaid_invoice() {
    let mut db = Db::new();
    InvoiceRow::add(&mut db, row("aa", NOW + 10_000, false, false)).unwrap();
    let pending = EmailRow {
        payment_hash: "aa".to_string(),
        reply_to_email: None,
        to_email: "a@b.com".to_string(),
        subject: "Hi".to_string(),
        message: "hello".to_string(),
        sent: false,
    };
    EmailRow::add(&mut db, pending).unwrap();
    // recording a delivery against an unpaid invoice is refused
    let stored = EmailRow::get(&db, &"aa".to_string()).unwrap();
    let r = invoice_paid_finish(&mut db, &stored, true);
    assert!(matches!(r, Err(Error::Storage)));
    assert!(!EmailRow::get(&db, &"aa".to_string()).unwrap().sent);
}

#[test]
fn send_request_with_reply_to() {
    let mut db = Db::new();
    InvoiceRow::add(&mut db, row("aa", NOW + 10_000, false, false)).unwrap();
    let mut data = send_data("a@b.com, c@d.org", "Hi", "hello");
    data.reply_to = Some("John Smith <john@example.com>".to_string());
    let (_, pending) = email(&mut db, &data, "", NOW).unwrap();
    assert_eq!(pending.to_email, "a@b.com, c@d.org");
    assert_eq!(
        pending.reply_to_email,
        Some("John Smith <john@example.com>".to_string())
    );
    let stored = EmailRow::get(&db, &"aa".to_string()).unwrap();
    assert_eq!(
        stored.reply_to_email,
        Some("John Smith <john@example.com>".to_string())
    );
}
