//! The shared store of invoices and pending emails.
//!
//! The store is the sole source of truth for the protocol. A [`Db`] value
//! holds the two tables of the data model; exclusive access (`&mut Db`)
//! stands for the serializable transaction under which each mutating
//! operation runs, so the read-then-mark sequences below execute as one
//! atomic unit.
//!
//! The store maintains three invariants, stated in [`db_inv`]: payment
//! hashes uniquely address invoices, at most one pending email exists per
//! payment hash, and a sent email always belongs to a paid invoice.

use vstd::prelude::*;

use crate::error::Error;
use crate::GRACE_PERIOD_SECS;

verus! {

/// One issued invoice: `id` is the 64-hex payment hash (the primary key),
/// `bolt11` the opaque invoice text, `expiration` a unix timestamp in
/// seconds. `paid` and `showed` are monotonic: they move from `false` to
/// `true` exactly once and are never reset.
pub struct InvoiceRow {
    pub id: String,
    pub bolt11: String,
    pub expiration: i64,
    pub paid: bool,
    pub showed: bool,
}

/// The mathematical value of an [`InvoiceRow`].
pub struct InvoiceV {
    pub id: Seq<char>,
    pub bolt11: Seq<char>,
    pub expiration: int,
    pub paid: bool,
    pub showed: bool,
}

impl View for InvoiceRow {
    type V = InvoiceV;

    open spec fn view(&self) -> InvoiceV {
        InvoiceV {
            id: self.id@,
            bolt11: self.bolt11@,
            expiration: self.expiration as int,
            paid: self.paid,
            showed: self.showed,
        }
    }
}

/// One pending email, keyed by the payment hash of the invoice that pays
/// for it. `sent` is monotonic: it moves from `false` to `true` exactly
/// once, and only after the invoice is paid.
pub struct EmailRow {
    pub payment_hash: String,
    pub reply_to_email: Option<String>,
    pub to_email: String,
    pub subject: String,
    pub message: String,
    pub sent: bool,
}

/// The mathematical value of an [`EmailRow`].
pub struct EmailV {
    pub payment_hash: Seq<char>,
    pub reply_to_email: Option<Seq<char>>,
    pub to_email: Seq<char>,
    pub subject: Seq<char>,
    pub message: Seq<char>,
    pub sent: bool,
}

impl View for EmailRow {
    type V = EmailV;

    open spec fn view(&self) -> EmailV {
        EmailV {
            payment_hash: self.payment_hash@,
            reply_to_email: match self.reply_to_email {
                Some(s) => Some(s@),
                None => None,
            },
            to_email: self.to_email@,
            subject: self.subject@,
            message: self.message@,
            sent: self.sent,
        }
    }
}

/// The mathematical value of the whole store.
pub struct DbV {
    pub invoices: Seq<InvoiceV>,
    pub emails: Seq<EmailV>,
}

/// The shared store itself.
pub struct Db {
    invoices: Vec<InvoiceRow>,
    emails: Vec<EmailRow>,
}

impl View for Db {
    type V = DbV;

    closed spec fn view(&self) -> DbV {
        DbV {
            invoices: self.invoices@.map_values(|r: InvoiceRow| r@),
            emails: self.emails@.map_values(|r: EmailRow| r@),
        }
    }
}

/// No two invoices share a payment hash.
pub open spec fn invoice_ids_unique(s: Seq<InvoiceV>) -> bool {
    forall|i: int, j: int| 0 <= i < j < s.len() ==> s[i].id != s[j].id
}

/// No two pending emails share a payment hash.
pub open spec fn email_hashes_unique(s: Seq<EmailV>) -> bool {
    forall|i: int, j: int| 0 <= i < j < s.len() ==> s[i].payment_hash != s[j].payment_hash
}

/// Some invoice with payment hash `id` is paid.
pub open spec fn has_paid_invoice(s: Seq<InvoiceV>, id: Seq<char>) -> bool {
    exists|i: int| 0 <= i < s.len() && s[i].id == id && s[i].paid
}

/// The store invariant: unique keys in both tables, and a sent email
/// always belongs to a paid invoice.
pub open spec fn db_inv(v: DbV) -> bool {
    &&& invoice_ids_unique(v.invoices)
    &&& email_hashes_unique(v.emails)
    &&& forall|k: int|
        0 <= k < v.emails.len() && #[trigger] v.emails[k].sent ==> has_paid_invoice(
            v.invoices,
            v.emails[k].payment_hash,
        )
}

/// The first invoice at index `i` or later whose payment hash is `id`.
pub open spec fn find_inv_from(s: Seq<InvoiceV>, id: Seq<char>, i: int) -> Option<InvoiceV>
    decreases s.len() - i,
{
    if i < 0 || i >= s.len() {
        None
    } else if s[i].id == id {
        Some(s[i])
    } else {
        find_inv_from(s, id, i + 1)
    }
}

/// The invoice with payment hash `id`, if one is stored.
pub open spec fn find_inv(s: Seq<InvoiceV>, id: Seq<char>) -> Option<InvoiceV> {
    find_inv_from(s, id, 0)
}

/// The first pending email at index `i` or later whose payment hash is
/// `id`.
pub open spec fn find_email_from(s: Seq<EmailV>, id: Seq<char>, i: int) -> Option<EmailV>
    decreases s.len() - i,
{
    if i < 0 || i >= s.len() {
        None
    } else if s[i].payment_hash == id {
        Some(s[i])
    } else {
        find_email_from(s, id, i + 1)
    }
}

/// The pending email with payment hash `id`, if one is stored.
pub open spec fn find_email(s: Seq<EmailV>, id: Seq<char>) -> Option<EmailV> {
    find_email_from(s, id, 0)
}

/// An invoice is eligible for reservation: never handed out, not paid,
/// and valid for more than the grace period beyond `now`.
pub open spec fn eligible(inv: InvoiceV, now: int) -> bool {
    !inv.showed && !inv.paid && inv.expiration > now + GRACE_PERIOD_SECS
}

/// The index of the first eligible invoice at `i` or later.
pub open spec fn first_eligible_from(s: Seq<InvoiceV>, now: int, i: int) -> Option<int>
    decreases s.len() - i,
{
    if i < 0 || i >= s.len() {
        None
    } else if eligible(s[i], now) {
        Some(i)
    } else {
        first_eligible_from(s, now, i + 1)
    }
}

/// The index of the first eligible invoice, if any.
pub open spec fn first_eligible(s: Seq<InvoiceV>, now: int) -> Option<int> {
    first_eligible_from(s, now, 0)
}

/// How many invoices at index `i` or later are eligible.
pub open spec fn count_eligible_from(s: Seq<InvoiceV>, now: int, i: int) -> int
    decreases s.len() - i,
{
    if i < 0 || i >= s.len() {
        0
    } else if eligible(s[i], now) {
        1 + count_eligible_from(s, now, i + 1)
    } else {
        count_eligible_from(s, now, i + 1)
    }
}

/// How many invoices are eligible for reservation.
pub open spec fn count_eligible(s: Seq<InvoiceV>, now: int) -> int {
    count_eligible_from(s, now, 0)
}

/// How many emails at index `i` or later are sent.
pub open spec fn count_sent_from(s: Seq<EmailV>, i: int) -> int
    decreases s.len() - i,
{
    if i < 0 || i >= s.len() {
        0
    } else if s[i].sent {
        1 + count_sent_from(s, i + 1)
    } else {
        count_sent_from(s, i + 1)
    }
}

/// How many emails are sent.
pub open spec fn count_sent_total(s: Seq<EmailV>) -> int {
    count_sent_from(s, 0)
}

/// `inv` with the `showed` flag raised.
pub open spec fn with_showed(inv: InvoiceV) -> InvoiceV {
    InvoiceV { showed: true, ..inv }
}

/// `inv` with the `paid` flag raised.
pub open spec fn with_paid(inv: InvoiceV) -> InvoiceV {
    InvoiceV { paid: true, ..inv }
}

/// `e` with the `sent` flag raised.
pub open spec fn with_sent(e: EmailV) -> EmailV {
    EmailV { sent: true, ..e }
}

/// The invoice table after the invoice with payment hash `id` is marked
/// paid.
pub open spec fn mark_paid(s: Seq<InvoiceV>, id: Seq<char>) -> Seq<InvoiceV> {
    Seq::new(
        s.len(),
        |j: int|
            if s[j].id == id {
                with_paid(s[j])
            } else {
                s[j]
            },
    )
}

/// The email table after the email with payment hash `id` is marked sent.
pub open spec fn mark_sent(s: Seq<EmailV>, id: Seq<char>) -> Seq<EmailV> {
    Seq::new(
        s.len(),
        |j: int|
            if s[j].payment_hash == id {
                with_sent(s[j])
            } else {
                s[j]
            },
    )
}

/// One reservation: the first eligible invoice is handed out as `r` and
/// its `showed` flag is raised; nothing else changes.
pub open spec fn reserve_step(pre: DbV, post: DbV, r: InvoiceV, now: int) -> bool {
    &&& first_eligible(pre.invoices, now) matches Some(i) && r == with_showed(pre.invoices[i])
        && post.invoices == pre.invoices.update(i, r)
    &&& post.emails == pre.emails
}

/// The store may only grow, keys and immutable columns are stable, and
/// the monotonic flags never fall back to `false`.
pub open spec fn evolves(pre: DbV, post: DbV) -> bool {
    &&& pre.invoices.len() <= post.invoices.len()
    &&& forall|i: int|
        0 <= i < pre.invoices.len() ==> {
            &&& (#[trigger] post.invoices[i]).id == pre.invoices[i].id
            &&& post.invoices[i].bolt11 == pre.invoices[i].bolt11
            &&& post.invoices[i].expiration == pre.invoices[i].expiration
            &&& (pre.invoices[i].paid ==> post.invoices[i].paid)
            &&& (pre.invoices[i].showed ==> post.invoices[i].showed)
        }
    &&& pre.emails.len() <= post.emails.len()
    &&& forall|k: int|
        0 <= k < pre.emails.len() ==> {
            &&& (#[trigger] post.emails[k]).payment_hash == pre.emails[k].payment_hash
            &&& post.emails[k].reply_to_email == pre.emails[k].reply_to_email
            &&& post.emails[k].to_email == pre.emails[k].to_email
            &&& post.emails[k].subject == pre.emails[k].subject
            &&& post.emails[k].message == pre.emails[k].message
            &&& (pre.emails[k].sent ==> post.emails[k].sent)
        }
}

/// No invoice is eligible exactly when the eligible count is zero, so
/// an exhausted reservation means an empty eligible set, not a missed
/// record.
pub proof fn lemma_exhaustion_iff_none_eligible(s: Seq<InvoiceV>, now: int)
    ensures
        first_eligible(s, now) is None <==> count_eligible(s, now) == 0,
        count_eligible(s, now) >= 0,
{
    lemma_eligible_from_none_iff_zero(s, now, 0);
}

proof fn lemma_eligible_from_none_iff_zero(s: Seq<InvoiceV>, now: int, j: int)
    requires
        0 <= j,
    ensures
        first_eligible_from(s, now, j) is None <==> count_eligible_from(s, now, j) == 0,
        count_eligible_from(s, now, j) >= 0,
    decreases s.len() - j,
{
    if j < s.len() {
        lemma_eligible_from_none_iff_zero(s, now, j + 1);
    }
}

proof fn lemma_count_eligible_update(s: Seq<InvoiceV>, i: int, x: InvoiceV, now: int, j: int)
    requires
        0 <= j,
        0 <= i < s.len(),
        eligible(s[i], now),
        !eligible(x, now),
    ensures
        count_eligible_from(s.update(i, x), now, j) == if j <= i {
            count_eligible_from(s, now, j) - 1
        } else {
            count_eligible_from(s, now, j)
        },
    decreases s.len() - j,
{
    if j < s.len() {
        lemma_count_eligible_update(s, i, x, now, j + 1);
    }
}

/// Law (exactly-once allocation, counting form): each successful
/// reservation shrinks the eligible set by exactly one, so a pool of N
/// eligible invoices satisfies exactly N reservations.
pub proof fn lemma_reserve_decrements_eligible(pre: DbV, post: DbV, r: InvoiceV, now: int)
    requires
        reserve_step(pre, post, r, now),
    ensures
        count_eligible(post.invoices, now) == count_eligible(pre.invoices, now) - 1,
{
    let i = first_eligible(pre.invoices, now)->Some_0;
    lemma_first_eligible_some(pre.invoices, now, 0);
    lemma_count_eligible_update(pre.invoices, i, with_showed(pre.invoices[i]), now, 0);
}

/// Every store value evolves from itself.
pub proof fn lemma_evolves_refl(v: DbV)
    ensures
        evolves(v, v),
{
}

/// Evolution is transitive.
pub proof fn lemma_evolves_trans(a: DbV, b: DbV, c: DbV)
    requires
        evolves(a, b),
        evolves(b, c),
    ensures
        evolves(a, c),
{
}

/// A reservation is an evolution of the store.
pub proof fn lemma_reserve_step_evolves(pre: DbV, post: DbV, r: InvoiceV, now: int)
    requires
        reserve_step(pre, post, r, now),
    ensures
        evolves(pre, post),
{
    let i = first_eligible(pre.invoices, now)->Some_0;
    lemma_first_eligible_some(pre.invoices, now, 0);
    assert(post.invoices =~= pre.invoices.update(i, with_showed(pre.invoices[i])));
}

/// If an eligible index is found, it is in range, eligible, and nothing
/// before it (from `i0` on) is eligible.
pub proof fn lemma_first_eligible_some(s: Seq<InvoiceV>, now: int, i0: int)
    requires
        first_eligible_from(s, now, i0) is Some,
    ensures
        ({
            let j = first_eligible_from(s, now, i0)->Some_0;
            &&& i0 <= j < s.len()
            &&& eligible(s[j], now)
            &&& forall|k: int| i0 <= k < j ==> !eligible(#[trigger] s[k], now)
        }),
    decreases s.len() - i0,
{
    if 0 <= i0 < s.len() && !eligible(s[i0], now) {
        lemma_first_eligible_some(s, now, i0 + 1);
    }
}

/// Law (exactly-once allocation): whatever happens to the store between
/// them, two successful reservations never hand out the same invoice.
/// The first reservation raises the `showed` flag of the invoice it
/// returns; the flag is monotonic, so the second reservation, which only
/// picks an invoice whose flag is down, picks a different record.
pub proof fn lemma_reserve_exactly_once(
    pre: DbV,
    mid: DbV,
    between: DbV,
    post: DbV,
    r1: InvoiceV,
    r2: InvoiceV,
    now1: int,
    now2: int,
)
    requires
        reserve_step(pre, mid, r1, now1),
        evolves(mid, between),
        invoice_ids_unique(between.invoices),
        reserve_step(between, post, r2, now2),
    ensures
        r1.id != r2.id,
{
    let i = first_eligible(pre.invoices, now1)->Some_0;
    lemma_first_eligible_some(pre.invoices, now1, 0);
    let j = first_eligible(between.invoices, now2)->Some_0;
    lemma_first_eligible_some(between.invoices, now2, 0);
    assert(mid.invoices[i].showed);
    assert(mid.invoices[i].id == r1.id);
    assert(between.invoices[i].showed);
    assert(between.invoices[i].id == r1.id);
    assert(!between.invoices[j].showed);
    assert(j != i);
    if r1.id == r2.id {
        assert(between.invoices[i].id == between.invoices[j].id);
    }
}

impl Db {
    /// The store invariant, as a predicate on the store.
    pub open spec fn wf(&self) -> bool {
        db_inv(self@)
    }

    /// An empty store.
    pub fn new() -> (db: Db)
        ensures
            db.wf(),
            db@.invoices.len() == 0,
            db@.emails.len() == 0,
    {
        Db { invoices: Vec::new(), emails: Vec::new() }
    }
}

/// A fresh copy of an invoice row, equal to the original.
fn copy_invoice(r: &InvoiceRow) -> (c: InvoiceRow)
    ensures
        c@ == r@,
{
    InvoiceRow {
        id: r.id.clone(),
        bolt11: r.bolt11.clone(),
        expiration: r.expiration,
        paid: r.paid,
        showed: r.showed,
    }
}

/// A fresh copy of an email row, equal to the original.
pub(crate) fn copy_email(r: &EmailRow) -> (c: EmailRow)
    ensures
        c@ == r@,
{
    EmailRow {
        payment_hash: r.payment_hash.clone(),
        reply_to_email: match &r.reply_to_email {
            Some(s) => Some(s.clone()),
            None => None,
        },
        to_email: r.to_email.clone(),
        subject: r.subject.clone(),
        message: r.message.clone(),
        sent: r.sent,
    }
}

/// If no invoice with `id` is found from `i0` on, no index from `i0` on
/// matches.
pub(crate) proof fn lemma_find_inv_none(s: Seq<InvoiceV>, id: Seq<char>, i0: int)
    requires
        0 <= i0,
        find_inv_from(s, id, i0) is None,
    ensures
        forall|j: int| i0 <= j < s.len() ==> (#[trigger] s[j]).id != id,
    decreases s.len() - i0,
{
    if 0 <= i0 < s.len() {
        lemma_find_inv_none(s, id, i0 + 1);
    }
}

/// If no email with `id` is found from `i0` on, no index from `i0` on
/// matches.
pub(crate) proof fn lemma_find_email_none(s: Seq<EmailV>, id: Seq<char>, i0: int)
    requires
        0 <= i0,
        find_email_from(s, id, i0) is None,
    ensures
        forall|j: int| i0 <= j < s.len() ==> (#[trigger] s[j]).payment_hash != id,
    decreases s.len() - i0,
{
    if 0 <= i0 < s.len() {
        lemma_find_email_none(s, id, i0 + 1);
    }
}

/// The invoice found under `id` sits at some index, and if the table's
/// keys are unique it is the only index whose key is `id`.
pub(crate) proof fn lemma_find_inv_some(s: Seq<InvoiceV>, id: Seq<char>, i0: int)
    requires
        find_inv_from(s, id, i0) is Some,
    ensures
        (exists|j: int|
            i0 <= j < s.len() && #[trigger] s[j] == find_inv_from(s, id, i0)->Some_0 && s[j].id
                == id),
        find_inv_from(s, id, i0)->Some_0.id == id,
    decreases s.len() - i0,
{
    if 0 <= i0 < s.len() && s[i0].id != id {
        lemma_find_inv_some(s, id, i0 + 1);
    }
}

/// The email found under `id` sits at some index, and carries `id` as
/// its key.
pub(crate) proof fn lemma_find_email_some(s: Seq<EmailV>, id: Seq<char>, i0: int)
    requires
        find_email_from(s, id, i0) is Some,
    ensures
        (exists|j: int|
            i0 <= j < s.len() && #[trigger] s[j] == find_email_from(s, id, i0)->Some_0
                && s[j].payment_hash == id),
        find_email_from(s, id, i0)->Some_0.payment_hash == id,
    decreases s.len() - i0,
{
    if 0 <= i0 < s.len() && s[i0].payment_hash != id {
        lemma_find_email_some(s, id, i0 + 1);
    }
}

/// With unique keys, `has_paid_invoice` is decided by the found row.
pub proof fn lemma_has_paid_iff_found(s: Seq<InvoiceV>, id: Seq<char>)
    requires
        invoice_ids_unique(s),
    ensures
        has_paid_invoice(s, id) <==> (find_inv(s, id) matches Some(r) && r.paid),
{
    match find_inv(s, id) {
        Some(r) => {
            lemma_find_inv_some(s, id, 0);
            let j = choose|j: int| 0 <= j < s.len() && s[j] == r && s[j].id == id;
            if has_paid_invoice(s, id) {
                let k = choose|k: int| 0 <= k < s.len() && s[k].id == id && s[k].paid;
                assert(k == j);
            }
        },
        None => {
            lemma_find_inv_none(s, id, 0);
        },
    }
}

impl InvoiceRow {
    /// Get the invoice identified by `payment_hash`.
    pub fn get(db: &Db, payment_hash: &String) -> (r: Result<InvoiceRow, Error>)
        ensures
            match r {
                Ok(row) => find_inv(db@.invoices, payment_hash@) == Some(row@),
                Err(e) => e == Error::InvoiceNotFound && find_inv(db@.invoices, payment_hash@)
                    is None,
            },
    {
        let n = db.invoices.len();
        for i in 0..n
            invariant
                n == db.invoices.len(),
                find_inv(db@.invoices, payment_hash@) == find_inv_from(
                    db@.invoices,
                    payment_hash@,
                    i as int,
                ),
        {
            if db.invoices[i].id == *payment_hash {
                return Ok(copy_invoice(&db.invoices[i]));
            }
        }
        Err(Error::InvoiceNotFound)
    }

    /// Add `invoice_row` to the store. Fails with a store error when an
    /// invoice with the same payment hash already exists.
    pub fn add(db: &mut Db, invoice_row: InvoiceRow) -> (r: Result<usize, Error>)
        requires
            old(db).wf(),
        ensures
            final(db).wf(),
            match r {
                Ok(n) => n == 1 && find_inv(old(db)@.invoices, invoice_row@.id) is None
                    && final(db)@.invoices == old(db)@.invoices.push(invoice_row@)
                    && final(db)@.emails == old(db)@.emails,
                Err(e) => e == Error::Storage && find_inv(old(db)@.invoices, invoice_row@.id)
                    is Some && final(db)@ == old(db)@,
            },
    {
        let n = db.invoices.len();
        for i in 0..n
            invariant
                n == db.invoices.len(),
                db@ == old(db)@,
                db.wf(),
                find_inv(db@.invoices, invoice_row@.id) == find_inv_from(
                    db@.invoices,
                    invoice_row@.id,
                    i as int,
                ),
        {
            if db.invoices[i].id == invoice_row.id {
                return Err(Error::Storage);
            }
        }
        proof {
            lemma_find_inv_none(db@.invoices, invoice_row@.id, 0);
        }
        let ghost pre = db@;
        db.invoices.push(invoice_row);
        proof {
            assert(db@.invoices =~= pre.invoices.push(invoice_row@));
            assert(db@.emails =~= pre.emails);
            let post = db@.invoices;
            assert forall|a: int, b: int| 0 <= a < b < post.len() implies post[a].id
                != post[b].id by {
                if b < post.len() - 1 {
                    assert(pre.invoices[a].id != pre.invoices[b].id);
                }
            }
            assert forall|k: int|
                0 <= k < db@.emails.len() && #[trigger] db@.emails[k].sent implies has_paid_invoice(
                db@.invoices,
                db@.emails[k].payment_hash,
            ) by {
                let h = db@.emails[k].payment_hash;
                assert(has_paid_invoice(pre.invoices, h));
                let i0 = choose|i0: int|
                    0 <= i0 < pre.invoices.len() && pre.invoices[i0].id == h
                        && pre.invoices[i0].paid;
                assert(db@.invoices[i0].id == h && db@.invoices[i0].paid);
            }
        }
        Ok(1)
    }

    /// Reserve the first invoice that is not paid, not yet handed out and
    /// not within the grace window of its expiry, raising its `showed`
    /// flag in the same atomic step. Fails with not-found exactly when no
    /// invoice is eligible.
    pub fn get_first_available(db: &mut Db, now: i64) -> (r: Result<InvoiceRow, Error>)
        requires
            old(db).wf(),
            now <= i64::MAX - GRACE_PERIOD_SECS,
        ensures
            final(db).wf(),
            match r {
                Ok(row) => reserve_step(old(db)@, final(db)@, row@, now as int),
                Err(e) => e == Error::InvoiceNotFound && final(db)@ == old(db)@ && first_eligible(
                    old(db)@.invoices,
                    now as int,
                ) is None,
            },
    {
        let n = db.invoices.len();
        for i in 0..n
            invariant
                n == db.invoices.len(),
                db@ == old(db)@,
                db.wf(),
                now <= i64::MAX - GRACE_PERIOD_SECS,
                first_eligible(db@.invoices, now as int) == first_eligible_from(
                    db@.invoices,
                    now as int,
                    i as int,
                ),
        {
            let row = &db.invoices[i];
            if !row.showed && !row.paid && row.expiration > now + GRACE_PERIOD_SECS {
                let ghost pre = db@;
                let id = db.invoices[i].id.clone();
                let bolt11 = db.invoices[i].bolt11.clone();
                let expiration = db.invoices[i].expiration;
                let paid = db.invoices[i].paid;
                let updated = InvoiceRow { id, bolt11, expiration, paid, showed: true };
                let result = copy_invoice(&updated);
                db.invoices[i] = updated;
                proof {
                    assert(first_eligible(pre.invoices, now as int) == Some(i as int));
                    assert(result@ == with_showed(pre.invoices[i as int]));
                    assert(db@.invoices =~= pre.invoices.update(i as int, result@));
                    assert(db@.emails =~= pre.emails);
                    assert forall|k: int|
                        0 <= k < db@.emails.len()
                            && #[trigger] db@.emails[k].sent implies has_paid_invoice(
                        db@.invoices,
                        db@.emails[k].payment_hash,
                    ) by {
                        let h = db@.emails[k].payment_hash;
                        assert(has_paid_invoice(pre.invoices, h));
                        let i0 = choose|i0: int|
                            0 <= i0 < pre.invoices.len() && pre.invoices[i0].id == h
                                && pre.invoices[i0].paid;
                        assert(db@.invoices[i0].id == h && db@.invoices[i0].paid);
                    }
                }
                return Ok(result);
            }
        }
        Err(Error::InvoiceNotFound)
    }

    /// How many invoices are still eligible for reservation.
    pub fn count_available(db: &Db, now: i64) -> (r: usize)
        requires
            now <= i64::MAX - GRACE_PERIOD_SECS,
        ensures
            r == count_eligible(db@.invoices, now as int),
    {
        let n = db.invoices.len();
        let mut counter: usize = 0;
        for i in 0..n
            invariant
                n == db.invoices.len(),
                now <= i64::MAX - GRACE_PERIOD_SECS,
                counter <= i,
                count_eligible(db@.invoices, now as int) == counter + count_eligible_from(
                    db@.invoices,
                    now as int,
                    i as int,
                ),
        {
            let row = &db.invoices[i];
            if !row.showed && !row.paid && row.expiration > now + GRACE_PERIOD_SECS {
                counter = counter + 1;
            }
        }
        counter
    }

    /// Mark the invoice with this row's payment hash as paid, in the
    /// store and in this copy. The flag only rises; a record that is
    /// already paid stays paid.
    pub fn set_paid(&mut self, db: &mut Db) -> (r: Result<(), Error>)
        requires
            old(db).wf(),
        ensures
            final(db).wf(),
            r is Ok,
            final(db)@.invoices == mark_paid(old(db)@.invoices, old(self)@.id),
            final(db)@.emails == old(db)@.emails,
            final(self)@ == with_paid(old(self)@),
    {
        let ghost pre = db@;
        let n = db.invoices.len();
        for i in 0..n
            invariant
                n == db.invoices.len(),
                db@.invoices.len() == pre.invoices.len(),
                db@.emails == pre.emails,
                self@ == old(self)@,
                forall|j: int|
                    0 <= j < i ==> #[trigger] db@.invoices[j] == (if pre.invoices[j].id
                        == self@.id {
                        with_paid(pre.invoices[j])
                    } else {
                        pre.invoices[j]
                    }),
                forall|j: int|
                    i <= j < pre.invoices.len() ==> #[trigger] db@.invoices[j] == pre.invoices[j],
        {
            let ghost before = db@.invoices;
            if db.invoices[i].id == self.id {
                let id = db.invoices[i].id.clone();
                let bolt11 = db.invoices[i].bolt11.clone();
                let expiration = db.invoices[i].expiration;
                let showed = db.invoices[i].showed;
                db.invoices[i] = InvoiceRow { id, bolt11, expiration, paid: true, showed };
                proof {
                    assert(before[i as int] == pre.invoices[i as int]);
                    assert(db@.invoices =~= before.update(
                        i as int,
                        with_paid(pre.invoices[i as int]),
                    ));
                }
            }
        }
        self.paid = true;
        proof {
            assert(db@.invoices =~= mark_paid(pre.invoices, old(self)@.id));
            assert forall|a: int, b: int|
                0 <= a < b < db@.invoices.len() implies db@.invoices[a].id
                != db@.invoices[b].id by {
                assert(pre.invoices[a].id != pre.invoices[b].id);
            }
            assert forall|k: int|
                0 <= k < db@.emails.len() && #[trigger] db@.emails[k].sent implies has_paid_invoice(
                db@.invoices,
                db@.emails[k].payment_hash,
            ) by {
                let h = db@.emails[k].payment_hash;
                assert(has_paid_invoice(pre.invoices, h));
                let i0 = choose|i0: int|
                    0 <= i0 < pre.invoices.len() && pre.invoices[i0].id == h
                        && pre.invoices[i0].paid;
                assert(db@.invoices[i0].id == h && db@.invoices[i0].paid);
            }
        }
        Ok(())
    }
}

impl EmailRow {
    /// Get the pending email associated with `payment_hash`.
    pub fn get(db: &Db, payment_hash: &String) -> (r: Result<EmailRow, Error>)
        ensures
            match r {
                Ok(row) => find_email(db@.emails, payment_hash@) == Some(row@),
                Err(e) => e == Error::EmailNotFound && find_email(db@.emails, payment_hash@)
                    is None,
            },
    {
        let n = db.emails.len();
        for i in 0..n
            invariant
                n == db.emails.len(),
                find_email(db@.emails, payment_hash@) == find_email_from(
                    db@.emails,
                    payment_hash@,
                    i as int,
                ),
        {
            if db.emails[i].payment_hash == *payment_hash {
                return Ok(copy_email(&db.emails[i]));
            }
        }
        Err(Error::EmailNotFound)
    }

    /// Add `email_row` to the store. At most one pending email may exist
    /// per payment hash; a second one is refused as a duplicate.
    pub fn add(db: &mut Db, email_row: EmailRow) -> (r: Result<usize, Error>)
        requires
            old(db).wf(),
            !email_row@.sent,
        ensures
            final(db).wf(),
            match r {
                Ok(n) => n == 1 && find_email(old(db)@.emails, email_row@.payment_hash) is None
                    && final(db)@.emails == old(db)@.emails.push(email_row@)
                    && final(db)@.invoices == old(db)@.invoices,
                Err(e) => e == Error::DuplicateEmail && find_email(
                    old(db)@.emails,
                    email_row@.payment_hash,
                ) is Some && final(db)@ == old(db)@,
            },
    {
        let n = db.emails.len();
        for i in 0..n
            invariant
                n == db.emails.len(),
                db@ == old(db)@,
                db.wf(),
                find_email(db@.emails, email_row@.payment_hash) == find_email_from(
                    db@.emails,
                    email_row@.payment_hash,
                    i as int,
                ),
        {
            if db.emails[i].payment_hash == email_row.payment_hash {
                return Err(Error::DuplicateEmail);
            }
        }
        proof {
            lemma_find_email_none(db@.emails, email_row@.payment_hash, 0);
        }
        let ghost pre = db@;
        db.emails.push(email_row);
        proof {
            assert(db@.emails =~= pre.emails.push(email_row@));
            assert(db@.invoices =~= pre.invoices);
            let post = db@.emails;
            assert forall|a: int, b: int| 0 <= a < b < post.len() implies post[a].payment_hash
                != post[b].payment_hash by {
                if b < post.len() - 1 {
                    assert(pre.emails[a].payment_hash != pre.emails[b].payment_hash);
                }
            }
        }
        Ok(1)
    }

    /// Mark the pending email with this row's payment hash as sent, in
    /// the store and in this copy. The store only accepts the flag when
    /// the paying invoice is already paid, which keeps dispatch strictly
    /// after payment.
    pub fn set_sent(&mut self, db: &mut Db) -> (r: Result<(), Error>)
        requires
            old(db).wf(),
        ensures
            final(db).wf(),
            match r {
                Ok(_) => has_paid_invoice(old(db)@.invoices, old(self)@.payment_hash)
                    && final(db)@.emails == mark_sent(old(db)@.emails, old(self)@.payment_hash)
                    && final(db)@.invoices == old(db)@.invoices
                    && final(self)@ == with_sent(old(self)@),
                Err(e) => e == Error::Storage && !has_paid_invoice(
                    old(db)@.invoices,
                    old(self)@.payment_hash,
                ) && final(db)@ == old(db)@ && *final(self) == *old(self),
            },
    {
        let guard = match InvoiceRow::get(db, &self.payment_hash) {
            Ok(inv) => inv.paid,
            Err(_) => false,
        };
        proof {
            lemma_has_paid_iff_found(db@.invoices, self@.payment_hash);
        }
        if !guard {
            return Err(Error::Storage);
        }
        let ghost pre = db@;
        let n = db.emails.len();
        for i in 0..n
            invariant
                n == db.emails.len(),
                db@.emails.len() == pre.emails.len(),
                db@.invoices == pre.invoices,
                self@ == old(self)@,
                has_paid_invoice(pre.invoices, self@.payment_hash),
                forall|j: int|
                    0 <= j < i ==> #[trigger] db@.emails[j] == (if pre.emails[j].payment_hash
                        == self@.payment_hash {
                        with_sent(pre.emails[j])
                    } else {
                        pre.emails[j]
                    }),
                forall|j: int|
                    i <= j < pre.emails.len() ==> #[trigger] db@.emails[j] == pre.emails[j],
        {
            let ghost before = db@.emails;
            if db.emails[i].payment_hash == self.payment_hash {
                let payment_hash = db.emails[i].payment_hash.clone();
                let reply_to_email = match &db.emails[i].reply_to_email {
                    Some(s) => Some(s.clone()),
                    None => None,
                };
                let to_email = db.emails[i].to_email.clone();
                let subject = db.emails[i].subject.clone();
                let message = db.emails[i].message.clone();
                db.emails[i] = EmailRow {
                    payment_hash,
                    reply_to_email,
                    to_email,
                    subject,
                    message,
                    sent: true,
                };
                proof {
                    assert(before[i as int] == pre.emails[i as int]);
                    assert(db@.emails =~= before.update(
                        i as int,
                        with_sent(pre.emails[i as int]),
                    ));
                }
            }
        }
        self.sent = true;
        proof {
            assert(db@.emails =~= mark_sent(pre.emails, old(self)@.payment_hash));
            assert forall|a: int, b: int|
                0 <= a < b < db@.emails.len() implies db@.emails[a].payment_hash
                != db@.emails[b].payment_hash by {
                assert(pre.emails[a].payment_hash != pre.emails[b].payment_hash);
            }
            assert forall|k: int|
                0 <= k < db@.emails.len() && #[trigger] db@.emails[k].sent implies has_paid_invoice(
                db@.invoices,
                db@.emails[k].payment_hash,
            ) by {
                if pre.emails[k].sent {
                    assert(has_paid_invoice(pre.invoices, pre.emails[k].payment_hash));
                }
            }
        }
        Ok(())
    }

    /// How many emails have been sent.
    pub fn count_sent(db: &Db) -> (r: usize)
        ensures
            r == count_sent_total(db@.emails),
    {
        let n = db.emails.len();
        let mut counter: usize = 0;
        for i in 0..n
            invariant
                n == db.emails.len(),
                counter <= i,
                count_sent_total(db@.emails) == counter + count_sent_from(db@.emails, i as int),
        {
            if db.emails[i].sent {
                counter = counter + 1;
            }
        }
        counter
    }
}

} // verus!
