//! The outbound-mail collaborator boundary.
//!
//! The confirmation handler treats delivery as one opaque blocking call
//! with a binary outcome. The contract a transport must meet is the
//! [`Dispatcher`] trait: every call hands exactly one email to the
//! transport, whatever the outcome; nothing is promised about success.
//! [`RecordingDispatcher`] is the library's own transport: it keeps the
//! handed-out emails in memory, which also makes the dispatch count of a
//! run observable.

use vstd::prelude::*;

use crate::db::{copy_email, EmailRow, EmailV};

verus! {

/// An outbound-mail transport.
pub trait Dispatcher {
    /// The emails handed to the transport so far, oldest first.
    spec fn dispatched(&self) -> Seq<EmailV>;

    /// Synchronously attempt one delivery; `true` is success. The
    /// attempt is recorded whatever the outcome, and the outcome is the
    /// transport's alone.
    fn dispatch(&mut self, email: &EmailRow) -> (r: bool)
        ensures
            final(self).dispatched() == old(self).dispatched().push(email@),
    ;
}

/// A transport that keeps every handed-out email in memory and
/// delivers, or refuses, according to its switch: `dispatch` returns
/// the value of `deliver` at the call.
pub struct RecordingDispatcher {
    pub log: Vec<EmailRow>,
    pub deliver: bool,
}

impl RecordingDispatcher {
    /// A fresh transport with an empty record.
    pub fn new(deliver: bool) -> (d: RecordingDispatcher)
        ensures
            d.dispatched().len() == 0,
            d.deliver == deliver,
    {
        RecordingDispatcher { log: Vec::new(), deliver }
    }

    /// How many emails have been handed to this transport.
    pub fn dispatch_count(&self) -> (n: usize)
        ensures
            n == self.dispatched().len(),
    {
        self.log.len()
    }
}

impl Dispatcher for RecordingDispatcher {
    open spec fn dispatched(&self) -> Seq<EmailV> {
        self.log@.map_values(|r: EmailRow| r@)
    }

    fn dispatch(&mut self, email: &EmailRow) -> (r: bool)
        ensures
            r == old(self).deliver,
    {
        let ghost pre = self.log@;
        self.log.push(copy_email(email));
        proof {
            assert(self.dispatched() =~= pre.map_values(|r: EmailRow| r@).push(email@));
        }
        self.deliver
    }
}

} // verus!
