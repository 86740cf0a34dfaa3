//! The message interrupts of the in-kernel interrupt controller.
use vstd::prelude::*;

use crate::interrupts::MessageInterrupt;
use crate::message_table::{MessageTable, MessageTableView};

verus! {

/// A message-interrupt domain whose messages go to the interrupt controller.
#[derive(Debug)]
pub struct GicMessageInterruptDomain {
    table: MessageTable,
}

impl View for GicMessageInterruptDomain {
    type V = MessageTableView;

    closed spec fn view(&self) -> MessageTableView {
        self.table@
    }
}

impl GicMessageInterruptDomain {
    /// A domain of `count` masked vectors that is off.
    pub fn new(count: u16) -> (r: GicMessageInterruptDomain)
        ensures
            r@.vectors == Seq::new(
                count as nat,
                |i: int| MessageInterrupt { address: 0, data: 0, masked: true },
            ),
            !r@.enabled,
    {
        GicMessageInterruptDomain { table: MessageTable::new(count, true) }
    }

    /// Sets the message of a vector; one that does not exist is ignored.
    pub fn update(&mut self, vector: u16, msg: MessageInterrupt)
        ensures
            final(self)@ == (MessageTableView {
                vectors: if vector < old(self)@.vectors.len() {
                    old(self)@.vectors.update(vector as int, msg)
                } else {
                    old(self)@.vectors
                },
                ..old(self)@
            }),
    {
        self.table.update(vector, msg);
    }

    /// Turns the domain on or off.
    pub fn enabled(&mut self, enabled: bool)
        ensures
            final(self)@ == (MessageTableView { enabled, ..old(self)@ }),
    {
        self.table.set_enabled(enabled);
    }

    /// The message that a vector sends.
    pub fn message_for(&self, vector: u16) -> (r: Option<MessageInterrupt>)
        ensures
            r == self@.message(vector),
    {
        self.table.message_for(vector)
    }
}

/// A domain sends, for a vector, the message that it was given last, and the other
/// vectors keep theirs; it starts off, with every vector masked.
pub proof fn law_changes_of_a_domain(
    t: &mut GicMessageInterruptDomain,
    vector: u16,
    msg: MessageInterrupt,
    other: u16,
    u: &mut GicMessageInterruptDomain,
    on: bool,
    count: u16,
    made: GicMessageInterruptDomain,
)
    requires
        call_ensures(GicMessageInterruptDomain::update, (t, vector, msg), ()),
        call_ensures(GicMessageInterruptDomain::enabled, (u, on), ()),
        call_ensures(GicMessageInterruptDomain::new, (count,), made),
    ensures
        old(t)@.enabled && vector < old(t)@.vectors.len() && !msg.masked ==> final(t)@.message(
            vector,
        ) == Some(msg),
        msg.masked && vector < old(t)@.vectors.len() ==> final(t)@.message(vector) is None,
        other != vector ==> final(t)@.message(other) == old(t)@.message(other),
        !on ==> final(u)@.message(other) is None,
        final(u)@.vectors == old(u)@.vectors,
        made@.vectors.len() == count,
        made@.message(other) is None,
        forall|i: int| 0 <= i < count ==> (#[trigger] made@.vectors[i]).masked,
{
}

} // verus!
