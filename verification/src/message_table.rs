//! The messages of a message-interrupt domain that the machine sends itself.
use vstd::prelude::*;

use crate::interrupts::MessageInterrupt;

verus! {

/// The messages of the vectors of a domain.
#[derive(Debug)]
pub struct MessageTable {
    vectors: Vec<MessageInterrupt>,
    enabled: bool,
}

/// A [`MessageTable`] with its vectors as a sequence.
pub struct MessageTableView {
    pub vectors: Seq<MessageInterrupt>,
    pub enabled: bool,
}

impl View for MessageTable {
    type V = MessageTableView;

    closed spec fn view(&self) -> MessageTableView {
        MessageTableView { vectors: self.vectors@, enabled: self.enabled }
    }
}

impl MessageTableView {
    /// The message that a vector sends: none while the domain is off or the
    /// vector is masked.
    pub open spec fn message(self, vector: u16) -> Option<MessageInterrupt> {
        if self.enabled && vector < self.vectors.len() && !self.vectors[vector as int].masked {
            Some(self.vectors[vector as int])
        } else {
            None
        }
    }
}

impl MessageTable {
    /// A domain of `count` empty vectors, masked or not, that is off.
    pub fn new(count: u16, masked: bool) -> (r: MessageTable)
        ensures
            r@.vectors == Seq::new(
                count as nat,
                |i: int| MessageInterrupt { address: 0, data: 0, masked },
            ),
            !r@.enabled,
    {
        let mut vectors: Vec<MessageInterrupt> = Vec::new();
        let mut i: u16 = 0;
        while i < count
            invariant
                i <= count,
                vectors@.len() == i,
                forall|k: int|
                    0 <= k < i ==> #[trigger] vectors@[k] == (MessageInterrupt {
                        address: 0,
                        data: 0,
                        masked,
                    }),
            decreases count - i,
        {
            vectors.push(MessageInterrupt { address: 0, data: 0, masked });
            i = i + 1;
        }
        assert(vectors@ =~= Seq::new(
            count as nat,
            |i: int| MessageInterrupt { address: 0, data: 0, masked },
        ));
        MessageTable { vectors, enabled: false }
    }

    /// Sets the message of a vector; one that does not exist is ignored.
    pub fn update(&mut self, vector: u16, msg: MessageInterrupt)
        ensures
            final(self)@ == (MessageTableView {
                vectors: if vector < old(self)@.vectors.len() {
                    old(self)@.vectors.update(vector as int, msg)
                } else {
                    old(self)@.vectors
                },
                ..old(self)@
            }),
    {
        if (vector as usize) < self.vectors.len() {
            self.vectors.set(vector as usize, msg);
        }
    }

    /// Turns the domain on or off.
    pub fn set_enabled(&mut self, enabled: bool)
        ensures
            final(self)@ == (MessageTableView { enabled, ..old(self)@ }),
    {
        self.enabled = enabled;
    }

    /// The message that a vector sends.
    pub fn message_for(&self, vector: u16) -> (r: Option<MessageInterrupt>)
        ensures
            r == self@.message(vector),
    {
        if !self.enabled {
            return None;
        }
        if vector as usize >= self.vectors.len() {
            return None;
        }
        let message = self.vectors[vector as usize];
        if message.masked {
            None
        } else {
            Some(message)
        }
    }
}

/// A vector sends the message that it was last given, if the domain is on and the
/// message is not masked; the messages of the other vectors stay.
pub proof fn law_vector_sends_its_last_message(
    t: MessageTableView,
    vector: u16,
    msg: MessageInterrupt,
    other: u16,
)
    requires
        t.enabled,
        vector < t.vectors.len(),
    ensures
        ({
            let after = MessageTableView { vectors: t.vectors.update(vector as int, msg), ..t };
            &&& after.message(vector) == if msg.masked {
                None
            } else {
                Some(msg)
            }
            &&& other != vector ==> after.message(other) == t.message(other)
        }),
{
}

/// A domain that is off sends nothing, and neither does a vector that it does not have.
pub proof fn law_domain_that_is_off_sends_nothing(t: MessageTableView, vector: u16)
    ensures
        (MessageTableView { enabled: false, ..t }).message(vector) is None,
        vector >= t.vectors.len() ==> t.message(vector) is None,
        t.message(vector) matches Some(m) ==> !m.masked && t.vectors[vector as int] == m,
{
}

/// Setting a message changes one vector and leaves the domain as it was, on or off;
/// switching the domain leaves the messages as they were. A new domain is off and its
/// vectors name no message.
pub proof fn law_changes_of_a_domain(
    t: &mut MessageTable,
    vector: u16,
    msg: MessageInterrupt,
    other: int,
    u: &mut MessageTable,
    on: bool,
    count: u16,
    masked: bool,
    made: MessageTable,
)
    requires
        call_ensures(MessageTable::update, (t, vector, msg), ()),
        call_ensures(MessageTable::set_enabled, (u, on), ()),
        call_ensures(MessageTable::new, (count, masked), made),
    ensures
        final(t)@.vectors.len() == old(t)@.vectors.len(),
        vector < old(t)@.vectors.len() ==> final(t)@.vectors[vector as int] == msg,
        0 <= other < old(t)@.vectors.len() && other != vector ==> final(t)@.vectors[other] == old(t)@.vectors[other],
        final(t)@.enabled == old(t)@.enabled,
        final(u)@.enabled == on,
        final(u)@.vectors == old(u)@.vectors,
        !made@.enabled,
        made@.vectors.len() == count,
        0 <= other < count ==> made@.vectors[other].address == 0 && made@.vectors[other].data == 0
            && made@.vectors[other].masked == masked,
{
}

} // verus!
