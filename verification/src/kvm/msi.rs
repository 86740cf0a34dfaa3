//! Message-interrupt vectors on top of GSIs.
use vstd::prelude::*;

use crate::interrupts::MessageInterrupt;
use crate::kvm::irq::{
    lemma_route_place, message_route, route_place, IrqManager, IrqView, RouteTarget,
};

verus! {

/// What has to follow an update of a vector.
#[derive(Debug, Clone, Copy, PartialEq, Eq, Structural)]
pub enum MessageAction {
    Nothing,
    /// Commit the routes.
    Commit,
    /// Commit the routes and register a descriptor for the GSI.
    Bind { gsi: u32 },
}

/// A message-interrupt domain: the GSI of each vector that was programmed.
#[derive(Debug)]
pub struct KvmMessageInterruptDomain {
    vectors: Vec<Option<u32>>,
}

impl View for KvmMessageInterruptDomain {
    type V = Seq<Option<u32>>;

    closed spec fn view(&self) -> Seq<Option<u32>> {
        self.vectors@
    }
}

/// The low half of a message address.
pub open spec fn address_lo(msg: MessageInterrupt) -> u32 {
    msg.address as u32
}

/// The high half of a message address.
pub open spec fn address_hi(msg: MessageInterrupt) -> u32 {
    (msg.address >> 32) as u32
}

/// Whether an update of a vector counts: a masked vector is left alone, and so is
/// one that does not exist.
pub open spec fn programs(vectors: Seq<Option<u32>>, vector: u16, msg: MessageInterrupt) -> bool {
    !msg.masked && vector < vectors.len()
}

impl KvmMessageInterruptDomain {
    /// A domain of `num_vectors` vectors, none of which is programmed.
    pub fn new(num_vectors: u16) -> (r: KvmMessageInterruptDomain)
        ensures
            r@ == Seq::new(num_vectors as nat, |i: int| None::<u32>),
    {
        let mut vectors: Vec<Option<u32>> = Vec::new();
        let mut i: u16 = 0;
        while i < num_vectors
            invariant
                i <= num_vectors,
                vectors@.len() == i,
                forall|k: int| 0 <= k < i ==> #[trigger] vectors@[k] == None::<u32>,
            decreases num_vectors - i,
        {
            vectors.push(None);
            i = i + 1;
        }
        assert(vectors@ =~= Seq::new(num_vectors as nat, |i: int| None::<u32>));
        KvmMessageInterruptDomain { vectors }
    }

    /// The GSI of a vector that was programmed.
    pub fn gsi_for_vector(&self, vector: u16) -> (r: Option<u32>)
        ensures
            r == if vector < self@.len() {
                self@[vector as int]
            } else {
                None
            },
    {
        if (vector as usize) < self.vectors.len() {
            self.vectors[vector as usize]
        } else {
            None
        }
    }

    /// Programs a vector: the first time a GSI is handed out for it, later its
    /// route is changed.
    pub fn update_message(
        &self,
        mgr: &mut IrqManager,
        vector: u16,
        msg: MessageInterrupt,
    ) -> (r: MessageAction)
        requires
            old(mgr)@.wf(),
            programs(self@, vector, msg) ==> match self@[vector as int] {
                Some(gsi) => route_place(old(mgr)@.routes, gsi, 0) is Some
                    ==> old(mgr)@.routes_data(msg.data),
                None => old(mgr)@.has_next() && old(mgr)@.routes_data(msg.data),
            },
        ensures
            final(mgr)@.wf(),
            if !programs(self@, vector, msg) {
                r == MessageAction::Nothing && final(mgr)@ == old(mgr)@
            } else {
                match self@[vector as int] {
                    Some(gsi) => match route_place(old(mgr)@.routes, gsi, 0) {
                        Some(i) => {
                            &&& r == MessageAction::Commit
                            &&& final(mgr)@ == (IrqView {
                                routes: old(mgr)@.routes.update(
                                    i,
                                    message_route(
                                        old(mgr)@.arch,
                                        gsi,
                                        address_lo(msg),
                                        address_hi(msg),
                                        msg.data,
                                    ),
                                ),
                                ..old(mgr)@
                            })
                        },
                        None => r == MessageAction::Nothing && final(mgr)@ == old(mgr)@,
                    },
                    None => {
                        &&& r == (MessageAction::Bind { gsi: old(mgr)@.next() })
                        &&& final(mgr)@ == old(mgr)@.routed(
                            message_route(
                                old(mgr)@.arch,
                                old(mgr)@.next(),
                                address_lo(msg),
                                address_hi(msg),
                                msg.data,
                            ),
                        )
                    },
                }
            },
    {
        if msg.masked {
            return MessageAction::Nothing;
        }
        let idx: usize = vector as usize;
        if idx >= self.vectors.len() {
            return MessageAction::Nothing;
        }
        let lo: u32 = msg.address as u32;
        let hi: u32 = (msg.address >> 32) as u32;
        match self.vectors[idx] {
            Some(gsi) => match mgr.update_route(gsi, lo, hi, msg.data) {
                Ok(()) => MessageAction::Commit,
                Err(_) => MessageAction::Nothing,
            },
            None => {
                let gsi: u32 = mgr.allocate_irqfd(lo, hi, msg.data);
                MessageAction::Bind { gsi }
            },
        }
    }

    /// Takes note of the GSI that a vector got.
    pub fn vector_bound(&mut self, vector: u16, gsi: u32)
        requires
            vector < old(self)@.len(),
        ensures
            final(self)@ == old(self)@.update(vector as int, Some(gsi)),
    {
        self.vectors.set(vector as usize, Some(gsi));
    }
}

/// The two halves of a message address make it up.
pub proof fn law_address_halves(msg: MessageInterrupt)
    ensures
        address_hi(msg) * 0x1_0000_0000 + address_lo(msg) == msg.address,
{
    let a = msg.address;
    assert(a as u32 == a % 0x1_0000_0000 && (a >> 32) as u32 == a / 0x1_0000_0000) by (bit_vector);
}

/// What an update of a vector does: a masked message, or a vector that the domain does
/// not have, does nothing. The first message of a vector gets a GSI of its own and a
/// route to the message behind the others; a later one changes the route of that GSI and
/// no other.
pub proof fn law_vector_leads_to_its_message(
    d: &KvmMessageInterruptDomain,
    m: &mut IrqManager,
    vector: u16,
    msg: MessageInterrupt,
    r: MessageAction,
)
    requires
        old(m)@.wf(),
        old(m)@.arch is X86_64,
        old(m)@.has_next(),
        call_ensures(KvmMessageInterruptDomain::update_message, (d, m, vector, msg), r),
    ensures
        msg.masked || vector >= d@.len() ==> r == MessageAction::Nothing && final(m)@ == old(m)@,
        !msg.masked && vector < d@.len() && d@[vector as int] is None ==> {
            let route = final(m)@.routes.last();
            &&& r == (MessageAction::Bind { gsi: route.gsi })
            &&& final(m)@.routes.len() == old(m)@.routes.len() + 1
            &&& final(m)@.routes.take(old(m)@.routes.len() as int) == old(m)@.routes
            &&& (route.target matches RouteTarget::Msi { address_lo, address_hi, data }
                && address_hi * 0x1_0000_0000 + address_lo == msg.address && data == msg.data)
        },
        r is Bind ==> !msg.masked && vector < d@.len() && d@[vector as int] is None,
        r is Commit ==> final(m)@.routes.len() == old(m)@.routes.len() && exists|k: int|
            0 <= k < final(m)@.routes.len() && Some((#[trigger] final(m)@.routes[k]).gsi)
                == d@[vector as int] && (final(
                m)@.routes[k].target matches RouteTarget::Msi { address_lo, address_hi, data }
                && address_hi * 0x1_0000_0000 + address_lo == msg.address && data == msg.data),
{
    law_address_halves(msg);
    assert(final(m)@.routes.len() == old(m)@.routes.len() + 1 ==> final(m)@.routes.take(
        old(m)@.routes.len() as int,
    ) =~= old(m)@.routes || r !is Bind);
    if !msg.masked && vector < d@.len() {
        if let Some(gsi) = d@[vector as int] {
            lemma_route_place(old(m)@.routes, gsi, 0);
            if let Some(k) = route_place(old(m)@.routes, gsi, 0) {
                assert(Some(final(m)@.routes[k].gsi) == d@[vector as int]);
            }
        }
    }
}

/// A vector keeps the GSI that it was bound to, and the others keep theirs; in a new
/// domain no vector has one.
pub proof fn law_bound_vector_keeps_its_gsi(
    d: &mut KvmMessageInterruptDomain,
    vector: u16,
    gsi: u32,
    other: int,
    count: u16,
    made: KvmMessageInterruptDomain,
)
    requires
        vector < old(d)@.len(),
        call_ensures(KvmMessageInterruptDomain::vector_bound, (d, vector, gsi), ()),
        call_ensures(KvmMessageInterruptDomain::new, (count,), made),
    ensures
        final(d)@.len() == old(d)@.len(),
        final(d)@[vector as int] == Some(gsi),
        0 <= other < old(d)@.len() && other != vector ==> final(d)@[other] == old(d)@[other],
        made@.len() == count,
        0 <= other < count ==> made@[other] is None,
{
}

} // verus!
