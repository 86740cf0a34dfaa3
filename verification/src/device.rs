//! What a device backend gets from its host.
use vstd::prelude::*;

use crate::virtio::Queue;

verus! {

/// Delivers the interrupts of a device.
///
/// An implementation says by `signal_step` how a delivery may turn it; one that
/// leaves it out allows anything.
pub trait InterruptInner: Sized {
    open spec fn signal_step(before: Self, vector: u16, after: Self) -> bool {
        true
    }

    /// Interrupts the guest on a vector.
    fn signal(&mut self, vector: u16)
        ensures
            Self::signal_step(*old(self), vector, *final(self)),
    ;
}

/// The interrupts of a device.
#[derive(Debug, Clone)]
pub struct Interrupt<I> {
    pub inner: I,
}

impl<I: InterruptInner> Interrupt<I> {
    pub fn from_inner(inner: I) -> (r: Interrupt<I>)
        ensures
            r.inner == inner,
    {
        Interrupt { inner }
    }

    /// Interrupts the guest on a vector.
    pub fn signal(&mut self, vector: u16)
        ensures
            I::signal_step(old(self).inner, vector, final(self).inner),
    {
        self.inner.signal(vector);
    }
}

/// A queue as a backend gets it: how the guest wakes the device, and how the
/// device interrupts the guest.
#[derive(Debug)]
pub struct BackendQueue<K, C> {
    pub queue: Queue,
    pub kick: K,
    pub call: Option<C>,
}

/// A backend that runs in a thread.
#[derive(Debug)]
pub struct ThreadHost<B> {
    pub backend: B,
}

impl<B> ThreadHost<B> {
    pub fn new(backend: B) -> (r: ThreadHost<B>)
        ensures
            r.backend == backend,
    {
        ThreadHost { backend }
    }
}

/// A backend that runs in a process of its own.
#[derive(Debug)]
pub struct ProcessHost<B> {
    pub backend: B,
}

impl<B> ProcessHost<B> {
    pub fn new(backend: B) -> (r: ProcessHost<B>)
        ensures
            r.backend == backend,
    {
        ProcessHost { backend }
    }
}

} // verus!
