//! What a virtio transport and a virtio device share.
use vstd::prelude::*;

verus! {

/// Feature bit of a device that conforms to version 1.
pub const VIRTIO_F_VERSION_1: u64 = 0x1_0000_0000;

/// The MSI-X vector of a queue that has none.
pub const NO_VECTOR: u16 = 0xffff;

/// A configured virtqueue, as a device gets it.
#[derive(Debug, Clone, Copy, PartialEq, Eq, Structural)]
pub struct Queue {
    pub max_size: u16,
    pub size: u16,
    pub ready: bool,
    pub desc_table: u64,
    pub avail_ring: u64,
    pub used_ring: u64,
    pub msix_vector: u16,
}

impl Queue {
    /// A queue that is not set up, at its largest size.
    pub fn new(max_size: u16) -> (r: Queue)
        ensures
            r == Queue::idle(max_size),
    {
        Queue {
            max_size,
            size: max_size,
            ready: false,
            desc_table: 0,
            avail_ring: 0,
            used_ring: 0,
            msix_vector: NO_VECTOR,
        }
    }

    /// A queue that is not set up, at its largest size.
    pub open spec fn idle(max_size: u16) -> Queue {
        Queue {
            max_size,
            size: max_size,
            ready: false,
            desc_table: 0,
            avail_ring: 0,
            used_ring: 0,
            msix_vector: NO_VECTOR,
        }
    }
}

/// What a transport asks its owner to do. A transport only decides; waking and
/// running the device and driving its line is up to the owner.
#[derive(Debug, Clone, Copy, PartialEq, Eq, Structural)]
pub enum TransportAction {
    /// Start the device on the configured queues.
    Activate,
    /// Stop the device.
    Stop,
    /// Wake the worker of a queue.
    Kick(u64),
    /// Drive the wired interrupt to a level.
    SetLevel(bool),
}

/// How starting a device went.
#[derive(Debug, Clone, Copy, PartialEq, Eq, Structural)]
pub enum ActivationOutcome {
    /// No wake-up handles could be had: nothing was started.
    NoKicks,
    /// The device refused, with so many wake-up handles kept.
    Refused(usize),
    /// The device runs, with so many wake-up handles kept.
    Running(usize),
}

/// A device behind a transport.
///
/// An implementation says by its step functions what an access to its
/// configuration does; one that it leaves out allows anything. A transport
/// promises which access reaches the device.
pub trait VirtioDevice: Sized {
    /// What the device keeps between accesses.
    open spec fn wf(&self) -> bool {
        true
    }

    /// The virtio device id.
    open spec fn kind(&self) -> u32 {
        arbitrary()
    }

    /// The largest sizes of the queues.
    open spec fn queue_sizes(&self) -> Seq<u16> {
        arbitrary()
    }

    /// The features that the device offers.
    open spec fn offered(&self) -> u64 {
        arbitrary()
    }

    /// Whether reading the configuration may turn `data` into `out`.
    open spec fn config_read_step(&self, offset: u64, data: Seq<u8>, out: Seq<u8>) -> bool {
        true
    }

    /// Whether writing the configuration may turn `before` into `after`.
    open spec fn config_write_step(before: Self, offset: u64, data: Seq<u8>, after: Self) -> bool {
        true
    }

    fn device_type(&self) -> (r: u32)
        requires
            self.wf(),
        ensures
            r == self.kind(),
    ;

    fn num_queues(&self) -> (r: usize)
        requires
            self.wf(),
        ensures
            r == self.queue_sizes().len(),
    ;

    fn queue_max_sizes(&self) -> (r: &[u16])
        requires
            self.wf(),
        ensures
            r@ == self.queue_sizes(),
    ;

    fn features(&self) -> (r: u64)
        requires
            self.wf(),
        ensures
            r == self.offered(),
    ;

    fn read_config(&self, offset: u64, data: &mut [u8])
        requires
            self.wf(),
        ensures
            final(data)@.len() == old(data)@.len(),
            self.config_read_step(offset, old(data)@, final(data)@),
    ;

    fn write_config(&mut self, offset: u64, data: &[u8])
        requires
            old(self).wf(),
        ensures
            final(self).wf(),
            Self::config_write_step(*old(self), offset, data@, *final(self)),
    ;
}

} // verus!
