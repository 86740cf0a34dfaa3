//! A virtio block device: what it tells the driver, and how it takes a request.
//!
//! Reading and writing the disk and guest memory is up to the owner: a request is
//! a state machine that says what to do next and is told how it went.
use vstd::prelude::*;

use crate::bytes::{byte_of, from_le_bytes, le_byte, le_u32};
use crate::virtio::{VirtioDevice, VIRTIO_F_VERSION_1};

verus! {

/// The virtio device id of a block device.
pub const VIRTIO_ID_BLOCK: u32 = 2;

pub const SECTOR_SIZE: u64 = 512;

/// The largest size of the request queue.
pub const QUEUE_MAX: u16 = 256;

/// Feature: the segment limit is given.
pub const VIRTIO_BLK_F_SEG_MAX: u64 = 0x4;

/// Feature: the disk is read-only.
pub const VIRTIO_BLK_F_RO: u64 = 0x20;

/// Feature: the block size is given.
pub const VIRTIO_BLK_F_BLK_SIZE: u64 = 0x40;

/// Feature: requests can be flushed.
pub const VIRTIO_BLK_F_FLUSH: u64 = 0x200;

/// Feature: the topology is given.
pub const VIRTIO_BLK_F_TOPOLOGY: u64 = 0x400;

pub const VIRTIO_BLK_T_IN: u32 = 0;

pub const VIRTIO_BLK_T_OUT: u32 = 1;

pub const VIRTIO_BLK_T_FLUSH: u32 = 4;

pub const VIRTIO_BLK_T_GET_ID: u32 = 8;

pub const VIRTIO_BLK_S_OK: u8 = 0;

pub const VIRTIO_BLK_S_IOERR: u8 = 1;

pub const VIRTIO_BLK_S_UNSUPP: u8 = 2;

/// The length of a request header.
pub const HEADER_LEN: u32 = 16;

/// The length of a disk id.
pub const ID_LEN: u32 = 20;

/// What a disk says of itself.
///
/// An implementation fixes what it says by the spec functions; what it leaves out
/// stays unknown.
pub trait BlockBacking: Sized {
    open spec fn byte_len(&self) -> u64 {
        arbitrary()
    }

    open spec fn id(&self) -> [u8; 20] {
        arbitrary()
    }

    open spec fn rejects_writes(&self) -> bool {
        arbitrary()
    }

    open spec fn logical(&self) -> u32 {
        arbitrary()
    }

    open spec fn physical(&self) -> u32 {
        arbitrary()
    }

    open spec fn segments(&self) -> Option<u32> {
        arbitrary()
    }

    /// The length of the disk in bytes.
    fn len_bytes(&self) -> (r: u64)
        ensures
            r == self.byte_len(),
    ;

    /// The serial of the disk.
    fn get_id(&self) -> (r: [u8; 20])
        ensures
            r == self.id(),
    ;

    /// Whether the disk can never be written.
    fn is_read_only(&self) -> (r: bool)
        ensures
            r == self.rejects_writes(),
    ;

    /// The smallest unit of an access.
    fn logical_block_size(&self) -> (r: u32)
        ensures
            r == self.logical(),
    ;

    /// The unit that the disk works in.
    fn physical_block_size(&self) -> (r: u32)
        ensures
            r == self.physical(),
    ;

    /// How many segments a request may have, if there is a limit.
    fn max_segments(&self) -> (r: Option<u32>)
        ensures
            r == self.segments(),
    ;
}

/// Why a block device cannot be started.
#[derive(Debug, Clone, Copy, PartialEq, Eq, Structural)]
pub enum ActivateError {
    /// It runs already.
    AlreadyActivated,
    /// It takes one queue with one wake-up handle.
    WrongQueues { queues: usize, queue_evts: usize },
}

/// What a block device tells the driver.
#[derive(Debug, Clone, Copy, PartialEq, Eq, Structural)]
pub struct BlkGeometry {
    /// In sectors.
    pub capacity: u64,
    pub read_only: bool,
    pub logical_block_size: u32,
    pub physical_block_size: u32,
    pub max_segments: Option<u32>,
}

impl BlkGeometry {
    /// The features that the device offers.
    pub open spec fn features(self) -> u64 {
        VIRTIO_F_VERSION_1 | VIRTIO_BLK_F_FLUSH | VIRTIO_BLK_F_BLK_SIZE | (if self.read_only {
            VIRTIO_BLK_F_RO
        } else {
            0
        }) | (if self.physical_block_size != self.logical_block_size {
            VIRTIO_BLK_F_TOPOLOGY
        } else {
            0
        }) | (if self.max_segments is Some {
            VIRTIO_BLK_F_SEG_MAX
        } else {
            0
        })
    }

    /// Byte `i` of the device configuration: the capacity, the segment limit, the
    /// block size and, where the block sizes differ, the topology.
    pub open spec fn config_byte(self, i: int) -> u8 {
        let ratio = self.physical_block_size / self.logical_block_size;
        let topology = self.physical_block_size != self.logical_block_size;
        if 0 <= i < 4 {
            le_byte((self.capacity % 0x1_0000_0000) as u32, i)
        } else if 4 <= i < 8 {
            le_byte((self.capacity / 0x1_0000_0000) as u32, i - 4)
        } else if 12 <= i < 16 && self.max_segments is Some {
            le_byte(self.max_segments->0, i - 12)
        } else if 20 <= i < 24 {
            le_byte(self.logical_block_size, i - 20)
        } else if i == 24 && topology {
            ratio.trailing_zeros() as u8
        } else if i == 26 && topology {
            1
        } else if 28 <= i < 32 && topology {
            le_byte(ratio, i - 28)
        } else {
            0
        }
    }

    /// Byte `i` of the device configuration.
    fn byte_at(&self, i: u64) -> (r: u8)
        requires
            self.logical_block_size > 0,
        ensures
            r == self.config_byte(i as int),
    {
        let topology: bool = self.physical_block_size != self.logical_block_size;
        if i < 4 {
            byte_of((self.capacity % 0x1_0000_0000) as u32, i as usize)
        } else if i < 8 {
            byte_of((self.capacity / 0x1_0000_0000) as u32, i as usize - 4)
        } else if i >= 12 && i < 16 {
            match self.max_segments {
                Some(n) => byte_of(n, i as usize - 12),
                None => 0,
            }
        } else if i >= 20 && i < 24 {
            byte_of(self.logical_block_size, i as usize - 20)
        } else if topology && i == 24 {
            (self.physical_block_size / self.logical_block_size).trailing_zeros() as u8
        } else if topology && i == 26 {
            1
        } else if topology && i >= 28 && i < 32 {
            byte_of(self.physical_block_size / self.logical_block_size, i as usize - 28)
        } else {
            0
        }
    }
}

/// A virtio block device.
#[derive(Debug)]
pub struct VirtioBlk<B> {
    backing: B,
    /// Whether there is a way to write the disk.
    writable: bool,
    geometry: BlkGeometry,
    activated: bool,
    queue_sizes: [u16; 1],
}

impl<B: BlockBacking> VirtioBlk<B> {
    pub closed spec fn disk(&self) -> B {
        self.backing
    }

    pub closed spec fn can_write(&self) -> bool {
        self.writable
    }

    pub closed spec fn geo(&self) -> BlkGeometry {
        self.geometry
    }

    pub closed spec fn running(&self) -> bool {
        self.activated
    }

    pub closed spec fn sizes(&self) -> Seq<u16> {
        self.queue_sizes@
    }

    /// A device for a disk; `writable` says whether there is a way to write it.
    pub fn new(backing: B, writable: bool, read_only: bool) -> (r: VirtioBlk<B>)
        requires
            backing.logical() > 0,
        ensures
            r.wf(),
            r.disk() == backing,
            r.can_write() == writable,
            r.geo() == (BlkGeometry {
                capacity: backing.byte_len() / SECTOR_SIZE,
                read_only,
                logical_block_size: backing.logical(),
                physical_block_size: backing.physical(),
                max_segments: backing.segments(),
            }),
            !r.running(),
    {
        let geometry = BlkGeometry {
            capacity: backing.len_bytes() / SECTOR_SIZE,
            read_only,
            logical_block_size: backing.logical_block_size(),
            physical_block_size: backing.physical_block_size(),
            max_segments: backing.max_segments(),
        };
        let queue_sizes: [u16; 1] = [QUEUE_MAX];
        assert(queue_sizes@ =~= seq![QUEUE_MAX]);
        VirtioBlk { backing, writable, geometry, activated: false, queue_sizes }
    }

    /// Reads the device configuration; what is behind it reads as zero.
    pub fn read_config_bytes(&self, offset: u64, data: &mut [u8])
        requires
            self.wf(),
        ensures
            final(data)@ == Seq::new(
                old(data)@.len(),
                |i: int| self.geo().config_byte(offset + i),
            ),
    {
        let n: usize = data.len();
        let mut i: usize = 0;
        while i < n
            invariant
                n == data@.len(),
                n == old(data)@.len(),
                i <= n,
                self.geometry.logical_block_size > 0,
                forall|k: int|
                    0 <= k < i ==> #[trigger] data@[k] == self.geometry.config_byte(offset + k),
            decreases n - i,
        {
            data[i] = if offset < 32 && i < 32 {
                self.geometry.byte_at(offset + i as u64)
            } else {
                0
            };
            i = i + 1;
        }
        assert(data@ =~= Seq::new(
            old(data)@.len(),
            |i: int| self.geo().config_byte(offset + i),
        ));
    }

    /// Whether the device can be started on so many queues and wake-up handles.
    pub fn check_activation(&self, queues: usize, queue_evts: usize) -> (r: Result<
        (),
        ActivateError,
    >)
        ensures
            r == if self.running() {
                Err(ActivateError::AlreadyActivated)
            } else if queues != 1 || queue_evts != 1 {
                Err(ActivateError::WrongQueues { queues, queue_evts })
            } else {
                Ok(())
            },
    {
        if self.activated {
            return Err(ActivateError::AlreadyActivated);
        }
        if queues != 1 || queue_evts != 1 {
            return Err(ActivateError::WrongQueues { queues, queue_evts });
        }
        Ok(())
    }

    /// Takes note that the device runs.
    pub fn activation_started(&mut self)
        requires
            old(self).wf(),
        ensures
            final(self).wf(),
            final(self).running(),
            final(self).disk() == old(self).disk(),
            final(self).can_write() == old(self).can_write(),
            final(self).geo() == old(self).geo(),
    {
        self.activated = true;
    }

    /// A request of the driver, for the descriptors of one chain.
    pub fn request(&self, readable: Vec<Desc>, writable: Vec<Desc>) -> (r: BlkRequest)
        requires
            readable@.len() > 0,
            writable@.len() > 0,
        ensures
            r@ == (RequestView {
                readable: readable@,
                writable: writable@,
                may_write: self.can_write() && !self.geo().read_only,
                phase: Phase::Header,
            }),
    {
        BlkRequest {
            readable,
            writable,
            may_write: self.writable && !self.geometry.read_only,
            phase: Phase::Header,
        }
    }

    /// Takes a descriptor chain of the driver. One that lacks a readable or a
    /// writable descriptor is malformed: it is handed back unserved, with nothing
    /// written to it.
    pub fn take_chain(&self, chain: &[ChainDesc]) -> (r: Option<BlkRequest>)
        ensures
            ({
                let readable = picked(chain@, chain@.len() as int, false);
                let writable = picked(chain@, chain@.len() as int, true);
                match r {
                    Some(request) => {
                        &&& readable.len() > 0
                        &&& writable.len() > 0
                        &&& request@ == (RequestView {
                            readable,
                            writable,
                            may_write: self.can_write() && !self.geo().read_only,
                            phase: Phase::Header,
                        })
                    },
                    None => readable.len() == 0 || writable.len() == 0,
                }
            }),
    {
        let (readable, writable) = split_chain(chain);
        if readable.len() == 0 || writable.len() == 0 {
            return None;
        }
        Some(self.request(readable, writable))
    }
}

impl<B: BlockBacking> VirtioDevice for VirtioBlk<B> {
    open spec fn wf(&self) -> bool {
        &&& self.geo().logical_block_size > 0
        &&& self.sizes() == seq![QUEUE_MAX]
    }

    open spec fn kind(&self) -> u32 {
        VIRTIO_ID_BLOCK
    }

    open spec fn queue_sizes(&self) -> Seq<u16> {
        seq![QUEUE_MAX]
    }

    open spec fn offered(&self) -> u64 {
        self.geo().features()
    }

    open spec fn config_read_step(&self, offset: u64, data: Seq<u8>, out: Seq<u8>) -> bool {
        out == Seq::new(data.len(), |i: int| self.geo().config_byte(offset + i))
    }

    /// The driver cannot write the configuration.
    open spec fn config_write_step(
        before: VirtioBlk<B>,
        offset: u64,
        data: Seq<u8>,
        after: VirtioBlk<B>,
    ) -> bool {
        after == before
    }

    fn device_type(&self) -> (r: u32) {
        VIRTIO_ID_BLOCK
    }

    fn num_queues(&self) -> (r: usize) {
        1
    }

    fn queue_max_sizes(&self) -> (r: &[u16]) {
        vstd::array::array_as_slice(&self.queue_sizes)
    }

    fn features(&self) -> (r: u64) {
        let ro: u64 = if self.geometry.read_only {
            VIRTIO_BLK_F_RO
        } else {
            0
        };
        let topology: u64 = if self.geometry.physical_block_size
            != self.geometry.logical_block_size {
            VIRTIO_BLK_F_TOPOLOGY
        } else {
            0
        };
        let seg_max: u64 = match self.geometry.max_segments {
            Some(_) => VIRTIO_BLK_F_SEG_MAX,
            None => 0,
        };
        VIRTIO_F_VERSION_1 | VIRTIO_BLK_F_FLUSH | VIRTIO_BLK_F_BLK_SIZE | ro | topology | seg_max
    }

    fn read_config(&self, offset: u64, data: &mut [u8]) {
        self.read_config_bytes(offset, data);
    }

    fn write_config(&mut self, offset: u64, data: &[u8]) {
    }
}

/// One descriptor of a chain: a range of guest memory.
#[derive(Debug, Clone, Copy, PartialEq, Eq, Structural)]
pub struct Desc {
    pub addr: u64,
    pub len: u32,
}

/// A descriptor as it stands in the chain, with its flags.
#[derive(Debug, Clone, Copy, PartialEq, Eq, Structural)]
pub struct ChainDesc {
    pub addr: u64,
    pub len: u32,
    /// Whether the device may write the range.
    pub write: bool,
}

/// The descriptors among the first `n` of a chain that the device writes, or
/// those that it reads.
pub open spec fn picked(chain: Seq<ChainDesc>, n: int, write: bool) -> Seq<Desc>
    decreases n,
{
    if n <= 0 || n > chain.len() {
        Seq::empty()
    } else if chain[n - 1].write == write {
        picked(chain, n - 1, write).push(
            Desc { addr: chain[n - 1].addr, len: chain[n - 1].len },
        )
    } else {
        picked(chain, n - 1, write)
    }
}

/// Splits a chain into what the device reads and what it writes.
pub fn split_chain(chain: &[ChainDesc]) -> (r: (Vec<Desc>, Vec<Desc>))
    ensures
        r.0@ == picked(chain@, chain@.len() as int, false),
        r.1@ == picked(chain@, chain@.len() as int, true),
{
    let mut readable: Vec<Desc> = Vec::new();
    let mut writable: Vec<Desc> = Vec::new();
    let mut i: usize = 0;
    while i < chain.len()
        invariant
            i <= chain@.len(),
            readable@ == picked(chain@, i as int, false),
            writable@ == picked(chain@, i as int, true),
        decreases chain@.len() - i,
    {
        let d = Desc { addr: chain[i].addr, len: chain[i].len };
        if chain[i].write {
            writable.push(d);
        } else {
            readable.push(d);
        }
        i = i + 1;
    }
    (readable, writable)
}

/// How far a request has come.
#[derive(Debug, Clone, Copy, PartialEq, Eq, Structural)]
pub enum Phase {
    /// The header is due.
    Header,
    /// The disk is read, at `offset`, into writable descriptor `next`; so many
    /// bytes have been read before.
    Reading { next: usize, offset: u64, total: u32 },
    /// The disk is written, at `offset`, from readable descriptor `next`.
    Writing { next: usize, offset: u64 },
    Flushing,
    /// The id is stored.
    Identifying,
    Finished,
}

/// What the owner has to do next for a request.
#[derive(Debug, Clone, Copy, PartialEq, Eq, Structural)]
pub enum BlkAction {
    /// Read the header from guest memory.
    ReadHeader { addr: u64 },
    /// Read up to `len` bytes of the disk and store what came in guest memory.
    Fetch { offset: u64, addr: u64, len: u32 },
    /// Load `len` bytes of guest memory and write them to the disk.
    Store { offset: u64, addr: u64, len: u32 },
    /// Flush the disk.
    Flush,
    /// Store the disk's id in guest memory.
    StoreId { addr: u64 },
    /// The request is done, with this status and so many bytes of data.
    Finish { status: u8, used: u32 },
}

/// How it went.
#[derive(Debug, Clone, Copy)]
pub enum BlkEvent {
    /// The header was read.
    Header([u8; 16]),
    /// So many bytes were moved.
    Moved(u64),
    /// It is done.
    Done,
    /// It failed.
    Failed,
}

/// A request of the driver.
#[derive(Debug)]
pub struct BlkRequest {
    readable: Vec<Desc>,
    writable: Vec<Desc>,
    may_write: bool,
    phase: Phase,
}

/// A [`BlkRequest`] with its descriptors as sequences.
pub struct RequestView {
    pub readable: Seq<Desc>,
    pub writable: Seq<Desc>,
    pub may_write: bool,
    pub phase: Phase,
}

impl View for BlkRequest {
    type V = RequestView;

    closed spec fn view(&self) -> RequestView {
        RequestView {
            readable: self.readable@,
            writable: self.writable@,
            may_write: self.may_write,
            phase: self.phase,
        }
    }
}

/// The type of a request.
pub open spec fn header_type(header: Seq<u8>) -> u32 {
    le_u32(header.subrange(0, 4))
}

/// The first sector of a request.
pub open spec fn header_sector(header: Seq<u8>) -> u64 {
    (le_u32(header.subrange(12, 16)) * 0x1_0000_0000 + le_u32(header.subrange(8, 12))) as u64
}

/// A request that is done with an error.
pub open spec fn failed() -> BlkAction {
    BlkAction::Finish { status: VIRTIO_BLK_S_IOERR, used: 0 }
}

impl RequestView {
    pub open spec fn wf(self) -> bool {
        &&& self.readable.len() > 0
        &&& self.writable.len() > 0
        &&& self.phase matches Phase::Reading { next, .. } ==> next < self.writable.len()
        &&& self.phase matches Phase::Writing { next, .. } ==> next < self.readable.len()
    }

    /// The request with another phase.
    pub open spec fn at(self, phase: Phase) -> RequestView {
        RequestView { phase, ..self }
    }

    /// Reading the disk into writable descriptor `next`. The last one is for the
    /// status.
    pub open spec fn read_from(self, next: int, offset: u64, total: u32) -> (
        RequestView,
        BlkAction,
    ) {
        if next < self.writable.len() - 1 {
            (
                self.at(Phase::Reading { next: next as usize, offset, total }),
                BlkAction::Fetch {
                    offset,
                    addr: self.writable[next].addr,
                    len: self.writable[next].len,
                },
            )
        } else {
            (
                self.at(Phase::Finished),
                BlkAction::Finish { status: VIRTIO_BLK_S_OK, used: total },
            )
        }
    }

    /// Writing the disk from readable descriptor `next`. The first one is the
    /// header.
    pub open spec fn write_from(self, next: int, offset: u64) -> (RequestView, BlkAction) {
        if next < self.readable.len() {
            (
                self.at(Phase::Writing { next: next as usize, offset }),
                BlkAction::Store {
                    offset,
                    addr: self.readable[next].addr,
                    len: self.readable[next].len,
                },
            )
        } else {
            (self.at(Phase::Finished), BlkAction::Finish { status: VIRTIO_BLK_S_OK, used: 0 })
        }
    }

    /// What a request does, by its header.
    pub open spec fn begun(self, header: Seq<u8>) -> (RequestView, BlkAction) {
        let offset = (header_sector(header) * SECTOR_SIZE) as u64;
        let kind = header_type(header);
        if kind == VIRTIO_BLK_T_IN {
            self.read_from(0, offset, 0)
        } else if kind == VIRTIO_BLK_T_OUT {
            if self.may_write {
                self.write_from(1, offset)
            } else {
                (self.at(Phase::Finished), failed())
            }
        } else if kind == VIRTIO_BLK_T_FLUSH {
            (self.at(Phase::Flushing), BlkAction::Flush)
        } else if kind == VIRTIO_BLK_T_GET_ID {
            if self.writable.len() < 2 || self.writable[0].len < ID_LEN {
                (self.at(Phase::Finished), failed())
            } else {
                (
                    self.at(Phase::Identifying),
                    BlkAction::StoreId { addr: self.writable[0].addr },
                )
            }
        } else {
            (
                self.at(Phase::Finished),
                BlkAction::Finish { status: VIRTIO_BLK_S_UNSUPP, used: 0 },
            )
        }
    }

    /// Whether the request can take an event: the numbers that follow fit.
    pub open spec fn takes(self, event: BlkEvent) -> bool {
        match (self.phase, event) {
            (Phase::Header, BlkEvent::Header(h)) => {
                let kind = header_type(h@);
                let moves = kind == VIRTIO_BLK_T_IN || (kind == VIRTIO_BLK_T_OUT
                    && self.may_write);
                moves ==> header_sector(h@) * SECTOR_SIZE <= u64::MAX
            },
            (Phase::Reading { offset, total, .. }, BlkEvent::Moved(n)) => offset + n <= u64::MAX
                && total + n <= u32::MAX,
            (Phase::Writing { offset, .. }, BlkEvent::Moved(n)) => offset + n <= u64::MAX,
            _ => true,
        }
    }

    /// What follows an event. One that does not belong to the phase ends the
    /// request with an error.
    pub open spec fn after(self, event: BlkEvent) -> (RequestView, BlkAction) {
        match (self.phase, event) {
            (Phase::Header, BlkEvent::Header(h)) => self.begun(h@),
            (Phase::Reading { next, offset, total }, BlkEvent::Moved(n)) => self.read_from(
                next + 1,
                (offset + n) as u64,
                (total + n) as u32,
            ),
            (Phase::Writing { next, offset }, BlkEvent::Moved(n)) => self.write_from(
                next + 1,
                (offset + n) as u64,
            ),
            (Phase::Flushing, BlkEvent::Done) => (
                self.at(Phase::Finished),
                BlkAction::Finish { status: VIRTIO_BLK_S_OK, used: 0 },
            ),
            (Phase::Identifying, BlkEvent::Done) => (
                self.at(Phase::Finished),
                BlkAction::Finish { status: VIRTIO_BLK_S_OK, used: ID_LEN },
            ),
            _ => (self.at(Phase::Finished), failed()),
        }
    }
}

impl BlkRequest {
    /// The first thing to do: read the header, if the first descriptor can hold
    /// one.
    pub fn start(&mut self) -> (r: BlkAction)
        requires
            old(self)@.wf(),
        ensures
            final(self)@.wf(),
            if old(self)@.readable[0].len < HEADER_LEN {
                final(self)@ == old(self)@.at(Phase::Finished) && r == failed()
            } else {
                &&& final(self)@ == old(self)@.at(Phase::Header)
                &&& r == BlkAction::ReadHeader { addr: old(self)@.readable[0].addr }
            },
    {
        if self.readable[0].len < HEADER_LEN {
            self.phase = Phase::Finished;
            return BlkAction::Finish { status: VIRTIO_BLK_S_IOERR, used: 0 };
        }
        self.phase = Phase::Header;
        BlkAction::ReadHeader { addr: self.readable[0].addr }
    }

    /// Whether the request can take an event.
    pub fn can_take(&self, event: BlkEvent) -> (r: bool)
        requires
            self@.wf(),
        ensures
            r == self@.takes(event),
    {
        match (self.phase, event) {
            (Phase::Header, BlkEvent::Header(h)) => {
                let kind: u32 = type_of(&h);
                if kind == VIRTIO_BLK_T_IN || (kind == VIRTIO_BLK_T_OUT && self.may_write) {
                    sector_of(&h) <= u64::MAX / SECTOR_SIZE
                } else {
                    true
                }
            },
            (Phase::Reading { offset, total, .. }, BlkEvent::Moved(n)) => offset <= u64::MAX - n
                && n <= u32::MAX as u64 && total <= u32::MAX - n as u32,
            (Phase::Writing { offset, .. }, BlkEvent::Moved(n)) => offset <= u64::MAX - n,
            _ => true,
        }
    }

    /// Takes the outcome of the last action and says what to do next.
    pub fn step(&mut self, event: BlkEvent) -> (r: BlkAction)
        requires
            old(self)@.wf(),
            old(self)@.takes(event),
        ensures
            final(self)@.wf(),
            (final(self)@, r) == old(self)@.after(event),
    {
        assert(self.writable.len() <= usize::MAX && self.readable.len() <= usize::MAX);
        match (self.phase, event) {
            (Phase::Header, BlkEvent::Header(h)) => self.begin(&h),
            (Phase::Reading { next, offset, total }, BlkEvent::Moved(n)) => self.continue_read(
                next + 1,
                offset + n,
                total + n as u32,
            ),
            (Phase::Writing { next, offset }, BlkEvent::Moved(n)) => self.continue_write(
                next + 1,
                offset + n,
            ),
            (Phase::Flushing, BlkEvent::Done) => self.finish(VIRTIO_BLK_S_OK, 0),
            (Phase::Identifying, BlkEvent::Done) => self.finish(VIRTIO_BLK_S_OK, ID_LEN),
            _ => self.finish(VIRTIO_BLK_S_IOERR, 0),
        }
    }

    fn begin(&mut self, header: &[u8; 16]) -> (r: BlkAction)
        requires
            old(self)@.wf(),
            old(self)@.phase is Header,
            old(self)@.takes(BlkEvent::Header(*header)),
        ensures
            final(self)@.wf(),
            (final(self)@, r) == old(self)@.begun(header@),
    {
        let kind: u32 = type_of(header);
        let sector: u64 = sector_of(header);
        if kind == VIRTIO_BLK_T_IN {
            self.continue_read(0, sector * SECTOR_SIZE, 0)
        } else if kind == VIRTIO_BLK_T_OUT {
            if !self.may_write {
                return self.finish(VIRTIO_BLK_S_IOERR, 0);
            }
            self.continue_write(1, sector * SECTOR_SIZE)
        } else if kind == VIRTIO_BLK_T_FLUSH {
            self.phase = Phase::Flushing;
            BlkAction::Flush
        } else if kind == VIRTIO_BLK_T_GET_ID {
            if self.writable.len() < 2 || self.writable[0].len < ID_LEN {
                return self.finish(VIRTIO_BLK_S_IOERR, 0);
            }
            self.phase = Phase::Identifying;
            BlkAction::StoreId { addr: self.writable[0].addr }
        } else {
            self.finish(VIRTIO_BLK_S_UNSUPP, 0)
        }
    }

    fn continue_read(&mut self, next: usize, offset: u64, total: u32) -> (r: BlkAction)
        requires
            old(self)@.writable.len() > 0,
            old(self)@.readable.len() > 0,
        ensures
            final(self)@.wf(),
            (final(self)@, r) == old(self)@.read_from(next as int, offset, total),
    {
        if next < self.writable.len() - 1 {
            self.phase = Phase::Reading { next, offset, total };
            BlkAction::Fetch {
                offset,
                addr: self.writable[next].addr,
                len: self.writable[next].len,
            }
        } else {
            self.finish(VIRTIO_BLK_S_OK, total)
        }
    }

    fn continue_write(&mut self, next: usize, offset: u64) -> (r: BlkAction)
        requires
            old(self)@.writable.len() > 0,
            old(self)@.readable.len() > 0,
        ensures
            final(self)@.wf(),
            (final(self)@, r) == old(self)@.write_from(next as int, offset),
    {
        if next < self.readable.len() {
            self.phase = Phase::Writing { next, offset };
            BlkAction::Store {
                offset,
                addr: self.readable[next].addr,
                len: self.readable[next].len,
            }
        } else {
            self.finish(VIRTIO_BLK_S_OK, 0)
        }
    }

    fn finish(&mut self, status: u8, used: u32) -> (r: BlkAction)
        requires
            old(self)@.writable.len() > 0,
            old(self)@.readable.len() > 0,
        ensures
            final(self)@.wf(),
            final(self)@ == old(self)@.at(Phase::Finished),
            r == (BlkAction::Finish { status, used }),
    {
        self.phase = Phase::Finished;
        BlkAction::Finish { status, used }
    }

    /// What the driver is told of a request that is done: where its status byte
    /// goes, if the last descriptor has room for it, and the length of the data
    /// with the status.
    pub fn completion(&self, used: u32) -> (r: (Option<u64>, u32))
        requires
            self@.wf(),
            used < u32::MAX,
        ensures
            r.0 == if self@.writable.last().len >= 1 {
                Some(self@.writable.last().addr)
            } else {
                None
            },
            r.1 == used + 1,
    {
        let last = self.writable[self.writable.len() - 1];
        let status_addr = if last.len >= 1 {
            Some(last.addr)
        } else {
            None
        };
        (status_addr, used + 1)
    }
}

fn type_of(header: &[u8; 16]) -> (r: u32)
    ensures
        r == header_type(header@),
{
    assert(header@.subrange(0, 4) =~= seq![header@[0], header@[1], header@[2], header@[3]]);
    from_le_bytes(header[0], header[1], header[2], header[3])
}

fn sector_of(header: &[u8; 16]) -> (r: u64)
    ensures
        r == header_sector(header@),
{
    assert(header@.subrange(8, 12) =~= seq![header@[8], header@[9], header@[10], header@[11]]);
    assert(header@.subrange(12, 16) =~= seq![header@[12], header@[13], header@[14], header@[15]]);
    let lo: u32 = from_le_bytes(header[8], header[9], header[10], header[11]);
    let hi: u32 = from_le_bytes(header[12], header[13], header[14], header[15]);
    (hi as u64) * 0x1_0000_0000 + lo as u64
}

/// A disk that is read-only, or that there is no way to write, is never written,
/// whatever the driver asks for.
pub proof fn law_read_only_disk_is_never_written(q: RequestView, event: BlkEvent)
    requires
        !q.may_write,
        !(q.phase is Writing),
    ensures
        !(q.after(event).1 is Store),
        !(q.after(event).0.phase is Writing),
        !q.after(event).0.may_write,
{
}

/// The last writable descriptor, which takes the status, never takes data.
pub proof fn law_status_descriptor_takes_no_data(q: RequestView, event: BlkEvent)
    requires
        q.wf(),
        q.takes(event),
        q.writable.len() <= usize::MAX,
        q.readable.len() <= usize::MAX,
    ensures
        q.after(event).0.phase matches Phase::Reading { next, .. } ==> next < q.writable.len() - 1,
{
}

/// A driver that asks for data by an `IN` request is told the number of bytes
/// that were moved in all.
pub proof fn law_read_counts_the_bytes(q: RequestView, n: u64, next: usize, offset: u64, total: u32)
    requires
        q.wf(),
        q.phase == (Phase::Reading { next, offset, total }),
        q.takes(BlkEvent::Moved(n)),
    ensures
        match q.after(BlkEvent::Moved(n)).1 {
            BlkAction::Fetch { offset: at, .. } => at == offset + n,
            BlkAction::Finish { status, used } => status == VIRTIO_BLK_S_OK && used == total + n,
            _ => false,
        },
        q.after(BlkEvent::Moved(n)).0.phase matches Phase::Reading { total: t, .. } ==> t == total
            + n,
{
}

/// The sum of some numbers.
pub open spec fn sum(moved: Seq<u64>) -> int
    decreases moved.len(),
{
    if moved.len() == 0 {
        0
    } else {
        sum(moved.drop_last()) + moved.last()
    }
}

/// What a request asks for once its header was taken and so many bytes were moved, one
/// number for each action.
pub open spec fn served(q: RequestView, header: [u8; 16], moved: Seq<u64>) -> (
    RequestView,
    BlkAction,
)
    decreases moved.len(),
{
    if moved.len() == 0 {
        q.at(Phase::Header).after(BlkEvent::Header(header))
    } else {
        served(q, header, moved.drop_last()).0.after(BlkEvent::Moved(moved.last()))
    }
}

/// The sector that a header names: its last eight bytes, lowest first.
pub open spec fn named_sector(header: Seq<u8>) -> int {
    header[8] + header[9] * 0x100 + header[10] * 0x1_0000 + header[11] * 0x100_0000 + (header[12]
        + header[13] * 0x100 + header[14] * 0x1_0000 + header[15] * 0x100_0000) * 0x1_0000_0000
}

proof fn lemma_header(header: Seq<u8>)
    requires
        header.len() == 16,
    ensures
        header_type(header) == header[0] + header[1] * 0x100 + header[2] * 0x1_0000 + header[3]
            * 0x100_0000,
        header_sector(header) == named_sector(header),
{
}

proof fn lemma_sum(moved: Seq<u64>)
    ensures
        sum(moved) >= 0,
        moved.len() > 0 ==> sum(moved.drop_last()) <= sum(moved),
    decreases moved.len(),
{
    if moved.len() > 0 {
        lemma_sum(moved.drop_last());
    }
}

/// In an `OUT` request the data descriptors go to the disk one after the other: the
/// header is followed by a store for each, at the named sector and as many bytes on as
/// the stores before it moved, and behind the last one the request is done.
pub proof fn law_write_goes_on_where_it_stopped(q: RequestView, header: [u8; 16], moved: Seq<u64>)
    requires
        q.wf(),
        q.may_write,
        header@[0] == 1 && header@[1] == 0 && header@[2] == 0 && header@[3] == 0,
        named_sector(header@) * 512 + sum(moved) <= u64::MAX,
        moved.len() < q.readable.len() <= usize::MAX,
    ensures
        ({
            let next = moved.len() as int + 1;
            served(q, header, moved).1 == if next < q.readable.len() {
                BlkAction::Store {
                    offset: (named_sector(header@) * 512 + sum(moved)) as u64,
                    addr: q.readable[next].addr,
                    len: q.readable[next].len,
                }
            } else {
                BlkAction::Finish { status: 0, used: 0 }
            }
        }),
{
    lemma_write_run(q, header, moved);
}

proof fn lemma_write_run(q: RequestView, header: [u8; 16], moved: Seq<u64>)
    requires
        q.wf(),
        q.may_write,
        header@[0] == 1 && header@[1] == 0 && header@[2] == 0 && header@[3] == 0,
        named_sector(header@) * 512 + sum(moved) <= u64::MAX,
        moved.len() < q.readable.len() <= usize::MAX,
    ensures
        served(q, header, moved) == q.write_from(
            moved.len() as int + 1,
            (named_sector(header@) * 512 + sum(moved)) as u64,
        ),
    decreases moved.len(),
{
    lemma_header(header@);
    lemma_sum(moved);
    if moved.len() > 0 {
        let before = moved.drop_last();
        lemma_sum(before);
        lemma_write_run(q, header, before);
        let offset = (named_sector(header@) * 512 + sum(before)) as u64;
        let s = served(q, header, before).0;
        assert(s == q.at(Phase::Writing { next: moved.len() as usize, offset }));
        let at = (offset + moved.last()) as u64;
        assert(s.after(BlkEvent::Moved(moved.last())) == s.write_from(moved.len() as int + 1, at));
        assert(s.write_from(moved.len() as int + 1, at) == q.write_from(moved.len() as int + 1, at));
        assert(served(q, header, moved) == s.after(BlkEvent::Moved(moved.last())));
        assert(at == (named_sector(header@) * 512 + sum(moved)) as u64);
    } else {
        let s = q.at(Phase::Header);
        let at = (named_sector(header@) * 512) as u64;
        assert(header_type(header@) == 1);
        assert(s.after(BlkEvent::Header(header)) == s.write_from(1, at));
        assert(s.write_from(1, at) == q.write_from(1, at));
        assert(served(q, header, moved) == s.after(BlkEvent::Header(header)));
        assert(sum(moved) == 0);
    }
}

/// In an `IN` request the disk is read into the data descriptors one after the other:
/// at the named sector and as many bytes on as were read before, and behind the last
/// one, which is for the status, the driver is told of the sum.
pub proof fn law_read_goes_on_where_it_stopped(q: RequestView, header: [u8; 16], moved: Seq<u64>)
    requires
        q.wf(),
        header@[0] == 0 && header@[1] == 0 && header@[2] == 0 && header@[3] == 0,
        named_sector(header@) * 512 + sum(moved) <= u64::MAX,
        sum(moved) <= u32::MAX,
        moved.len() < q.writable.len() <= usize::MAX,
    ensures
        ({
            let next = moved.len() as int;
            served(q, header, moved).1 == if next < q.writable.len() - 1 {
                BlkAction::Fetch {
                    offset: (named_sector(header@) * 512 + sum(moved)) as u64,
                    addr: q.writable[next].addr,
                    len: q.writable[next].len,
                }
            } else {
                BlkAction::Finish { status: 0, used: sum(moved) as u32 }
            }
        }),
{
    lemma_read_run(q, header, moved);
}

proof fn lemma_read_run(q: RequestView, header: [u8; 16], moved: Seq<u64>)
    requires
        q.wf(),
        header@[0] == 0 && header@[1] == 0 && header@[2] == 0 && header@[3] == 0,
        named_sector(header@) * 512 + sum(moved) <= u64::MAX,
        sum(moved) <= u32::MAX,
        moved.len() < q.writable.len() <= usize::MAX,
    ensures
        served(q, header, moved) == q.read_from(
            moved.len() as int,
            (named_sector(header@) * 512 + sum(moved)) as u64,
            sum(moved) as u32,
        ),
    decreases moved.len(),
{
    lemma_header(header@);
    lemma_sum(moved);
    if moved.len() > 0 {
        let before = moved.drop_last();
        lemma_sum(before);
        lemma_read_run(q, header, before);
        let offset = (named_sector(header@) * 512 + sum(before)) as u64;
        let s = served(q, header, before).0;
        let total = sum(before) as u32;
        assert(s == q.at(Phase::Reading { next: before.len() as usize, offset, total }));
        let (at, now) = ((offset + moved.last()) as u64, (total + moved.last()) as u32);
        let next = moved.len() as int;
        assert(s.after(BlkEvent::Moved(moved.last())) == s.read_from(next, at, now));
        assert(s.read_from(next, at, now) == q.read_from(next, at, now));
        assert(served(q, header, moved) == s.after(BlkEvent::Moved(moved.last())));
        assert(at == (named_sector(header@) * 512 + sum(moved)) as u64);
    } else {
        let s = q.at(Phase::Header);
        let at = (named_sector(header@) * 512) as u64;
        assert(header_type(header@) == 0);
        assert(s.after(BlkEvent::Header(header)) == s.read_from(0, at, 0));
        assert(s.read_from(0, at, 0) == q.read_from(0, at, 0));
        assert(served(q, header, moved) == s.after(BlkEvent::Header(header)));
        assert(sum(moved) == 0);
    }
}

/// What the other requests do: a flush flushes, an identification needs a descriptor for
/// the twenty bytes of the id beside the one for the status, a write to a disk that
/// takes none fails, and a request of another type is not supported.
pub proof fn law_other_requests(q: RequestView, header: [u8; 16])
    requires
        q.wf(),
    ensures
        ({
            let kind = header@[0] + header@[1] * 0x100 + header@[2] * 0x1_0000 + header@[3]
                * 0x100_0000;
            let (next, action) = served(q, header, Seq::empty());
            &&& kind == 4 ==> action is Flush && next.after(BlkEvent::Done).1
                == (BlkAction::Finish { status: 0, used: 0 })
            &&& kind == 8 ==> if q.writable.len() >= 2 && q.writable[0].len >= 20 {
                &&& action == (BlkAction::StoreId { addr: q.writable[0].addr })
                &&& next.after(BlkEvent::Done).1 == (BlkAction::Finish { status: 0, used: 20 })
            } else {
                action == (BlkAction::Finish { status: 1, used: 0 })
            }
            &&& kind == 1 && !q.may_write ==> action == (BlkAction::Finish { status: 1, used: 0 })
            &&& kind != 0 && kind != 1 && kind != 4 && kind != 8 ==> action == (
            BlkAction::Finish { status: 2, used: 0 })
        }),
{
    lemma_header(header@);
}

/// A failure ends a request with an error, whatever it was at, and a request that is
/// done stays so.
pub proof fn law_failure_ends_the_request(q: RequestView, event: BlkEvent)
    ensures
        q.after(BlkEvent::Failed).1 == (BlkAction::Finish { status: 1, used: 0 }),
        q.after(BlkEvent::Failed).0.phase is Finished,
        q.phase is Finished ==> q.after(event).0.phase is Finished && q.after(event).1 == (
        BlkAction::Finish { status: 1, used: 0 }),
        q.after(event).0.phase is Finished <==> q.after(event).1 is Finish,
        q.after(event).0.readable == q.readable && q.after(event).0.writable == q.writable,
{
}

/// A chain is split by the direction of its descriptors, which keep their order.
pub proof fn law_chain_is_split_by_direction(chain: Seq<ChainDesc>, write: bool)
    ensures
        picked(chain, chain.len() as int, write) == chain.filter(
            |d: ChainDesc| d.write == write,
        ).map_values(|d: ChainDesc| Desc { addr: d.addr, len: d.len }),
        picked(chain, chain.len() as int, true).len() + picked(
            chain,
            chain.len() as int,
            false,
        ).len() == chain.len(),
{
    lemma_picked(chain, chain.len() as int, write);
    lemma_picked(chain, chain.len() as int, true);
    assert(chain.take(chain.len() as int) =~= chain);
}

proof fn lemma_picked(chain: Seq<ChainDesc>, n: int, write: bool)
    requires
        0 <= n <= chain.len(),
    ensures
        picked(chain, n, write) == chain.take(n).filter(
            |d: ChainDesc| d.write == write,
        ).map_values(|d: ChainDesc| Desc { addr: d.addr, len: d.len }),
        picked(chain, n, true).len() + picked(chain, n, false).len() == n,
    decreases n,
{
    reveal(Seq::filter);
    if n > 0 {
        lemma_picked(chain, n - 1, write);
        assert(chain.take(n).drop_last() =~= chain.take(n - 1));
    } else {
        assert(chain.take(0) =~= Seq::empty());
    }
    assert(picked(chain, n, write) =~= chain.take(n).filter(
        |d: ChainDesc| d.write == write,
    ).map_values(|d: ChainDesc| Desc { addr: d.addr, len: d.len }));
}

/// The four bytes of the configuration from `at` on, as a number.
pub open spec fn config_number(g: BlkGeometry, at: int) -> u32 {
    le_u32(Seq::new(4, |i: int| g.config_byte(at + i)))
}

/// The configuration spells the capacity in sectors, the segment limit, the block size
/// and, where the block sizes differ, how many logical blocks make up a physical one.
pub proof fn law_configuration_layout(g: BlkGeometry)
    requires
        g.logical_block_size > 0,
    ensures
        config_number(g, 0) + config_number(g, 4) * 0x1_0000_0000 == g.capacity,
        config_number(g, 8) == 0,
        config_number(g, 12) == match g.max_segments {
            Some(n) => n,
            None => 0,
        },
        config_number(g, 16) == 0,
        config_number(g, 20) == g.logical_block_size,
        g.physical_block_size == g.logical_block_size ==> config_number(g, 24) == 0
            && config_number(g, 28) == 0,
        g.physical_block_size != g.logical_block_size ==> {
            &&& config_number(g, 28) == g.physical_block_size / g.logical_block_size
            &&& g.config_byte(24) == (g.physical_block_size
                / g.logical_block_size).trailing_zeros()
            &&& g.config_byte(25) == 0 && g.config_byte(26) == 1 && g.config_byte(27) == 0
        },
        forall|i: int| i >= 32 ==> #[trigger] g.config_byte(i) == 0,
{
    let lo = (g.capacity % 0x1_0000_0000) as u32;
    let hi = (g.capacity / 0x1_0000_0000) as u32;
    lemma_config_number(g, 0, lo);
    lemma_config_number(g, 4, hi);
    lemma_config_number(g, 8, 0);
    lemma_config_number(g, 16, 0);
    lemma_config_number(g, 20, g.logical_block_size);
    match g.max_segments {
        Some(n) => {
            lemma_config_number(g, 12, n);
        },
        None => {
            lemma_config_number(g, 12, 0);
        },
    }
    if g.physical_block_size != g.logical_block_size {
        lemma_config_number(g, 28, g.physical_block_size / g.logical_block_size);
    } else {
        lemma_config_number(g, 24, 0);
        lemma_config_number(g, 28, 0);
    }
}

proof fn lemma_config_number(g: BlkGeometry, at: int, value: u32)
    requires
        forall|i: int| 0 <= i < 4 ==> #[trigger] g.config_byte(at + i) == le_byte(value, i),
    ensures
        config_number(g, at) == value,
{
    crate::bytes::law_le_round_trip(value);
    assert(g.config_byte(at + 0) == le_byte(value, 0));
    assert(g.config_byte(at + 1) == le_byte(value, 1));
    assert(g.config_byte(at + 2) == le_byte(value, 2));
    assert(g.config_byte(at + 3) == le_byte(value, 3));
    assert(Seq::new(4, |i: int| g.config_byte(at + i)) =~= crate::bytes::le_bytes(value));
}

/// The offered features: version 1, flushing and the block size always, and read-only,
/// the topology and the segment limit where they hold.
pub proof fn law_offered_features(g: BlkGeometry)
    ensures
        g.features() & 0x1_0000_0000 != 0,
        g.features() & 0x200 != 0,
        g.features() & 0x40 != 0,
        g.features() & 0x20 != 0 <==> g.read_only,
        g.features() & 0x400 != 0 <==> g.physical_block_size != g.logical_block_size,
        g.features() & 0x4 != 0 <==> g.max_segments is Some,
        g.features() & !0x1_0000_0664u64 == 0,
{
    let ro = if g.read_only {
        VIRTIO_BLK_F_RO
    } else {
        0
    };
    let topology = if g.physical_block_size != g.logical_block_size {
        VIRTIO_BLK_F_TOPOLOGY
    } else {
        0
    };
    let segments = if g.max_segments is Some {
        VIRTIO_BLK_F_SEG_MAX
    } else {
        0
    };
    let f = 0x1_0000_0000u64 | 0x200 | 0x40 | ro | topology | segments;
    assert(f == g.features());
    assert(f & 0x1_0000_0000 != 0 && f & 0x200 != 0 && f & 0x40 != 0 && (f & 0x20 != 0) == (ro
        != 0) && (f & 0x400 != 0) == (topology != 0) && (f & 0x4 != 0) == (segments != 0) && f
        & !0x1_0000_0664u64 == 0) by (bit_vector)
        requires
            f == 0x1_0000_0000u64 | 0x200 | 0x40 | ro | topology | segments,
            ro == 0 || ro == 0x20,
            topology == 0 || topology == 0x400,
            segments == 0 || segments == 4,
    ;
}

/// A disk shows as many whole sectors of 512 bytes as it holds, and takes writes only
/// where it is writable and not read-only. A new one is started on one queue alone.
pub proof fn law_disk_as_it_is_shown<B: BlockBacking>(
    backing: B,
    writable: bool,
    read_only: bool,
    d: VirtioBlk<B>,
    chain: &[ChainDesc],
    request: Option<BlkRequest>,
    queues: usize,
    events: usize,
    r: Result<(), ActivateError>,
)
    requires
        backing.logical() > 0,
        call_ensures(VirtioBlk::<B>::new, (backing, writable, read_only), d),
        call_ensures(VirtioBlk::<B>::take_chain, (&d, chain), request),
        call_ensures(VirtioBlk::<B>::check_activation, (&d, queues, events), r),
    ensures
        d.geo().capacity * 512 <= backing.byte_len() < (d.geo().capacity + 1) * 512,
        d.geo().logical_block_size == backing.logical() && d.geo().physical_block_size
            == backing.physical(),
        d.geo().read_only == read_only,
        request matches Some(q) ==> q@.may_write == (writable && !read_only),
        r is Ok <==> queues == 1 && events == 1,
{
}

/// The status goes to the last buffer that the device writes, where that has room for it,
/// and counts one byte; a request whose header is cut short fails at once.
pub proof fn law_end_of_a_request(
    q: &BlkRequest,
    used: u32,
    c: (Option<u64>, u32),
    s: &mut BlkRequest,
    a: BlkAction,
)
    requires
        q@.wf(),
        used < u32::MAX,
        call_ensures(BlkRequest::completion, (q, used), c),
        old(s)@.wf(),
        call_ensures(BlkRequest::start, (s,), a),
    ensures
        q@.writable.last().len > 0 ==> c.0 == Some(q@.writable.last().addr),
        q@.writable.last().len == 0 ==> c.0 is None,
        c.1 - used == 1,
        old(s)@.readable[0].len >= 16 ==> a == (BlkAction::ReadHeader {
            addr: old(s)@.readable[0].addr,
        }),
        old(s)@.readable[0].len < 16 ==> a is Finish && final(s)@.phase is Finished,
        final(s)@.readable == old(s)@.readable && final(s)@.writable == old(s)@.writable
            && final(s)@.may_write == old(s)@.may_write,
{
}

/// A disk is virtio device kind 2, with one queue of at most 256 buffers.
pub proof fn law_disk_as_a_device<B: BlockBacking>(d: VirtioBlk<B>)
    requires
        d.wf(),
    ensures
        d.kind() == 2,
        d.queue_sizes() == seq![256u16],
{
}

} // verus!
