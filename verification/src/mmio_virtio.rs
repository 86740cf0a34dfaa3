//! The virtio MMIO transport, version 2: a flat register file and a wired
//! interrupt.
use vstd::prelude::*;

use crate::bytes::{from_le_bytes, le_u32};
use crate::mmio::{MmioDevice, MmioError, MmioWindow, MmioWriteOutcome};
use crate::pci_virtio::common::joined;
use crate::pci_virtio::transport::{fill_register, register_byte};
use crate::virtio::{ActivationOutcome, Queue, TransportAction, VirtioDevice, NO_VECTOR};

verus! {

pub const MAGIC: u64 = 0x000;

pub const VERSION: u64 = 0x004;

pub const DEVICE_ID: u64 = 0x008;

pub const VENDOR_ID: u64 = 0x00c;

pub const DEVICE_FEATURES: u64 = 0x010;

pub const DEVICE_FEATURES_SEL: u64 = 0x014;

pub const DRIVER_FEATURES: u64 = 0x020;

pub const DRIVER_FEATURES_SEL: u64 = 0x024;

pub const QUEUE_SEL: u64 = 0x030;

pub const QUEUE_NUM_MAX: u64 = 0x034;

pub const QUEUE_NUM: u64 = 0x038;

pub const QUEUE_READY: u64 = 0x044;

pub const QUEUE_NOTIFY: u64 = 0x050;

pub const INTERRUPT_STATUS: u64 = 0x060;

pub const INTERRUPT_ACK: u64 = 0x064;

pub const STATUS: u64 = 0x070;

pub const QUEUE_DESC_LOW: u64 = 0x080;

pub const QUEUE_DESC_HIGH: u64 = 0x084;

pub const QUEUE_DRIVER_LOW: u64 = 0x090;

pub const QUEUE_DRIVER_HIGH: u64 = 0x094;

pub const QUEUE_DEVICE_LOW: u64 = 0x0a0;

pub const QUEUE_DEVICE_HIGH: u64 = 0x0a4;

pub const CONFIG: u64 = 0x100;

/// `virt`, lowest byte first.
pub const MAGIC_VALUE: u32 = 0x7472_6976;

pub const VENDOR_VALUE: u32 = 0x554d_4551;

pub const STATUS_DRIVER_OK: u32 = 4;

/// Interrupt status bit: a queue has completed buffers.
pub const INT_VRING: u32 = 1;

/// A wired interrupt by its number and the function that drives it.
#[derive(Clone)]
pub struct WiredIrq<F> {
    pub intid: u32,
    pub set_level: F,
}

impl<F: Fn(u32, bool)> WiredIrq<F> {
    /// Whether the interrupt can be driven.
    pub open spec fn ready(&self) -> bool {
        forall|level: bool| #[trigger] call_requires(self.set_level, (self.intid, level))
    }

    pub fn new(intid: u32, set_level: F) -> (r: WiredIrq<F>)
        ensures
            r.intid == intid,
            r.set_level == set_level,
    {
        WiredIrq { intid, set_level }
    }

    pub fn intid(&self) -> (r: u32)
        ensures
            r == self.intid,
    {
        self.intid
    }

    /// Drives the interrupt.
    pub fn set(&self, level: bool)
        requires
            self.ready(),
        ensures
            call_ensures(self.set_level, (self.intid, level), ()),
    {
        (self.set_level)(self.intid, level);
    }
}

/// What the driver has set up of a queue.
#[derive(Debug, Clone, Copy, PartialEq, Eq, Structural)]
pub struct QueueCfg {
    pub max: u16,
    pub num: u16,
    pub ready: bool,
    pub desc: u64,
    pub avail: u64,
    pub used: u64,
}

/// An address with its low half replaced.
pub open spec fn with_low(addr: u64, val: u32) -> u64 {
    (addr - addr % 0x1_0000_0000 + val) as u64
}

/// An address with its high half replaced.
pub open spec fn with_high(addr: u64, val: u32) -> u64 {
    (val * 0x1_0000_0000 + addr % 0x1_0000_0000) as u64
}

fn set_lo(addr: u64, val: u32) -> (r: u64)
    ensures
        r == with_low(addr, val),
{
    let low: u64 = addr % 0x1_0000_0000;
    assert(addr - low + val <= u64::MAX) by (nonlinear_arith)
        requires
            low == addr % 0x1_0000_0000,
            val <= 0xffff_ffff,
            addr <= u64::MAX,
    ;
    addr - low + val as u64
}

fn set_hi(addr: u64, val: u32) -> (r: u64)
    ensures
        r == with_high(addr, val),
{
    (val as u64) * 0x1_0000_0000 + addr % 0x1_0000_0000
}

impl QueueCfg {
    /// A queue of which nothing is set up.
    pub open spec fn fresh(max: u16) -> QueueCfg {
        QueueCfg { max, num: max, ready: false, desc: 0, avail: 0, used: 0 }
    }

    /// The queue that the device gets.
    pub open spec fn queue(self) -> Queue {
        Queue {
            max_size: self.max,
            size: self.num,
            ready: self.ready,
            desc_table: self.desc,
            avail_ring: self.avail,
            used_ring: self.used,
            msix_vector: NO_VECTOR,
        }
    }

    /// The queue after a write of a queue register.
    pub open spec fn written(self, offset: u64, val: u32) -> QueueCfg {
        if offset == QUEUE_NUM {
            QueueCfg { num: val as u16, ..self }
        } else if offset == QUEUE_READY {
            QueueCfg { ready: val & 1 != 0, ..self }
        } else if offset == QUEUE_DESC_LOW {
            QueueCfg { desc: with_low(self.desc, val), ..self }
        } else if offset == QUEUE_DESC_HIGH {
            QueueCfg { desc: with_high(self.desc, val), ..self }
        } else if offset == QUEUE_DRIVER_LOW {
            QueueCfg { avail: with_low(self.avail, val), ..self }
        } else if offset == QUEUE_DRIVER_HIGH {
            QueueCfg { avail: with_high(self.avail, val), ..self }
        } else if offset == QUEUE_DEVICE_LOW {
            QueueCfg { used: with_low(self.used, val), ..self }
        } else if offset == QUEUE_DEVICE_HIGH {
            QueueCfg { used: with_high(self.used, val), ..self }
        } else {
            self
        }
    }

    fn write(&mut self, offset: u64, val: u32)
        ensures
            *final(self) == old(self).written(offset, val),
    {
        match offset {
            QUEUE_NUM => {
                self.num = val as u16;
            },
            QUEUE_READY => {
                self.ready = val & 1 != 0;
            },
            QUEUE_DESC_LOW => {
                self.desc = set_lo(self.desc, val);
            },
            QUEUE_DESC_HIGH => {
                self.desc = set_hi(self.desc, val);
            },
            QUEUE_DRIVER_LOW => {
                self.avail = set_lo(self.avail, val);
            },
            QUEUE_DRIVER_HIGH => {
                self.avail = set_hi(self.avail, val);
            },
            QUEUE_DEVICE_LOW => {
                self.used = set_lo(self.used, val);
            },
            QUEUE_DEVICE_HIGH => {
                self.used = set_hi(self.used, val);
            },
            _ => {},
        }
    }
}

/// A virtio device behind the MMIO transport.
pub struct VirtioMmio<D, F, H> {
    window: [MmioWindow; 1],
    device: D,
    device_id: u32,
    device_features: u64,
    dev_feat_sel: u32,
    drv_feat_sel: u32,
    queue_sel: usize,
    queues: Vec<QueueCfg>,
    status: u32,
    activated: bool,
    kicks: usize,
    int_status: u32,
    irq: WiredIrq<F>,
    host: Option<H>,
    actions: Vec<TransportAction>,
}

/// A [`VirtioMmio`] with its parts as values.
pub struct MmioTransportView<D, F, H> {
    pub window: MmioWindow,
    pub device: D,
    pub device_id: u32,
    pub device_features: u64,
    pub dev_feat_sel: u32,
    pub drv_feat_sel: u32,
    pub queue_sel: usize,
    pub queues: Seq<QueueCfg>,
    pub status: u32,
    /// Whether the device runs.
    pub activated: bool,
    /// How many queues can be woken.
    pub kicks: usize,
    pub int_status: u32,
    pub irq: WiredIrq<F>,
    pub host: Option<H>,
    /// What the owner has still to do, oldest first.
    pub actions: Seq<TransportAction>,
}

impl<D, F, H> View for VirtioMmio<D, F, H> {
    type V = MmioTransportView<D, F, H>;

    closed spec fn view(&self) -> MmioTransportView<D, F, H> {
        MmioTransportView {
            window: self.window@[0],
            device: self.device,
            device_id: self.device_id,
            device_features: self.device_features,
            dev_feat_sel: self.dev_feat_sel,
            drv_feat_sel: self.drv_feat_sel,
            queue_sel: self.queue_sel,
            queues: self.queues@,
            status: self.status,
            activated: self.activated,
            kicks: self.kicks,
            int_status: self.int_status,
            irq: self.irq,
            host: self.host,
            actions: self.actions@,
        }
    }
}

/// The number that a write carries: its first four bytes, with zeros for those
/// that are missing.
pub open spec fn carried(data: Seq<u8>) -> u32 {
    le_u32(
        Seq::new(
            4,
            |i: int|
                if i < data.len() {
                    data[i]
                } else {
                    0
                },
        ),
    )
}

impl<D: VirtioDevice, F: Fn(u32, bool), H> MmioTransportView<D, F, H> {
    pub open spec fn wf(self) -> bool {
        &&& self.device.wf()
        &&& self.irq.ready()
    }

    /// What reading a register gives.
    pub open spec fn value(self, offset: u64) -> u32 {
        let sel = self.queue_sel as int;
        if offset == MAGIC {
            MAGIC_VALUE
        } else if offset == VERSION {
            2
        } else if offset == DEVICE_ID {
            self.device_id
        } else if offset == VENDOR_ID {
            VENDOR_VALUE
        } else if offset == DEVICE_FEATURES {
            if self.dev_feat_sel == 1 {
                (self.device_features >> 32) as u32
            } else {
                self.device_features as u32
            }
        } else if offset == QUEUE_NUM_MAX && sel < self.queues.len() {
            self.queues[sel].max as u32
        } else if offset == QUEUE_READY && sel < self.queues.len() {
            if self.queues[sel].ready {
                1
            } else {
                0
            }
        } else if offset == INTERRUPT_STATUS {
            self.int_status
        } else if offset == STATUS {
            self.status
        } else {
            0
        }
    }

    /// The transport after a write of a register.
    pub open spec fn written(self, offset: u64, val: u32) -> MmioTransportView<D, F, H> {
        let sel = self.queue_sel as int;
        if offset == DEVICE_FEATURES_SEL {
            MmioTransportView { dev_feat_sel: val, ..self }
        } else if offset == DRIVER_FEATURES_SEL {
            MmioTransportView { drv_feat_sel: val, ..self }
        } else if offset == QUEUE_SEL {
            MmioTransportView { queue_sel: val as usize, ..self }
        } else if offset == QUEUE_NOTIFY {
            if val < self.kicks {
                self.asking(TransportAction::Kick(val as u64))
            } else {
                self
            }
        } else if offset == INTERRUPT_ACK {
            let s = MmioTransportView { int_status: self.int_status & !val, ..self };
            if s.int_status == 0 {
                s.asking(TransportAction::SetLevel(false))
            } else {
                s
            }
        } else if offset == STATUS {
            let s = MmioTransportView { status: val, ..self };
            if val == 0 {
                let stopped = MmioTransportView { activated: false, ..s };
                if self.activated {
                    stopped.asking(TransportAction::Stop)
                } else {
                    stopped
                }
            } else if !self.activated && val & STATUS_DRIVER_OK != 0 && self.host is Some {
                s.asking(TransportAction::Activate)
            } else {
                s
            }
        } else if sel < self.queues.len() {
            MmioTransportView {
                queues: self.queues.update(sel, self.queues[sel].written(offset, val)),
                ..self
            }
        } else {
            self
        }
    }

    /// The transport with one more demand on its owner.
    pub open spec fn asking(self, action: TransportAction) -> MmioTransportView<D, F, H> {
        MmioTransportView { actions: self.actions.push(action), ..self }
    }

    /// What reading gives in place of `data`.
    pub open spec fn read_gives(self, offset: u64, data: Seq<u8>, out: Seq<u8>) -> bool {
        if offset >= CONFIG {
            self.device.config_read_step((offset - CONFIG) as u64, data, out)
        } else {
            out == Seq::new(data.len(), |i: int| register_byte(self.value(offset), i))
        }
    }

    /// Whether a write may take the transport from `self` to `after`.
    pub open spec fn write_gives(
        self,
        offset: u64,
        data: Seq<u8>,
        after: MmioTransportView<D, F, H>,
    ) -> bool {
        if offset >= CONFIG {
            &&& D::config_write_step(self.device, (offset - CONFIG) as u64, data, after.device)
            &&& after == (MmioTransportView { device: after.device, ..self })
        } else {
            after == self.written(offset, carried(data))
        }
    }
}

impl<D: VirtioDevice, F: Fn(u32, bool), H> VirtioMmio<D, F, H> {
    pub fn new(window: MmioWindow, device: D, int_status: u32, irq: WiredIrq<F>) -> (r: VirtioMmio<
        D,
        F,
        H,
    >)
        requires
            device.wf(),
        ensures
            r@ == (MmioTransportView::<D, F, H> {
                window,
                device,
                device_id: device.kind(),
                device_features: device.offered(),
                dev_feat_sel: 0,
                drv_feat_sel: 0,
                queue_sel: 0,
                queues: device.queue_sizes().map_values(|n: u16| QueueCfg::fresh(n)),
                status: 0,
                activated: false,
                kicks: 0,
                int_status,
                irq,
                host: None,
                actions: Seq::<TransportAction>::empty(),
            }),
    {
        let device_id: u32 = device.device_type();
        let device_features: u64 = device.features();
        let mut queues: Vec<QueueCfg> = Vec::new();
        let sizes = device.queue_max_sizes();
        let mut i: usize = 0;
        while i < sizes.len()
            invariant
                i <= sizes@.len(),
                queues@.len() == i,
                forall|k: int| 0 <= k < i ==> #[trigger] queues@[k] == QueueCfg::fresh(sizes@[k]),
            decreases sizes@.len() - i,
        {
            queues.push(
                QueueCfg {
                    max: sizes[i],
                    num: sizes[i],
                    ready: false,
                    desc: 0,
                    avail: 0,
                    used: 0,
                },
            );
            i = i + 1;
        }
        assert(queues@ =~= device.queue_sizes().map_values(|n: u16| QueueCfg::fresh(n)));
        VirtioMmio {
            window: [window],
            device,
            device_id,
            device_features,
            dev_feat_sel: 0,
            drv_feat_sel: 0,
            queue_sel: 0,
            queues,
            status: 0,
            activated: false,
            kicks: 0,
            int_status,
            irq,
            host: None,
            actions: Vec::new(),
        }
    }

    /// Takes the host service of the attachment.
    pub fn set_attachment(&mut self, host: H)
        ensures
            final(self)@ == (MmioTransportView { host: Some(host), ..old(self)@ }),
    {
        self.host = Some(host);
    }

    /// Reads a register or the device configuration.
    pub fn read(&self, offset: u64, data: &mut [u8]) -> (r: bool)
        requires
            self@.wf(),
        ensures
            r,
            final(data)@.len() == old(data)@.len(),
            self@.read_gives(offset, old(data)@, final(data)@),
    {
        if offset >= CONFIG {
            self.device.read_config(offset - CONFIG, data);
            return true;
        }
        let sel: usize = self.queue_sel;
        let val: u32 = match offset {
            MAGIC => MAGIC_VALUE,
            VERSION => 2,
            DEVICE_ID => self.device_id,
            VENDOR_ID => VENDOR_VALUE,
            DEVICE_FEATURES => if self.dev_feat_sel == 1 {
                (self.device_features >> 32) as u32
            } else {
                self.device_features as u32
            },
            QUEUE_NUM_MAX => if sel < self.queues.len() {
                self.queues[sel].max as u32
            } else {
                0
            },
            QUEUE_READY => if sel < self.queues.len() && self.queues[sel].ready {
                1
            } else {
                0
            },
            INTERRUPT_STATUS => self.int_status,
            STATUS => self.status,
            _ => 0,
        };
        fill_register(val, data);
        true
    }

    /// Writes a register or the device configuration.
    pub fn write(&mut self, offset: u64, data: &[u8]) -> (r: bool)
        requires
            old(self)@.wf(),
        ensures
            r,
            final(self)@.wf(),
            old(self)@.write_gives(offset, data@, final(self)@),
    {
        if offset >= CONFIG {
            self.device.write_config(offset - CONFIG, data);
            return true;
        }
        let val: u32 = carried_by(data);
        match offset {
            DEVICE_FEATURES_SEL => {
                self.dev_feat_sel = val;
            },
            DRIVER_FEATURES_SEL => {
                self.drv_feat_sel = val;
            },
            QUEUE_SEL => {
                self.queue_sel = val as usize;
            },
            QUEUE_NOTIFY => {
                if (val as usize) < self.kicks {
                    self.actions.push(TransportAction::Kick(val as u64));
                }
            },
            INTERRUPT_ACK => {
                self.int_status = self.int_status & !val;
                if self.int_status == 0 {
                    self.actions.push(TransportAction::SetLevel(false));
                }
            },
            STATUS => {
                self.status = val;
                if val == 0 {
                    if self.activated {
                        self.actions.push(TransportAction::Stop);
                    }
                    self.activated = false;
                } else {
                    self.maybe_activate();
                }
            },
            _ => {
                let sel: usize = self.queue_sel;
                if sel < self.queues.len() {
                    let mut q: QueueCfg = self.queues[sel];
                    q.write(offset, val);
                    self.queues.set(sel, q);
                }
            },
        }
        true
    }

    /// Asks for the device to be started once the driver is ready and there is a
    /// host to run it.
    fn maybe_activate(&mut self)
        ensures
            final(self)@ == if !old(self)@.activated && old(self)@.status & STATUS_DRIVER_OK != 0
                && old(self)@.host is Some {
                old(self)@.asking(TransportAction::Activate)
            } else {
                old(self)@
            },
    {
        if self.activated || self.status & STATUS_DRIVER_OK == 0 {
            return;
        }
        if self.host.is_none() {
            return;
        }
        self.actions.push(TransportAction::Activate);
    }

    /// The queues that the device is started on: all of them.
    pub fn activation_queues(&self) -> (r: Vec<Queue>)
        ensures
            r@ == self@.queues.map_values(|q: QueueCfg| q.queue()),
    {
        let mut out: Vec<Queue> = Vec::new();
        let mut i: usize = 0;
        while i < self.queues.len()
            invariant
                i <= self.queues@.len(),
                out@.len() == i,
                forall|k: int| 0 <= k < i ==> #[trigger] out@[k] == self.queues@[k].queue(),
            decreases self.queues@.len() - i,
        {
            let qc = self.queues[i];
            let mut q = Queue::new(qc.max);
            q.size = qc.num;
            q.ready = qc.ready;
            q.desc_table = qc.desc;
            q.avail_ring = qc.avail;
            q.used_ring = qc.used;
            out.push(q);
            i = i + 1;
        }
        assert(out@ =~= self@.queues.map_values(|q: QueueCfg| q.queue()));
        out
    }

    /// Takes note of how starting the device went.
    pub fn activation_done(&mut self, outcome: ActivationOutcome)
        ensures
            final(self)@ == match outcome {
                ActivationOutcome::NoKicks => old(self)@,
                ActivationOutcome::Refused(kicks) => MmioTransportView { kicks, ..old(self)@ },
                ActivationOutcome::Running(kicks) => MmioTransportView {
                    kicks,
                    activated: true,
                    ..old(self)@
                },
            },
    {
        match outcome {
            ActivationOutcome::NoKicks => {},
            ActivationOutcome::Refused(kicks) => {
                self.kicks = kicks;
            },
            ActivationOutcome::Running(kicks) => {
                self.kicks = kicks;
                self.activated = true;
            },
        }
    }

    /// Takes note of completed buffers and asks for the interrupt to be raised.
    pub fn interrupt(&mut self)
        ensures
            final(self)@ == (MmioTransportView {
                int_status: old(self)@.int_status | INT_VRING,
                ..old(self)@
            }).asking(TransportAction::SetLevel(true)),
    {
        self.int_status = self.int_status | INT_VRING;
        self.actions.push(TransportAction::SetLevel(true));
    }

    /// Drives the interrupt, where the owner is asked to.
    pub fn drive(&self, level: bool)
        requires
            self@.wf(),
        ensures
            call_ensures(self@.irq.set_level, (self@.irq.intid, level), ()),
    {
        self.irq.set(level);
    }

    /// Hands over what the owner has to do.
    pub fn take_actions(&mut self) -> (r: Vec<TransportAction>)
        ensures
            r@ == old(self)@.actions,
            final(self)@ == (MmioTransportView {
                actions: Seq::<TransportAction>::empty(),
                ..old(self)@
            }),
    {
        let mut out: Vec<TransportAction> = Vec::new();
        std::mem::swap(&mut out, &mut self.actions);
        out
    }
}

impl<D: VirtioDevice, F: Fn(u32, bool), H> MmioDevice for VirtioMmio<D, F, H> {
    open spec fn wf(&self) -> bool {
        self@.wf()
    }

    open spec fn window_list(&self) -> Seq<MmioWindow> {
        seq![self@.window]
    }

    open spec fn read_step(
        before: VirtioMmio<D, F, H>,
        window: MmioWindow,
        offset: u64,
        data: Seq<u8>,
        after: VirtioMmio<D, F, H>,
        out: Seq<u8>,
        r: Result<(), MmioError>,
    ) -> bool {
        &&& r is Ok
        &&& after == before
        &&& before@.read_gives(offset, data, out)
    }

    open spec fn write_step(
        before: VirtioMmio<D, F, H>,
        window: MmioWindow,
        offset: u64,
        data: Seq<u8>,
        after: VirtioMmio<D, F, H>,
        r: Result<MmioWriteOutcome, MmioError>,
    ) -> bool {
        &&& r == Ok::<_, MmioError>(MmioWriteOutcome::Continue)
        &&& before@.write_gives(offset, data, after@)
    }

    fn windows(&self) -> (r: &[MmioWindow]) {
        assert(self.window@ =~= seq![self@.window]);
        vstd::array::array_as_slice(&self.window)
    }

    fn read(&mut self, window: MmioWindow, offset: u64, data: &mut [u8]) -> (r: Result<
        (),
        MmioError,
    >) {
        VirtioMmio::read(&*self, offset, data);
        Ok(())
    }

    fn write(&mut self, window: MmioWindow, offset: u64, data: &[u8]) -> (r: Result<
        MmioWriteOutcome,
        MmioError,
    >) {
        VirtioMmio::write(self, offset, data);
        Ok(MmioWriteOutcome::Continue)
    }
}

/// The number that a write carries.
fn carried_by(data: &[u8]) -> (r: u32)
    ensures
        r == carried(data@),
{
    let n: usize = data.len();
    let b0: u8 = if n > 0 {
        data[0]
    } else {
        0
    };
    let b1: u8 = if n > 1 {
        data[1]
    } else {
        0
    };
    let b2: u8 = if n > 2 {
        data[2]
    } else {
        0
    };
    let b3: u8 = if n > 3 {
        data[3]
    } else {
        0
    };
    from_le_bytes(b0, b1, b2, b3)
}

/// Both halves of a queue address make up the address, in whichever order the
/// driver writes them.
pub proof fn law_queue_address_halves(addr: u64, hi: u32, lo: u32)
    ensures
        with_high(with_low(addr, lo), hi) == joined(hi, lo),
        with_low(with_high(addr, hi), lo) == joined(hi, lo),
{
}

/// An acknowledgement clears the bits that it names, and the line is asked to be
/// lowered exactly when none is left.
pub proof fn law_line_is_lowered_when_no_bit_is_left<D: VirtioDevice, F: Fn(u32, bool), H>(
    t: MmioTransportView<D, F, H>,
    val: u32,
)
    ensures
        t.written(INTERRUPT_ACK, val).value(INTERRUPT_STATUS) == t.int_status & !val,
        t.written(INTERRUPT_ACK, val).actions == if t.int_status & !val == 0 {
            t.actions.push(TransportAction::SetLevel(false))
        } else {
            t.actions
        },
        t.written(INTERRUPT_ACK, t.int_status).value(INTERRUPT_STATUS) == 0,
{
    lemma_bits(t.int_status);
}

proof fn lemma_bits(val: u32)
    ensures
        (val & 1 != 0) == (val % 2 == 1),
        (val & 4 != 0) == (val / 4 % 2 == 1),
        val & !val == 0,
{
    assert((val & 1 != 0) == (val % 2 == 1) && (val & 4 != 0) == (val / 4 % 2 == 1) && val & !val
        == 0) by (bit_vector);
}

/// A write of an address register changes the selected queue alone.
proof fn lemma_address_write<D: VirtioDevice, F: Fn(u32, bool), H>(
    t: MmioTransportView<D, F, H>,
    offset: u64,
    val: u32,
)
    requires
        t.queue_sel < t.queues.len(),
        0x80 <= offset <= 0xa4,
    ensures
        t.written(offset, val).queues == t.queues.update(
            t.queue_sel as int,
            t.queues[t.queue_sel as int].written(offset, val),
        ),
        t.written(offset, val).queue_sel == t.queue_sel,
{
}

proof fn lemma_address_pairs(q: QueueCfg, lo: u32, hi: u32)
    ensures
        ({
            let address = (hi * 0x1_0000_0000 + lo) as u64;
            &&& address == hi * 0x1_0000_0000 + lo
            &&& q.written(0x80, lo).written(0x84, hi) == (QueueCfg { desc: address, ..q })
            &&& q.written(0x84, hi).written(0x80, lo) == (QueueCfg { desc: address, ..q })
            &&& q.written(0x90, lo).written(0x94, hi) == (QueueCfg { avail: address, ..q })
            &&& q.written(0x94, hi).written(0x90, lo) == (QueueCfg { avail: address, ..q })
            &&& q.written(0xa0, lo).written(0xa4, hi) == (QueueCfg { used: address, ..q })
            &&& q.written(0xa4, hi).written(0xa0, lo) == (QueueCfg { used: address, ..q })
        }),
{
    law_queue_address_halves(q.desc, hi, lo);
    law_queue_address_halves(q.avail, hi, lo);
    law_queue_address_halves(q.used, hi, lo);
}

/// The device is started on the addresses that the driver wrote last: each pair of
/// registers sets one address of the selected queue, in either order, and neither
/// the others nor another queue.
pub proof fn law_started_queue_has_the_written_addresses<D: VirtioDevice, F: Fn(u32, bool), H>(
    t: MmioTransportView<D, F, H>,
    lo: u32,
    hi: u32,
    other: int,
)
    requires
        t.queue_sel < t.queues.len(),
        0 <= other < t.queues.len(),
        other != t.queue_sel,
    ensures
        ({
            let k = t.queue_sel as int;
            let q = t.queues[k].queue();
            let desc = t.written(0x80, lo).written(0x84, hi).queues[k].queue();
            let avail = t.written(0x90, lo).written(0x94, hi).queues[k].queue();
            let used = t.written(0xa0, lo).written(0xa4, hi).queues[k].queue();
            let address = hi * 0x1_0000_0000 + lo;
            &&& desc == (Queue { desc_table: address as u64, ..q })
            &&& avail == (Queue { avail_ring: address as u64, ..q })
            &&& used == (Queue { used_ring: address as u64, ..q })
            &&& desc.desc_table == address && avail.avail_ring == address && used.used_ring
                == address
            &&& t.written(0x84, hi).written(0x80, lo).queues[k].queue() == desc
            &&& t.written(0x94, hi).written(0x90, lo).queues[k].queue() == avail
            &&& t.written(0xa4, hi).written(0xa0, lo).queues[k].queue() == used
            &&& t.written(0x80, lo).queues[other] == t.queues[other]
            &&& t.written(0x84, hi).queues[other] == t.queues[other]
            &&& t.written(0x90, lo).queues[other] == t.queues[other]
            &&& t.written(0x94, hi).queues[other] == t.queues[other]
            &&& t.written(0xa0, lo).queues[other] == t.queues[other]
            &&& t.written(0xa4, hi).queues[other] == t.queues[other]
        }),
{
    lemma_address_pairs(t.queues[t.queue_sel as int], lo, hi);
    lemma_address_write(t, 0x80, lo);
    lemma_address_write(t, 0x84, hi);
    lemma_address_write(t, 0x90, lo);
    lemma_address_write(t, 0x94, hi);
    lemma_address_write(t, 0xa0, lo);
    lemma_address_write(t, 0xa4, hi);
    lemma_address_write(t.written(0x80, lo), 0x84, hi);
    lemma_address_write(t.written(0x84, hi), 0x80, lo);
    lemma_address_write(t.written(0x90, lo), 0x94, hi);
    lemma_address_write(t.written(0x94, hi), 0x90, lo);
    lemma_address_write(t.written(0xa0, lo), 0xa4, hi);
    lemma_address_write(t.written(0xa4, hi), 0xa0, lo);
}

/// The device is started on the size that the driver wrote last, and on a queue that
/// is ready exactly where the driver set the lowest bit of its register, which then
/// reads as one. The queue keeps the largest size of the device and has no vector.
pub proof fn law_started_queue_has_the_written_size<D: VirtioDevice, F: Fn(u32, bool), H>(
    t: MmioTransportView<D, F, H>,
    val: u32,
)
    requires
        t.queue_sel < t.queues.len(),
        val <= 0xffff,
    ensures
        ({
            let k = t.queue_sel as int;
            let q = t.queues[k].queue();
            let sized = t.written(0x38, val);
            let readied = t.written(0x44, val);
            &&& sized.queues[k].queue() == (Queue { size: val as u16, ..q })
            &&& sized.queues[k].queue().size == val
            &&& readied.queues[k].queue() == (Queue { ready: val % 2 == 1, ..q })
            &&& readied.value(0x44) == val % 2
            &&& q.max_size == t.queues[k].max && t.value(0x34) == q.max_size
            &&& q.msix_vector == 0xffff
        }),
{
    lemma_bits(val);
}

/// What the driver identifies a device by: `virt` in ASCII, version two, and the
/// device's own number.
pub proof fn law_identity_registers<D: VirtioDevice, F: Fn(u32, bool), H>(
    t: MmioTransportView<D, F, H>,
)
    ensures
        le_u32(seq![118u8, 105u8, 114u8, 116u8]) == t.value(0),
        t.value(4) == 2,
        t.value(8) == t.device_id,
        le_u32(seq![81u8, 69u8, 77u8, 85u8]) == t.value(0xc),
{
}

/// The offered features are read in two halves: the low one with page zero selected
/// and the high one with page one.
pub proof fn law_feature_pages_make_up_the_features<D: VirtioDevice, F: Fn(u32, bool), H>(
    t: MmioTransportView<D, F, H>,
)
    ensures
        t.written(0x14, 0).value(0x10) + t.written(0x14, 1).value(0x10) * 0x1_0000_0000
            == t.device_features,
{
    let f = t.device_features;
    assert((f as u32) + ((f >> 32) as u32) * 0x1_0000_0000 == f) by (bit_vector);
}

/// Selecting a queue shows its largest size and whether it is ready; selecting one
/// that the device does not have shows zero.
pub proof fn law_selected_queue_is_shown<D: VirtioDevice, F: Fn(u32, bool), H>(
    t: MmioTransportView<D, F, H>,
    k: u32,
)
    ensures
        k < t.queues.len() ==> t.written(0x30, k).value(0x34) == t.queues[k as int].max,
        k < t.queues.len() ==> (t.written(0x30, k).value(0x44) == 1 <==> t.queues[k as int].ready),
        k >= t.queues.len() ==> t.written(0x30, k).value(0x34) == 0 && t.written(0x30, k).value(
            0x44,
        ) == 0,
        t.written(0x30, k).queues == t.queues,
        t.written(0x30, k).actions == t.actions,
{
}

/// The status reads as it was written. The device is asked to start when the driver
/// sets bit two while it does not run and a host is there to run it, to stop when the
/// driver writes zero while it runs, and nothing else at any other write.
pub proof fn law_status_starts_and_stops_the_device<D: VirtioDevice, F: Fn(u32, bool), H>(
    t: MmioTransportView<D, F, H>,
    val: u32,
)
    ensures
        ({
            let s = t.written(0x70, val);
            let starts = val / 4 % 2 == 1 && !t.activated && t.host is Some;
            let stops = val == 0 && t.activated;
            &&& s.value(0x70) == val
            &&& starts ==> s.actions == t.actions.push(TransportAction::Activate)
            &&& stops ==> s.actions == t.actions.push(TransportAction::Stop)
            &&& !starts && !stops ==> s.actions == t.actions
            &&& s.activated == (t.activated && val != 0)
            &&& s.queues == t.queues
            &&& s.int_status == t.int_status
        }),
{
    lemma_bits(val);
}

/// A notification wakes the queue that it names where that can be woken, and does
/// nothing else.
pub proof fn law_notification_wakes_its_queue<D: VirtioDevice, F: Fn(u32, bool), H>(
    t: MmioTransportView<D, F, H>,
    val: u32,
)
    ensures
        val < t.kicks ==> t.written(0x50, val) == (MmioTransportView {
            actions: t.actions.push(TransportAction::Kick(val as u64)),
            ..t
        }),
        val >= t.kicks ==> t.written(0x50, val) == t,
{
}

/// A write carries its bytes from the lowest on; bytes beyond the fourth are not
/// taken and those that are missing count as zero.
pub proof fn law_short_write_is_padded(data: Seq<u8>)
    ensures
        data.len() == 0 ==> carried(data) == 0,
        data.len() == 1 ==> carried(data) == data[0],
        data.len() == 2 ==> carried(data) == data[0] + data[1] * 256,
        data.len() == 3 ==> carried(data) == data[0] + data[1] * 256 + data[2] * 65536,
        data.len() >= 4 ==> carried(data) == data[0] + data[1] * 256 + data[2] * 65536 + data[3]
            * 16777216,
{
}

/// The bytes of a register are read from the lowest on, and zeros behind them.
pub proof fn law_register_is_read_from_its_lowest_byte<D: VirtioDevice, F: Fn(u32, bool), H>(
    t: MmioTransportView<D, F, H>,
    offset: u64,
    data: Seq<u8>,
    out: Seq<u8>,
)
    requires
        offset < 0x100,
        t.read_gives(offset, data, out),
    ensures
        out.len() == data.len(),
        out.len() > 0 ==> out[0] == t.value(offset) % 256,
        out.len() > 1 ==> out[1] == t.value(offset) / 256 % 256,
        out.len() > 2 ==> out[2] == t.value(offset) / 65536 % 256,
        out.len() > 3 ==> out[3] == t.value(offset) / 16777216,
        forall|i: int| 4 <= i < out.len() ==> #[trigger] out[i] == 0,
{
}

/// Completed buffers set bit zero of the interrupt status, keep the other bits, and ask
/// for the line to be raised.
pub proof fn law_completion_raises_the_line<D: VirtioDevice, F: Fn(u32, bool), H>(
    t: &mut VirtioMmio<D, F, H>,
)
    requires
        call_ensures(VirtioMmio::<D, F, H>::interrupt, (t,), ()),
    ensures
        final(t)@.value(0x60) % 2 == 1,
        final(t)@.value(0x60) / 2 == old(t)@.value(0x60) / 2,
        final(t)@.actions == old(t)@.actions.push(TransportAction::SetLevel(true)),
        final(t)@.queues == old(t)@.queues && final(t)@.status == old(t)@.status && final(t)@.activated == old(t)@.activated,
{
    let s = old(t)@.int_status;
    assert((s | 1) % 2 == 1 && (s | 1) / 2 == s / 2) by (bit_vector);
}

/// A device that was started runs, with the wake-ups that it got, and one that refused is
/// as it was but for these. The owner is handed its demands once, and the queues as the
/// driver set them up.
pub proof fn law_start_of_a_device<D: VirtioDevice, F: Fn(u32, bool), H>(
    t: &mut VirtioMmio<D, F, H>,
    outcome: ActivationOutcome,
    u: &mut VirtioMmio<D, F, H>,
    actions: Vec<TransportAction>,
    v: &VirtioMmio<D, F, H>,
    queues: Vec<Queue>,
)
    requires
        call_ensures(VirtioMmio::<D, F, H>::activation_done, (t, outcome), ()),
        call_ensures(VirtioMmio::<D, F, H>::take_actions, (u,), actions),
        call_ensures(VirtioMmio::<D, F, H>::activation_queues, (v,), queues),
    ensures
        match outcome {
            ActivationOutcome::Running(n) => final(t)@.activated && final(t)@.kicks == n,
            ActivationOutcome::Refused(n) => final(t)@.activated == old(t)@.activated && final(t)@.kicks == n,
            ActivationOutcome::NoKicks => final(t)@ == old(t)@,
        },
        final(t)@.queues == old(t)@.queues && final(t)@.actions == old(t)@.actions && final(t)@.status == old(t)@.status,
        actions@ == old(u)@.actions,
        final(u)@.actions.len() == 0,
        final(u)@.queues == old(u)@.queues && final(u)@.activated == old(u)@.activated,
        queues@.len() == v@.queues.len(),
        forall|k: int|
            0 <= k < queues@.len() ==> {
                let (q, c) = (#[trigger] queues@[k], v@.queues[k]);
                &&& q.desc_table == c.desc && q.avail_ring == c.avail && q.used_ring == c.used
                &&& q.size == c.num && q.max_size == c.max && q.ready == c.ready
            },
{
}

/// The device's own configuration stands behind the registers, from 0x100 on: the device
/// is read and written at the distance from there, and nothing else changes.
pub proof fn law_device_configuration_is_reached<D: VirtioDevice, F: Fn(u32, bool), H>(
    t: MmioTransportView<D, F, H>,
    offset: u64,
    data: Seq<u8>,
    out: Seq<u8>,
    u: MmioTransportView<D, F, H>,
)
    requires
        offset <= u64::MAX - 0x100,
    ensures
        t.read_gives((0x100 + offset) as u64, data, out) ==> t.device.config_read_step(
            offset,
            data,
            out,
        ),
        t.write_gives((0x100 + offset) as u64, data, u) ==> D::config_write_step(
            t.device,
            offset,
            data,
            u.device,
        ) && u.queues == t.queues && u.status == t.status && u.actions == t.actions
            && u.int_status == t.int_status,
        offset < 0x100 && t.write_gives(offset, data, u) ==> u.device == t.device,
{
}

} // verus!
