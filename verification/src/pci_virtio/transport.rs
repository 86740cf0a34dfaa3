//! A virtio device as a PCI function.
use vstd::prelude::*;

use crate::bytes::{byte_of, fill, from_le_bytes, le_byte, le_u32, lemma_le_bytes_of};
use crate::pci::bus::SlotHost;
use crate::pci::configuration::{
    overwritten, ConfigView, PciConfiguration, CAP_ID_MSIX, CAP_ID_VENDOR,
};
use crate::pci::msix::{
    enable_run, law_capability_and_vector_encoding, masked_entry, offset_bir, MsixNotifier, MsixTable, MsixView,
};
use crate::pci_virtio::capabilities::{
    add_virtio_cap, add_virtio_notify_cap, with_notify_cap, with_virtio_cap,
};
use crate::pci_virtio::common::{enabled_queues, CommonConfig, CommonView};
use crate::virtio::{ActivationOutcome, Queue, TransportAction, VirtioDevice};

verus! {

pub const COMMON_CFG_LENGTH: u32 = 0x38;

pub const ISR_CFG_OFFSET: u64 = 0x38;

pub const ISR_CFG_LENGTH: u32 = 4;

pub const DEVICE_CFG_OFFSET: u64 = 0x40;

pub const DEVICE_CFG_LENGTH: u32 = 0x40;

pub const NOTIFY_CFG_OFFSET: u64 = 0x100;

/// The distance between the notify registers of two queues.
pub const NOTIFY_OFF_MULTIPLIER: u32 = 2;

pub const BAR0_SIZE: u64 = 4096;

pub const BAR2_SIZE: u64 = 4096;

/// Where the pending bits stand in BAR 2.
pub const PBA_OFFSET: u32 = 0x800;

/// The PCI vendor of virtio functions.
pub const VIRTIO_VENDOR: u16 = 0x1af4;

/// The PCI device id of the first virtio device kind.
pub const VIRTIO_DEVICE_BASE: u16 = 0x1040;

/// The register at which the MSI-X capability starts.
pub const MSIX_CAP_REG: usize = 37;

/// A virtio device as a PCI function.
#[derive(Debug)]
pub struct VirtioPciDevice<D, N, H> {
    device: D,
    config: PciConfiguration,
    msix_table: MsixTable,
    common: CommonConfig,
    bar0_gpa: u64,
    bar2_gpa: u64,
    notifier: N,
    host: Option<SlotHost<H>>,
    actions: Vec<TransportAction>,
}

/// A [`VirtioPciDevice`] with its parts as their views.
pub struct TransportView<D, N, H> {
    pub device: D,
    pub config: ConfigView,
    pub msix: MsixView,
    pub common: CommonView,
    pub bar0_gpa: u64,
    pub bar2_gpa: u64,
    pub notifier: N,
    pub host: Option<SlotHost<H>>,
    /// What the owner has still to do, oldest first.
    pub actions: Seq<TransportAction>,
}

impl<D, N, H> View for VirtioPciDevice<D, N, H> {
    type V = TransportView<D, N, H>;

    closed spec fn view(&self) -> TransportView<D, N, H> {
        TransportView {
            device: self.device,
            config: self.config@,
            msix: self.msix_table@,
            common: self.common@,
            bar0_gpa: self.bar0_gpa,
            bar2_gpa: self.bar2_gpa,
            notifier: self.notifier,
            host: self.host,
            actions: self.actions@,
        }
    }
}

/// The length of the notify region.
pub open spec fn notify_length(queues: int) -> u32 {
    if 2 * queues < 4 {
        4
    } else {
        (2 * queues) as u32
    }
}

/// The low half of a 64-bit memory BAR.
pub open spec fn bar_low(gpa: u64) -> u32 {
    (gpa as u32 & 0xffff_f000) | 0x4
}

/// The identification and the BARs of a virtio function.
pub open spec fn identity_config(kind: u32, bar0_gpa: u64, bar2_gpa: u64) -> ConfigView {
    let c = ConfigView::empty().with_reg(
        0,
        (VIRTIO_VENDOR + (VIRTIO_DEVICE_BASE + kind as u16) * 0x1_0000) as u32,
    ).with_reg(11, 0x1af4u32 | (kind << 16)).with_reg(2, le_u32(seq![0u8, 0u8, 0u8, 0xffu8]));
    c.with_reg(3, overwritten(c.reg(3), 2, seq![0u8])).with_reg(4, bar_low(bar0_gpa)).with_writable(
        4,
        0xffff_f000,
    ).with_reg(5, (bar0_gpa >> 32) as u32).with_writable(5, 0xffff_ffff).with_reg(
        6,
        bar_low(bar2_gpa),
    ).with_writable(6, 0xffff_f000).with_reg(7, (bar2_gpa >> 32) as u32).with_writable(
        7,
        0xffff_ffff,
    )
}

/// A configuration with the five virtio capabilities added: common
/// configuration, notify registers, interrupt status, device configuration and
/// configuration access.
pub open spec fn with_virtio_caps(c: ConfigView, queues: int) -> ConfigView {
    with_virtio_cap(
        with_virtio_cap(
            with_virtio_cap(
                with_notify_cap(
                    with_virtio_cap(c, 1, 0, 0, COMMON_CFG_LENGTH),
                    0,
                    NOTIFY_CFG_OFFSET as u32,
                    notify_length(queues),
                    NOTIFY_OFF_MULTIPLIER,
                ),
                3,
                0,
                ISR_CFG_OFFSET as u32,
                ISR_CFG_LENGTH,
            ),
            4,
            0,
            DEVICE_CFG_OFFSET as u32,
            DEVICE_CFG_LENGTH,
        ),
        5,
        0,
        0,
        0,
    )
}

/// A configuration with the MSI-X capability added, for a table at the start of
/// BAR 2.
pub open spec fn with_msix_cap(c: ConfigView, vectors: u16) -> ConfigView {
    let at = c.next_capability / 4;
    let added = c.with_capability(CAP_ID_MSIX, 12);
    added.with_reg(
        at,
        (added.reg(at) & 0xffff) | (((((vectors - 1) as u16) & 0x07ff) as u32) << 16),
    ).with_writable(at, 0xc000_0000).with_reg(at + 1, offset_bir(0, 2)).with_reg(
        at + 2,
        offset_bir(PBA_OFFSET, 2),
    )
}

/// The configuration space of a virtio function.
pub open spec fn function_config(
    kind: u32,
    queues: int,
    vectors: u16,
    bar0_gpa: u64,
    bar2_gpa: u64,
) -> ConfigView {
    with_msix_cap(with_virtio_caps(identity_config(kind, bar0_gpa, bar2_gpa), queues), vectors)
}

/// The number that a write to the common configuration carries; only writes of
/// one, two and four bytes carry one.
pub open spec fn write_value(data: Seq<u8>) -> Option<u32> {
    if data.len() == 1 {
        Some(data[0] as u32)
    } else if data.len() == 2 {
        Some((data[0] + data[1] * 0x100) as u32)
    } else if data.len() == 4 {
        Some(le_u32(data))
    } else {
        None
    }
}

/// What a read of a 32-bit register gives at byte `i`.
pub open spec fn register_byte(value: u32, i: int) -> u8 {
    if i < 4 {
        le_byte(value, i)
    } else {
        0
    }
}

impl<D: VirtioDevice, N: MsixNotifier, H> TransportView<D, N, H> {
    /// What every function keeps.
    pub open spec fn wf(self) -> bool {
        &&& self.device.wf()
        &&& self.config.wf()
        &&& self.msix.wf()
        &&& self.common.negotiated()
    }

    /// Whether a configuration write may take the function from `self` to
    /// `after`. A write that reaches message control of the MSI-X capability
    /// switches MSI-X.
    pub open spec fn config_written(
        self,
        reg_idx: usize,
        offset: u64,
        data: Seq<u8>,
        after: TransportView<D, N, H>,
    ) -> bool {
        let config = self.config.written(reg_idx as int, offset, data);
        if reg_idx == MSIX_CAP_REG && offset + data.len() > 2 {
            let msg_ctl = (config.reg(MSIX_CAP_REG as int) >> 16) as u16;
            &&& enable_run(self.notifier, self.msix.ctl_notices(msg_ctl), after.notifier)
            &&& after == (TransportView {
                config,
                msix: self.msix.ctl_written(msg_ctl),
                notifier: after.notifier,
                ..self
            })
        } else {
            after == (TransportView { config, ..self })
        }
    }

    /// Whether a read of BAR 0 may give `out` in place of `data` and take the
    /// function from `self` to `after`. Reading the interrupt status clears it.
    pub open spec fn bar0_read(
        self,
        offset: u64,
        data: Seq<u8>,
        after: TransportView<D, N, H>,
        out: Seq<u8>,
    ) -> bool {
        if offset < COMMON_CFG_LENGTH {
            &&& after == self
            &&& out == Seq::new(
                data.len(),
                |i: int| register_byte(self.common.value(offset), i),
            )
        } else if offset < ISR_CFG_OFFSET + ISR_CFG_LENGTH {
            let isr = self.common.isr;
            &&& after == (TransportView {
                common: CommonView {
                    isr: if data.len() > 0 {
                        0
                    } else {
                        isr
                    },
                    ..self.common
                },
                ..self
            })
            &&& out == Seq::new(
                data.len(),
                |i: int|
                    if i == 0 {
                        isr
                    } else {
                        0
                    },
            )
        } else if DEVICE_CFG_OFFSET <= offset < DEVICE_CFG_OFFSET + DEVICE_CFG_LENGTH {
            &&& after == self
            &&& out.len() == data.len()
            &&& self.device.config_read_step((offset - DEVICE_CFG_OFFSET) as u64, data, out)
        } else {
            &&& after == self
            &&& out == Seq::new(data.len(), |i: int| 0u8)
        }
    }

    /// Whether a write of BAR 0 may take the function from `self` to `after`.
    pub open spec fn bar0_written(
        self,
        offset: u64,
        data: Seq<u8>,
        after: TransportView<D, N, H>,
    ) -> bool {
        if offset < COMMON_CFG_LENGTH {
            match write_value(data) {
                Some(val) => after == (TransportView {
                    common: self.common.written(offset, val),
                    actions: self.asked(self.common.action(offset, val)),
                    ..self
                }),
                None => after == self,
            }
        } else if DEVICE_CFG_OFFSET <= offset < DEVICE_CFG_OFFSET + DEVICE_CFG_LENGTH {
            &&& D::config_write_step(
                self.device,
                (offset - DEVICE_CFG_OFFSET) as u64,
                data,
                after.device,
            )
            &&& after == (TransportView { device: after.device, ..self })
        } else if offset >= NOTIFY_CFG_OFFSET {
            let queue = (offset - NOTIFY_CFG_OFFSET) / 2;
            if queue < self.common.kicks {
                after == (TransportView {
                    actions: self.actions.push(TransportAction::Kick(queue as u64)),
                    ..self
                })
            } else {
                after == self
            }
        } else {
            after == self
        }
    }

    /// Whether a write of BAR 2 may take the function from `self` to `after`.
    pub open spec fn bar2_written(
        self,
        offset: u64,
        data: Seq<u8>,
        after: TransportView<D, N, H>,
    ) -> bool {
        &&& match self.msix.write_notice(2, offset, data) {
            Some((vector, entry)) => N::vector_step(self.notifier, vector, entry, after.notifier),
            None => after.notifier == self.notifier,
        }
        &&& after == (TransportView {
            msix: self.msix.written(2, offset, data),
            notifier: after.notifier,
            ..self
        })
    }

    /// What the owner has to do with one more demand.
    pub open spec fn asked(self, action: Option<TransportAction>) -> Seq<TransportAction> {
        match action {
            Some(a) => self.actions.push(a),
            None => self.actions,
        }
    }

    /// Whether a BAR read may end so.
    pub open spec fn bar_read(
        self,
        bar_idx: u8,
        offset: u64,
        data: Seq<u8>,
        after: TransportView<D, N, H>,
        out: Seq<u8>,
        handled: bool,
    ) -> bool {
        if bar_idx == 0 {
            handled && self.bar0_read(offset, data, after, out)
        } else {
            &&& after == self
            &&& match self.msix.read(bar_idx, offset, data.len()) {
                Some(bytes) if bar_idx == 2 => handled && out == bytes,
                _ => !handled && out == data,
            }
        }
    }

    /// Whether a BAR write may end so.
    pub open spec fn bar_written(
        self,
        bar_idx: u8,
        offset: u64,
        data: Seq<u8>,
        after: TransportView<D, N, H>,
        handled: bool,
    ) -> bool {
        if bar_idx == 0 {
            handled && self.bar0_written(offset, data, after)
        } else if bar_idx == 2 {
            &&& handled == self.msix.region(2, offset) is Some
            &&& self.bar2_written(offset, data, after)
        } else {
            !handled && after == self
        }
    }
}

impl<D: VirtioDevice, N: MsixNotifier, H> VirtioPciDevice<D, N, H> {
    /// A function for `device` with `msix_vectors` vectors, BAR 0 at `bar0_gpa`
    /// and BAR 2 at `bar2_gpa`.
    pub fn new(
        device: D,
        msix_vectors: u16,
        bar0_gpa: u64,
        bar2_gpa: u64,
        notifier: N,
    ) -> (r: VirtioPciDevice<D, N, H>)
        requires
            device.wf(),
            msix_vectors > 0,
            VIRTIO_DEVICE_BASE + device.kind() as u16 <= u16::MAX,
            2 * device.queue_sizes().len() <= u32::MAX,
        ensures
            r@.wf(),
            r@.device == device,
            r@.config == function_config(
                device.kind(),
                device.queue_sizes().len() as int,
                msix_vectors,
                bar0_gpa,
                bar2_gpa,
            ),
            r@.msix.entries == Seq::new(msix_vectors as nat, |i: int| masked_entry()),
            forall|v: int| !r@.msix.pending(v),
            !r@.msix.enabled,
            !r@.msix.function_masked,
            r@.msix.table_bir == 2 && r@.msix.table_offset == 0,
            r@.msix.pba_bir == 2 && r@.msix.pba_offset == PBA_OFFSET,
            r@.common == CommonView::initial(device.offered(), device.queue_sizes()),
            r@.bar0_gpa == bar0_gpa,
            r@.bar2_gpa == bar2_gpa,
            r@.notifier == notifier,
            r@.host is None,
            r@.actions == Seq::<TransportAction>::empty(),
    {
        let device_type: u32 = device.device_type();
        let num_queues: usize = device.num_queues();
        let common = CommonConfig::new(device.features(), device.queue_max_sizes());

        let mut config = PciConfiguration::new();
        config.set_vendor_device(VIRTIO_VENDOR, VIRTIO_DEVICE_BASE + device_type as u16);
        config.set_reg(11, 0x1af4u32 | (device_type << 16));
        config.set_class(0xff, 0x00, 0x00, 0x00);
        config.set_header_type(0x00);

        // Both BARs are 64-bit: the window that the guest gets may lie high.
        config.set_bar(0, (bar0_gpa as u32 & 0xffff_f000) | 0x4);
        config.set_bar_writable_bits(0, 0xffff_f000);
        config.set_bar(1, (bar0_gpa >> 32) as u32);
        config.set_bar_writable_bits(1, 0xffff_ffff);
        config.set_bar(2, (bar2_gpa as u32 & 0xffff_f000) | 0x4);
        config.set_bar_writable_bits(2, 0xffff_f000);
        config.set_bar(3, (bar2_gpa >> 32) as u32);
        config.set_bar_writable_bits(3, 0xffff_ffff);
        assert(config@ == identity_config(device_type, bar0_gpa, bar2_gpa));

        let span: u32 = NOTIFY_OFF_MULTIPLIER * num_queues as u32;
        let notify: u32 = if span < 4 {
            4
        } else {
            span
        };
        add_virtio_cap(&mut config, 1, 0, 0, COMMON_CFG_LENGTH);
        add_virtio_notify_cap(
            &mut config,
            0,
            NOTIFY_CFG_OFFSET as u32,
            notify,
            NOTIFY_OFF_MULTIPLIER,
        );
        add_virtio_cap(&mut config, 3, 0, ISR_CFG_OFFSET as u32, ISR_CFG_LENGTH);
        add_virtio_cap(&mut config, 4, 0, DEVICE_CFG_OFFSET as u32, DEVICE_CFG_LENGTH);
        add_virtio_cap(&mut config, 5, 0, 0, 0);

        let msix_table = MsixTable::new(msix_vectors, 2, 0, 2, PBA_OFFSET);
        let msix_cap = msix_table.cap();
        let reg: usize = config.add_capability(CAP_ID_MSIX, 12);
        let dw0: u32 = config.read_reg(reg);
        config.set_reg(reg, (dw0 & 0xffff) | ((msix_cap.msg_ctl as u32) << 16));
        config.set_reg_writable_bits(reg, 0xc000_0000);
        config.set_reg(reg + 1, msix_cap.table_offset_bir);
        config.set_reg(reg + 2, msix_cap.pba_offset_bir);

        VirtioPciDevice {
            device,
            config,
            msix_table,
            common,
            bar0_gpa,
            bar2_gpa,
            notifier,
            host: None,
            actions: Vec::new(),
        }
    }

    /// Takes the host service of the slot.
    pub fn set_host(&mut self, host: SlotHost<H>)
        ensures
            final(self)@ == (TransportView { host: Some(host), ..old(self)@ }),
    {
        self.host = Some(host);
    }

    /// Forgets the running device, so that the next time the driver is ready the
    /// device is started anew. What the guest sees of the function stays.
    pub fn reset_for_reconnect(&mut self)
        ensures
            final(self)@ == (TransportView {
                common: CommonView {
                    activated: false,
                    device_status: 0,
                    kicks: 0,
                    ..old(self)@.common
                },
                actions: old(self)@.asked(
                    if old(self)@.common.activated {
                        Some(TransportAction::Stop)
                    } else {
                        None
                    },
                ),
                ..old(self)@
            }),
    {
        if self.common.activated {
            self.actions.push(TransportAction::Stop);
        }
        self.common.activated = false;
        self.common.device_status = 0;
        self.common.kicks = 0;
    }

    /// Sets the interrupt status.
    pub fn set_isr(&mut self, value: u8)
        ensures
            final(self)@ == (TransportView {
                common: CommonView { isr: value, ..old(self)@.common },
                ..old(self)@
            }),
    {
        self.common.isr = value;
    }

    pub fn config_read(&self, reg_idx: usize) -> (r: u32)
        ensures
            r == self@.config.reg(reg_idx as int),
    {
        self.config.read_reg(reg_idx)
    }

    pub fn config_write(&mut self, reg_idx: usize, offset: u64, data: &[u8])
        requires
            old(self)@.wf(),
        ensures
            final(self)@.wf(),
            old(self)@.config_written(reg_idx, offset, data@, final(self)@),
    {
        self.config.write_reg(reg_idx, offset, data);
        if reg_idx == MSIX_CAP_REG && (offset > 2 || data.len() > 2 - offset as usize) {
            let msg_ctl: u16 = (self.config.read_reg(MSIX_CAP_REG) >> 16) as u16;
            self.msix_table.write_msg_ctl(msg_ctl, &mut self.notifier);
        }
    }

    /// Takes a BAR read; reports whether the BAR is one of the function's.
    pub fn bar_read(&mut self, bar_idx: u8, offset: u64, data: &mut [u8]) -> (r: bool)
        requires
            old(self)@.wf(),
        ensures
            final(self)@.wf(),
            final(data)@.len() == old(data)@.len(),
            old(self)@.bar_read(bar_idx, offset, old(data)@, final(self)@, final(data)@, r),
    {
        match bar_idx {
            0 => {
                self.read_bar0(offset, data);
                true
            },
            2 => self.msix_table.bar_read(2, offset, data),
            _ => false,
        }
    }

    /// Takes a BAR write; reports whether the BAR is one of the function's.
    pub fn bar_write(&mut self, bar_idx: u8, offset: u64, data: &[u8]) -> (r: bool)
        requires
            old(self)@.wf(),
        ensures
            final(self)@.wf(),
            old(self)@.bar_written(bar_idx, offset, data@, final(self)@, r),
    {
        match bar_idx {
            0 => {
                self.write_bar0(offset, data);
                true
            },
            2 => self.msix_table.bar_write(2, offset, data, &mut self.notifier),
            _ => false,
        }
    }

    /// The BARs: index, address and size.
    pub fn bar_regions(&self) -> (r: Vec<(u8, u64, u64)>)
        ensures
            r@ == seq![(0u8, self@.bar0_gpa, BAR0_SIZE), (2u8, self@.bar2_gpa, BAR2_SIZE)],
    {
        let r: Vec<(u8, u64, u64)> = vec![
            (0u8, self.bar0_gpa, BAR0_SIZE),
            (2u8, self.bar2_gpa, BAR2_SIZE),
        ];
        assert(r@ =~= seq![(0u8, self@.bar0_gpa, BAR0_SIZE), (2u8, self@.bar2_gpa, BAR2_SIZE)]);
        r
    }

    /// How many vectors the MSI-X table has.
    pub fn msix_vectors(&self) -> (r: u16)
        requires
            self@.wf(),
        ensures
            r == self@.msix.entries.len(),
    {
        self.msix_table.num_vectors()
    }

    /// The queues that the device is started on.
    pub fn activation_queues(&self) -> (r: Vec<Queue>)
        ensures
            r@ == enabled_queues(self@.common.queues, self@.common.queues.len() as int),
    {
        self.common.activation_queues()
    }

    /// Takes note of how starting the device went.
    pub fn activation_done(&mut self, outcome: ActivationOutcome)
        ensures
            final(self)@ == (TransportView {
                common: old(self)@.common.started(outcome),
                ..old(self)@
            }),
    {
        self.common.activation_done(outcome);
    }

    /// Hands over what the owner has to do.
    pub fn take_actions(&mut self) -> (r: Vec<TransportAction>)
        ensures
            r@ == old(self)@.actions,
            final(self)@ == (TransportView {
                actions: Seq::<TransportAction>::empty(),
                ..old(self)@
            }),
    {
        let mut out: Vec<TransportAction> = Vec::new();
        std::mem::swap(&mut out, &mut self.actions);
        out
    }

    fn read_bar0(&mut self, offset: u64, data: &mut [u8])
        requires
            old(self)@.wf(),
        ensures
            final(self)@.wf(),
            final(data)@.len() == old(data)@.len(),
            old(self)@.bar0_read(offset, old(data)@, final(self)@, final(data)@),
    {
        if offset < COMMON_CFG_LENGTH as u64 {
            let value: u32 = self.common.read(offset);
            fill_register(value, data);
        } else if offset < ISR_CFG_OFFSET + ISR_CFG_LENGTH as u64 {
            let isr: u8 = self.common.isr;
            fill(data, 0);
            if data.len() > 0 {
                data[0] = isr;
                self.common.isr = 0;
            }
            assert(data@ =~= Seq::new(
                old(data)@.len(),
                |i: int|
                    if i == 0 {
                        isr
                    } else {
                        0
                    },
            ));
        } else if offset >= DEVICE_CFG_OFFSET && offset < DEVICE_CFG_OFFSET
            + DEVICE_CFG_LENGTH as u64 {
            self.device.read_config(offset - DEVICE_CFG_OFFSET, data);
        } else {
            fill(data, 0);
        }
    }

    fn write_bar0(&mut self, offset: u64, data: &[u8])
        requires
            old(self)@.wf(),
        ensures
            final(self)@.wf(),
            old(self)@.bar0_written(offset, data@, final(self)@),
    {
        if offset < COMMON_CFG_LENGTH as u64 {
            let val: u32 = match carried(data) {
                Some(v) => v,
                None => {
                    return;
                },
            };
            match self.common.write(offset, val) {
                Some(action) => {
                    self.actions.push(action);
                },
                None => {},
            }
        } else if offset >= DEVICE_CFG_OFFSET && offset < DEVICE_CFG_OFFSET
            + DEVICE_CFG_LENGTH as u64 {
            self.device.write_config(offset - DEVICE_CFG_OFFSET, data);
        } else if offset >= NOTIFY_CFG_OFFSET {
            let queue: u64 = (offset - NOTIFY_CFG_OFFSET) / NOTIFY_OFF_MULTIPLIER as u64;
            if queue < self.common.kicks as u64 {
                self.actions.push(TransportAction::Kick(queue));
            }
        }
    }
}

/// Fills a buffer with the bytes of a register, and zeros behind them.
pub(crate) fn fill_register(value: u32, data: &mut [u8])
    ensures
        final(data)@ == Seq::new(old(data)@.len(), |i: int| register_byte(value, i)),
{
    let n: usize = data.len();
    let mut i: usize = 0;
    while i < n
        invariant
            n == data@.len(),
            n == old(data)@.len(),
            i <= n,
            forall|k: int| 0 <= k < i ==> #[trigger] data@[k] == register_byte(value, k),
        decreases n - i,
    {
        data[i] = if i < 4 {
            byte_of(value, i)
        } else {
            0
        };
        i = i + 1;
    }
    assert(data@ =~= Seq::new(old(data)@.len(), |i: int| register_byte(value, i)));
}

/// The number that a write carries.
fn carried(data: &[u8]) -> (r: Option<u32>)
    ensures
        r == write_value(data@),
{
    if data.len() == 1 {
        Some(data[0] as u32)
    } else if data.len() == 2 {
        Some(data[0] as u32 + (data[1] as u32) * 0x100)
    } else if data.len() == 4 {
        let v: u32 = from_le_bytes(data[0], data[1], data[2], data[3]);
        assert(data@ =~= seq![data@[0], data@[1], data@[2], data@[3]]);
        Some(v)
    } else {
        None
    }
}

/// Whether a virtio capability stands at byte `at`: its header, with the byte at
/// which the next one stands, and the range of BAR 0 that it names.
pub open spec fn cap_stands(
    c: ConfigView,
    at: int,
    next: u8,
    len: u8,
    cfg_type: u8,
    offset: u32,
    length: u32,
) -> bool {
    &&& c.reg(at / 4) == le_u32(seq![CAP_ID_VENDOR, next, len, cfg_type])
    &&& c.reg(at / 4 + 1) == 0
    &&& c.reg(at / 4 + 2) == offset
    &&& c.reg(at / 4 + 3) == length
}

/// The capability list of a virtio function: the five virtio capabilities, one
/// behind the other, and MSI-X at the end.
pub proof fn law_capability_list(
    kind: u32,
    queues: int,
    vectors: u16,
    bar0_gpa: u64,
    bar2_gpa: u64,
)
    ensures
        ({
            let c = function_config(kind, queues, vectors, bar0_gpa, bar2_gpa);
            &&& c.reg(13) == 0x40
            &&& cap_stands(c, 0x40, 0x50, 16, 1, 0, COMMON_CFG_LENGTH)
            &&& cap_stands(c, 0x50, 0x64, 20, 2, NOTIFY_CFG_OFFSET as u32, notify_length(queues))
            &&& c.reg(24) == NOTIFY_OFF_MULTIPLIER
            &&& cap_stands(c, 0x64, 0x74, 16, 3, ISR_CFG_OFFSET as u32, ISR_CFG_LENGTH)
            &&& cap_stands(c, 0x74, 0x84, 16, 4, DEVICE_CFG_OFFSET as u32, DEVICE_CFG_LENGTH)
            &&& cap_stands(c, 0x84, 0x94, 16, 5, 0, 0)
            &&& c.reg(MSIX_CAP_REG as int) % 0x1_0000 == CAP_ID_MSIX
            &&& c.reg(MSIX_CAP_REG + 1) == offset_bir(0, 2)
            &&& c.reg(MSIX_CAP_REG + 2) == offset_bir(PBA_OFFSET, 2)
        }),
{
    let ctl = (((vectors - 1) as u16) & 0x07ff) as u32;
    assert((0u32 & 0xffff_ff00) | 0x40u32 == 0x40 && (0x0110_0009u32 & 0xffff_00ff) | (0x50u32
        << 8) == 0x0110_5009 && (0x0214_0009u32 & 0xffff_00ff) | (0x64u32 << 8) == 0x0214_6409 && (
    0x0310_0009u32 & 0xffff_00ff) | (0x74u32 << 8) == 0x0310_7409 && (0x0410_0009u32 & 0xffff_00ff)
        | (0x84u32 << 8) == 0x0410_8409 && (0x0510_0009u32 & 0xffff_00ff) | (0x94u32 << 8)
        == 0x0510_9409 && ((0x11u32 & 0xffff) | (ctl << 16)) % 0x1_0000 == 0x11) by (bit_vector);
}

/// Reading the interrupt status gives it in the first byte and clears it, so that the
/// next read gives zero; nothing else of the function changes.
pub proof fn law_interrupt_status_is_read_once<D: VirtioDevice, N: MsixNotifier, H>(
    t: TransportView<D, N, H>,
    offset: u64,
    data: Seq<u8>,
    u: TransportView<D, N, H>,
    first: Seq<u8>,
    w: TransportView<D, N, H>,
    second: Seq<u8>,
)
    requires
        0x38 <= offset < 0x3c,
        data.len() > 0,
        t.bar0_read(offset, data, u, first),
        u.bar0_read(offset, data, w, second),
    ensures
        first.len() == data.len(),
        first[0] == t.common.isr,
        forall|i: int| 1 <= i < first.len() ==> #[trigger] first[i] == 0,
        second[0] == 0,
        u.common.isr == 0,
        u == (TransportView { common: CommonView { isr: 0, ..t.common }, ..t }),
{
}

/// Each queue has a notify register of two bytes from 0x100 on. A write to it wakes
/// that queue where it can be woken, whatever is written, and does nothing else.
pub proof fn law_notify_register_wakes_its_queue<D: VirtioDevice, N: MsixNotifier, H>(
    t: TransportView<D, N, H>,
    queue: u64,
    data: Seq<u8>,
    u: TransportView<D, N, H>,
)
    requires
        queue < 0x1_0000,
        t.bar0_written((0x100 + 2 * queue) as u64, data, u),
    ensures
        queue < t.common.kicks ==> u == (TransportView {
            actions: t.actions.push(TransportAction::Kick(queue)),
            ..t
        }),
        queue >= t.common.kicks ==> u == t,
{
}

/// The device's own configuration stands at 0x40 of BAR 0 and takes 0x40 bytes: the
/// device is read and written at the distance from there. The common registers stand
/// before it, and the rest of the BAR reads as zero.
pub proof fn law_device_configuration_is_reached<D: VirtioDevice, N: MsixNotifier, H>(
    t: TransportView<D, N, H>,
    offset: u64,
    data: Seq<u8>,
    u: TransportView<D, N, H>,
    out: Seq<u8>,
)
    ensures
        offset < 0x40 && t.bar0_read((0x40 + offset) as u64, data, u, out) ==> u == t
            && t.device.config_read_step(offset, data, out),
        offset < 0x40 && t.bar0_written((0x40 + offset) as u64, data, u) ==> D::config_write_step(
            t.device,
            offset,
            data,
            u.device,
        ) && u.common == t.common && u.config == t.config && u.msix == t.msix && u.actions
            == t.actions,
        offset < 0x38 && t.bar0_read(offset, data, u, out) ==> u == t && out.len() == data.len()
            && (out.len() > 0 ==> out[0] == t.common.value(offset) % 256) && (out.len() > 1
            ==> out[1] == t.common.value(offset) / 256 % 256) && (out.len() > 2 ==> out[2]
            == t.common.value(offset) / 65536 % 256) && (out.len() > 3 ==> out[3]
            == t.common.value(offset) / 16777216),
        (0x3c <= offset < 0x40 || offset >= 0x80) && t.bar0_read(offset, data, u, out) ==> u == t
            && forall|i: int| 0 <= i < out.len() ==> #[trigger] out[i] == 0,
        0x80 <= offset < 0x100 && t.bar0_written(offset, data, u) ==> u == t,
{
}

/// A write to the common configuration carries one, two or four bytes, lowest first;
/// one of another length does nothing.
pub proof fn law_common_writes_carry_whole_numbers<D: VirtioDevice, N: MsixNotifier, H>(
    t: TransportView<D, N, H>,
    offset: u64,
    data: Seq<u8>,
    u: TransportView<D, N, H>,
)
    requires
        offset < 0x38,
        t.bar0_written(offset, data, u),
    ensures
        data.len() == 1 ==> u.common == t.common.written(offset, data[0] as u32),
        data.len() == 2 ==> u.common == t.common.written(
            offset,
            (data[0] + data[1] * 256) as u32,
        ),
        data.len() == 4 ==> u.common == t.common.written(
            offset,
            (data[0] + data[1] * 256 + data[2] * 65536 + data[3] * 16777216) as u32,
        ),
        data.len() == 0 || data.len() == 3 || data.len() > 4 ==> u == t,
        u.device == t.device && u.config == t.config && u.msix == t.msix && u.notifier
            == t.notifier && u.host == t.host,
{
}

/// BAR 0 and BAR 2 are the ones of a function: an access to any other is refused and
/// changes nothing.
pub proof fn law_other_bars_are_refused<D: VirtioDevice, N: MsixNotifier, H>(
    t: TransportView<D, N, H>,
    bar: u8,
    offset: u64,
    data: Seq<u8>,
    u: TransportView<D, N, H>,
    out: Seq<u8>,
    handled: bool,
)
    ensures
        t.bar_read(bar, offset, data, u, out, handled) ==> {
            &&& bar == 0 ==> handled
            &&& bar != 0 && bar != 2 ==> !handled && out == data
            &&& bar != 0 ==> u == t
        },
        t.bar_written(bar, offset, data, u, handled) ==> {
            &&& bar == 0 ==> handled
            &&& bar != 0 && bar != 2 ==> !handled && u == t
            &&& bar == 2 ==> u.common == t.common && u.config == t.config && u.device == t.device
                && u.actions == t.actions
        },
{
}

/// A configuration write reaches the MSI-X table through the upper half of register 37
/// alone: from then on MSI-X is on where its highest bit is set, and masked as a whole
/// where the next one is.
pub proof fn law_configuration_switches_msix<D: VirtioDevice, N: MsixNotifier, H>(
    t: TransportView<D, N, H>,
    reg: usize,
    offset: u64,
    data: Seq<u8>,
    u: TransportView<D, N, H>,
)
    requires
        t.config.wf(),
        t.config_written(reg, offset, data, u),
    ensures
        u.config == t.config.written(reg as int, offset, data),
        u.common == t.common && u.device == t.device && u.actions == t.actions,
        reg != 37 || offset + data.len() <= 2 ==> u.msix == t.msix && u.notifier == t.notifier,
        reg == 37 && offset + data.len() > 2 ==> u.msix.enabled == (u.config.registers[37]
            / 0x8000_0000 == 1) && u.msix.function_masked == (u.config.registers[37] / 0x4000_0000
            % 2 == 1) && u.msix.entries == t.msix.entries,
{
    let c = t.config.written(reg as int, offset, data).registers[37];
    assert(((c >> 16) as u16 & 0x8000 != 0) == (c / 0x8000_0000 == 1) && ((c >> 16) as u16 & 0x4000
        != 0) == (c / 0x4000_0000 % 2 == 1)) by (bit_vector);
}

/// What the driver finds a virtio function by: vendor 1af4, device 1040 and the kind of
/// the device above it, and two 64-bit memory BARs that hold the addresses, of four
/// kibibytes each, as the bits that it may write tell.
pub proof fn law_function_identity(
    kind: u32,
    queues: int,
    vectors: u16,
    bar0_gpa: u64,
    bar2_gpa: u64,
)
    requires
        kind <= 0x1000,
        bar0_gpa % 0x1000 == 0,
        bar2_gpa % 0x1000 == 0,
    ensures
        ({
            let c = function_config(kind, queues, vectors, bar0_gpa, bar2_gpa);
            &&& c.registers[0] % 0x1_0000 == 0x1af4
            &&& c.registers[0] / 0x1_0000 == 0x1040 + kind
            &&& c.registers[11] == 0x1af4 + kind * 0x1_0000
            &&& c.registers[2] == 0xff00_0000
            &&& c.registers[4] - 4 + c.registers[5] * 0x1_0000_0000 == bar0_gpa
            &&& c.registers[6] - 4 + c.registers[7] * 0x1_0000_0000 == bar2_gpa
            &&& c.writable[4] == 0x1_0000_0000 - 0x1000
            &&& c.writable[6] == 0x1_0000_0000 - 0x1000
            &&& c.writable[5] == 0xffff_ffff && c.writable[7] == 0xffff_ffff
            &&& c.writable[37] == 0xc000_0000
        }),
{
    let c = function_config(kind, queues, vectors, bar0_gpa, bar2_gpa);
    let i = identity_config(kind, bar0_gpa, bar2_gpa);
    let (a, b) = (bar0_gpa, bar2_gpa);
    assert((a % 0x1000 == 0 ==> ((a as u32 & 0xffff_f000) | 0x4) - 4 + ((a >> 32) as u32)
        * 0x1_0000_0000 == a) && (b % 0x1000 == 0 ==> ((b as u32 & 0xffff_f000) | 0x4) - 4 + ((b
        >> 32) as u32) * 0x1_0000_0000 == b) && (kind <= 0x1000 ==> kind as u16 == kind && 0x1af4u32
        | (kind << 16) == 0x1af4 + kind * 0x1_0000)) by (bit_vector);
    assert(c.registers[0] == i.registers[0] && c.registers[2] == i.registers[2]);
    assert(c.registers[11] == i.registers[11]);
    assert(c.registers[4] == i.registers[4] && c.registers[5] == i.registers[5]);
    assert(c.registers[6] == i.registers[6] && c.registers[7] == i.registers[7]);
}

/// The capabilities name the ranges of BAR 0 in which the registers stand: the common
/// ones at 0, the notify registers at 0x100 and two apart, the interrupt status at 0x38
/// and the device configuration at 0x40. The MSI-X table is at 0 of BAR 2 and the
/// pending bits at 0x800.
pub proof fn law_capabilities_name_the_ranges(
    kind: u32,
    queues: int,
    vectors: u16,
    bar0_gpa: u64,
    bar2_gpa: u64,
)
    requires
        0 <= 2 * queues <= 0xffff,
    ensures
        ({
            let c = function_config(kind, queues, vectors, bar0_gpa, bar2_gpa);
            &&& c.reg(13) == 0x40
            &&& le_byte(c.reg(16), 1) == 0x50 && le_byte(c.reg(16), 3) == 1
            &&& c.reg(17) == 0 && c.reg(18) == 0 && c.reg(19) == 0x38
            &&& le_byte(c.reg(20), 1) == 0x64 && le_byte(c.reg(20), 3) == 2
            &&& c.reg(21) == 0 && c.reg(22) == 0x100 && c.reg(24) == 2
            &&& c.reg(23) >= 2 * queues && c.reg(23) >= 4
            &&& le_byte(c.reg(25), 1) == 0x74 && le_byte(c.reg(25), 3) == 3
            &&& c.reg(26) == 0 && c.reg(27) == 0x38 && c.reg(28) == 4
            &&& le_byte(c.reg(29), 1) == 0x84 && le_byte(c.reg(29), 3) == 4
            &&& c.reg(30) == 0 && c.reg(31) == 0x40 && c.reg(32) == 0x40
            &&& le_byte(c.reg(33), 1) == 0x94 && le_byte(c.reg(33), 3) == 5
            &&& c.reg(37) % 0x1_0000 == 0x11
            &&& c.reg(38) == 2
            &&& c.reg(39) == 0x802
        }),
{
    law_capability_list(kind, queues, vectors, bar0_gpa, bar2_gpa);
    law_capability_and_vector_encoding(0, 2);
    law_capability_and_vector_encoding(0x800, 2);
    lemma_le_bytes_of(seq![9u8, 0x50u8, 16u8, 1u8]);
    lemma_le_bytes_of(seq![9u8, 0x64u8, 20u8, 2u8]);
    lemma_le_bytes_of(seq![9u8, 0x74u8, 16u8, 3u8]);
    lemma_le_bytes_of(seq![9u8, 0x84u8, 16u8, 4u8]);
    lemma_le_bytes_of(seq![9u8, 0x94u8, 16u8, 5u8]);
}

/// A reconnected function forgets the running device, which is asked to stop, and its
/// status, and keeps everything that the guest set up; the interrupt status is what it
/// was last set to.
pub proof fn law_reconnect_keeps_what_the_guest_set_up<D: VirtioDevice, N: MsixNotifier, H>(
    t: &mut VirtioPciDevice<D, N, H>,
    u: &mut VirtioPciDevice<D, N, H>,
    isr: u8,
    w: &mut VirtioPciDevice<D, N, H>,
    actions: Vec<TransportAction>,
)
    requires
        call_ensures(VirtioPciDevice::<D, N, H>::reset_for_reconnect, (t,), ()),
        call_ensures(VirtioPciDevice::<D, N, H>::set_isr, (u, isr), ()),
        call_ensures(VirtioPciDevice::<D, N, H>::take_actions, (w,), actions),
    ensures
        !final(t)@.common.activated && final(t)@.common.device_status == 0 && final(t)@.common.kicks == 0,
        old(t)@.common.activated ==> final(t)@.actions == old(t)@.actions.push(
            TransportAction::Stop,
        ),
        !old(t)@.common.activated ==> final(t)@.actions == old(t)@.actions,
        final(t)@.common.queues == old(t)@.common.queues && final(t)@.common.driver_features
            == old(t)@.common.driver_features && final(t)@.config == old(t)@.config && final(t)@.msix == old(t)@.msix && final(t)@.common.isr == old(t)@.common.isr && final(t)@.host
            == old(t)@.host,
        final(u)@.common.isr == isr,
        final(u)@.common.queues == old(u)@.common.queues && final(u)@.actions == old(u)@.actions
            && final(u)@.common.activated == old(u)@.common.activated,
        actions@ == old(w)@.actions,
        final(w)@.actions.len() == 0,
        final(w)@.common == old(w)@.common && final(w)@.msix == old(w)@.msix,
{
}

} // verus!
