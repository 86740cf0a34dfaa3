//! The common configuration of a virtio PCI function: feature negotiation, the
//! device status and the queues.
use vstd::prelude::*;

use crate::virtio::{ActivationOutcome, Queue, TransportAction, NO_VECTOR, VIRTIO_F_VERSION_1};

verus! {

pub const CC_DEVICE_FEATURE_SELECT: u64 = 0x00;

pub const CC_DEVICE_FEATURE: u64 = 0x04;

pub const CC_DRIVER_FEATURE_SELECT: u64 = 0x08;

pub const CC_DRIVER_FEATURE: u64 = 0x0c;

pub const CC_MSIX_CONFIG: u64 = 0x10;

pub const CC_NUM_QUEUES: u64 = 0x12;

pub const CC_DEVICE_STATUS: u64 = 0x14;

pub const CC_CONFIG_GENERATION: u64 = 0x15;

pub const CC_QUEUE_SELECT: u64 = 0x16;

pub const CC_QUEUE_SIZE: u64 = 0x18;

pub const CC_QUEUE_MSIX_VECTOR: u64 = 0x1a;

pub const CC_QUEUE_ENABLE: u64 = 0x1c;

pub const CC_QUEUE_NOTIFY_OFF: u64 = 0x1e;

pub const CC_QUEUE_DESC_LO: u64 = 0x20;

pub const CC_QUEUE_DESC_HI: u64 = 0x24;

pub const CC_QUEUE_AVAIL_LO: u64 = 0x28;

pub const CC_QUEUE_AVAIL_HI: u64 = 0x2c;

pub const CC_QUEUE_USED_LO: u64 = 0x30;

pub const CC_QUEUE_USED_HI: u64 = 0x34;

/// Device status bit: the driver is done with feature negotiation.
pub const STATUS_FEATURES_OK: u8 = 8;

/// Device status bit: the driver is ready to drive the device.
pub const STATUS_DRIVER_OK: u8 = 4;

/// What the driver has set up of a queue.
#[derive(Debug, Clone, Copy, PartialEq, Eq, Structural)]
pub struct QueueConfig {
    pub max_size: u16,
    pub size: u16,
    pub msix_vector: u16,
    pub desc_lo: u32,
    pub desc_hi: u32,
    pub avail_lo: u32,
    pub avail_hi: u32,
    pub used_lo: u32,
    pub used_hi: u32,
    pub enabled: bool,
}

/// An address of which both halves are given.
pub open spec fn joined(hi: u32, lo: u32) -> u64 {
    (hi * 0x1_0000_0000 + lo) as u64
}

fn join(hi: u32, lo: u32) -> (r: u64)
    ensures
        r == joined(hi, lo),
{
    (hi as u64) * 0x1_0000_0000 + lo as u64
}

impl QueueConfig {
    /// A queue of which nothing is set up.
    pub open spec fn fresh(max_size: u16) -> QueueConfig {
        QueueConfig {
            max_size,
            size: max_size,
            msix_vector: NO_VECTOR,
            desc_lo: 0,
            desc_hi: 0,
            avail_lo: 0,
            avail_hi: 0,
            used_lo: 0,
            used_hi: 0,
            enabled: false,
        }
    }

    /// The queue that the device gets.
    pub open spec fn queue(self) -> Queue {
        Queue {
            max_size: self.max_size,
            size: self.size,
            ready: self.enabled,
            desc_table: joined(self.desc_hi, self.desc_lo),
            avail_ring: joined(self.avail_hi, self.avail_lo),
            used_ring: joined(self.used_hi, self.used_lo),
            msix_vector: self.msix_vector,
        }
    }

    /// What reading a queue register gives for the queue of index `index`.
    pub open spec fn value(self, index: u16, offset: u64) -> u32 {
        if offset == CC_QUEUE_SIZE {
            self.size as u32
        } else if offset == CC_QUEUE_MSIX_VECTOR {
            self.msix_vector as u32
        } else if offset == CC_QUEUE_ENABLE {
            if self.enabled {
                1
            } else {
                0
            }
        } else if offset == CC_QUEUE_NOTIFY_OFF {
            index as u32
        } else if offset == CC_QUEUE_DESC_LO {
            self.desc_lo
        } else if offset == CC_QUEUE_DESC_HI {
            self.desc_hi
        } else if offset == CC_QUEUE_AVAIL_LO {
            self.avail_lo
        } else if offset == CC_QUEUE_AVAIL_HI {
            self.avail_hi
        } else if offset == CC_QUEUE_USED_LO {
            self.used_lo
        } else if offset == CC_QUEUE_USED_HI {
            self.used_hi
        } else {
            0
        }
    }

    /// The queue after a write of a queue register. A queue once enabled stays
    /// so until the device is reset.
    pub open spec fn written(self, offset: u64, val: u32) -> QueueConfig {
        if offset == CC_QUEUE_SIZE {
            QueueConfig { size: val as u16, ..self }
        } else if offset == CC_QUEUE_MSIX_VECTOR {
            QueueConfig { msix_vector: val as u16, ..self }
        } else if offset == CC_QUEUE_ENABLE && val != 0 {
            QueueConfig { enabled: true, ..self }
        } else if offset == CC_QUEUE_DESC_LO {
            QueueConfig { desc_lo: val, ..self }
        } else if offset == CC_QUEUE_DESC_HI {
            QueueConfig { desc_hi: val, ..self }
        } else if offset == CC_QUEUE_AVAIL_LO {
            QueueConfig { avail_lo: val, ..self }
        } else if offset == CC_QUEUE_AVAIL_HI {
            QueueConfig { avail_hi: val, ..self }
        } else if offset == CC_QUEUE_USED_LO {
            QueueConfig { used_lo: val, ..self }
        } else if offset == CC_QUEUE_USED_HI {
            QueueConfig { used_hi: val, ..self }
        } else {
            self
        }
    }

    fn new(max_size: u16) -> (r: QueueConfig)
        ensures
            r == QueueConfig::fresh(max_size),
    {
        QueueConfig {
            max_size,
            size: max_size,
            msix_vector: NO_VECTOR,
            desc_lo: 0,
            desc_hi: 0,
            avail_lo: 0,
            avail_hi: 0,
            used_lo: 0,
            used_hi: 0,
            enabled: false,
        }
    }

    /// The queue that the device gets.
    fn to_queue(&self) -> (r: Queue)
        ensures
            r == self.queue(),
    {
        Queue {
            max_size: self.max_size,
            size: self.size,
            ready: self.enabled,
            desc_table: join(self.desc_hi, self.desc_lo),
            avail_ring: join(self.avail_hi, self.avail_lo),
            used_ring: join(self.used_hi, self.used_lo),
            msix_vector: self.msix_vector,
        }
    }

    fn read(&self, index: u16, offset: u64) -> (r: u32)
        ensures
            r == self.value(index, offset),
    {
        match offset {
            CC_QUEUE_SIZE => self.size as u32,
            CC_QUEUE_MSIX_VECTOR => self.msix_vector as u32,
            CC_QUEUE_ENABLE => if self.enabled {
                1
            } else {
                0
            },
            CC_QUEUE_NOTIFY_OFF => index as u32,
            CC_QUEUE_DESC_LO => self.desc_lo,
            CC_QUEUE_DESC_HI => self.desc_hi,
            CC_QUEUE_AVAIL_LO => self.avail_lo,
            CC_QUEUE_AVAIL_HI => self.avail_hi,
            CC_QUEUE_USED_LO => self.used_lo,
            CC_QUEUE_USED_HI => self.used_hi,
            _ => 0,
        }
    }

    fn write(&mut self, offset: u64, val: u32)
        ensures
            *final(self) == old(self).written(offset, val),
    {
        match offset {
            CC_QUEUE_SIZE => {
                self.size = val as u16;
            },
            CC_QUEUE_MSIX_VECTOR => {
                self.msix_vector = val as u16;
            },
            CC_QUEUE_ENABLE => {
                if val != 0 {
                    self.enabled = true;
                }
            },
            CC_QUEUE_DESC_LO => {
                self.desc_lo = val;
            },
            CC_QUEUE_DESC_HI => {
                self.desc_hi = val;
            },
            CC_QUEUE_AVAIL_LO => {
                self.avail_lo = val;
            },
            CC_QUEUE_AVAIL_HI => {
                self.avail_hi = val;
            },
            CC_QUEUE_USED_LO => {
                self.used_lo = val;
            },
            CC_QUEUE_USED_HI => {
                self.used_hi = val;
            },
            _ => {},
        }
    }
}

/// The common configuration.
#[derive(Debug)]
pub struct CommonConfig {
    pub device_features: u64,
    pub num_queues: u16,
    pub device_feature_select: u32,
    pub driver_feature_select: u32,
    pub driver_features: u64,
    pub device_status: u8,
    pub config_generation: u8,
    pub queue_select: u16,
    pub msix_config_vector: u16,
    pub queues: Vec<QueueConfig>,
    /// Interrupt status; reading it clears it.
    pub isr: u8,
    /// Whether the device runs.
    pub activated: bool,
    /// How many queues can be woken.
    pub kicks: usize,
}

/// A [`CommonConfig`] with its queues as a sequence.
pub struct CommonView {
    pub device_features: u64,
    pub num_queues: u16,
    pub device_feature_select: u32,
    pub driver_feature_select: u32,
    pub driver_features: u64,
    pub device_status: u8,
    pub config_generation: u8,
    pub queue_select: u16,
    pub msix_config_vector: u16,
    pub queues: Seq<QueueConfig>,
    pub isr: u8,
    pub activated: bool,
    pub kicks: usize,
}

impl View for CommonConfig {
    type V = CommonView;

    open spec fn view(&self) -> CommonView {
        CommonView {
            device_features: self.device_features,
            num_queues: self.num_queues,
            device_feature_select: self.device_feature_select,
            driver_feature_select: self.driver_feature_select,
            driver_features: self.driver_features,
            device_status: self.device_status,
            config_generation: self.config_generation,
            queue_select: self.queue_select,
            msix_config_vector: self.msix_config_vector,
            queues: self.queues@,
            isr: self.isr,
            activated: self.activated,
            kicks: self.kicks,
        }
    }
}

/// One 32-bit page of a feature set.
pub open spec fn feature_page(features: u64, page: u32) -> u32 {
    if page == 0 {
        features as u32
    } else if page == 1 {
        (features >> 32) as u32
    } else {
        0
    }
}

/// Queues of which nothing is set up.
pub open spec fn fresh_queues(sizes: Seq<u16>) -> Seq<QueueConfig> {
    sizes.map_values(|n: u16| QueueConfig::fresh(n))
}

/// The enabled queues among the first `n`, as the device gets them.
pub open spec fn enabled_queues(queues: Seq<QueueConfig>, n: int) -> Seq<Queue>
    decreases n,
{
    if n <= 0 || n > queues.len() {
        Seq::empty()
    } else if queues[n - 1].enabled {
        enabled_queues(queues, n - 1).push(queues[n - 1].queue())
    } else {
        enabled_queues(queues, n - 1)
    }
}

impl CommonView {
    /// A function that no driver has touched.
    pub open spec fn initial(features: u64, sizes: Seq<u16>) -> CommonView {
        CommonView {
            device_features: features,
            num_queues: sizes.len() as u16,
            device_feature_select: 0,
            driver_feature_select: 0,
            driver_features: 0,
            device_status: 0,
            config_generation: 0,
            queue_select: 0,
            msix_config_vector: NO_VECTOR,
            queues: fresh_queues(sizes),
            isr: 0,
            activated: false,
            kicks: 0,
        }
    }

    /// The driver has no feature that the device does not offer.
    pub open spec fn negotiated(self) -> bool {
        self.driver_features & !self.device_features == 0
    }

    /// What reading a register gives.
    pub open spec fn value(self, offset: u64) -> u32 {
        if offset == CC_DEVICE_FEATURE_SELECT {
            self.device_feature_select
        } else if offset == CC_DEVICE_FEATURE {
            feature_page(self.device_features, self.device_feature_select)
        } else if offset == CC_DRIVER_FEATURE_SELECT {
            self.driver_feature_select
        } else if offset == CC_DRIVER_FEATURE {
            feature_page(self.driver_features, self.driver_feature_select)
        } else if offset == CC_MSIX_CONFIG {
            self.msix_config_vector as u32
        } else if offset == CC_NUM_QUEUES {
            self.num_queues as u32
        } else if offset == CC_DEVICE_STATUS {
            self.device_status as u32
        } else if offset == CC_CONFIG_GENERATION {
            self.config_generation as u32
        } else if offset == CC_QUEUE_SELECT {
            self.queue_select as u32
        } else if self.queue_select < self.queues.len() {
            self.queues[self.queue_select as int].value(self.queue_select, offset)
        } else {
            0
        }
    }

    /// The features of the driver after it wrote the selected page: those of the
    /// page that the device offers, and the other page as it was.
    pub open spec fn features_written(self, val: u32) -> u64 {
        if self.driver_feature_select == 0 {
            (self.driver_features & 0xffff_ffff_0000_0000) | (val as u64 & (self.device_features
                & 0xffff_ffff))
        } else if self.driver_feature_select == 1 {
            (self.driver_features & 0xffff_ffff) | ((val as u64 & (self.device_features >> 32))
                << 32)
        } else {
            self.driver_features
        }
    }

    /// The device status that a write of a status other than zero leaves:
    /// without version 1 the driver's features are not accepted.
    pub open spec fn accepted_status(self, status: u8) -> u8 {
        if status & STATUS_FEATURES_OK != 0 && self.driver_features & VIRTIO_F_VERSION_1 == 0 {
            status & !STATUS_FEATURES_OK
        } else {
            status
        }
    }

    /// The configuration after a reset.
    pub open spec fn reset(self) -> CommonView {
        CommonView {
            device_status: 0,
            driver_features: 0,
            device_feature_select: 0,
            driver_feature_select: 0,
            queue_select: 0,
            activated: false,
            queues: self.queues.map_values(|q: QueueConfig| QueueConfig::fresh(q.max_size)),
            ..self
        }
    }

    /// The configuration after a write of a register.
    pub open spec fn written(self, offset: u64, val: u32) -> CommonView {
        if offset == CC_DEVICE_FEATURE_SELECT {
            CommonView { device_feature_select: val, ..self }
        } else if offset == CC_DRIVER_FEATURE_SELECT {
            CommonView { driver_feature_select: val, ..self }
        } else if offset == CC_DRIVER_FEATURE {
            CommonView { driver_features: self.features_written(val), ..self }
        } else if offset == CC_MSIX_CONFIG {
            CommonView { msix_config_vector: val as u16, ..self }
        } else if offset == CC_DEVICE_STATUS {
            if val as u8 == 0 {
                self.reset()
            } else {
                CommonView { device_status: self.accepted_status(val as u8), ..self }
            }
        } else if offset == CC_QUEUE_SELECT {
            CommonView { queue_select: val as u16, ..self }
        } else if self.queue_select < self.queues.len() {
            CommonView {
                queues: self.queues.update(
                    self.queue_select as int,
                    self.queues[self.queue_select as int].written(offset, val),
                ),
                ..self
            }
        } else {
            self
        }
    }

    /// What the owner is asked to do after a write of a register.
    pub open spec fn action(self, offset: u64, val: u32) -> Option<TransportAction> {
        if offset != CC_DEVICE_STATUS {
            None
        } else if val as u8 == 0 {
            if self.activated {
                Some(TransportAction::Stop)
            } else {
                None
            }
        } else if val as u8 & STATUS_DRIVER_OK != 0 && !self.activated {
            Some(TransportAction::Activate)
        } else {
            None
        }
    }

    /// The configuration once the owner has tried to start the device.
    pub open spec fn started(self, outcome: ActivationOutcome) -> CommonView {
        match outcome {
            ActivationOutcome::NoKicks => self,
            ActivationOutcome::Refused(kicks) => CommonView { kicks, ..self },
            ActivationOutcome::Running(kicks) => CommonView { kicks, activated: true, ..self },
        }
    }
}

impl CommonConfig {
    pub fn new(features: u64, sizes: &[u16]) -> (r: CommonConfig)
        ensures
            r@ == CommonView::initial(features, sizes@),
            r@.negotiated(),
    {
        let mut queues: Vec<QueueConfig> = Vec::new();
        let mut i: usize = 0;
        while i < sizes.len()
            invariant
                i <= sizes@.len(),
                queues@.len() == i,
                forall|k: int|
                    0 <= k < i ==> #[trigger] queues@[k] == QueueConfig::fresh(sizes@[k]),
            decreases sizes@.len() - i,
        {
            queues.push(QueueConfig::new(sizes[i]));
            i = i + 1;
        }
        assert(queues@ =~= fresh_queues(sizes@));
        proof {
            lemma_nothing_is_offered(features);
        }
        CommonConfig {
            device_features: features,
            num_queues: sizes.len() as u16,
            device_feature_select: 0,
            driver_feature_select: 0,
            driver_features: 0,
            device_status: 0,
            config_generation: 0,
            queue_select: 0,
            msix_config_vector: NO_VECTOR,
            queues,
            isr: 0,
            activated: false,
            kicks: 0,
        }
    }

    /// Reads a register.
    pub fn read(&self, offset: u64) -> (r: u32)
        ensures
            r == self@.value(offset),
    {
        match offset {
            CC_DEVICE_FEATURE_SELECT => self.device_feature_select,
            CC_DEVICE_FEATURE => page_of(self.device_features, self.device_feature_select),
            CC_DRIVER_FEATURE_SELECT => self.driver_feature_select,
            CC_DRIVER_FEATURE => page_of(self.driver_features, self.driver_feature_select),
            CC_MSIX_CONFIG => self.msix_config_vector as u32,
            CC_NUM_QUEUES => self.num_queues as u32,
            CC_DEVICE_STATUS => self.device_status as u32,
            CC_CONFIG_GENERATION => self.config_generation as u32,
            CC_QUEUE_SELECT => self.queue_select as u32,
            _ => {
                let qi: usize = self.queue_select as usize;
                if qi >= self.queues.len() {
                    0
                } else {
                    self.queues[qi].read(self.queue_select, offset)
                }
            },
        }
    }

    /// Writes a register and says what the owner has to do about it.
    pub fn write(&mut self, offset: u64, val: u32) -> (r: Option<TransportAction>)
        requires
            old(self)@.negotiated(),
        ensures
            final(self)@ == old(self)@.written(offset, val),
            r == old(self)@.action(offset, val),
            final(self)@.negotiated(),
    {
        match offset {
            CC_DEVICE_FEATURE_SELECT => {
                self.device_feature_select = val;
                None
            },
            CC_DRIVER_FEATURE_SELECT => {
                self.driver_feature_select = val;
                None
            },
            CC_DRIVER_FEATURE => {
                self.write_features(val);
                None
            },
            CC_MSIX_CONFIG => {
                self.msix_config_vector = val as u16;
                None
            },
            CC_DEVICE_STATUS => self.write_device_status(val as u8),
            CC_QUEUE_SELECT => {
                self.queue_select = val as u16;
                None
            },
            _ => {
                let qi: usize = self.queue_select as usize;
                if qi < self.queues.len() {
                    let mut qc: QueueConfig = self.queues[qi];
                    qc.write(offset, val);
                    self.queues.set(qi, qc);
                }
                None
            },
        }
    }

    fn write_features(&mut self, val: u32)
        requires
            old(self)@.negotiated(),
        ensures
            final(self)@ == (CommonView {
                driver_features: old(self)@.features_written(val),
                ..old(self)@
            }),
            final(self)@.negotiated(),
    {
        let d: u64 = self.device_features;
        let f: u64 = self.driver_features;
        proof {
            assert(f & !d == 0 ==> ((f & 0xffff_ffff_0000_0000) | (val as u64 & (d & 0xffff_ffff)))
                & !d == 0 && ((f & 0xffff_ffff) | ((val as u64 & (d >> 32)) << 32)) & !d == 0)
                by (bit_vector);
        }
        if self.driver_feature_select == 0 {
            let accepted: u64 = val as u64 & (d & 0xffff_ffff);
            self.driver_features = (f & 0xffff_ffff_0000_0000) | accepted;
        } else if self.driver_feature_select == 1 {
            let accepted: u64 = val as u64 & (d >> 32);
            self.driver_features = (f & 0xffff_ffff) | (accepted << 32);
        }
    }

    /// The device status machine.
    fn write_device_status(&mut self, new_status: u8) -> (r: Option<TransportAction>)
        requires
            old(self)@.negotiated(),
        ensures
            final(self)@ == if new_status == 0 {
                old(self)@.reset()
            } else {
                CommonView { device_status: old(self)@.accepted_status(new_status), ..old(self)@ }
            },
            r == if new_status == 0 {
                if old(self).activated {
                    Some(TransportAction::Stop)
                } else {
                    None
                }
            } else if new_status & STATUS_DRIVER_OK != 0 && !old(self).activated {
                Some(TransportAction::Activate)
            } else {
                None
            },
            final(self)@.negotiated(),
    {
        let was_running: bool = self.activated;
        if new_status == 0 {
            self.device_status = 0;
            self.driver_features = 0;
            self.device_feature_select = 0;
            self.driver_feature_select = 0;
            self.queue_select = 0;
            self.activated = false;
            self.reset_queues();
            let d: u64 = self.device_features;
            proof {
                lemma_nothing_is_offered(d);
            }
            return if was_running {
                Some(TransportAction::Stop)
            } else {
                None
            };
        }
        self.device_status = new_status;
        if new_status & STATUS_FEATURES_OK != 0 && self.driver_features & VIRTIO_F_VERSION_1 == 0 {
            self.device_status = new_status & !STATUS_FEATURES_OK;
        }
        if new_status & STATUS_DRIVER_OK != 0 && !was_running {
            return Some(TransportAction::Activate);
        }
        None
    }

    fn reset_queues(&mut self)
        ensures
            final(self)@ == (CommonView {
                queues: old(self)@.queues.map_values(
                    |q: QueueConfig| QueueConfig::fresh(q.max_size),
                ),
                ..old(self)@
            }),
    {
        let mut queues: Vec<QueueConfig> = Vec::new();
        let mut i: usize = 0;
        while i < self.queues.len()
            invariant
                i <= self.queues@.len(),
                queues@.len() == i,
                forall|k: int|
                    0 <= k < i ==> #[trigger] queues@[k] == QueueConfig::fresh(
                        self.queues@[k].max_size,
                    ),
            decreases self.queues@.len() - i,
        {
            queues.push(QueueConfig::new(self.queues[i].max_size));
            i = i + 1;
        }
        assert(queues@ =~= old(self)@.queues.map_values(
            |q: QueueConfig| QueueConfig::fresh(q.max_size),
        ));
        self.queues = queues;
    }

    /// The queues that a device is started on: the enabled ones.
    pub fn activation_queues(&self) -> (r: Vec<Queue>)
        ensures
            r@ == enabled_queues(self@.queues, self@.queues.len() as int),
    {
        let mut out: Vec<Queue> = Vec::new();
        let mut i: usize = 0;
        while i < self.queues.len()
            invariant
                i <= self.queues@.len(),
                out@ == enabled_queues(self.queues@, i as int),
            decreases self.queues@.len() - i,
        {
            if self.queues[i].enabled {
                out.push(self.queues[i].to_queue());
            }
            i = i + 1;
        }
        out
    }

    /// Takes note of how starting the device went.
    pub fn activation_done(&mut self, outcome: ActivationOutcome)
        ensures
            final(self)@ == old(self)@.started(outcome),
    {
        match outcome {
            ActivationOutcome::NoKicks => {},
            ActivationOutcome::Refused(kicks) => {
                self.kicks = kicks;
            },
            ActivationOutcome::Running(kicks) => {
                self.kicks = kicks;
                self.activated = true;
            },
        }
    }
}

fn page_of(features: u64, page: u32) -> (r: u32)
    ensures
        r == feature_page(features, page),
{
    if page == 0 {
        features as u32
    } else if page == 1 {
        (features >> 32) as u32
    } else {
        0
    }
}

/// A driver without features has none that the device does not offer.
proof fn lemma_nothing_is_offered(d: u64)
    ensures
        0u64 & !d == 0,
{
    assert(0u64 & !d == 0) by (bit_vector);
}

/// No write, of whatever register, gives the driver a feature that the device
/// does not offer.
pub proof fn law_driver_features_are_offered(c: CommonView, offset: u64, val: u32)
    requires
        c.negotiated(),
    ensures
        c.written(offset, val).negotiated(),
{
    let d = c.device_features;
    let f = c.driver_features;
    lemma_nothing_is_offered(d);
    assert(f & !d == 0 ==> ((f & 0xffff_ffff_0000_0000) | (val as u64 & (d & 0xffff_ffff))) & !d
        == 0 && ((f & 0xffff_ffff) | ((val as u64 & (d >> 32)) << 32)) & !d == 0) by (bit_vector);
}

/// The driver sees its features accepted only if version 1 is among them.
pub proof fn law_features_ok_needs_version_1(c: CommonView, val: u32)
    requires
        c.written(CC_DEVICE_STATUS, val).device_status & STATUS_FEATURES_OK != 0,
    ensures
        c.driver_features & VIRTIO_F_VERSION_1 != 0,
{
    let status = val as u8;
    assert((status & !8u8) & 8u8 == 0 && 0u8 & 8u8 == 0) by (bit_vector);
}

/// A reset leaves nothing of what the driver set up, but for the vector of
/// configuration changes.
pub proof fn law_reset_forgets_the_driver(c: CommonView)
    ensures
        c.written(CC_DEVICE_STATUS, 0).driver_features == 0,
        c.written(CC_DEVICE_STATUS, 0).device_status == 0,
        !c.written(CC_DEVICE_STATUS, 0).activated,
        c.written(CC_DEVICE_STATUS, 0).queues == fresh_queues(
            c.queues.map_values(|q: QueueConfig| q.max_size),
        ),
{
    assert(c.reset().queues =~= fresh_queues(c.queues.map_values(|q: QueueConfig| q.max_size)));
    assert(0u32 as u8 == 0u8);
}

/// The device is started on a queue whose addresses are what the driver wrote last:
/// each pair of registers gives one address and touches no other.
pub proof fn law_started_queue_has_the_written_addresses(c: CommonView, lo: u32, hi: u32)
    requires
        c.queue_select < c.queues.len(),
    ensures
        ({
            let k = c.queue_select as int;
            let q = c.queues[k].queue();
            let desc = c.written(0x20, lo).written(0x24, hi).queues[k].queue();
            let avail = c.written(0x28, lo).written(0x2c, hi).queues[k].queue();
            let used = c.written(0x30, lo).written(0x34, hi).queues[k].queue();
            let address = hi * 0x1_0000_0000 + lo;
            &&& desc.desc_table == address && desc.avail_ring == q.avail_ring && desc.used_ring
                == q.used_ring
            &&& avail.avail_ring == address && avail.desc_table == q.desc_table && avail.used_ring
                == q.used_ring
            &&& used.used_ring == address && used.desc_table == q.desc_table && used.avail_ring
                == q.avail_ring
            &&& c.written(0x24, hi).written(0x20, lo).queues[k].queue().desc_table == address
            &&& c.written(0x2c, hi).written(0x28, lo).queues[k].queue().avail_ring == address
            &&& c.written(0x34, hi).written(0x30, lo).queues[k].queue().used_ring == address
        }),
{
}

/// The device is started on a queue with the size and the vector that the driver wrote
/// last, and with the largest size that the device gave.
pub proof fn law_started_queue_has_the_written_size(c: CommonView, val: u32)
    requires
        c.queue_select < c.queues.len(),
        val <= 0xffff,
    ensures
        ({
            let k = c.queue_select as int;
            let q = c.queues[k].queue();
            let sized = c.written(0x18, val).queues[k].queue();
            let vectored = c.written(0x1a, val).queues[k].queue();
            let enabled = c.written(0x1c, val).queues[k].queue();
            &&& sized.size == val && sized.msix_vector == q.msix_vector && sized.ready == q.ready
            &&& vectored.msix_vector == val && vectored.size == q.size && vectored.ready == q.ready
            &&& enabled.ready == (q.ready || val != 0) && enabled.size == q.size
                && enabled.msix_vector == q.msix_vector
            &&& sized.max_size == c.queues[k].max_size
            &&& vectored.max_size == c.queues[k].max_size
            &&& enabled.max_size == c.queues[k].max_size
            &&& q.max_size == c.queues[k].max_size
        }),
{
}

proof fn lemma_enabled_queues(queues: Seq<QueueConfig>, n: int)
    requires
        0 <= n <= queues.len(),
    ensures
        enabled_queues(queues, n) == queues.take(n).filter(|q: QueueConfig| q.enabled).map_values(
            |q: QueueConfig| q.queue(),
        ),
    decreases n,
{
    reveal(Seq::filter);
    if n > 0 {
        lemma_enabled_queues(queues, n - 1);
        assert(queues.take(n).drop_last() =~= queues.take(n - 1));
        assert(enabled_queues(queues, n) =~= queues.take(n).filter(
            |q: QueueConfig| q.enabled,
        ).map_values(|q: QueueConfig| q.queue()));
    } else {
        assert(queues.take(0) =~= Seq::empty());
        assert(enabled_queues(queues, 0) =~= queues.take(0).filter(
            |q: QueueConfig| q.enabled,
        ).map_values(|q: QueueConfig| q.queue()));
    }
}

/// The device is started on the queues that the driver enabled, in their order, and
/// every one of them is ready.
pub proof fn law_device_starts_on_enabled_queues(queues: Seq<QueueConfig>)
    ensures
        enabled_queues(queues, queues.len() as int) == queues.filter(
            |q: QueueConfig| q.enabled,
        ).map_values(|q: QueueConfig| q.queue()),
        forall|i: int|
            0 <= i < enabled_queues(queues, queues.len() as int).len() ==> (
            #[trigger] enabled_queues(queues, queues.len() as int)[i]).ready,
{
    lemma_enabled_queues(queues, queues.len() as int);
    assert(queues.take(queues.len() as int) =~= queues);
    let kept = queues.filter(|q: QueueConfig| q.enabled);
    assert forall|i: int| 0 <= i < kept.len() implies (#[trigger] kept[i]).enabled by {
        queues.lemma_filter_pred(|q: QueueConfig| q.enabled, i);
    }
}

/// A write of one register changes what reading another gives only where it selects
/// what the other shows, or resets the device.
pub proof fn law_registers_are_apart(c: CommonView, offset: u64, val: u32, other: u64)
    requires
        offset != other,
        offset != 0x14 || val % 0x100 != 0,
        !(offset == 0x00 && other == 0x04),
        !(offset == 0x08 && other == 0x0c),
        offset == 0x16 ==> other < 0x18,
    ensures
        c.written(offset, val).value(other) == c.value(other),
{
    assert(val as u8 == val % 0x100) by (bit_vector);
}

/// A register that the driver sets reads back as it was written.
pub proof fn law_registers_read_back(c: CommonView, val: u32)
    ensures
        c.written(0x00, val).value(0x00) == val,
        c.written(0x08, val).value(0x08) == val,
        val <= 0xffff ==> c.written(0x10, val).value(0x10) == val,
        val <= 0xffff ==> c.written(0x16, val).value(0x16) == val,
        c.queue_select < c.queues.len() ==> {
            &&& val <= 0xffff ==> c.written(0x18, val).value(0x18) == val
            &&& val <= 0xffff ==> c.written(0x1a, val).value(0x1a) == val
            &&& val != 0 ==> c.written(0x1c, val).value(0x1c) == 1
            &&& c.written(0x1c, 0).value(0x1c) == c.value(0x1c)
            &&& c.value(0x1e) == c.queue_select
            &&& c.written(0x20, val).value(0x20) == val
            &&& c.written(0x24, val).value(0x24) == val
            &&& c.written(0x28, val).value(0x28) == val
            &&& c.written(0x2c, val).value(0x2c) == val
            &&& c.written(0x30, val).value(0x30) == val
            &&& c.written(0x34, val).value(0x34) == val
        },
        c.queue_select >= c.queues.len() ==> forall|o: u64|
            o >= 0x18 ==> #[trigger] c.value(o) == 0,
        c.value(0x12) == c.num_queues,
        c.value(0x14) == c.device_status,
        c.value(0x15) == c.config_generation,
{
}

/// The two pages of the features make up the features, and no other page has any.
pub proof fn law_feature_pages_make_up_the_features(c: CommonView, page: u32)
    ensures
        c.written(0x00, 1).value(0x04) * 0x1_0000_0000 + c.written(0x00, 0).value(0x04)
            == c.device_features,
        c.written(0x08, 1).value(0x0c) * 0x1_0000_0000 + c.written(0x08, 0).value(0x0c)
            == c.driver_features,
        page > 1 ==> c.written(0x00, page).value(0x04) == 0 && c.written(0x08, page).value(0x0c)
            == 0,
{
    let (d, f) = (c.device_features, c.driver_features);
    assert(d as u32 == d % 0x1_0000_0000 && (d >> 32) as u32 == d / 0x1_0000_0000 && f as u32 == f
        % 0x1_0000_0000 && (f >> 32) as u32 == f / 0x1_0000_0000) by (bit_vector);
}

/// What the driver takes of a page is what it asked for and the device offers there,
/// and the other page stays.
pub proof fn law_driver_takes_what_is_offered(c: CommonView, val: u32, page: u32)
    requires
        page <= 1,
    ensures
        ({
            let before = c.written(0x08, page);
            let after = before.written(0x0c, val);
            &&& after.value(0x0c) == val & c.written(0x00, page).value(0x04)
            &&& after.written(0x08, (1 - page) as u32).value(0x0c) == c.written(
                0x08,
                (1 - page) as u32,
            ).value(0x0c)
        }),
{
    let (d, f) = (c.device_features, c.driver_features);
    let lo = (f & 0xffff_ffff_0000_0000) | (val as u64 & (d & 0xffff_ffff));
    let hi = (f & 0xffff_ffff) | ((val as u64 & (d >> 32)) << 32);
    assert(lo == (f & 0xffff_ffff_0000_0000) | (val as u64 & (d & 0xffff_ffff)) && hi == (f
        & 0xffff_ffff) | ((val as u64 & (d >> 32)) << 32) ==> lo as u32 == val & (d as u32) && (lo
        >> 32) as u32 == (f >> 32) as u32 && (hi >> 32) as u32 == val & ((d >> 32) as u32)
        && hi as u32 == f as u32) by (bit_vector);
}

/// The status that the driver sees is the one that it wrote, but for the acceptance of
/// features that lack version 1.
pub proof fn law_status_is_what_was_written(c: CommonView, status: u8)
    requires
        status != 0,
    ensures
        ({
            let after = c.written(0x14, status as u32).device_status;
            &&& after & 0xf7 == status & 0xf7
            &&& after & 8 == if c.driver_features & 0x1_0000_0000 != 0 {
                status & 8
            } else {
                0
            }
        }),
        c.written(0x14, status as u32).queues == c.queues,
        c.written(0x14, status as u32).driver_features == c.driver_features,
{
    assert((status as u32) as u8 == status && (status & !8u8) & 0xf7 == status & 0xf7 && (status
        & !8u8) & 8 == 0 && (status & 8 != 0 || status & 8 == 0)) by (bit_vector);
}

/// The device is asked to start when the driver is ready and it does not run, to stop
/// when a running device is reset, and no other write asks for anything.
pub proof fn law_status_starts_and_stops_the_device(c: CommonView, offset: u64, val: u32)
    requires
        val < 0x100,
    ensures
        c.action(offset, val) == Some(TransportAction::Activate) <==> offset == 0x14 && val / 4 % 2
            == 1 && !c.activated,
        c.action(offset, val) == Some(TransportAction::Stop) <==> offset == 0x14 && val == 0
            && c.activated,
        c.action(offset, val) matches Some(a) ==> a is Activate || a is Stop,
        c.written(offset, val).activated == (c.activated && !(offset == 0x14 && val == 0)),
        forall|n: usize|
            (#[trigger] c.started(ActivationOutcome::Running(n))).activated && c.started(
                ActivationOutcome::Running(n),
            ).kicks == n,
        forall|n: usize|
            (#[trigger] c.started(ActivationOutcome::Refused(n))).activated == c.activated
                && c.started(ActivationOutcome::Refused(n)).kicks == n,
        c.started(ActivationOutcome::NoKicks) == c,
{
    let v = val as u8;
    assert(val < 0x100 && v == val as u8 ==> v == val && (v & 4 != 0) == (val / 4 % 2 == 1))
        by (bit_vector);
}

} // verus!
