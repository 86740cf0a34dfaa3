//! A virtio function on the PCI bus.
use vstd::prelude::*;

use crate::pci::bus::{BarRegion, PciDevice, PciError, SlotHost};
use crate::pci::msix::MsixNotifier;
use crate::pci_virtio::transport::{TransportView, VirtioPciDevice, BAR0_SIZE, BAR2_SIZE};
use crate::virtio::{ActivationOutcome, Queue, TransportAction, VirtioDevice};

verus! {

/// A [`VirtioPciDevice`] that can be put on the bus.
#[derive(Debug)]
pub struct VirtioPciAdapter<D, N, H> {
    inner: VirtioPciDevice<D, N, H>,
    bar_regions: Vec<BarRegion>,
}

/// The BARs of a virtio function.
pub open spec fn virtio_bars(bar0_gpa: u64, bar2_gpa: u64) -> Seq<BarRegion> {
    seq![
        BarRegion { bar_idx: 0, base_gpa: bar0_gpa, size: BAR0_SIZE },
        BarRegion { bar_idx: 2, base_gpa: bar2_gpa, size: BAR2_SIZE },
    ]
}

/// What the bus learns of an access that was handled or not.
pub open spec fn access_result(handled: bool) -> Result<(), PciError> {
    if handled {
        Ok(())
    } else {
        Err(PciError::Unsupported)
    }
}

impl<D: VirtioDevice, N: MsixNotifier, H: Clone> VirtioPciAdapter<D, N, H> {
    pub closed spec fn function(&self) -> TransportView<D, N, H> {
        self.inner@
    }

    pub closed spec fn regions(&self) -> Seq<BarRegion> {
        self.bar_regions@
    }

    pub fn new(inner: VirtioPciDevice<D, N, H>) -> (r: VirtioPciAdapter<D, N, H>)
        requires
            inner@.wf(),
        ensures
            r.wf(),
            r.function() == inner@,
    {
        let mut bar_regions: Vec<BarRegion> = Vec::new();
        let regions = inner.bar_regions();
        bar_regions.push(
            BarRegion { bar_idx: regions[0].0, base_gpa: regions[0].1, size: regions[0].2 },
        );
        bar_regions.push(
            BarRegion { bar_idx: regions[1].0, base_gpa: regions[1].1, size: regions[1].2 },
        );
        assert(bar_regions@ =~= virtio_bars(inner@.bar0_gpa, inner@.bar2_gpa));
        VirtioPciAdapter { inner, bar_regions }
    }

    /// The queues that the device is started on.
    pub fn activation_queues(&self) -> (r: Vec<Queue>)
        ensures
            r@ == crate::pci_virtio::common::enabled_queues(
                self.function().common.queues,
                self.function().common.queues.len() as int,
            ),
    {
        self.inner.activation_queues()
    }

    /// Takes note of how starting the device went.
    pub fn activation_done(&mut self, outcome: ActivationOutcome)
        ensures
            final(self).function() == (TransportView {
                common: old(self).function().common.started(outcome),
                ..old(self).function()
            }),
            final(self).regions() == old(self).regions(),
    {
        self.inner.activation_done(outcome);
    }

    /// Hands over what the owner has to do.
    pub fn take_actions(&mut self) -> (r: Vec<TransportAction>)
        ensures
            r@ == old(self).function().actions,
            final(self).function() == (TransportView {
                actions: Seq::<TransportAction>::empty(),
                ..old(self).function()
            }),
            final(self).regions() == old(self).regions(),
    {
        self.inner.take_actions()
    }
}

impl<D: VirtioDevice, N: MsixNotifier, H: Clone> PciDevice for VirtioPciAdapter<D, N, H> {
    type Host = H;

    open spec fn wf(&self) -> bool {
        &&& self.function().wf()
        &&& self.regions() == virtio_bars(self.function().bar0_gpa, self.function().bar2_gpa)
    }

    open spec fn label(&self) -> Seq<char> {
        "virtio-pci"@
    }

    open spec fn config_value(&self, reg_idx: usize) -> u32 {
        self.function().config.reg(reg_idx as int)
    }

    open spec fn config_write_step(
        before: VirtioPciAdapter<D, N, H>,
        reg_idx: usize,
        offset: u64,
        data: Seq<u8>,
        after: VirtioPciAdapter<D, N, H>,
        r: Result<(), PciError>,
    ) -> bool {
        &&& r is Ok
        &&& after.regions() == before.regions()
        &&& before.function().config_written(reg_idx, offset, data, after.function())
    }

    open spec fn bars(&self) -> Seq<BarRegion> {
        self.regions()
    }

    open spec fn vector_count(&self) -> u16 {
        self.function().msix.entries.len() as u16
    }

    open spec fn bar_read_step(
        before: VirtioPciAdapter<D, N, H>,
        bar_idx: u8,
        offset: u64,
        data: Seq<u8>,
        after: VirtioPciAdapter<D, N, H>,
        out: Seq<u8>,
        r: Result<(), PciError>,
    ) -> bool {
        &&& after.regions() == before.regions()
        &&& r == access_result(r is Ok)
        &&& before.function().bar_read(bar_idx, offset, data, after.function(), out, r is Ok)
    }

    open spec fn bar_write_step(
        before: VirtioPciAdapter<D, N, H>,
        bar_idx: u8,
        offset: u64,
        data: Seq<u8>,
        after: VirtioPciAdapter<D, N, H>,
        r: Result<(), PciError>,
    ) -> bool {
        &&& after.regions() == before.regions()
        &&& r == access_result(r is Ok)
        &&& before.function().bar_written(bar_idx, offset, data, after.function(), r is Ok)
    }

    open spec fn host_step(
        before: VirtioPciAdapter<D, N, H>,
        host: SlotHost<H>,
        after: VirtioPciAdapter<D, N, H>,
    ) -> bool {
        &&& after.regions() == before.regions()
        &&& after.function() == (TransportView { host: Some(host), ..before.function() })
    }

    fn config_read(&self, reg_idx: usize) -> (r: u32) {
        self.inner.config_read(reg_idx)
    }

    fn config_write(&mut self, reg_idx: usize, offset: u64, data: &[u8]) -> (r: Result<
        (),
        PciError,
    >) {
        self.inner.config_write(reg_idx, offset, data);
        Ok(())
    }

    fn name(&self) -> (r: &str) {
        "virtio-pci"
    }

    fn bar_regions(&self) -> (r: &[BarRegion]) {
        self.bar_regions.as_slice()
    }

    fn msix_vectors(&self) -> (r: u16) {
        self.inner.msix_vectors()
    }

    fn bar_read(&mut self, bar_idx: u8, offset: u64, data: &mut [u8]) -> (r: Result<
        (),
        PciError,
    >) {
        if self.inner.bar_read(bar_idx, offset, data) {
            Ok(())
        } else {
            Err(PciError::Unsupported)
        }
    }

    fn bar_write(&mut self, bar_idx: u8, offset: u64, data: &[u8]) -> (r: Result<(), PciError>) {
        if self.inner.bar_write(bar_idx, offset, data) {
            Ok(())
        } else {
            Err(PciError::Unsupported)
        }
    }

    fn set_host(&mut self, host: SlotHost<H>) {
        self.inner.set_host(host);
    }
}

/// A virtio function has two BARs of four kibibytes, numbers 0 and 2, at the addresses
/// that it was given.
pub proof fn law_function_has_two_bars(bar0_gpa: u64, bar2_gpa: u64)
    ensures
        virtio_bars(bar0_gpa, bar2_gpa).len() == 2,
        virtio_bars(bar0_gpa, bar2_gpa)[0] == (BarRegion {
            bar_idx: 0,
            base_gpa: bar0_gpa,
            size: 0x1000,
        }),
        virtio_bars(bar0_gpa, bar2_gpa)[1] == (BarRegion {
            bar_idx: 2,
            base_gpa: bar2_gpa,
            size: 0x1000,
        }),
        access_result(true) is Ok,
        access_result(false) is Err,
{
}

} // verus!
