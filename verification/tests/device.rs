use dillo::device::{BackendQueue, Interrupt, InterruptInner, ProcessHost, ThreadHost};
use dillo::pci::bus::SlotHost;
use dillo::platform::topology::Arch;
use dillo::substrate::Aarch64Substrate;
use dillo::virtio::Queue;

#[derive(Default)]
struct Recorder {
    vectors: Vec<u16>,
}

impl InterruptInner for Recorder {
    fn signal(&mut self, vector: u16) {
        self.vectors.push(vector);
    }
}

#[test]
fn interrupts_reach_their_line() {
    let mut interrupt = Interrupt::from_inner(Recorder::default());
    interrupt.signal(3);
    interrupt.signal(5);
    assert_eq!(interrupt.inner.vectors, vec![3, 5]);
}

#[test]
fn hosts_hold_their_backend() {
    assert_eq!(ThreadHost::new(7).backend, 7);
    assert_eq!(ProcessHost::new(8).backend, 8);
    let queue: BackendQueue<u8, u8> =
        BackendQueue { queue: Queue::new(256), kick: 1, call: None };
    assert_eq!((queue.queue.size, queue.queue.ready), (256, false));
}

#[test]
fn slots_shift_their_vectors() {
    let slot = SlotHost { inner: (), vector_base: Some(3) };
    assert_eq!(slot.update_vector(2), 5);
    assert_eq!(slot.interrupt_vector(2), Some(5));
    assert_eq!(slot.interrupt_vector(0xffff), None);
    let plain = SlotHost { inner: (), vector_base: None };
    assert_eq!(plain.update_vector(2), 2);
    assert_eq!(plain.interrupt_vector(2), Some(2));
}

#[test]
fn cpus_are_enabled_by_firmware_calls_on_aarch64() {
    assert_eq!(Arch::Aarch64.cpu_enable_method(), Some("psci"));
    assert_eq!(Arch::X86_64.cpu_enable_method(), None);
    let gic = Aarch64Substrate { dist_base: 0, redist_base: 0, spi_count: 96 };
    assert_eq!(gic.nr_irqs(), 128);
}
