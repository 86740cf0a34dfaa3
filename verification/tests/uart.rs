use std::cell::Cell;
use std::io::{sink, Sink, Write};
use std::rc::Rc;

use dillo::uart::{
    Ns16550State, UartAction, IER_THRE, IIR_FIFO, IIR_NO_INT, IIR_THRE, LCR_DLAB, REG_IER,
    REG_IIR, REG_LCR, REG_THR,
};
use vm_superio::serial::NoEvents;
use vm_superio::{Serial, Trigger};

/// An interrupt line that counts its pulses.
struct CountLine {
    count: Rc<Cell<u64>>,
}

impl Trigger for CountLine {
    type E = std::io::Error;

    fn trigger(&self) -> Result<(), std::io::Error> {
        self.count.set(self.count.get() + 1);
        Ok(())
    }
}

struct Uart {
    state: Ns16550State,
    serial: Serial<CountLine, NoEvents, Sink>,
}

impl Uart {
    fn write(&mut self, offset: u64, data: &[u8]) {
        let Some((reg, byte)) = self.state.request(offset, data) else {
            return;
        };
        let dlab = Ns16550State::dlab(self.serial.read(REG_LCR));
        let _ = self.serial.write(reg, byte);
        match self.state.written(reg, byte, dlab) {
            UartAction::Flush => {
                let _ = self.serial.writer_mut().flush();
            }
            UartAction::Pulse => {
                let _ = self.serial.interrupt_evt().trigger();
            }
            UartAction::Nothing => {}
        }
    }

    fn read(&mut self, offset: u64) -> u8 {
        let reg = self.state.register(offset);
        let value = self.serial.read(reg);
        self.state.surface(reg, value)
    }
}

/// Builds a UART whose trigger increments an observable counter.
fn harness() -> (Uart, Rc<Cell<u64>>) {
    let count = Rc::new(Cell::new(0));
    let serial = Serial::new(CountLine { count: Rc::clone(&count) }, sink());
    (Uart { state: Ns16550State::new(0), serial }, count)
}

#[test]
fn thri_enable_raises_thre_interrupt() {
    let (mut uart, line) = harness();

    // Nothing pending before THRI is enabled.
    assert_eq!(line.get(), 0, "spurious interrupt before enable");
    assert_eq!(uart.read(u64::from(REG_IIR)) & IIR_NO_INT, IIR_NO_INT);

    // Enable the THR-empty interrupt.
    uart.write(u64::from(REG_IER), &[IER_THRE]);

    // The enable edge must have fired the trigger exactly once...
    assert_eq!(line.get(), 1, "THRI enable did not fire the IRQ");
    // ...and IIR must identify it as the THR-empty interrupt.
    assert_eq!(uart.read(u64::from(REG_IIR)), IIR_THRE | IIR_FIFO);
}

#[test]
fn thre_is_level_asserted_while_enabled() {
    let (mut uart, _line) = harness();
    uart.write(u64::from(REG_IER), &[IER_THRE]);
    assert_eq!(uart.read(u64::from(REG_IIR)), IIR_THRE | IIR_FIFO);
    assert_eq!(uart.read(u64::from(REG_IIR)), IIR_THRE | IIR_FIFO);
}

#[test]
fn thri_enable_is_edge_detected_and_clears() {
    let (mut uart, line) = harness();

    uart.write(u64::from(REG_IER), &[IER_THRE]);
    assert_eq!(line.get(), 1);

    // Writing the same enabled value again is not a fresh edge.
    uart.write(u64::from(REG_IER), &[IER_THRE]);
    assert_eq!(line.get(), 1, "non-edge write fired a spurious IRQ");

    // Disabling THRI stops THRE from being surfaced.
    uart.write(u64::from(REG_IER), &[0]);
    assert_eq!(uart.read(u64::from(REG_IIR)) & IIR_NO_INT, IIR_NO_INT);
}

#[test]
fn dlab_high_byte_is_not_an_ier_write() {
    let (mut uart, line) = harness();

    uart.write(u64::from(REG_LCR), &[LCR_DLAB]); // set DLAB
    uart.write(u64::from(REG_IER), &[IER_THRE]); // divisor high, not IER

    assert_eq!(line.get(), 0, "divisor write fired the THRE IRQ");
}

#[test]
fn registers_are_spaced_by_the_shift() {
    let mut state = Ns16550State::new(2);
    assert_eq!(state.register(0x8), 2);
    assert_eq!(state.register(0x401), 0);
    assert_eq!(state.request(4, &[5, 6]), Some((1, 5)));
    assert_eq!(state.request(4, &[]), None);
    assert_eq!(state.written(REG_THR, b'a', false), UartAction::Flush);
    assert_eq!(state.written(REG_THR, b'a', true), UartAction::Nothing);
}
