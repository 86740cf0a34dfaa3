//! Running vCPUs: what the platform's emulator reports, and how the runs of
//! several vCPUs end.
use vstd::prelude::*;

use crate::bytes::{byte_of, le_bytes};
use crate::kvm::vcpu::held;
use crate::machine::VcpuStop;

verus! {

/// A result code of the platform.
#[derive(Debug, Clone, Copy, PartialEq, Eq, Structural)]
pub struct HResult(pub i32);

/// Whether a result code of the platform is an error.
pub fn failed(hr: i32) -> (r: bool)
    ensures
        r == (hr < 0),
{
    hr < 0
}

/// The result code of a platform that does not have what was asked for.
pub const NOT_SUPPORTED_CODE: i32 = -2147024846;

/// How setting something went that the platform may not have: whether it was set.
pub fn optional(result: Result<(), HResult>) -> (r: Result<bool, HResult>)
    ensures
        r == match result {
            Ok(_) => Ok(true),
            Err(hr) => if hr.0 == NOT_SUPPORTED_CODE {
                Ok(false)
            } else {
                Err(hr)
            },
        },
{
    match result {
        Ok(()) => Ok(true),
        Err(hr) => if hr.0 == NOT_SUPPORTED_CODE {
            Ok(false)
        } else {
            Err(hr)
        },
    }
}

/// An exit of a vCPU.
#[derive(Debug, Clone, Copy)]
pub enum RunExit {
    Halted,
    PioRead { port: u16, size: u8 },
    PioWrite { port: u16, data: [u8; 4], size: u8 },
    MmioRead { addr: u64, size: u8 },
    MmioWrite { addr: u64, data: [u8; 8], size: u8 },
    Shutdown,
    Canceled,
    /// The instruction could not be emulated.
    EmulationFailed { status: u32 },
    /// The instruction was emulated but accessed nothing.
    NoAccess,
    /// An exit for another reason.
    UnknownReason { reason: i32 },
}

/// What an emulated instruction comes to, by the status of the emulator and the
/// access that it made.
pub fn emulated_exit(status: u32, exit: Option<RunExit>) -> (r: RunExit)
    ensures
        r == if status % 2 == 0 {
            RunExit::EmulationFailed { status }
        } else {
            match exit {
                Some(e) => e,
                None => RunExit::NoAccess,
            }
        },
{
    if status % 2 == 0 {
        return RunExit::EmulationFailed { status };
    }
    match exit {
        Some(e) => e,
        None => RunExit::NoAccess,
    }
}

/// The size of a port access: one that the emulator gives as larger than four
/// bytes counts as four.
pub open spec fn pio_size(access_size: u16) -> u8 {
    if access_size as u8 > 4 {
        4
    } else {
        access_size as u8
    }
}

/// A port access that the emulator asks for; direction 0 is a read.
pub fn io_port_access(direction: u8, port: u16, access_size: u16, data: u32) -> (r: RunExit)
    ensures
        if direction == 0 {
            r == (RunExit::PioRead { port, size: pio_size(access_size) })
        } else {
            r matches RunExit::PioWrite { port: p, data: buf, size } && p == port && size
                == pio_size(access_size) && buf@ == held(
                le_bytes(data).take(pio_size(access_size) as int),
                4,
            )
        },
{
    let small: u8 = access_size as u8;
    let size: u8 = if small > 4 {
        4
    } else {
        small
    };
    if direction == 0 {
        return RunExit::PioRead { port, size };
    }
    let mut buf: [u8; 4] = [0u8;4];
    let mut i: usize = 0;
    while i < size as usize
        invariant
            i <= size,
            size <= 4,
            forall|k: int| 0 <= k < i ==> #[trigger] buf@[k] == le_bytes(data)[k],
            forall|k: int| i <= k < 4 ==> #[trigger] buf@[k] == 0,
        decreases size - i,
    {
        buf[i] = byte_of(data, i);
        i = i + 1;
    }
    assert(buf@ =~= held(le_bytes(data).take(size as int), 4));
    RunExit::PioWrite { port, data: buf, size }
}

/// A memory access that the emulator asks for; direction 0 is a read.
pub fn memory_access(direction: u8, addr: u64, access_size: u8, data: &[u8; 8]) -> (r: RunExit)
    ensures
        ({
            let size = if access_size > 8 {
                8u8
            } else {
                access_size
            };
            if direction == 0 {
                r == (RunExit::MmioRead { addr, size })
            } else {
                r matches RunExit::MmioWrite { addr: a, data: buf, size: s } && a == addr && s
                    == size && buf@ == held(data@.take(size as int), 8)
            }
        }),
{
    let size: u8 = if access_size > 8 {
        8
    } else {
        access_size
    };
    if direction == 0 {
        return RunExit::MmioRead { addr, size };
    }
    let mut buf: [u8; 8] = [0u8;8];
    let mut i: usize = 0;
    while i < size as usize
        invariant
            i <= size,
            size <= 8,
            forall|k: int| 0 <= k < i ==> #[trigger] buf@[k] == data@[k],
            forall|k: int| i <= k < 8 ==> #[trigger] buf@[k] == 0,
        decreases size - i,
    {
        buf[i] = data[i];
        i = i + 1;
    }
    assert(buf@ =~= held(data@.take(size as int), 8));
    RunExit::MmioWrite { addr, data: buf, size }
}

/// Whether a vCPU stops, by whether all have to and by what the supervisor
/// demands; and whether all have to from now on.
pub fn stop_requested(shutdown: bool, demanded: Option<VcpuStop>) -> (r: (Option<VcpuStop>, bool))
    ensures
        r == if shutdown {
            (Some(VcpuStop::Stopped), true)
        } else {
            (demanded, demanded is Some)
        },
{
    if shutdown {
        return (Some(VcpuStop::Stopped), true);
    }
    match demanded {
        Some(stop) => (Some(stop), true),
        None => (None, false),
    }
}

/// How the thread of a vCPU ended.
#[derive(Debug)]
pub enum ThreadEnd {
    Stopped(VcpuStop),
    Failed(String),
    Panicked,
}

/// The runs of the vCPUs that have ended.
#[derive(Debug)]
pub struct RunOutcome {
    stop: VcpuStop,
    error: Option<String>,
}

/// A [`RunOutcome`] with its error as text.
pub struct RunOutcomeView {
    pub stop: VcpuStop,
    pub error: Option<Seq<char>>,
}

impl View for RunOutcome {
    type V = RunOutcomeView;

    closed spec fn view(&self) -> RunOutcomeView {
        RunOutcomeView {
            stop: self.stop,
            error: match self.error {
                Some(e) => Some(e@),
                None => None,
            },
        }
    }
}

impl RunOutcomeView {
    /// The outcome with one more thread: a stop of the guest counts, and the first
    /// error counts.
    pub open spec fn joined(self, end: ThreadEnd) -> RunOutcomeView {
        match end {
            ThreadEnd::Stopped(stop) => RunOutcomeView {
                stop: if stop == VcpuStop::Stopped {
                    self.stop
                } else {
                    stop
                },
                ..self
            },
            ThreadEnd::Failed(text) => self.with_error(text@),
            ThreadEnd::Panicked => self.with_error("vCPU thread panicked"@),
        }
    }

    pub open spec fn with_error(self, text: Seq<char>) -> RunOutcomeView {
        RunOutcomeView {
            error: if self.error is None {
                Some(text)
            } else {
                self.error
            },
            ..self
        }
    }

    /// The outcome of the first `n` of some threads.
    pub open spec fn of(ends: Seq<ThreadEnd>, n: int) -> RunOutcomeView
        decreases n,
    {
        if n <= 0 || n > ends.len() {
            RunOutcomeView { stop: VcpuStop::Stopped, error: None }
        } else {
            RunOutcomeView::of(ends, n - 1).joined(ends[n - 1])
        }
    }
}

impl RunOutcome {
    /// The outcome before any thread has ended.
    pub fn new() -> (r: RunOutcome)
        ensures
            r@ == (RunOutcomeView { stop: VcpuStop::Stopped, error: None }),
    {
        RunOutcome { stop: VcpuStop::Stopped, error: None }
    }

    /// Takes the end of one more thread; says whether all others have to end.
    pub fn join(&mut self, end: ThreadEnd, shutdown: bool) -> (r: bool)
        ensures
            final(self)@ == old(self)@.joined(end),
            r == (shutdown || !(end is Stopped)),
    {
        match end {
            ThreadEnd::Stopped(stop) => {
                match stop {
                    VcpuStop::Stopped => {},
                    _ => {
                        self.stop = stop;
                    },
                }
                shutdown
            },
            ThreadEnd::Failed(text) => {
                self.set_error(text);
                true
            },
            ThreadEnd::Panicked => {
                self.set_error("vCPU thread panicked".to_owned());
                true
            },
        }
    }

    fn set_error(&mut self, text: String)
        ensures
            final(self)@ == old(self)@.with_error(text@),
    {
        if self.error.is_none() {
            self.error = Some(text);
        }
    }

    /// How the run of all vCPUs ended.
    pub fn finish(self) -> (r: Result<VcpuStop, String>)
        ensures
            match self@.error {
                Some(text) => r matches Err(e) && e@ == text,
                None => r == Ok::<_, String>(self@.stop),
            },
    {
        match self.error {
            Some(text) => Err(text),
            None => Ok(self.stop),
        }
    }
}

/// The run fails exactly if a thread failed or panicked.
pub proof fn law_run_fails_with_a_thread(ends: Seq<ThreadEnd>, n: int)
    requires
        0 <= n <= ends.len(),
    ensures
        RunOutcomeView::of(ends, n).error is Some <==> exists|i: int|
            0 <= i < n && !(#[trigger] ends[i] is Stopped),
    decreases n,
{
    if n > 0 {
        law_run_fails_with_a_thread(ends, n - 1);
    }
}

/// The error of a run is that of the first thread that failed or panicked.
pub proof fn law_first_error_is_reported(ends: Seq<ThreadEnd>, n: int, first: int)
    requires
        0 <= first < n <= ends.len(),
        !(ends[first] is Stopped),
        forall|i: int| 0 <= i < first ==> #[trigger] ends[i] is Stopped,
    ensures
        match ends[first] {
            ThreadEnd::Failed(text) => RunOutcomeView::of(ends, n).error == Some(text@),
            _ => RunOutcomeView::of(ends, n).error == Some("vCPU thread panicked"@),
        },
    decreases n,
{
    if first < n - 1 {
        law_first_error_is_reported(ends, n - 1, first);
    } else {
        law_run_fails_with_a_thread(ends, n - 1);
    }
}

/// Whether a thread ended because the guest asked for it.
pub open spec fn guest_stopped(end: ThreadEnd) -> bool {
    end == ThreadEnd::Stopped(VcpuStop::GuestPoweroff) || end == ThreadEnd::Stopped(
        VcpuStop::GuestReset,
    )
}

/// A run stops for the reason of the last thread that the guest stopped, and without
/// such a thread for none of the guest's.
pub proof fn law_guest_stop_is_reported(ends: Seq<ThreadEnd>, n: int)
    requires
        0 <= n <= ends.len(),
    ensures
        RunOutcomeView::of(ends, n).stop == VcpuStop::Stopped <==> forall|i: int|
            0 <= i < n ==> !guest_stopped(#[trigger] ends[i]),
        n > 0 && ends[n - 1] == ThreadEnd::Stopped(VcpuStop::GuestPoweroff) ==> RunOutcomeView::of(
            ends,
            n,
        ).stop == VcpuStop::GuestPoweroff,
        n > 0 && ends[n - 1] == ThreadEnd::Stopped(VcpuStop::GuestReset) ==> RunOutcomeView::of(
            ends,
            n,
        ).stop == VcpuStop::GuestReset,
        n > 0 && !guest_stopped(ends[n - 1]) ==> RunOutcomeView::of(ends, n).stop == RunOutcomeView::of(ends, n - 1).stop,
    decreases n,
{
    if n > 0 {
        law_guest_stop_is_reported(ends, n - 1);
    }
}

/// A port access has the size that the emulator gives, up to four bytes.
pub proof fn law_port_access_size(access_size: u16)
    requires
        access_size < 0x100,
    ensures
        access_size <= 4 ==> pio_size(access_size) == access_size,
        access_size > 4 ==> pio_size(access_size) == 4,
{
}

/// An emulated access is told with its address or port, its size and the bytes that are
/// written; direction zero is a read.
pub proof fn law_accesses_are_told_as_they_are(
    direction: u8,
    addr: u64,
    size: u8,
    data: &[u8; 8],
    m: RunExit,
    port: u16,
    wide: u16,
    word: u32,
    p: RunExit,
    i: int,
)
    requires
        size <= 8,
        wide <= 4,
        call_ensures(memory_access, (direction, addr, size, data), m),
        call_ensures(io_port_access, (direction, port, wide, word), p),
    ensures
        direction == 0 ==> m == (RunExit::MmioRead { addr, size }),
        direction != 0 ==> (m matches RunExit::MmioWrite { addr: a, data: buf, size: s } && a
            == addr && s == size && (0 <= i < size ==> buf@[i] == data@[i])),
        direction == 0 ==> p == (RunExit::PioRead { port, size: wide as u8 }),
        direction != 0 ==> (p matches RunExit::PioWrite { port: q, data: buf, size: s } && q == port
            && s == wide && (wide > 0 ==> buf@[0] == word % 256) && (wide > 1 ==> buf@[1] == word
            / 256 % 256) && (wide > 2 ==> buf@[2] == word / 65536 % 256) && (wide > 3 ==> buf@[3]
            == word / 16777216)),
{
}

/// What a call and a run come to: a negative result is a failure, one that is not
/// supported is taken for a no where it may be left out, an emulation without its lowest
/// status bit failed, and a shutdown stops a vCPU whatever the guest asked for.
pub proof fn law_results_of_the_platform(
    hr: i32,
    f: bool,
    result: Result<(), HResult>,
    o: Result<bool, HResult>,
    status: u32,
    exit: Option<RunExit>,
    e: RunExit,
    shutdown: bool,
    demanded: Option<VcpuStop>,
    s: (Option<VcpuStop>, bool),
)
    requires
        call_ensures(failed, (hr,), f),
        call_ensures(optional, (result,), o),
        call_ensures(emulated_exit, (status, exit), e),
        call_ensures(stop_requested, (shutdown, demanded), s),
    ensures
        f <==> hr < 0,
        result is Ok ==> o == Ok::<_, HResult>(true),
        result matches Err(h) ==> (h.0 + 0x1_0000_0000 == 0x8007_0032 ==> o == Ok::<_, HResult>(
            false,
        )) && (h.0 + 0x1_0000_0000 != 0x8007_0032 ==> o == Err::<bool, _>(h)),
        status % 2 == 0 ==> e == (RunExit::EmulationFailed { status }),
        status % 2 == 1 && exit is Some ==> e == exit->0,
        status % 2 == 1 && exit is None ==> e is NoAccess,
        shutdown ==> s == (Some(VcpuStop::Stopped), true),
        !shutdown ==> s.0 == demanded && (s.1 <==> demanded is Some),
{
}

/// A run ends with the error that it kept, or with why it stopped, and the other threads
/// are told to end once one of them did not stop by itself.
pub proof fn law_run_ends_with_its_error(
    out: &mut RunOutcome,
    end: ThreadEnd,
    shutdown: bool,
    tell: bool,
    done: RunOutcome,
    r: Result<VcpuStop, String>,
)
    requires
        call_ensures(RunOutcome::join, (out, end, shutdown), tell),
        call_ensures(RunOutcome::finish, (done,), r),
    ensures
        tell <==> shutdown || !(end is Stopped),
        final(out)@ == old(out)@.joined(end),
        r is Err <==> done@.error is Some,
        r matches Ok(stop) ==> stop == done@.stop,
        r matches Err(text) ==> Some(text@) == done@.error,
{
}

} // verus!
