//! Several vCPUs: powering them on and off, and stopping them all.
//!
//! The state is shared by the threads of the vCPUs; the owner locks it for each
//! step.
use vstd::prelude::*;

use crate::cpu_state::Aarch64CpuState;
use crate::hvf::psci::{
    call_action, dispatch, PsciAction, ALREADY_ON, INVALID_PARAMETERS, SUCCESS,
};
use crate::machine::VcpuStop;

verus! {

/// Where a vCPU that is powered on starts.
#[derive(Debug, Clone, Copy, PartialEq, Eq, Structural)]
pub struct StartRequest {
    pub entry: u64,
    pub context: u64,
}

/// The power state of a vCPU.
#[derive(Debug, Clone, Copy, PartialEq, Eq, Structural)]
pub struct CpuSlot {
    pub started: bool,
    /// A start that the vCPU has not taken yet.
    pub request: Option<StartRequest>,
}

/// What a vCPU that is off does next.
#[derive(Debug, Clone, Copy, PartialEq, Eq, Structural)]
pub enum ParkStep {
    /// Start.
    Start(StartRequest),
    /// End.
    Stop,
    /// Wait on.
    Wait,
}

/// What a vCPU does after a hypervisor call.
#[derive(Debug, Clone, Copy, PartialEq, Eq, Structural)]
pub enum HvcStep {
    /// End.
    Stop,
    /// Wait to be powered on again.
    Park,
    /// Put the result into x0 and run on.
    Result(u64),
}

/// The vCPUs of a machine.
#[derive(Debug)]
pub struct Smp {
    slots: Vec<CpuSlot>,
    stop: Option<VcpuStop>,
    shutdown: bool,
}

/// An [`Smp`] with its slots as a sequence.
pub struct SmpView {
    pub slots: Seq<CpuSlot>,
    /// Why the guest stopped; the first reason counts.
    pub stop: Option<VcpuStop>,
    /// Whether every vCPU has to end.
    pub shutdown: bool,
}

impl View for Smp {
    type V = SmpView;

    closed spec fn view(&self) -> SmpView {
        SmpView { slots: self.slots@, stop: self.stop, shutdown: self.shutdown }
    }
}

/// The index of the vCPU that a call names.
pub open spec fn target_index(target: u64) -> int {
    (target & 0x00ff_ffff) as int
}

impl SmpView {
    /// The state with a reason to stop, unless there is one.
    pub open spec fn stopping(self, why: VcpuStop) -> SmpView {
        SmpView {
            stop: if self.stop is None {
                Some(why)
            } else {
                self.stop
            },
            ..self
        }
    }

    /// The state with another slot.
    pub open spec fn with_slot(self, i: int, slot: CpuSlot) -> SmpView {
        SmpView { slots: self.slots.update(i, slot), ..self }
    }

    /// The state after a vCPU has taken its start.
    pub open spec fn without_request(self, i: int) -> SmpView {
        self.with_slot(i, CpuSlot { request: None, ..self.slots[i] })
    }

    /// What a vCPU does after a call that asks for `action`.
    pub open spec fn after_call(self, idx: int, action: PsciAction) -> (SmpView, HvcStep) {
        match action {
            PsciAction::SystemOff => (self.stopping(VcpuStop::GuestPoweroff), HvcStep::Stop),
            PsciAction::SystemReset => (self.stopping(VcpuStop::GuestReset), HvcStep::Stop),
            PsciAction::CpuOff => (
                self.with_slot(idx, CpuSlot { started: false, ..self.slots[idx] }),
                HvcStep::Park,
            ),
            PsciAction::CpuOn { target, entry, context } => {
                let t = target_index(target);
                if t >= self.slots.len() {
                    (self, HvcStep::Result(INVALID_PARAMETERS))
                } else if self.slots[t].started {
                    (self, HvcStep::Result(ALREADY_ON))
                } else {
                    (
                        self.with_slot(
                            t,
                            CpuSlot {
                                started: true,
                                request: Some(StartRequest { entry, context }),
                            },
                        ),
                        HvcStep::Result(SUCCESS),
                    )
                }
            },
            PsciAction::Return(value) => (self, HvcStep::Result(value)),
        }
    }
}

impl Smp {
    /// The vCPUs of a machine, at least one; only the first is on.
    pub fn new(vcpus: u32) -> (r: Smp)
        ensures
            r@.slots == Seq::new(
                if vcpus == 0 {
                    1
                } else {
                    vcpus as nat
                },
                |i: int| CpuSlot { started: i == 0, request: None },
            ),
            r@.stop is None,
            !r@.shutdown,
    {
        let n: u32 = if vcpus == 0 {
            1
        } else {
            vcpus
        };
        let mut slots: Vec<CpuSlot> = Vec::new();
        let mut i: u32 = 0;
        while i < n
            invariant
                i <= n,
                slots@.len() == i,
                forall|k: int|
                    0 <= k < i ==> #[trigger] slots@[k] == (CpuSlot {
                        started: k == 0,
                        request: None,
                    }),
            decreases n - i,
        {
            slots.push(CpuSlot { started: i == 0, request: None });
            i = i + 1;
        }
        assert(slots@ =~= Seq::new(
            n as nat,
            |i: int| CpuSlot { started: i == 0, request: None },
        ));
        Smp { slots, stop: None, shutdown: false }
    }

    /// Whether every vCPU has to end.
    pub fn is_shutdown(&self) -> (r: bool)
        ensures
            r == self@.shutdown,
    {
        self.shutdown
    }

    /// What a vCPU that is off does next. A start that it was given is taken even
    /// if it has to end.
    pub fn poll(&mut self, idx: usize) -> (r: ParkStep)
        requires
            idx < old(self)@.slots.len(),
        ensures
            match old(self)@.slots[idx as int].request {
                Some(request) => {
                    &&& r == ParkStep::Start(request)
                    &&& final(self)@ == old(self)@.without_request(idx as int)
                },
                None => {
                    &&& r == if old(self)@.shutdown {
                        ParkStep::Stop
                    } else {
                        ParkStep::Wait
                    }
                    &&& final(self)@ == old(self)@
                },
            },
    {
        let slot = self.slots[idx];
        match slot.request {
            Some(request) => {
                self.slots.set(idx, CpuSlot { started: slot.started, request: None });
                ParkStep::Start(request)
            },
            None => if self.shutdown {
                ParkStep::Stop
            } else {
                ParkStep::Wait
            },
        }
    }

    /// Takes a hypervisor call of a vCPU.
    pub fn hvc(&mut self, idx: usize, args: &[u64; 8]) -> (r: HvcStep)
        requires
            idx < old(self)@.slots.len(),
        ensures
            (final(self)@, r) == old(self)@.after_call(idx as int, call_action(args@)),
    {
        match dispatch(args) {
            PsciAction::SystemOff => {
                self.set_stop(VcpuStop::GuestPoweroff);
                HvcStep::Stop
            },
            PsciAction::SystemReset => {
                self.set_stop(VcpuStop::GuestReset);
                HvcStep::Stop
            },
            PsciAction::CpuOff => {
                let slot = self.slots[idx];
                self.slots.set(idx, CpuSlot { started: false, request: slot.request });
                HvcStep::Park
            },
            PsciAction::CpuOn { target, entry, context } => {
                let named: u64 = target & 0x00ff_ffff;
                proof {
                    lemma_named_vcpu(target);
                }
                let t: usize = named as usize;
                if t >= self.slots.len() {
                    return HvcStep::Result(INVALID_PARAMETERS);
                }
                if self.slots[t].started {
                    return HvcStep::Result(ALREADY_ON);
                }
                self.slots.set(
                    t,
                    CpuSlot { started: true, request: Some(StartRequest { entry, context }) },
                );
                HvcStep::Result(SUCCESS)
            },
            PsciAction::Return(value) => HvcStep::Result(value),
        }
    }

    fn set_stop(&mut self, why: VcpuStop)
        ensures
            final(self)@ == old(self)@.stopping(why),
    {
        if self.stop.is_none() {
            self.stop = Some(why);
        }
    }

    /// Whether a vCPU ends without an error on an exit that it cannot handle: one
    /// that was forced out of its run may report anything.
    pub fn ends_quietly(&self, unknown: bool) -> (r: bool)
        ensures
            r == (unknown && self@.shutdown),
    {
        unknown && self.shutdown
    }

    /// Takes note that a vCPU ended: all others have to end too.
    pub fn ended(&mut self)
        ensures
            final(self)@ == (SmpView { shutdown: true, ..old(self)@ }),
    {
        self.shutdown = true;
    }

    /// Why the machine stopped.
    pub fn outcome(&self) -> (r: VcpuStop)
        ensures
            r == match self@.stop {
                Some(stop) => stop,
                None => VcpuStop::Stopped,
            },
    {
        match self.stop {
            Some(stop) => stop,
            None => VcpuStop::Stopped,
        }
    }
}

/// How a machine ended: with the first error of a thread, if there was one, else
/// with the reason that the guest gave.
pub fn run_result(first_error: Option<String>, stop: VcpuStop) -> (r: Result<VcpuStop, String>)
    ensures
        r == match first_error {
            Some(error) => Err(error),
            None => Ok(stop),
        },
{
    match first_error {
        Some(error) => Err(error),
        None => Ok(stop),
    }
}

/// The state of a vCPU that another one powers on: it starts at the entry with the
/// context in x0, with the flags and the trap settings of the first vCPU.
pub fn secondary_state(request: StartRequest, boot: &Aarch64CpuState) -> (r: Aarch64CpuState)
    ensures
        r.pc == request.entry,
        r.x@[0] == request.context,
        r.zero_from(1),
        r.pstate == boot.pstate,
        r.cpacr_el1 == boot.cpacr_el1,
        r.sp_el1 == 0 && r.sctlr_el1 == 0 && r.vbar_el1 == 0 && r.tcr_el1 == 0 && r.ttbr0_el1 == 0
            && r.ttbr1_el1 == 0 && r.mair_el1 == 0,
{
    let mut state = Aarch64CpuState::zeroed();
    state.pc = request.entry;
    state.x[0] = request.context;
    state.pstate = boot.pstate;
    state.cpacr_el1 = boot.cpacr_el1;
    state
}

/// What the only vCPU of a machine does after a hypervisor call: it can neither be
/// turned off nor turn another one on.
pub fn single_vcpu_call(args: &[u64; 8]) -> (r: Result<Option<u64>, VcpuStop>)
    ensures
        r == match call_action(args@) {
            PsciAction::SystemOff => Err(VcpuStop::GuestPoweroff),
            PsciAction::SystemReset => Err(VcpuStop::GuestReset),
            PsciAction::Return(value) => Ok(Some(value)),
            _ => Ok(None),
        },
{
    match dispatch(args) {
        PsciAction::SystemOff => Err(VcpuStop::GuestPoweroff),
        PsciAction::SystemReset => Err(VcpuStop::GuestReset),
        PsciAction::Return(value) => Ok(Some(value)),
        PsciAction::CpuOff => Ok(None),
        PsciAction::CpuOn { .. } => Ok(None),
    }
}

/// A vCPU that is powered on is started exactly where the call said, and a second
/// call finds it on.
pub proof fn law_powered_on_vcpu_starts_where_asked(
    s: SmpView,
    idx: int,
    target: u64,
    entry: u64,
    context: u64,
)
    requires
        0 <= target_index(target) < s.slots.len(),
        !s.slots[target_index(target)].started,
    ensures
        ({
            let on = PsciAction::CpuOn { target, entry, context };
            let (after, step) = s.after_call(idx, on);
            &&& step == HvcStep::Result(SUCCESS)
            &&& after.slots[target_index(target)].request == Some(StartRequest { entry, context })
            &&& after.after_call(idx, on).1 == HvcStep::Result(ALREADY_ON)
        }),
{
}

/// The first reason to stop counts.
pub proof fn law_first_stop_counts(s: SmpView, idx: int, action: PsciAction)
    requires
        s.stop is Some,
    ensures
        s.after_call(idx, action).0.stop == s.stop,
{
}

/// A call names a vCPU by the low 24 bits of its target, and concerns no other vCPU.
pub proof fn law_call_concerns_one_vcpu(
    s: SmpView,
    idx: int,
    target: u64,
    entry: u64,
    context: u64,
    other: int,
)
    requires
        0 <= idx < s.slots.len(),
        0 <= other < s.slots.len(),
    ensures
        target_index(target) == target % 0x100_0000,
        ({
            let (on, step) = s.after_call(idx, PsciAction::CpuOn { target, entry, context });
            &&& other != target % 0x100_0000 ==> on.slots[other] == s.slots[other]
            &&& on.stop == s.stop && on.shutdown == s.shutdown
            &&& target % 0x100_0000 >= s.slots.len() ==> on == s && step == HvcStep::Result(
                0xffff_ffff_ffff_fffe,
            )
            &&& target % 0x100_0000 < s.slots.len() ==> {
                let slot = s.slots[(target % 0x100_0000) as int];
                &&& slot.started ==> on == s && step == HvcStep::Result(0xffff_ffff_ffff_fffc)
                &&& !slot.started ==> step == HvcStep::Result(0) && on.slots[(target
                    % 0x100_0000) as int].started && on.slots[(target
                    % 0x100_0000) as int].request == Some(StartRequest { entry, context })
            }
        }),
        ({
            let (off, step) = s.after_call(idx, PsciAction::CpuOff);
            &&& other != idx ==> off.slots[other] == s.slots[other]
            &&& !off.slots[idx].started && off.slots[idx].request == s.slots[idx].request
            &&& off.stop == s.stop && off.shutdown == s.shutdown
            &&& step is Park
        }),
{
    lemma_named_vcpu(target);
}

/// A vCPU is named by the low 24 bits of a target.
proof fn lemma_named_vcpu(target: u64)
    ensures
        target & 0x00ff_ffff == target % 0x100_0000,
{
    assert(target & 0x00ff_ffff == target % 0x100_0000) by (bit_vector);
}

/// Powering the machine off or resetting it stops the vCPU and keeps which of the two
/// it was; a call for a result changes nothing.
pub proof fn law_machine_calls(s: SmpView, idx: int, value: u64)
    requires
        s.stop is None,
    ensures
        s.after_call(idx, PsciAction::SystemOff).0.stop == Some(VcpuStop::GuestPoweroff),
        s.after_call(idx, PsciAction::SystemReset).0.stop == Some(VcpuStop::GuestReset),
        s.after_call(idx, PsciAction::SystemOff).1 is Stop,
        s.after_call(idx, PsciAction::SystemReset).1 is Stop,
        s.after_call(idx, PsciAction::SystemOff).0.slots == s.slots,
        s.after_call(idx, PsciAction::SystemReset).0.slots == s.slots,
        s.after_call(idx, PsciAction::Return(value)) == (s, HvcStep::Result(value)),
{
}

/// A vCPU that takes its start takes it once and stays on.
pub proof fn law_start_is_taken_once(s: SmpView, i: int, other: int)
    requires
        0 <= i < s.slots.len(),
        0 <= other < s.slots.len(),
    ensures
        s.without_request(i).slots[i].request is None,
        s.without_request(i).slots[i].started == s.slots[i].started,
        other != i ==> s.without_request(i).slots[other] == s.slots[other],
        s.without_request(i).stop == s.stop,
        s.without_request(i).shutdown == s.shutdown,
{
}

/// A machine starts with its first vCPU running and the others parked; one with no vCPUs
/// has one.
pub proof fn law_first_vcpu_runs(vcpus: u32, s: Smp, i: int)
    requires
        call_ensures(Smp::new, (vcpus,), s),
        0 <= i < s@.slots.len(),
    ensures
        vcpus > 0 ==> s@.slots.len() == vcpus,
        vcpus == 0 ==> s@.slots.len() == 1,
        s@.slots[i].started <==> i == 0,
        s@.slots[i].request is None,
        s@.stop is None && !s@.shutdown,
{
}

/// A parked vCPU takes its request, if it has one, and then has none; without one it
/// stops when the machine is shut down and waits otherwise.
pub proof fn law_parked_vcpu_takes_its_request(s: &mut Smp, idx: usize, r: ParkStep, other: int)
    requires
        idx < old(s)@.slots.len(),
        0 <= other < old(s)@.slots.len(),
        call_ensures(Smp::poll, (s, idx), r),
    ensures
        old(s)@.slots[idx as int].request matches Some(request) ==> r == ParkStep::Start(request)
            && final(s)@.slots[idx as int].request is None,
        old(s)@.slots[idx as int].request is None ==> (r is Stop <==> old(s)@.shutdown) && (
        r is Wait <==> !old(s)@.shutdown) && final(s)@ == old(s)@,
        other != idx ==> final(s)@.slots[other] == old(s)@.slots[other],
        final(s)@.stop == old(s)@.stop && final(s)@.shutdown == old(s)@.shutdown,
{
}

/// A secondary vCPU starts at the entry with the context in its first register, in the
/// mode of the boot vCPU, and with nothing else set.
pub proof fn law_secondary_vcpu_state(
    request: StartRequest,
    boot: &Aarch64CpuState,
    r: Aarch64CpuState,
    i: int,
)
    requires
        call_ensures(secondary_state, (request, boot), r),
        1 <= i < 31,
    ensures
        r.pc == request.entry,
        r.x@[0] == request.context,
        r.x@[i] == 0,
        r.pstate == boot.pstate && r.cpacr_el1 == boot.cpacr_el1,
        r.sctlr_el1 == 0 && r.ttbr0_el1 == 0 && r.ttbr1_el1 == 0 && r.tcr_el1 == 0,
{
}

/// What a run ends with: the first error, or else why the machine stopped; without a
/// reason of the guest it was stopped.
pub proof fn law_end_of_a_run(
    error: Option<String>,
    stop: VcpuStop,
    r: Result<VcpuStop, String>,
    s: &Smp,
    why: VcpuStop,
    t: &mut Smp,
    unknown: bool,
    quiet: bool,
)
    requires
        call_ensures(run_result, (error, stop), r),
        call_ensures(Smp::outcome, (s,), why),
        call_ensures(Smp::ended, (t,), ()),
        call_ensures(Smp::ends_quietly, (s, unknown), quiet),
    ensures
        error matches Some(text) ==> r == Err::<VcpuStop, _>(text),
        error is None ==> r == Ok::<_, String>(stop),
        s@.stop is None ==> why == VcpuStop::Stopped,
        s@.stop matches Some(x) ==> why == x,
        final(t)@.shutdown,
        final(t)@.slots == old(t)@.slots && final(t)@.stop == old(t)@.stop,
        quiet <==> unknown && s@.shutdown,
{
}

} // verus!
