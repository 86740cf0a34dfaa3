//! The thread of one vCPU.
use vstd::prelude::*;

use crate::hvf::psci::call_action;
use crate::hvf::smp::{HvcStep, ParkStep, Smp, SmpView, StartRequest};

verus! {

/// Where a thread stands.
#[derive(Debug, Clone, Copy, PartialEq, Eq, Structural)]
pub enum Phase {
    /// Its vCPU was never on.
    Off,
    /// Its vCPU gets ready to run.
    Ready,
    /// Its vCPU runs.
    Running,
    /// Its vCPU was turned off.
    Parked,
    Ended,
}

/// What a thread has to do next.
#[derive(Debug, Clone, Copy, PartialEq, Eq, Structural)]
pub enum ThreadAction {
    /// Wait until it is woken.
    Wait,
    /// Make the vCPU, in the boot state or in that of a request.
    Create { request: Option<StartRequest> },
    /// Set the vCPU to the state of a request.
    Restart { request: StartRequest },
    /// Give the vCPU the result of a call.
    SetResult(u64),
    /// Run the vCPU.
    Run,
    /// End, and wake all others.
    End,
    /// End with an error, and wake all others.
    Fail,
}

/// What a thread reports.
#[derive(Debug, Clone, Copy)]
pub enum ThreadEvent {
    /// It began, or was woken.
    Wake,
    /// It did what it had to.
    Done,
    /// The vCPU came back from a memory access that was served.
    Access,
    /// The vCPU made a hypervisor call.
    Hvc([u64; 8]),
    /// The vCPU came back for a reason that nobody knows.
    Unknown,
    /// The vCPU came back for a reason that nobody serves.
    Other,
}

/// The thread of one vCPU.
#[derive(Debug, Clone, Copy, PartialEq, Eq, Structural)]
pub struct VcpuThread {
    pub idx: usize,
    pub phase: Phase,
}

impl VcpuThread {
    pub open spec fn at(self, phase: Phase) -> VcpuThread {
        VcpuThread { phase, ..self }
    }

    /// The end of a thread: all others have to end too.
    pub open spec fn ending(self, smp: SmpView, action: ThreadAction) -> (
        VcpuThread,
        SmpView,
        ThreadAction,
    ) {
        (self.at(Phase::Ended), SmpView { shutdown: true, ..smp }, action)
    }

    /// Running on, unless all have to end.
    pub open spec fn running(self, smp: SmpView) -> (VcpuThread, SmpView, ThreadAction) {
        if smp.shutdown {
            self.ending(smp, ThreadAction::End)
        } else {
            (self.at(Phase::Running), smp, ThreadAction::Run)
        }
    }

    /// Waiting for a start, which is taken even if all have to end.
    pub open spec fn waiting(self, smp: SmpView, parked: bool) -> (
        VcpuThread,
        SmpView,
        ThreadAction,
    ) {
        match smp.slots[self.idx as int].request {
            Some(request) => (
                self.at(Phase::Ready),
                smp.without_request(self.idx as int),
                if parked {
                    ThreadAction::Restart { request }
                } else {
                    ThreadAction::Create { request: Some(request) }
                },
            ),
            None => if smp.shutdown {
                self.ending(smp, ThreadAction::End)
            } else {
                (
                    self.at(
                        if parked {
                            Phase::Parked
                        } else {
                            Phase::Off
                        },
                    ),
                    smp,
                    ThreadAction::Wait,
                )
            },
        }
    }

    /// What follows a hypervisor call.
    pub open spec fn called(self, smp: SmpView, args: Seq<u64>) -> (
        VcpuThread,
        SmpView,
        ThreadAction,
    ) {
        let (after, step) = smp.after_call(self.idx as int, call_action(args));
        match step {
            HvcStep::Stop => self.ending(after, ThreadAction::End),
            HvcStep::Park => self.waiting(after, true),
            HvcStep::Result(value) => (
                self.at(Phase::Ready),
                after,
                ThreadAction::SetResult(value),
            ),
        }
    }

    /// What follows an event. One that does not belong to the phase ends the thread
    /// with an error.
    pub open spec fn after(self, smp: SmpView, event: ThreadEvent) -> (
        VcpuThread,
        SmpView,
        ThreadAction,
    ) {
        match (self.phase, event) {
            (Phase::Off, ThreadEvent::Wake) => if self.idx == 0 {
                (self.at(Phase::Ready), smp, ThreadAction::Create { request: None })
            } else {
                self.waiting(smp, false)
            },
            (Phase::Parked, ThreadEvent::Wake) => self.waiting(smp, true),
            (Phase::Ready, ThreadEvent::Done) => self.running(smp),
            (Phase::Running, ThreadEvent::Access) => self.running(smp),
            (Phase::Running, ThreadEvent::Hvc(args)) => self.called(smp, args@),
            (Phase::Running, ThreadEvent::Unknown) => self.ending(
                smp,
                if smp.shutdown {
                    ThreadAction::End
                } else {
                    ThreadAction::Fail
                },
            ),
            _ => self.ending(smp, ThreadAction::Fail),
        }
    }

    /// The thread of the vCPU of some index.
    pub fn new(idx: usize) -> (r: VcpuThread)
        ensures
            r == (VcpuThread { idx, phase: Phase::Off }),
    {
        VcpuThread { idx, phase: Phase::Off }
    }

    /// Takes an event and says what to do next.
    pub fn step(&mut self, smp: &mut Smp, event: ThreadEvent) -> (r: ThreadAction)
        requires
            old(self).idx < old(smp)@.slots.len(),
        ensures
            (*final(self), final(smp)@, r) == old(self).after(old(smp)@, event),
    {
        match (self.phase, event) {
            (Phase::Off, ThreadEvent::Wake) => if self.idx == 0 {
                self.phase = Phase::Ready;
                ThreadAction::Create { request: None }
            } else {
                self.wait(smp, false)
            },
            (Phase::Parked, ThreadEvent::Wake) => self.wait(smp, true),
            (Phase::Ready, ThreadEvent::Done) => self.run(smp),
            (Phase::Running, ThreadEvent::Access) => self.run(smp),
            (Phase::Running, ThreadEvent::Hvc(args)) => match smp.hvc(self.idx, &args) {
                HvcStep::Stop => self.end(smp, ThreadAction::End),
                HvcStep::Park => self.wait(smp, true),
                HvcStep::Result(value) => {
                    self.phase = Phase::Ready;
                    ThreadAction::SetResult(value)
                },
            },
            (Phase::Running, ThreadEvent::Unknown) => {
                let action = if smp.ends_quietly(true) {
                    ThreadAction::End
                } else {
                    ThreadAction::Fail
                };
                self.end(smp, action)
            },
            _ => self.end(smp, ThreadAction::Fail),
        }
    }

    fn end(&mut self, smp: &mut Smp, action: ThreadAction) -> (r: ThreadAction)
        ensures
            (*final(self), final(smp)@, r) == old(self).ending(old(smp)@, action),
    {
        self.phase = Phase::Ended;
        smp.ended();
        action
    }

    fn run(&mut self, smp: &mut Smp) -> (r: ThreadAction)
        ensures
            (*final(self), final(smp)@, r) == old(self).running(old(smp)@),
    {
        if smp.is_shutdown() {
            return self.end(smp, ThreadAction::End);
        }
        self.phase = Phase::Running;
        ThreadAction::Run
    }

    fn wait(&mut self, smp: &mut Smp, parked: bool) -> (r: ThreadAction)
        requires
            old(self).idx < old(smp)@.slots.len(),
        ensures
            (*final(self), final(smp)@, r) == old(self).waiting(old(smp)@, parked),
    {
        match smp.poll(self.idx) {
            ParkStep::Start(request) => {
                self.phase = Phase::Ready;
                if parked {
                    ThreadAction::Restart { request }
                } else {
                    ThreadAction::Create { request: Some(request) }
                }
            },
            ParkStep::Stop => self.end(smp, ThreadAction::End),
            ParkStep::Wait => {
                self.phase = if parked {
                    Phase::Parked
                } else {
                    Phase::Off
                };
                ThreadAction::Wait
            },
        }
    }
}

/// Once a thread has ended, no thread runs its vCPU or waits any more.
pub proof fn law_one_end_ends_all(thread: VcpuThread, smp: SmpView, event: ThreadEvent)
    requires
        smp.shutdown,
        thread.idx < smp.slots.len(),
    ensures
        thread.after(smp, event).1.shutdown,
        thread.after(smp, event).2 != ThreadAction::Run,
        thread.after(smp, event).2 != ThreadAction::Wait,
{
}

/// A thread that ends makes all others end.
pub proof fn law_end_is_a_shutdown(thread: VcpuThread, smp: SmpView, event: ThreadEvent)
    requires
        thread.idx < smp.slots.len(),
    ensures
        thread.after(smp, event).0.phase is Ended ==> thread.after(smp, event).1.shutdown,
{
}

/// Every vCPU but the first runs only after another one has turned it on.
pub proof fn law_secondary_waits_for_a_start(thread: VcpuThread, smp: SmpView, event: ThreadEvent)
    requires
        thread.idx < smp.slots.len(),
        thread.idx != 0,
        thread.phase is Off,
        smp.slots[thread.idx as int].request is None,
    ensures
        thread.after(smp, event).0.phase is Off || thread.after(smp, event).0.phase is Ended,
{
}

/// A vCPU that is ready, or whose access was served, runs on unless all have to end;
/// one that made a call gets its result before it runs on.
pub proof fn law_running_thread(thread: VcpuThread, smp: SmpView, args: [u64; 8], value: u64)
    requires
        thread.idx < smp.slots.len(),
        !smp.shutdown,
    ensures
        thread.phase is Ready ==> thread.after(smp, ThreadEvent::Done).2 is Run && thread.after(
            smp,
            ThreadEvent::Done,
        ).0.phase is Running,
        thread.phase is Running ==> thread.after(smp, ThreadEvent::Access).2 is Run,
        thread.phase is Running && smp.after_call(thread.idx as int, call_action(args@)).1
            == HvcStep::Result(value) ==> thread.after(smp, ThreadEvent::Hvc(args)).2
            == ThreadAction::SetResult(value) && thread.after(
            smp,
            ThreadEvent::Hvc(args),
        ).0.phase is Ready,
        thread.phase is Running && call_action(args@) is SystemOff ==> thread.after(
            smp,
            ThreadEvent::Hvc(args),
        ).2 is End,
        thread.phase is Running ==> thread.after(smp, ThreadEvent::Unknown).2 is Fail,
        thread.phase is Running ==> thread.after(smp, ThreadEvent::Other).2 is Fail,
        thread.after(smp, ThreadEvent::Done).0.idx == thread.idx,
{
}

/// A vCPU that is off starts with the request that it was given, in a vCPU of its own
/// the first time and in the one that it has later; the first vCPU starts by itself.
pub proof fn law_started_thread(thread: VcpuThread, smp: SmpView, request: StartRequest)
    requires
        thread.idx < smp.slots.len(),
        smp.slots[thread.idx as int].request == Some(request),
    ensures
        thread.phase is Off && thread.idx != 0 ==> thread.after(smp, ThreadEvent::Wake).2 == (
        ThreadAction::Create { request: Some(request) }),
        thread.phase is Parked ==> thread.after(smp, ThreadEvent::Wake).2 == (
        ThreadAction::Restart { request }),
        thread.phase is Off && thread.idx == 0 ==> thread.after(smp, ThreadEvent::Wake).2 == (
        ThreadAction::Create { request: None }),
        thread.phase is Off || thread.phase is Parked ==> thread.after(
            smp,
            ThreadEvent::Wake,
        ).0.phase is Ready,
        thread.phase is Parked ==> thread.after(
            smp,
            ThreadEvent::Wake,
        ).1.slots[thread.idx as int].request is None,
{
}

/// A vCPU that turns itself off waits, and is not on any more.
pub proof fn law_parked_thread(thread: VcpuThread, smp: SmpView, args: [u64; 8])
    requires
        thread.idx < smp.slots.len(),
        thread.phase is Running,
        !smp.shutdown,
        smp.slots[thread.idx as int].request is None,
        args@[0] as u32 == 0x8400_0002,
    ensures
        thread.after(smp, ThreadEvent::Hvc(args)).2 is Wait,
        thread.after(smp, ThreadEvent::Hvc(args)).0.phase is Parked,
        !thread.after(smp, ThreadEvent::Hvc(args)).1.slots[thread.idx as int].started,
{
}

} // verus!
