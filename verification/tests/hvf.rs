use dillo::cpu_state::Aarch64CpuState;
use dillo::hvf::exception::{
    advances, destination, exit_step, mpidr_for, next_pc, translate, Exception, ExitReason, ExitStep,
};
use dillo::hvf::gic::GicMessageInterruptDomain;
use dillo::hvf::memory::{addresses_enough, find_region, Region};
use dillo::hvf::psci::{dispatch, features, PsciAction, ALREADY_ON, INVALID_PARAMETERS};
use dillo::hvf::smp::{
    run_result, secondary_state, single_vcpu_call, HvcStep, ParkStep, Smp, StartRequest,
};
use dillo::hvf::thread::{ThreadAction, ThreadEvent, VcpuThread};
use dillo::interrupts::MessageInterrupt;
use dillo::machine::VcpuStop;

fn call(fid: u64, a1: u64, a2: u64, a3: u64) -> PsciAction {
    dispatch(&[fid, a1, a2, a3, 0, 0, 0, 0])
}

#[test]
fn version_reports_1_1() {
    assert_eq!(call(0x8400_0000, 0, 0, 0), PsciAction::Return(0x0001_0001));
}

#[test]
fn cpu_on_decodes_target_entry_context() {
    let want = PsciAction::CpuOn { target: 0x1, entry: 0x4000_0000, context: 0xABCD };
    assert_eq!(call(0xC400_0003, 0x1, 0x4000_0000, 0xABCD), want);
    assert_eq!(call(0x8400_0003, 0x1, 0x4000_0000, 0xABCD), want);
}

#[test]
fn shutdown_and_reset() {
    assert_eq!(call(0x8400_0008, 0, 0, 0), PsciAction::SystemOff);
    assert_eq!(call(0x8400_0009, 0, 0, 0), PsciAction::SystemReset);
}

#[test]
fn cpu_off_and_affinity_and_migrate() {
    assert_eq!(call(0x8400_0002, 0, 0, 0), PsciAction::CpuOff);
    assert_eq!(call(0xC400_0004, 0, 0, 0), PsciAction::Return(0));
    assert_eq!(call(0x8400_0006, 0, 0, 0), PsciAction::Return(2));
}

#[test]
fn features_known_vs_unknown() {
    assert_eq!(call(0x8400_000A, 0xC400_0003, 0, 0), PsciAction::Return(0));
    assert_eq!(call(0x8400_000A, 0xDEAD_BEEF, 0, 0), PsciAction::Return((-1i64) as u64));
}

#[test]
fn unknown_function_is_not_supported() {
    assert_eq!(call(0x8400_00FF, 0, 0, 0), PsciAction::Return((-1i64) as u64));
    assert_eq!(features(0x8400_0009), 0);
}

#[test]
fn powered_on_vcpu_starts_once() {
    assert_eq!(mpidr_for(0), 0x8000_0000);
    assert_eq!(mpidr_for(3), 0x8000_0003);
    assert_eq!((mpidr_for(2) & 0x00ff_ffff) as usize, 2);

    let mut smp = Smp::new(2);
    assert_eq!(smp.poll(1), ParkStep::Wait);
    let on = [0xC400_0003, mpidr_for(1), 0x4000_0000, 0xABCD, 0, 0, 0, 0];
    assert_eq!(smp.hvc(0, &on), HvcStep::Result(0));
    assert_eq!(smp.hvc(0, &on), HvcStep::Result(ALREADY_ON));
    let request = StartRequest { entry: 0x4000_0000, context: 0xABCD };
    assert_eq!(smp.poll(1), ParkStep::Start(request));
    assert_eq!(smp.poll(1), ParkStep::Wait);
    smp.ended();
    assert!(smp.is_shutdown());
    assert_eq!(smp.poll(1), ParkStep::Stop);
    let nobody = [0xC400_0003, 2, 0, 0, 0, 0, 0, 0];
    assert_eq!(smp.hvc(0, &nobody), HvcStep::Result(INVALID_PARAMETERS));
}

#[test]
fn first_stop_counts() {
    let mut smp = Smp::new(0);
    assert_eq!(smp.outcome(), VcpuStop::Stopped);
    assert!(!smp.ends_quietly(true));
    assert_eq!(smp.hvc(0, &[0x8400_0009, 0, 0, 0, 0, 0, 0, 0]), HvcStep::Stop);
    assert_eq!(smp.hvc(0, &[0x8400_0008, 0, 0, 0, 0, 0, 0, 0]), HvcStep::Stop);
    assert_eq!(smp.outcome(), VcpuStop::GuestReset);
    smp.ended();
    assert!(smp.ends_quietly(true));
    assert!(!smp.ends_quietly(false));
}

#[test]
fn turned_off_vcpu_can_be_turned_on() {
    let mut smp = Smp::new(1);
    assert_eq!(smp.hvc(0, &[0x8400_0002, 0, 0, 0, 0, 0, 0, 0]), HvcStep::Park);
    assert_eq!(smp.hvc(0, &[0x8400_0003, 0, 5, 6, 0, 0, 0, 0]), HvcStep::Result(0));
    assert_eq!(smp.poll(0), ParkStep::Start(StartRequest { entry: 5, context: 6 }));
}

#[test]
fn secondary_vcpu_takes_the_trap_settings() {
    let mut boot = Aarch64CpuState::zeroed();
    boot.pstate = 0x3c5;
    boot.cpacr_el1 = 3 << 20;
    boot.sctlr_el1 = 1;
    let state = secondary_state(StartRequest { entry: 5, context: 6 }, &boot);
    assert_eq!((state.pc, state.x[0], state.x[1]), (5, 6, 0));
    assert_eq!((state.pstate, state.cpacr_el1, state.sctlr_el1), (0x3c5, 3 << 20, 0));
}

#[test]
fn only_vcpu_cannot_be_turned_off() {
    assert_eq!(single_vcpu_call(&[0x8400_0002, 0, 0, 0, 0, 0, 0, 0]), Ok(None));
    assert_eq!(single_vcpu_call(&[0x8400_0000, 0, 0, 0, 0, 0, 0, 0]), Ok(Some(0x0001_0001)));
    assert_eq!(
        single_vcpu_call(&[0x8400_0008, 0, 0, 0, 0, 0, 0, 0]),
        Err(VcpuStop::GuestPoweroff)
    );
}

#[test]
fn exceptions_are_decoded() {
    let abort = 0x24u64 << 26;
    let valid = 1u64 << 24;
    let word = 2u64 << 22;
    assert_eq!(translate(abort, 0x900_0000), Exception::NoSyndrome);
    assert_eq!(
        translate(abort | valid | word | (3 << 16), 0x900_0000),
        Exception::MmioRead { addr: 0x900_0000, size: 4, srt: 3 }
    );
    assert_eq!(
        translate(abort | valid | (31 << 16) | (1 << 6), 0x900_0000),
        Exception::MmioWrite { addr: 0x900_0000, size: 1, srt: 31 }
    );
    assert_eq!(translate(0x16 << 26, 0), Exception::Hvc);
    assert_eq!(translate(0x17 << 26, 0), Exception::Smc);
    assert_eq!(translate(0x01 << 26, 0), Exception::Wait);
    assert_eq!(translate((0x18 << 26) | 1 | (5 << 5), 0), Exception::Sysreg { clear: Some(5) });
    assert_eq!(translate((0x18 << 26) | 1 | (31 << 5), 0), Exception::Sysreg { clear: None });
    assert_eq!(translate((0x18 << 26) | (5 << 5), 0), Exception::Sysreg { clear: None });
    assert_eq!(translate(0x3c << 26, 0), Exception::Unknown { ec: 0x3c });
    assert!(advances(Exception::Wait));
    assert!(!advances(Exception::Hvc));
    assert_eq!(destination(31), None);
    assert_eq!(destination(30), Some(30));
    assert_eq!(next_pc(0x1000), 0x1004);
    assert_eq!(exit_step(ExitReason::VtimerActivated, 0, 0), ExitStep::MaskTimer);
    assert_eq!(
        exit_step(ExitReason::Exception, 0x16 << 26, 0),
        ExitStep::Serve(Exception::Hvc)
    );
    assert_eq!(exit_step(ExitReason::Other, 0x16 << 26, 0), ExitStep::Unknown);
}

#[test]
fn regions_hold_whole_accesses() {
    let regions = [Region { base: 0x1000, size: 0x100 }, Region { base: 0x2000, size: 0x100 }];
    assert_eq!(find_region(&regions, 0x2080, 0x80), Some(1));
    assert_eq!(find_region(&regions, 0x2081, 0x80), None);
    assert!(addresses_enough(40, 36));
    assert!(!addresses_enough(36, 40));
}

#[test]
fn vector_sends_its_last_message() {
    let mut domain = GicMessageInterruptDomain::new(2);
    let msg = MessageInterrupt { address: 0x0800_0040, data: 96, masked: false };
    domain.update(1, msg);
    domain.update(5, msg);
    assert_eq!(domain.message_for(1), None);
    domain.enabled(true);
    assert_eq!(domain.message_for(1), Some(msg));
    assert_eq!(domain.message_for(0), None);
    assert_eq!(domain.message_for(5), None);
    let moved = MessageInterrupt { data: 97, ..msg };
    domain.update(1, moved);
    assert_eq!(domain.message_for(1), Some(moved));
}

#[test]
fn threads_start_run_and_end() {
    let mut smp = Smp::new(2);
    let mut boot = VcpuThread::new(0);
    let mut second = VcpuThread::new(1);
    assert_eq!(boot.step(&mut smp, ThreadEvent::Wake), ThreadAction::Create { request: None });
    assert_eq!(second.step(&mut smp, ThreadEvent::Wake), ThreadAction::Wait);
    assert_eq!(boot.step(&mut smp, ThreadEvent::Done), ThreadAction::Run);
    assert_eq!(boot.step(&mut smp, ThreadEvent::Access), ThreadAction::Run);

    let on = [0xC400_0003, mpidr_for(1), 0x4000_0000, 0xABCD, 0, 0, 0, 0];
    assert_eq!(boot.step(&mut smp, ThreadEvent::Hvc(on)), ThreadAction::SetResult(0));
    assert_eq!(boot.step(&mut smp, ThreadEvent::Done), ThreadAction::Run);
    let request = StartRequest { entry: 0x4000_0000, context: 0xABCD };
    assert_eq!(
        second.step(&mut smp, ThreadEvent::Wake),
        ThreadAction::Create { request: Some(request) }
    );
    assert_eq!(second.step(&mut smp, ThreadEvent::Done), ThreadAction::Run);

    // The second vCPU turns itself off and is turned on again.
    let off = [0x8400_0002, 0, 0, 0, 0, 0, 0, 0];
    assert_eq!(second.step(&mut smp, ThreadEvent::Hvc(off)), ThreadAction::Wait);
    assert_eq!(boot.step(&mut smp, ThreadEvent::Hvc(on)), ThreadAction::SetResult(0));
    assert_eq!(second.step(&mut smp, ThreadEvent::Wake), ThreadAction::Restart { request });
    assert_eq!(second.step(&mut smp, ThreadEvent::Done), ThreadAction::Run);

    // The guest powers off: every thread ends.
    assert_eq!(boot.step(&mut smp, ThreadEvent::Done), ThreadAction::Run);
    let system_off = [0x8400_0008, 0, 0, 0, 0, 0, 0, 0];
    assert_eq!(boot.step(&mut smp, ThreadEvent::Hvc(system_off)), ThreadAction::End);
    assert_eq!(second.step(&mut smp, ThreadEvent::Unknown), ThreadAction::End);
    assert_eq!(run_result(None, smp.outcome()), Ok(VcpuStop::GuestPoweroff));
}

#[test]
fn unhandled_exits_fail_the_thread() {
    let mut smp = Smp::new(2);
    let mut boot = VcpuThread::new(0);
    boot.step(&mut smp, ThreadEvent::Wake);
    boot.step(&mut smp, ThreadEvent::Done);
    assert_eq!(boot.step(&mut smp, ThreadEvent::Unknown), ThreadAction::Fail);
    // The other thread ends without having run.
    let mut second = VcpuThread::new(1);
    assert_eq!(second.step(&mut smp, ThreadEvent::Wake), ThreadAction::End);
    assert_eq!(run_result(Some("boom".into()), smp.outcome()), Err("boom".to_string()));
}
