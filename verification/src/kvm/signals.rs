//! What the supervisor does on a signal.
use vstd::prelude::*;

verus! {

pub const SIGINT: i32 = 2;

pub const SIGQUIT: i32 = 3;

pub const SIGTERM: i32 = 15;

pub const SIGWINCH: i32 = 28;

/// How long a guest has to shut down before the supervisor exits, in seconds.
pub const GRACE_SECONDS: u64 = 5;

/// What the supervisor does on a signal.
#[derive(Debug, Clone, Copy, PartialEq, Eq, Structural)]
pub enum SignalAction {
    Ignore,
    /// Ask the guest to shut down, and exit with the code if it does not in time.
    Graceful { exit_code: i32 },
    /// Exit with the code.
    HardExit { exit_code: i32 },
}

/// What a signal asks for, where `seen` signals to end came before it: the first
/// asks the guest, a second one or a quit exits. A changed window is none of them.
pub open spec fn signal_action(signo: i32, seen: u8) -> SignalAction {
    if signo == SIGWINCH {
        SignalAction::Ignore
    } else if signo == SIGQUIT || seen >= 1 {
        SignalAction::HardExit { exit_code: (128 + signo) as i32 }
    } else {
        SignalAction::Graceful { exit_code: (128 + signo) as i32 }
    }
}

/// Takes a signal: what to do, and how many signals to end have come.
pub fn on_signal(signo: i32, seen: u8) -> (r: (SignalAction, u8))
    requires
        signo <= i32::MAX - 128,
    ensures
        r.0 == signal_action(signo, seen),
        r.1 == if signo == SIGWINCH || seen == u8::MAX {
            seen as int
        } else {
            seen + 1
        },
{
    if signo == SIGWINCH {
        return (SignalAction::Ignore, seen);
    }
    let count: u8 = seen.saturating_add(1);
    let exit_code: i32 = 128 + signo;
    if signo == SIGQUIT || seen >= 1 {
        (SignalAction::HardExit { exit_code }, count)
    } else {
        (SignalAction::Graceful { exit_code }, count)
    }
}

/// The name of a signal.
pub fn signal_name(signo: i32) -> (r: &'static str)
    ensures
        r == if signo == SIGINT {
            "SIGINT"
        } else if signo == SIGTERM {
            "SIGTERM"
        } else if signo == SIGQUIT {
            "SIGQUIT"
        } else {
            "signal"
        },
{
    if signo == SIGINT {
        "SIGINT"
    } else if signo == SIGTERM {
        "SIGTERM"
    } else if signo == SIGQUIT {
        "SIGQUIT"
    } else {
        "signal"
    }
}

/// A second signal to end always ends the supervisor.
pub proof fn law_second_signal_exits(first: i32, second: i32)
    requires
        first != SIGWINCH,
        second != SIGWINCH,
    ensures
        signal_action(second, 1) is HardExit,
        signal_action(first, 0) is HardExit <==> first == SIGQUIT,
{
}

/// A signal that ends the supervisor, at once or in time, ends it with the code of a
/// process that the signal killed; a changed window does not.
pub proof fn law_exit_codes(signo: i32, seen: u8)
    requires
        -0x7fff_ffff <= signo <= 0x7fff_ff00,
    ensures
        match signal_action(signo, seen) {
            SignalAction::Ignore => signo == 28,
            SignalAction::Graceful { exit_code } => exit_code == 128 + signo && seen == 0 && signo
                != 3 && signo != 28,
            SignalAction::HardExit { exit_code } => exit_code == 128 + signo && signo != 28 && (seen
                > 0 || signo == 3),
        },
{
}

/// Every signal but a changed window is counted, up to what a byte holds, and the second
/// one that is counted ends the supervisor at once.
pub proof fn law_signals_are_counted(
    signo: i32,
    seen: u8,
    r: (SignalAction, u8),
    again: i32,
    s: (SignalAction, u8),
)
    requires
        signo <= i32::MAX - 128,
        again <= i32::MAX - 128,
        call_ensures(on_signal, (signo, seen), r),
        call_ensures(on_signal, (again, r.1), s),
    ensures
        signo == 28 ==> r.1 == seen,
        signo != 28 && seen < 255 ==> r.1 == seen + 1,
        signo != 28 && seen == 255 ==> r.1 == 255,
        signo != 28 && again != 28 ==> s.0 is HardExit,
{
}

} // verus!
