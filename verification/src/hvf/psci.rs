//! Power control by firmware calls.
use vstd::prelude::*;

verus! {

pub const VERSION: u32 = 0x8400_0000;

pub const CPU_OFF: u32 = 0x8400_0002;

pub const CPU_ON_32: u32 = 0x8400_0003;

pub const CPU_ON_64: u32 = 0xc400_0003;

pub const AFFINITY_INFO_32: u32 = 0x8400_0004;

pub const AFFINITY_INFO_64: u32 = 0xc400_0004;

pub const MIGRATE_INFO_TYPE: u32 = 0x8400_0006;

pub const SYSTEM_OFF: u32 = 0x8400_0008;

pub const SYSTEM_RESET: u32 = 0x8400_0009;

pub const FEATURES: u32 = 0x8400_000a;

pub const SUCCESS: u64 = 0;

/// Minus one.
pub const NOT_SUPPORTED: u64 = 0xffff_ffff_ffff_ffff;

/// Minus two.
pub const INVALID_PARAMETERS: u64 = 0xffff_ffff_ffff_fffe;

/// Minus four.
pub const ALREADY_ON: u64 = 0xffff_ffff_ffff_fffc;

pub const AFF_ON: u64 = 0;

pub const MIGRATE_NOT_REQUIRED: u64 = 2;

pub const VERSION_1_1: u64 = 0x0001_0001;

/// What a firmware call asks for.
#[derive(Debug, Clone, Copy, PartialEq, Eq, Structural)]
pub enum PsciAction {
    CpuOn { target: u64, entry: u64, context: u64 },
    CpuOff,
    SystemOff,
    SystemReset,
    /// Nothing but the result.
    Return(u64),
}

/// Whether a function exists.
pub open spec fn known(function: u32) -> bool {
    ||| function == VERSION
    ||| function == CPU_OFF
    ||| function == CPU_ON_32
    ||| function == CPU_ON_64
    ||| function == AFFINITY_INFO_32
    ||| function == AFFINITY_INFO_64
    ||| function == MIGRATE_INFO_TYPE
    ||| function == SYSTEM_OFF
    ||| function == SYSTEM_RESET
    ||| function == FEATURES
}

/// What a call asks for. The function is the low half of the first argument.
pub open spec fn call_action(args: Seq<u64>) -> PsciAction {
    let function = args[0] as u32;
    if function == VERSION {
        PsciAction::Return(VERSION_1_1)
    } else if function == CPU_ON_32 || function == CPU_ON_64 {
        PsciAction::CpuOn { target: args[1], entry: args[2], context: args[3] }
    } else if function == CPU_OFF {
        PsciAction::CpuOff
    } else if function == AFFINITY_INFO_32 || function == AFFINITY_INFO_64 {
        PsciAction::Return(AFF_ON)
    } else if function == MIGRATE_INFO_TYPE {
        PsciAction::Return(MIGRATE_NOT_REQUIRED)
    } else if function == SYSTEM_OFF {
        PsciAction::SystemOff
    } else if function == SYSTEM_RESET {
        PsciAction::SystemReset
    } else if function == FEATURES {
        PsciAction::Return(
            if known(args[1] as u32) {
                SUCCESS
            } else {
                NOT_SUPPORTED
            },
        )
    } else {
        PsciAction::Return(NOT_SUPPORTED)
    }
}

pub fn dispatch(args: &[u64; 8]) -> (r: PsciAction)
    ensures
        r == call_action(args@),
{
    let function: u32 = args[0] as u32;
    match function {
        VERSION => PsciAction::Return(VERSION_1_1),
        CPU_ON_32 => PsciAction::CpuOn { target: args[1], entry: args[2], context: args[3] },
        CPU_ON_64 => PsciAction::CpuOn { target: args[1], entry: args[2], context: args[3] },
        CPU_OFF => PsciAction::CpuOff,
        AFFINITY_INFO_32 => PsciAction::Return(AFF_ON),
        AFFINITY_INFO_64 => PsciAction::Return(AFF_ON),
        MIGRATE_INFO_TYPE => PsciAction::Return(MIGRATE_NOT_REQUIRED),
        SYSTEM_OFF => PsciAction::SystemOff,
        SYSTEM_RESET => PsciAction::SystemReset,
        FEATURES => PsciAction::Return(features(args[1] as u32)),
        _ => PsciAction::Return(NOT_SUPPORTED),
    }
}

/// Whether a function exists, as a result.
pub fn features(queried: u32) -> (r: u64)
    ensures
        r == if known(queried) {
            SUCCESS
        } else {
            NOT_SUPPORTED
        },
{
    match queried {
        VERSION => SUCCESS,
        CPU_OFF => SUCCESS,
        CPU_ON_32 => SUCCESS,
        CPU_ON_64 => SUCCESS,
        AFFINITY_INFO_32 => SUCCESS,
        AFFINITY_INFO_64 => SUCCESS,
        MIGRATE_INFO_TYPE => SUCCESS,
        SYSTEM_OFF => SUCCESS,
        SYSTEM_RESET => SUCCESS,
        FEATURES => SUCCESS,
        _ => NOT_SUPPORTED,
    }
}

/// A function that does not exist is answered so when it is called and when it is
/// asked for; one that exists is found.
pub proof fn law_features_tell_what_is_supported(args: Seq<u64>, asked: Seq<u64>)
    requires
        asked[0] as u32 == FEATURES,
        asked[1] as u32 == args[0] as u32,
    ensures
        !known(args[0] as u32) ==> call_action(args) == PsciAction::Return(NOT_SUPPORTED)
            && call_action(asked) == PsciAction::Return(NOT_SUPPORTED),
        known(args[0] as u32) ==> call_action(asked) == PsciAction::Return(SUCCESS),
        known(args[0] as u32) && args[0] as u32 != FEATURES ==> call_action(args)
            != PsciAction::Return(NOT_SUPPORTED),
{
}

/// Which call asks for what, by the number of its function: powering on hands over the
/// three arguments in their order, and the results are those that a guest expects.
pub proof fn law_calls_by_their_numbers(args: Seq<u64>)
    ensures
        ({
            let f = args[0] as u32;
            let action = call_action(args);
            &&& action is SystemOff <==> f == 0x8400_0008
            &&& action is SystemReset <==> f == 0x8400_0009
            &&& action is CpuOff <==> f == 0x8400_0002
            &&& action is CpuOn <==> f == 0x8400_0003 || f == 0xc400_0003
            &&& action matches PsciAction::CpuOn { target, entry, context } ==> target == args[1]
                && entry == args[2] && context == args[3]
            &&& f == 0x8400_0000 ==> action == PsciAction::Return(0x1_0001)
            &&& f == 0x8400_0004 || f == 0xc400_0004 ==> action == PsciAction::Return(0)
            &&& f == 0x8400_0006 ==> action == PsciAction::Return(2)
            &&& f == 0x8400_000a ==> action == PsciAction::Return(
                if known(args[1] as u32) {
                    0
                } else {
                    0xffff_ffff_ffff_ffff
                },
            )
            &&& !known(f) ==> action == PsciAction::Return(0xffff_ffff_ffff_ffff)
        }),
{
}

/// The functions that exist: all from 0 to 10 of the 32-bit ones but 1, 5 and 7, and
/// functions 3 and 4 of the 64-bit ones.
pub proof fn law_functions_that_exist(function: u32)
    ensures
        known(function) <==> (0x8400_0000 <= function <= 0x8400_000a && function != 0x8400_0001
            && function != 0x8400_0005 && function != 0x8400_0007) || (0xc400_0003 <= function
            <= 0xc400_0004),
{
}

} // verus!
