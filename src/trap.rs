//! Classification of CPU traps taken while a kernel runs.
use vstd::prelude::*;

verus! {

/// The kind of a trap, as far as reporting it goes.
#[derive(Clone, Copy, Debug, PartialEq, Eq, Structural)]
pub enum TrapCause {
    LoadFault,
    StoreFault,
    /// Any other exception or interrupt, by its cause code.
    Other(u32),
}

/// What is reported of a trap before the core halts.
#[derive(Clone, Copy, Debug, PartialEq, Eq, Structural)]
pub struct TrapReport {
    pub cause: TrapCause,
    pub pc: u32,
    pub mtval: usize,
    /// The faulting address lies in the stack guard page: the kernel most
    /// likely overflowed its stack.
    pub stack_overflow: bool,
}

/// Classifies a trap with cause `cause` at `pc` whose trap value is
/// `mtval`, given the stack guard page `[stack_guard_base,
/// stack_guard_base + stack_guard_size)`. Only a load or store fault inside
/// the guard page is reported as a stack overflow.
pub fn exception(cause: TrapCause, pc: u32, mtval: usize, stack_guard_base: usize, stack_guard_size: usize) -> (r: TrapReport)
    ensures
        r.cause == cause,
        r.pc == pc,
        r.mtval == mtval,
        r.stack_overflow == ((cause is LoadFault || cause is StoreFault)
            && stack_guard_base <= mtval && mtval < stack_guard_base + stack_guard_size),
{
    let memory_fault = match cause {
        TrapCause::LoadFault => true,
        TrapCause::StoreFault => true,
        TrapCause::Other(_) => false,
    };
    let in_guard = mtval >= stack_guard_base && mtval - stack_guard_base < stack_guard_size;
    TrapReport { cause, pc, mtval, stack_overflow: memory_fault && in_guard }
}

} // verus!
