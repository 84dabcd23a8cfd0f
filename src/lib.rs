//! Kernel-CPU support runtime: the decisions and data formats behind the
//! services an experiment kernel calls (RPC, cache, DMA recording and
//! playback, subkernels, attribute write-back, trap reporting).
//!
//! Everything here is pure logic over plain values. Talking to the mailbox,
//! reading hardware registers and unwinding into the kernel are done by the
//! surrounding firmware, which hands the results to these functions.
pub mod exception;
pub mod dma;
pub mod mailbox;
pub mod rpc;
pub mod subkernel;
pub mod writeback;
pub mod trap;
