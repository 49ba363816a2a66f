//! A dynamic instrumentation engine for RISC-V code: breakpoint-based probes on
//! kernel and user instructions, with a trap-driven state machine that runs the
//! probed instruction out of line or hooks the probed function's return.
pub mod decode;
pub mod memory;
pub mod probes;
pub mod kprobes;
pub mod uprobes;
pub mod ebpf;
pub mod helper;
pub mod syscall;
pub mod laws;
