//! Fault-injection campaigns against a firmware image, decided here and
//! executed by a CPU emulation backend that the caller drives.
//!
//! The library holds every decision of a campaign: the memory map and the
//! entry state of a run, the hooks and what each of them does, the bytes that
//! a fault replaces and writes, the trace of a run, and the order of the
//! trials with what is kept of them. It never touches an emulator. Each
//! function that concerns one returns the operations to carry out there, and
//! the caller reports back when a hook has fired or a run has returned.

pub mod backend;
pub mod encoding;
pub mod fault;
pub mod image;
pub mod injections;
pub mod memory;
pub mod session;
pub mod simulation;

pub use backend::{Access, BackendOp, Hook, HookKind, Region, RunRequest};
pub use fault::{FaultData, FaultType, SimulationData};
pub use image::Image;
pub use injections::{FaultInjections, RunMode};
pub use memory::Memory;
pub use session::{RunState, TraceRecord};
pub use simulation::{HookEvent, Next, Phase, Simulation, Step};
