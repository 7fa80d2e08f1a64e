//! What the library asks of the CPU emulation backend. The library decides;
//! the caller owns the emulator, carries these operations out in the order
//! given, and reports back what the emulator did.

use vstd::prelude::*;

verus! {

/// How a mapped region may be accessed.
#[derive(Clone, Copy, Debug, PartialEq, Eq, Structural)]
pub enum Access {
    /// Readable and writable memory.
    ReadWrite,
    /// Readable, writable and executable memory.
    All,
    /// Memory that can only be written.
    WriteOnly,
    /// Memory-mapped output: no memory behind it, every write is handed to
    /// the serial callback.
    MmioWrite,
}

/// A region of the address space: `size` bytes from `base`.
#[derive(Clone, Copy, Debug, PartialEq, Eq, Structural)]
pub struct Region {
    pub base: u64,
    pub size: usize,
    pub access: Access,
}

impl Region {
    /// One past the last address of the region.
    pub open spec fn end(self) -> int {
        self.base + self.size
    }

    /// Whether the two regions have no address in common.
    pub open spec fn disjoint(self, other: Region) -> bool {
        self.end() <= other.base || other.end() <= self.base
    }
}

/// The callbacks that a hook can lead to.
#[derive(Clone, Copy, Debug, PartialEq, Eq, Structural)]
pub enum HookKind {
    /// Execution reached the flash-load entry point.
    FlashLoad,
    /// The target wrote to the auth-trigger region.
    AuthWrite,
    /// An instruction of the program is about to execute, during a trace.
    Trace,
    /// Execution reached the address of a fault.
    Fault,
}

/// A hook on the addresses `begin` to `end`, both included.
#[derive(Clone, Copy, Debug, PartialEq, Eq, Structural)]
pub struct Hook {
    pub kind: HookKind,
    pub begin: u64,
    pub end: u64,
}

impl Hook {
    /// Whether the hook fires for `address`.
    pub open spec fn covers(self, address: u64) -> bool {
        self.begin <= address <= self.end
    }
}

/// One call of the emulator: execute from `begin` until the address `until`
/// is reached, `count` instructions have run, or `timeout` microseconds have
/// passed.
#[derive(Clone, Copy, Debug, PartialEq, Eq, Structural)]
pub struct RunRequest {
    pub begin: u64,
    pub until: u64,
    pub timeout: u64,
    pub count: usize,
}

/// Mathematical model of a [`BackendOp`].
pub enum BackendOpView {
    MapMemory(Region),
    InitRegisters { stack_pointer: u64 },
    WriteMemory { address: u64, data: Seq<u8> },
    AddSystemHook(Hook),
    AddUsageHook(Hook),
    RemoveUsageHooks,
    RemoveSystemHooks,
    SaveContext,
    RestoreContext,
    Stop,
}

/// An operation for the caller to carry out on the emulator.
#[derive(Debug, PartialEq, Eq)]
pub enum BackendOp {
    /// Map the region.
    MapMemory(Region),
    /// Set every register to zero, then the stack pointer to this address.
    InitRegisters { stack_pointer: u64 },
    /// Store the bytes from the address.
    WriteMemory { address: u64, data: Vec<u8> },
    /// Install a hook that stays until the session ends.
    AddSystemHook(Hook),
    /// Install a hook that stays until the usage hooks are removed.
    AddUsageHook(Hook),
    /// Remove every hook installed by `AddUsageHook`.
    RemoveUsageHooks,
    /// Remove every hook installed by `AddSystemHook`.
    RemoveSystemHooks,
    /// Save the registers.
    SaveContext,
    /// Load the registers saved last.
    RestoreContext,
    /// Stop the emulation that is running.
    Stop,
}

impl View for BackendOp {
    type V = BackendOpView;

    open spec fn view(&self) -> BackendOpView {
        match *self {
            BackendOp::MapMemory(region) => BackendOpView::MapMemory(region),
            BackendOp::InitRegisters { stack_pointer } => BackendOpView::InitRegisters {
                stack_pointer,
            },
            BackendOp::WriteMemory { address, data } => BackendOpView::WriteMemory {
                address,
                data: data@,
            },
            BackendOp::AddSystemHook(hook) => BackendOpView::AddSystemHook(hook),
            BackendOp::AddUsageHook(hook) => BackendOpView::AddUsageHook(hook),
            BackendOp::RemoveUsageHooks => BackendOpView::RemoveUsageHooks,
            BackendOp::RemoveSystemHooks => BackendOpView::RemoveSystemHooks,
            BackendOp::SaveContext => BackendOpView::SaveContext,
            BackendOp::RestoreContext => BackendOpView::RestoreContext,
            BackendOp::Stop => BackendOpView::Stop,
        }
    }
}

/// The models of a list of operations, in order.
pub open spec fn ops_view(ops: Seq<BackendOp>) -> Seq<BackendOpView> {
    ops.map_values(|op: BackendOp| op@)
}

/// Moves the operations of `more` behind those of `ops`.
pub fn append_ops(ops: &mut Vec<BackendOp>, more: Vec<BackendOp>)
    ensures
        ops_view(final(ops)@) == ops_view(old(ops)@) + ops_view(more@),
{
    let mut more = more;
    let ghost before = ops_view(ops@);
    let ghost all = ops_view(more@);
    ops.append(&mut more);
    assert(ops_view(ops@) =~= before + all);
}

} // verus!
