//! The emulation session as the harness sees it: memory and register setup,
//! the hooks and what they do, and the control of a run. Every method that
//! concerns the emulator returns the operations for the caller to carry out
//! there; the hook callbacks are the methods that the caller invokes when the
//! emulator fires the hook.

use vstd::prelude::*;
use std::collections::HashMap;
use crate::backend::{ops_view, BackendOp, BackendOpView, Hook, HookKind, Region, RunRequest};
use crate::encoding::{ret_bytes, ret_encoding};
use crate::fault::{
    copy_bytes, copy_records, records_view, spec_fault_data, FaultData, FaultDataView,
    SimulationData,
};
use crate::image::{
    code_region_size, Image, ImageView, AUTH_BASE, SECOND_SCALE, STACK_TOP,
};
use crate::memory::{Memory, MemoryView};
use crate::session::{copy_trace, record_trace, record_visit, RunState, TraceRecord};

verus! {

broadcast use vstd::std_specs::hash::group_hash_axioms;

/// How the emulator is being run.
#[derive(Clone, Copy, Debug, PartialEq, Eq, Structural)]
pub enum RunMode {
    /// No run is under way.
    Idle,
    /// One call of the emulator covers the whole run.
    Bulk,
    /// The emulator is called for one instruction at a time; this many
    /// instructions are left, the one under way included.
    Stepping(usize),
}

/// The registers and the code memory saved by `context_init`.
pub struct ContextView {
    pub pc: u64,
    pub memory: MemoryView,
}

/// Mathematical model of a [`FaultInjections`].
pub struct FaultInjectionsView {
    /// The image under test.
    pub file_data: ImageView,
    /// Verdict of the run.
    pub state: RunState,
    /// Whether the run is expected to succeed.
    pub is_positiv: bool,
    /// Whether serial output is printed.
    pub print_output: bool,
    /// The trace: size and hit count by instruction address.
    pub trace_data: Map<u64, TraceRecord>,
    /// The faults that are installed.
    pub fault_data: Seq<FaultDataView>,
    /// Where the next run starts.
    pub pc: u64,
    /// The code region.
    pub memory: MemoryView,
    /// The saved context, once there is one.
    pub context: Option<ContextView>,
    /// The hooks that stay for the whole session.
    pub system_hooks: Seq<Hook>,
    /// The hooks of the trace or trial under way.
    pub usage_hooks: Seq<Hook>,
    /// How the emulator is being run.
    pub mode: RunMode,
}

/// `address` with the Thumb bit set, as the emulator wants its start and end
/// addresses.
pub open spec fn thumb(address: u64) -> u64 {
    address | 1
}

/// Setting the Thumb bit makes an even address odd and leaves an odd one.
pub proof fn lemma_thumb_sets_lowest_bit(address: u64)
    ensures
        thumb(address) == if address % 2 == 0 {
            address + 1
        } else {
            address as int
        },
{
    assert(address | 1 == if address % 2 == 0 {
        (address + 1) as u64
    } else {
        address
    }) by (bit_vector);
    assert(address % 2 == 0 ==> address < u64::MAX);
}

/// The verdict once a run has ended: what a hook decided stands. A run that
/// ends without a verdict, because the emulator failed or because the budget
/// ran out before the target decided, is an `Error`.
pub open spec fn final_verdict(state: RunState) -> RunState {
    if state != RunState::Init {
        state
    } else {
        RunState::Error
    }
}

/// The code memory after every installed fault at `address` has been written,
/// in the order of installation.
pub open spec fn apply_faults(memory: MemoryView, faults: Seq<FaultDataView>, address: u64)
    -> MemoryView
    decreases faults.len(),
{
    if faults.len() == 0 {
        memory
    } else {
        let before = apply_faults(memory, faults.drop_last(), address);
        if faults.last().fault.address == address {
            before.write(address as int, faults.last().data_changed)
        } else {
            before
        }
    }
}

/// The writes that put every installed fault at `address` into the
/// emulator's memory, in the order of installation.
pub open spec fn fault_writes(faults: Seq<FaultDataView>, address: u64) -> Seq<BackendOpView>
    decreases faults.len(),
{
    if faults.len() == 0 {
        Seq::empty()
    } else {
        let before = fault_writes(faults.drop_last(), address);
        if faults.last().fault.address == address {
            before.push(
                BackendOpView::WriteMemory { address, data: faults.last().data_changed },
            )
        } else {
            before
        }
    }
}

impl FaultInjectionsView {
    /// A fresh session for `image`: no verdict, a run expected to succeed,
    /// output printed, nothing traced or installed, the code region zeroed.
    pub open spec fn initial(image: ImageView) -> FaultInjectionsView {
        FaultInjectionsView {
            file_data: image,
            state: RunState::Init,
            is_positiv: true,
            print_output: true,
            trace_data: Map::empty(),
            fault_data: Seq::empty(),
            pc: 0,
            memory: MemoryView {
                base: image.load_address,
                bytes: Seq::new(image.code_size(), |i: int| 0u8),
            },
            context: None,
            system_hooks: Seq::empty(),
            usage_hooks: Seq::empty(),
            mode: RunMode::Idle,
        }
    }

    /// What holds of every session: the image can be set up, the code memory
    /// is the image's code region, every installed fault lies inside it and
    /// writes as many bytes as it captured, and a saved context is of the same
    /// region.
    pub open spec fn wf(self) -> bool {
        &&& self.file_data.valid()
        &&& self.memory.base == self.file_data.load_address
        &&& self.memory.bytes.len() == self.file_data.code_size()
        &&& forall|i: int|
            0 <= i < self.fault_data.len() ==> {
                &&& (#[trigger] self.fault_data[i]).data_changed.len()
                    == self.fault_data[i].data.len()
                &&& self.memory.readable(
                    self.fault_data[i].fault.address as int,
                    self.fault_data[i].data.len(),
                )
            }
        &&& self.context matches Some(context) ==> context.memory.base == self.memory.base
            && context.memory.bytes.len() == self.memory.bytes.len()
    }

    /// The hook on the flash-load entry point.
    pub open spec fn flash_load_hook(self) -> Hook {
        Hook {
            kind: HookKind::FlashLoad,
            begin: self.file_data.flash_load_img,
            end: (self.file_data.flash_load_img + 1) as u64,
        }
    }

    /// The hook on writes to the first word of the auth-trigger region.
    pub open spec fn auth_hook(self) -> Hook {
        Hook { kind: HookKind::AuthWrite, begin: AUTH_BASE, end: (AUTH_BASE + 4) as u64 }
    }

    /// The hook on every instruction of the program.
    pub open spec fn trace_hook(self) -> Hook {
        Hook {
            kind: HookKind::Trace,
            begin: self.file_data.load_address,
            end: (self.file_data.load_address + self.file_data.memory_size) as u64,
        }
    }

    /// The hook on the single address of a fault.
    pub open spec fn fault_hook(record: SimulationData) -> Hook {
        Hook { kind: HookKind::Fault, begin: record.address, end: record.address }
    }

    /// The request for a run of at most `count` instructions from where the
    /// last run stopped to the end of the program.
    pub open spec fn run_request(self, count: usize) -> RunRequest {
        RunRequest {
            begin: thumb(self.pc),
            until: thumb(self.file_data.end_address() as u64),
            timeout: SECOND_SCALE,
            count,
        }
    }

    /// After `init_register`.
    pub open spec fn init_register(self) -> FaultInjectionsView {
        FaultInjectionsView { pc: self.file_data.load_address, ..self }
    }

    /// After `load_code`.
    pub open spec fn load_code(self) -> FaultInjectionsView {
        FaultInjectionsView {
            pc: self.file_data.load_address,
            memory: self.memory.write(self.file_data.load_address as int, self.file_data.program),
            ..self
        }
    }

    /// After `deactivate_printf_function`.
    pub open spec fn deactivate_printf_function(self) -> FaultInjectionsView {
        FaultInjectionsView {
            print_output: false,
            memory: self.memory.write(self.file_data.puts_address(), ret_encoding()),
            ..self
        }
    }

    /// After `setup_breakpoints`.
    pub open spec fn setup_breakpoints(self) -> FaultInjectionsView {
        FaultInjectionsView {
            system_hooks: self.system_hooks.push(self.flash_load_hook()).push(self.auth_hook()),
            ..self
        }
    }

    /// After `init_states`.
    pub open spec fn init_states(self, run_state: bool) -> FaultInjectionsView {
        FaultInjectionsView { is_positiv: run_state, state: RunState::Init, ..self }
    }

    /// After `set_fault_data`: the fault is installed where it can be
    /// injected; where it cannot, the verdict is `Error`.
    pub open spec fn set_fault_data(self, record: SimulationData) -> FaultInjectionsView {
        match spec_fault_data(self.memory, record) {
            Some(fault) => FaultInjectionsView { fault_data: self.fault_data.push(fault), ..self },
            None => FaultInjectionsView { state: RunState::Error, ..self },
        }
    }

    /// After `set_fault_data` for each of `records`, in order.
    pub open spec fn set_all_fault_data(self, records: Seq<SimulationData>) -> FaultInjectionsView
        decreases records.len(),
    {
        if records.len() == 0 {
            self
        } else {
            self.set_all_fault_data(records.drop_last()).set_fault_data(records.last())
        }
    }

    /// After `set_usage_fault_hook`.
    pub open spec fn set_usage_fault_hook(self, record: SimulationData) -> FaultInjectionsView {
        (FaultInjectionsView {
            usage_hooks: self.usage_hooks.push(Self::fault_hook(record)),
            ..self
        }).set_fault_data(record)
    }

    /// After `set_trace_hook`.
    pub open spec fn set_trace_hook(self, records: Seq<SimulationData>) -> FaultInjectionsView {
        (FaultInjectionsView {
            usage_hooks: self.usage_hooks.push(self.trace_hook()),
            ..self
        }).set_all_fault_data(records)
    }

    /// After `release_usage_fault_hooks`.
    pub open spec fn release_usage_fault_hooks(self) -> FaultInjectionsView {
        FaultInjectionsView { usage_hooks: Seq::empty(), fault_data: Seq::empty(), ..self }
    }

    /// After `release_system_hooks`.
    pub open spec fn release_system_hooks(self) -> FaultInjectionsView {
        FaultInjectionsView { system_hooks: Seq::empty(), ..self }
    }

    /// After `context_init`.
    pub open spec fn context_init(self) -> FaultInjectionsView {
        FaultInjectionsView {
            context: Some(ContextView { pc: self.pc, memory: self.memory }),
            ..self
        }
    }

    /// After `context_restore`.
    pub open spec fn context_restore(self) -> FaultInjectionsView {
        match self.context {
            Some(context) => FaultInjectionsView {
                pc: context.pc,
                memory: context.memory,
                ..self
            },
            None => self,
        }
    }

    /// The operations of `context_restore`.
    pub open spec fn context_restore_ops(self) -> Seq<BackendOpView> {
        match self.context {
            Some(context) => seq![
                BackendOpView::RestoreContext,
                BackendOpView::WriteMemory {
                    address: context.memory.base,
                    data: context.memory.bytes,
                },
            ],
            None => Seq::empty(),
        }
    }

    /// After `run_steps`.
    pub open spec fn run_steps(self, cycles: usize, debug: bool) -> FaultInjectionsView {
        FaultInjectionsView {
            mode: if !debug {
                RunMode::Bulk
            } else if cycles == 0 {
                RunMode::Idle
            } else {
                RunMode::Stepping(cycles)
            },
            ..self
        }
    }

    /// What `run_steps` asks of the emulator.
    pub open spec fn run_steps_request(self, cycles: usize, debug: bool) -> Option<RunRequest> {
        if !debug {
            Some(self.run_request(cycles))
        } else if cycles == 0 {
            None
        } else {
            Some(self.run_request(1))
        }
    }

    /// Whether, after the emulator has returned, another single step follows:
    /// the emulator reported no error, instructions are left, and no hook has
    /// decided.
    pub open spec fn steps_on(self, ok: bool) -> bool {
        self.mode matches RunMode::Stepping(left) && ok && left > 1 && self.state
            == RunState::Init
    }

    /// After `run_returned`.
    pub open spec fn run_returned(self, pc: u64, ok: bool) -> FaultInjectionsView {
        if self.steps_on(ok) {
            FaultInjectionsView {
                pc,
                mode: RunMode::Stepping((self.mode->Stepping_0 - 1) as usize),
                ..self
            }
        } else {
            FaultInjectionsView {
                pc,
                mode: RunMode::Idle,
                state: final_verdict(self.state),
                ..self
            }
        }
    }

    /// What `run_returned` asks of the emulator.
    pub open spec fn run_returned_request(self, pc: u64, ok: bool) -> Option<RunRequest> {
        if self.steps_on(ok) {
            Some(self.run_returned(pc, ok).run_request(1))
        } else {
            None
        }
    }

    /// After the flash-load hook has fired.
    pub open spec fn flash_load_reached(self) -> FaultInjectionsView {
        FaultInjectionsView {
            state: if self.is_positiv {
                RunState::Success
            } else {
                RunState::Failed
            },
            ..self
        }
    }

    /// After the target has written `value` to the auth-trigger region.
    pub open spec fn auth_written(self, value: u64) -> FaultInjectionsView {
        FaultInjectionsView {
            state: if value == self.file_data.auth_success {
                RunState::Success
            } else {
                RunState::Failed
            },
            ..self
        }
    }

    /// After the hook of a fault has fired at `address`.
    pub open spec fn fault_reached(self, address: u64) -> FaultInjectionsView {
        FaultInjectionsView {
            memory: apply_faults(self.memory, self.fault_data, address),
            ..self
        }
    }

    /// After the trace hook has fired at `address`: the faults installed
    /// there are written, then the instruction is entered into the trace with
    /// the width that its first halfword gives it. Where that halfword lies
    /// outside the code region, nothing is traced and the verdict is `Error`.
    pub open spec fn code_traced(self, address: u64) -> FaultInjectionsView {
        let faulted = self.fault_reached(address);
        match faulted.memory.cmd_size_at(address as int) {
            Some(size) => FaultInjectionsView {
                trace_data: record_visit(faulted.trace_data, address, size as usize),
                ..faulted
            },
            None => FaultInjectionsView { state: RunState::Error, ..faulted },
        }
    }

    /// The operations after the trace hook has fired at `address`.
    pub open spec fn code_traced_ops(self, address: u64) -> Seq<BackendOpView> {
        let writes = fault_writes(self.fault_data, address);
        if self.fault_reached(address).memory.cmd_size_at(address as int) is Some {
            writes
        } else {
            writes.push(BackendOpView::Stop)
        }
    }
}

/// Installing faults touches neither the image, the trace, the code memory
/// nor the hooks, and leaves the verdict alone or makes it `Error`.
pub proof fn lemma_set_all_fault_data_keeps(
    emu: FaultInjectionsView,
    records: Seq<SimulationData>,
)
    ensures
        emu.set_all_fault_data(records).file_data == emu.file_data,
        emu.set_all_fault_data(records).trace_data == emu.trace_data,
        emu.set_all_fault_data(records).memory == emu.memory,
        emu.set_all_fault_data(records).pc == emu.pc,
        emu.set_all_fault_data(records).usage_hooks == emu.usage_hooks,
        emu.set_all_fault_data(records).system_hooks == emu.system_hooks,
        emu.set_all_fault_data(records).state == emu.state || emu.set_all_fault_data(
            records,
        ).state == RunState::Error,
    decreases records.len(),
{
    if records.len() > 0 {
        lemma_set_all_fault_data_keeps(emu, records.drop_last());
    }
}

/// The registers and the code memory saved by `context_init`.
struct Context {
    pc: u64,
    memory: Memory,
}

/// The emulation session of one image.
pub struct FaultInjections {
    file_data: Image,
    state: RunState,
    is_positiv: bool,
    print_output: bool,
    trace_data: HashMap<u64, TraceRecord>,
    fault_data: Vec<FaultData>,
    pc: u64,
    memory: Memory,
    context: Option<Context>,
    system_hooks: Vec<Hook>,
    usage_hooks: Vec<Hook>,
    mode: RunMode,
}

impl View for FaultInjections {
    type V = FaultInjectionsView;

    closed spec fn view(&self) -> FaultInjectionsView {
        FaultInjectionsView {
            file_data: self.file_data@,
            state: self.state,
            is_positiv: self.is_positiv,
            print_output: self.print_output,
            trace_data: self.trace_data@,
            fault_data: records_view(self.fault_data@),
            pc: self.pc,
            memory: self.memory@,
            context: match self.context {
                Some(context) => Some(ContextView { pc: context.pc, memory: context.memory@ }),
                None => None,
            },
            system_hooks: self.system_hooks@,
            usage_hooks: self.usage_hooks@,
            mode: self.mode,
        }
    }
}

impl FaultInjections {
    /// The session is well formed: see [`FaultInjectionsView::wf`].
    pub closed spec fn wf(&self) -> bool {
        &&& self@.wf()
        &&& self.memory.wf()
        &&& self.context matches Some(context) ==> context.memory.wf()
    }

    /// What is known of every well-formed session.
    pub proof fn lemma_wf(&self)
        requires
            self.wf(),
        ensures
            self@.wf(),
    {
    }

    /// A session for the image `file_data`.
    pub fn new(file_data: &Image) -> (session: Self)
        requires
            file_data@.valid(),
        ensures
            session.wf(),
            session@ == FaultInjectionsView::initial(file_data@),
    {
        let size: usize = match code_region_size(file_data.program.len()) {
            Some(size) => size,
            None => 0,
        };
        let memory = Memory::zeroed(file_data.load_address, size);
        let session = FaultInjections {
            file_data: file_data.duplicate(),
            state: RunState::Init,
            is_positiv: true,
            print_output: true,
            trace_data: HashMap::new(),
            fault_data: Vec::new(),
            pc: 0,
            memory,
            context: None,
            system_hooks: Vec::new(),
            usage_hooks: Vec::new(),
            mode: RunMode::Idle,
        };
        assert(session@.fault_data =~= Seq::empty());
        assert(session@.memory.bytes =~= FaultInjectionsView::initial(file_data@).memory.bytes);
        session
    }

    /// The regions to map before anything else is done: boot-stage scratch,
    /// code, stack, auth trigger and serial output.
    pub fn setup_mmio(&self) -> (ops: Vec<BackendOp>)
        requires
            self.wf(),
        ensures
            ops_view(ops@) == self@.file_data.regions().map_values(
                |region: Region| BackendOpView::MapMemory(region),
            ),
    {
        let regions = self.file_data.regions();
        let mut ops: Vec<BackendOp> = Vec::new();
        let mut i: usize = 0;
        while i < regions.len()
            invariant
                i <= regions@.len(),
                ops@.len() == i,
                forall|k: int| 0 <= k < i ==> ops@[k]@ == BackendOpView::MapMemory(regions@[k]),
            decreases regions@.len() - i,
        {
            ops.push(BackendOp::MapMemory(regions[i]));
            i = i + 1;
        }
        assert(ops_view(ops@) =~= regions@.map_values(
            |region: Region| BackendOpView::MapMemory(region),
        ));
        ops
    }

    /// Installs the two hooks that stay for the whole session: the
    /// breakpoint on the flash-load entry point and the watch on the
    /// auth-trigger region.
    pub fn setup_breakpoints(&mut self) -> (ops: Vec<BackendOp>)
        requires
            old(self).wf(),
        ensures
            final(self).wf(),
            final(self)@ == old(self)@.setup_breakpoints(),
            ops_view(ops@) == seq![
                BackendOpView::AddSystemHook(old(self)@.flash_load_hook()),
                BackendOpView::AddSystemHook(old(self)@.auth_hook()),
            ],
    {
        let flash = Hook {
            kind: HookKind::FlashLoad,
            begin: self.file_data.flash_load_img,
            end: self.file_data.flash_load_img + 1,
        };
        let auth = Hook { kind: HookKind::AuthWrite, begin: AUTH_BASE, end: AUTH_BASE + 4 };
        self.system_hooks.push(flash);
        self.system_hooks.push(auth);
        let mut ops: Vec<BackendOp> = Vec::new();
        ops.push(BackendOp::AddSystemHook(flash));
        ops.push(BackendOp::AddSystemHook(auth));
        assert(ops_view(ops@) =~= seq![
            BackendOpView::AddSystemHook(flash),
            BackendOpView::AddSystemHook(auth),
        ]);
        ops
    }

    /// Sets every register to zero, the stack pointer to the top of the
    /// stack, and the start of the next run to the image's load address.
    pub fn init_register(&mut self) -> (ops: Vec<BackendOp>)
        requires
            old(self).wf(),
        ensures
            final(self).wf(),
            final(self)@ == old(self)@.init_register(),
            ops_view(ops@) == seq![BackendOpView::InitRegisters { stack_pointer: STACK_TOP }],
    {
        self.pc = self.file_data.load_address;
        let mut ops: Vec<BackendOp> = Vec::new();
        ops.push(BackendOp::InitRegisters { stack_pointer: STACK_TOP });
        assert(ops_view(ops@) =~= seq![BackendOpView::InitRegisters { stack_pointer: STACK_TOP }]);
        ops
    }

    /// Copies the program into the code region at the load address, and sets
    /// the start of the next run there.
    pub fn load_code(&mut self) -> (ops: Vec<BackendOp>)
        requires
            old(self).wf(),
        ensures
            final(self).wf(),
            final(self)@ == old(self)@.load_code(),
            ops_view(ops@) == seq![
                BackendOpView::WriteMemory {
                    address: old(self)@.file_data.load_address,
                    data: old(self)@.file_data.program,
                },
            ],
    {
        proof {
            crate::image::lemma_code_size_bounds(self.file_data@.program.len());
        }
        let address: u64 = self.file_data.load_address;
        let written = self.memory.mem_write(address, &self.file_data.program);
        assert(written);
        self.pc = address;
        let mut ops: Vec<BackendOp> = Vec::new();
        ops.push(BackendOp::WriteMemory { address, data: copy_bytes(&self.file_data.program) });
        assert(ops_view(ops@) =~= seq![
            BackendOpView::WriteMemory { address, data: old(self)@.file_data.program },
        ]);
        ops
    }

    /// Silences the target: marks output as suppressed and overwrites the
    /// first instruction of the serial output routine with "return
    /// immediately".
    pub fn deactivate_printf_function(&mut self) -> (ops: Vec<BackendOp>)
        requires
            old(self).wf(),
        ensures
            final(self).wf(),
            final(self)@ == old(self)@.deactivate_printf_function(),
            ops_view(ops@) == seq![
                BackendOpView::WriteMemory {
                    address: old(self)@.file_data.puts_address() as u64,
                    data: ret_encoding(),
                },
            ],
    {
        self.print_output = false;
        let address: u64 = self.file_data.puts_address();
        let patch = ret_bytes();
        let written = self.memory.mem_write(address, &patch);
        assert(written);
        let mut ops: Vec<BackendOp> = Vec::new();
        ops.push(BackendOp::WriteMemory { address, data: patch });
        assert(ops_view(ops@) =~= seq![
            BackendOpView::WriteMemory { address, data: ret_encoding() },
        ]);
        ops
    }

    /// Says whether the next run is expected to succeed, and clears the
    /// verdict.
    pub fn init_states(&mut self, run_state: bool)
        requires
            old(self).wf(),
        ensures
            final(self).wf(),
            final(self)@ == old(self)@.init_states(run_state),
    {
        self.is_positiv = run_state;
        self.state = RunState::Init;
    }

    /// The verdict.
    pub fn get_state(&self) -> (state: RunState)
        ensures
            state == self@.state,
    {
        self.state
    }

    /// A copy of the installed faults.
    pub fn get_fault_data(&self) -> (faults: Vec<FaultData>)
        ensures
            records_view(faults@) == self@.fault_data,
    {
        copy_records(&self.fault_data)
    }

    /// A copy of the trace.
    pub fn get_trace(&self) -> (trace: HashMap<u64, TraceRecord>)
        ensures
            trace@ == self@.trace_data,
    {
        copy_trace(&self.trace_data)
    }

    /// Where the next run starts.
    pub fn get_pc(&self) -> (pc: u64)
        ensures
            pc == self@.pc,
    {
        self.pc
    }

    /// Whether serial output is printed.
    pub fn prints_output(&self) -> (yes: bool)
        ensures
            yes == self@.print_output,
    {
        self.print_output
    }

    /// A copy of the code region's bytes.
    pub fn code_memory(&self) -> (bytes: Vec<u8>)
        ensures
            bytes@ == self@.memory.bytes,
    {
        self.memory.contents()
    }

    /// Width of the instruction at `address`; nothing where its first
    /// halfword lies outside the code region.
    pub fn get_asm_cmd_size(&self, address: u64) -> (size: Option<usize>)
        requires
            self.wf(),
        ensures
            size is Some <==> self@.memory.readable(address as int, 2),
            size matches Some(s) ==> Some(s as nat) == self@.memory.cmd_size_at(address as int),
    {
        self.memory.get_asm_cmd_size(address)
    }

    /// Installs the fault `record`: captures the bytes it replaces and
    /// computes the bytes it writes, for the hook callbacks to use. Where the
    /// fault cannot be injected, nothing is installed, the verdict becomes
    /// `Error` and the answer is `false`.
    pub fn set_fault_data(&mut self, record: SimulationData) -> (installed: bool)
        requires
            old(self).wf(),
            record.is_resolved(),
        ensures
            final(self).wf(),
            final(self)@ == old(self)@.set_fault_data(record),
            installed == spec_fault_data(old(self)@.memory, record) is Some,
    {
        match FaultData::capture(&self.memory, record) {
            Some(fault) => {
                proof {
                    crate::fault::lemma_restore_undoes_fault(self.memory@, record);
                }
                self.fault_data.push(fault);
                assert(records_view(self.fault_data@) =~= records_view(old(self).fault_data@).push(
                    fault@,
                ));
                true
            },
            None => {
                self.state = RunState::Error;
                false
            },
        }
    }

    /// Installs the hook of the fault `sim_fault`, on its single address, and
    /// the fault itself as `set_fault_data` does.
    pub fn set_usage_fault_hook(&mut self, sim_fault: SimulationData) -> (ops: Vec<BackendOp>)
        requires
            old(self).wf(),
            sim_fault.is_resolved(),
        ensures
            final(self).wf(),
            final(self)@ == old(self)@.set_usage_fault_hook(sim_fault),
            ops_view(ops@) == seq![
                BackendOpView::AddUsageHook(FaultInjectionsView::fault_hook(sim_fault)),
            ],
    {
        let hook = Hook { kind: HookKind::Fault, begin: sim_fault.address, end: sim_fault.address };
        self.usage_hooks.push(hook);
        let _ = self.set_fault_data(sim_fault);
        let mut ops: Vec<BackendOp> = Vec::new();
        ops.push(BackendOp::AddUsageHook(hook));
        assert(ops_view(ops@) =~= seq![BackendOpView::AddUsageHook(hook)]);
        ops
    }

    /// Installs the hook that traces every instruction of the program, and
    /// the faults `sim_faults` as `set_fault_data` does, in order.
    pub fn set_trace_hook(&mut self, sim_faults: Vec<SimulationData>) -> (ops: Vec<BackendOp>)
        requires
            old(self).wf(),
            forall|i: int| 0 <= i < sim_faults@.len() ==> (#[trigger] sim_faults@[i]).is_resolved(),
        ensures
            final(self).wf(),
            final(self)@ == old(self)@.set_trace_hook(sim_faults@),
            ops_view(ops@) == seq![BackendOpView::AddUsageHook(old(self)@.trace_hook())],
    {
        let hook = Hook {
            kind: HookKind::Trace,
            begin: self.file_data.load_address,
            end: self.file_data.load_address + self.file_data.memory_size,
        };
        self.usage_hooks.push(hook);
        let ghost hooked = self@;
        let mut i: usize = 0;
        while i < sim_faults.len()
            invariant
                i <= sim_faults@.len(),
                self.wf(),
                forall|k: int|
                    0 <= k < sim_faults@.len() ==> (#[trigger] sim_faults@[k]).is_resolved(),
                self@ == hooked.set_all_fault_data(sim_faults@.subrange(0, i as int)),
            decreases sim_faults@.len() - i,
        {
            let _ = self.set_fault_data(sim_faults[i]);
            i = i + 1;
            assert(sim_faults@.subrange(0, i as int).drop_last() =~= sim_faults@.subrange(
                0,
                i - 1,
            ));
        }
        assert(sim_faults@.subrange(0, i as int) =~= sim_faults@);
        let mut ops: Vec<BackendOp> = Vec::new();
        ops.push(BackendOp::AddUsageHook(hook));
        assert(ops_view(ops@) =~= seq![BackendOpView::AddUsageHook(hook)]);
        ops
    }

    /// Removes the hooks of the trace or trial under way, and the faults
    /// that were installed with them.
    pub fn release_usage_fault_hooks(&mut self) -> (ops: Vec<BackendOp>)
        requires
            old(self).wf(),
        ensures
            final(self).wf(),
            final(self)@ == old(self)@.release_usage_fault_hooks(),
            ops_view(ops@) == seq![BackendOpView::RemoveUsageHooks],
    {
        self.usage_hooks.clear();
        self.fault_data.clear();
        assert(records_view(self.fault_data@) =~= Seq::empty());
        let mut ops: Vec<BackendOp> = Vec::new();
        ops.push(BackendOp::RemoveUsageHooks);
        assert(ops_view(ops@) =~= seq![BackendOpView::RemoveUsageHooks]);
        ops
    }

    /// Removes the hooks that stay for the whole session, at its end.
    pub fn release_system_hooks(&mut self) -> (ops: Vec<BackendOp>)
        requires
            old(self).wf(),
        ensures
            final(self).wf(),
            final(self)@ == old(self)@.release_system_hooks(),
            ops_view(ops@) == seq![BackendOpView::RemoveSystemHooks],
    {
        self.system_hooks.clear();
        let mut ops: Vec<BackendOp> = Vec::new();
        ops.push(BackendOp::RemoveSystemHooks);
        assert(ops_view(ops@) =~= seq![BackendOpView::RemoveSystemHooks]);
        ops
    }

    /// Saves the context: the registers, in the emulator, and the code
    /// memory with the start of the next run, here.
    pub fn context_init(&mut self) -> (ops: Vec<BackendOp>)
        requires
            old(self).wf(),
        ensures
            final(self).wf(),
            final(self)@ == old(self)@.context_init(),
            ops_view(ops@) == seq![BackendOpView::SaveContext],
    {
        self.context = Some(Context { pc: self.pc, memory: self.memory.snapshot() });
        let mut ops: Vec<BackendOp> = Vec::new();
        ops.push(BackendOp::SaveContext);
        assert(ops_view(ops@) =~= seq![BackendOpView::SaveContext]);
        ops
    }

    /// Goes back to the saved context: registers and code memory are as they
    /// were when it was saved, whatever has run since. Without a saved
    /// context nothing happens.
    pub fn context_restore(&mut self) -> (ops: Vec<BackendOp>)
        requires
            old(self).wf(),
        ensures
            final(self).wf(),
            final(self)@ == old(self)@.context_restore(),
            ops_view(ops@) == old(self)@.context_restore_ops(),
    {
        let mut ops: Vec<BackendOp> = Vec::new();
        match &self.context {
            Some(context) => {
                self.pc = context.pc;
                self.memory = context.memory.snapshot();
                ops.push(BackendOp::RestoreContext);
                ops.push(
                    BackendOp::WriteMemory {
                        address: context.memory.base(),
                        data: context.memory.contents(),
                    },
                );
            },
            None => {},
        }
        assert(ops_view(ops@) =~= old(self)@.context_restore_ops());
        ops
    }

    /// The request for a run of at most `count` instructions.
    fn request(&self, count: usize) -> (request: RunRequest)
        requires
            self.wf(),
        ensures
            request == self@.run_request(count),
    {
        RunRequest {
            begin: self.pc | 1,
            until: (self.file_data.load_address + self.file_data.file_size) | 1,
            timeout: SECOND_SCALE,
            count,
        }
    }

    /// Starts a run of at most `cycles` instructions from where the last run
    /// stopped. With `debug` the emulator is asked for one instruction at a
    /// time, else for the whole run at once. The answer is the call to make;
    /// nothing where there is nothing to run.
    pub fn run_steps(&mut self, cycles: usize, debug: bool) -> (request: Option<RunRequest>)
        requires
            old(self).wf(),
        ensures
            final(self).wf(),
            final(self)@ == old(self)@.run_steps(cycles, debug),
            request == old(self)@.run_steps_request(cycles, debug),
    {
        if !debug {
            self.mode = RunMode::Bulk;
            Some(self.request(cycles))
        } else if cycles == 0 {
            self.mode = RunMode::Idle;
            None
        } else {
            self.mode = RunMode::Stepping(cycles);
            Some(self.request(1))
        }
    }

    /// Takes note that the emulator has returned from the call that
    /// `run_steps` or this function asked for: `pc` is where it stopped, `ok`
    /// whether it reported no error. The answer is the next call to make;
    /// nothing once the run has ended, and then there is a verdict.
    pub fn run_returned(&mut self, pc: u64, ok: bool) -> (request: Option<RunRequest>)
        requires
            old(self).wf(),
        ensures
            final(self).wf(),
            final(self)@ == old(self)@.run_returned(pc, ok),
            request == old(self)@.run_returned_request(pc, ok),
            request is None ==> final(self)@.state != RunState::Init,
    {
        self.pc = pc;
        match self.mode {
            RunMode::Stepping(left) => {
                if ok && left > 1 && self.state == RunState::Init {
                    self.mode = RunMode::Stepping(left - 1);
                    return Some(self.request(1));
                }
            },
            _ => {},
        }
        self.mode = RunMode::Idle;
        if self.state == RunState::Init {
            self.state = RunState::Error;
        }
        None
    }

    /// The flash-load hook has fired: the verdict is `Success` where the run
    /// is expected to succeed, else `Failed`, and the emulation stops.
    pub fn hook_code_flash_load_img_callback(&mut self) -> (ops: Vec<BackendOp>)
        requires
            old(self).wf(),
        ensures
            final(self).wf(),
            final(self)@ == old(self)@.flash_load_reached(),
            ops_view(ops@) == seq![BackendOpView::Stop],
    {
        self.state = if self.is_positiv {
            RunState::Success
        } else {
            RunState::Failed
        };
        let mut ops: Vec<BackendOp> = Vec::new();
        ops.push(BackendOp::Stop);
        assert(ops_view(ops@) =~= seq![BackendOpView::Stop]);
        ops
    }

    /// The target has written `value` to the auth-trigger region: the
    /// verdict is `Success` for the image's success value, `Failed` for any
    /// other, and the emulation stops.
    pub fn mmio_auth_write_callback(&mut self, value: u64) -> (ops: Vec<BackendOp>)
        requires
            old(self).wf(),
        ensures
            final(self).wf(),
            final(self)@ == old(self)@.auth_written(value),
            ops_view(ops@) == seq![BackendOpView::Stop],
    {
        self.state = if value == self.file_data.auth_success {
            RunState::Success
        } else {
            RunState::Failed
        };
        let mut ops: Vec<BackendOp> = Vec::new();
        ops.push(BackendOp::Stop);
        assert(ops_view(ops@) =~= seq![BackendOpView::Stop]);
        ops
    }

    /// The target has written `value` to the serial output: the byte to
    /// print, the lowest of the value, unless output is suppressed.
    pub fn mmio_serial_write_callback(&self, value: u64) -> (byte: Option<u8>)
        ensures
            byte == if self@.print_output {
                Some((value % 256) as u8)
            } else {
                None
            },
    {
        if self.print_output {
            Some((value % 256) as u8)
        } else {
            None
        }
    }

    /// The hook of a fault has fired at `address`: every fault installed at
    /// that address is written into the code memory, in the order of
    /// installation.
    pub fn hook_nop_code_callback(&mut self, address: u64) -> (ops: Vec<BackendOp>)
        requires
            old(self).wf(),
        ensures
            final(self).wf(),
            final(self)@ == old(self)@.fault_reached(address),
            ops_view(ops@) == fault_writes(old(self)@.fault_data, address),
    {
        let mut ops: Vec<BackendOp> = Vec::new();
        let mut i: usize = 0;
        assert(ops_view(ops@) =~= fault_writes(self@.fault_data.take(0), address));
        while i < self.fault_data.len()
            invariant
                i <= self.fault_data@.len(),
                self.wf(),
                self@ == (FaultInjectionsView {
                    memory: apply_faults(
                        old(self)@.memory,
                        old(self)@.fault_data.take(i as int),
                        address,
                    ),
                    ..old(self)@
                }),
                ops_view(ops@) == fault_writes(old(self)@.fault_data.take(i as int), address),
            decreases self.fault_data@.len() - i,
        {
            let ghost before = ops_view(ops@);
            assert(old(self)@.fault_data.take(i + 1).drop_last() =~= old(self)@.fault_data.take(
                i as int,
            ));
            assert(self@.fault_data[i as int] == self.fault_data@[i as int]@);
            if self.fault_data[i].fault.address == address {
                let written = self.memory.mem_write(address, &self.fault_data[i].data_changed);
                assert(written);
                let op = BackendOp::WriteMemory {
                    address,
                    data: copy_bytes(&self.fault_data[i].data_changed),
                };
                ops.push(op);
                assert(ops_view(ops@) =~= before.push(op@));
            }
            i = i + 1;
        }
        assert(old(self)@.fault_data.take(i as int) =~= old(self)@.fault_data);
        ops
    }

    /// The trace hook has fired at `address`: the faults installed there are
    /// written as by `hook_nop_code_callback`, then the instruction is
    /// counted. Where its first halfword lies outside the code region it is
    /// not counted, the verdict is `Error` and the emulation stops.
    pub fn hook_code_callback(&mut self, address: u64) -> (ops: Vec<BackendOp>)
        requires
            old(self).wf(),
        ensures
            final(self).wf(),
            final(self)@ == old(self)@.code_traced(address),
            ops_view(ops@) == old(self)@.code_traced_ops(address),
    {
        let mut ops = self.hook_nop_code_callback(address);
        match self.memory.get_asm_cmd_size(address) {
            Some(size) => {
                record_trace(&mut self.trace_data, address, size);
            },
            None => {
                self.state = RunState::Error;
                let ghost before = ops_view(ops@);
                ops.push(BackendOp::Stop);
                assert(ops_view(ops@) =~= before.push(BackendOpView::Stop));
            },
        }
        ops
    }
}

} // verus!
