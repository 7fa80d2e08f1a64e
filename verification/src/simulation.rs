//! The campaign driver: the checks, the trace and the fault campaign, each as
//! a sequence of steps. A step hands the caller the operations to carry out
//! on the emulator and says what comes next: a run of the emulator, whose
//! return the caller reports with `resume`, or the result.

use vstd::prelude::*;
use std::collections::HashMap;
use crate::backend::{append_ops, ops_view, BackendOp, BackendOpView, Region, RunRequest};
use crate::encoding::ret_encoding;
use crate::fault::{records_view, FaultData, FaultDataView, FaultType, SimulationData};
use crate::image::{Image, ImageView, MAX_INSTRUCTIONS, STACK_TOP};
use crate::injections::{final_verdict, FaultInjections, FaultInjectionsView};
use crate::session::{RunState, TraceRecord};

verus! {

broadcast use vstd::std_specs::hash::group_hash_axioms;

/// What the driver is doing.
#[derive(Clone, Copy, Debug, PartialEq, Eq, Structural)]
pub enum Phase {
    /// Nothing.
    Idle,
    /// The run of `check_program` that is expected to succeed is under way.
    CheckPositive,
    /// The run of `check_program` that is expected to fail is under way.
    CheckNegative,
    /// The run of `record_code_trace` is under way.
    Trace,
    /// A trial of `run_with_faults` is under way.
    Campaign,
}

/// A hook of the emulator that has fired.
#[derive(Clone, Copy, Debug, PartialEq, Eq, Structural)]
pub enum HookEvent {
    /// Execution reached the flash-load entry point.
    FlashLoad,
    /// The target wrote this value to the auth-trigger region.
    AuthWrite(u64),
    /// The instruction at this address is about to execute, during a trace.
    Trace(u64),
    /// Execution reached this address, which is that of a fault.
    Fault(u64),
}

/// Mathematical model of a [`Simulation`].
pub struct SimulationView {
    /// The emulation session.
    pub emu: FaultInjectionsView,
    /// What the driver is doing.
    pub phase: Phase,
    /// The trials of the campaign under way, each a set of faults to inject
    /// together.
    pub attacks: Seq<Seq<SimulationData>>,
    /// Index of the trial under way.
    pub current: nat,
    /// The faults of the successful trials so far, in the order of the
    /// trials.
    pub found: Seq<Seq<FaultDataView>>,
}

/// Mathematical model of a [`Next`].
pub enum NextView {
    /// Run the emulator as requested, then call `resume`.
    Run(RunRequest),
    /// `check_program` has ended: whether the program behaves as expected.
    Checked(bool),
    /// `record_code_trace` has ended, with this trace.
    Traced(Map<u64, TraceRecord>),
    /// `run_with_faults` has ended, with the faults of the successful trials,
    /// if any.
    Faults(Option<Seq<Seq<FaultDataView>>>),
    /// Nothing was under way.
    Idle,
}

/// A step as the model has it: the state after it, the operations to carry
/// out, and what comes next.
pub struct Outcome {
    pub sim: SimulationView,
    pub ops: Seq<BackendOpView>,
    pub next: NextView,
}

/// Whether `list` holds the trace `trace` as fault candidates: one candidate
/// for each traced address, with the size and the count of its entry and no
/// fault kind chosen, in any order.
pub open spec fn is_candidate_list(list: Seq<SimulationData>, trace: Map<u64, TraceRecord>)
    -> bool {
    &&& list.len() == trace.len()
    &&& forall|i: int|
        0 <= i < list.len() ==> trace.contains_key((#[trigger] list[i]).address) && list[i] == (
        SimulationData {
            address: list[i].address,
            size: trace[list[i].address].size,
            count: trace[list[i].address].count,
            fault_type: FaultType::Uninitialized,
        })
    &&& forall|i: int, j: int|
        0 <= i < j < list.len() ==> (#[trigger] list[i]).address != (#[trigger] list[j]).address
    &&& forall|address: u64| #[trigger]
        trace.contains_key(address) ==> exists|i: int|
            0 <= i < list.len() && (#[trigger] list[i]).address == address
}

/// The models of a list of trials.
pub open spec fn attacks_view(attacks: Seq<Vec<SimulationData>>) -> Seq<Seq<SimulationData>> {
    attacks.map_values(|trial: Vec<SimulationData>| trial@)
}

/// The models of the faults of a list of trials.
pub open spec fn found_view(found: Seq<Vec<FaultData>>) -> Seq<Seq<FaultDataView>> {
    found.map_values(|faults: Vec<FaultData>| records_view(faults@))
}

/// Whether every fault of every trial has a kind.
pub open spec fn all_resolved(attacks: Seq<Seq<SimulationData>>) -> bool {
    forall|i: int, j: int|
        0 <= i < attacks.len() && 0 <= j < attacks[i].len() ==> (#[trigger] attacks[i][j])
            .is_resolved()
}

/// The session after registers and code have been set up for a run and the
/// verdict has been cleared.
pub open spec fn init_and_load(emu: FaultInjectionsView, run_successful: bool)
    -> FaultInjectionsView {
    emu.init_register().load_code().init_states(run_successful)
}

/// The operations that set up registers and code for a run.
pub open spec fn init_and_load_ops(emu: FaultInjectionsView) -> Seq<BackendOpView> {
    seq![
        BackendOpView::InitRegisters { stack_pointer: STACK_TOP },
        BackendOpView::WriteMemory {
            address: emu.file_data.load_address,
            data: emu.file_data.program,
        },
    ]
}

/// The session after the faults of `trial` have been installed, in order.
pub open spec fn install_trial(emu: FaultInjectionsView, trial: Seq<SimulationData>)
    -> FaultInjectionsView
    decreases trial.len(),
{
    if trial.len() == 0 {
        emu
    } else {
        install_trial(emu, trial.drop_last()).set_usage_fault_hook(trial.last())
    }
}

/// The operations that install the hooks of `trial`.
pub open spec fn trial_hooks(trial: Seq<SimulationData>) -> Seq<BackendOpView> {
    trial.map_values(
        |record: SimulationData|
            BackendOpView::AddUsageHook(FaultInjectionsView::fault_hook(record)),
    )
}

/// The session at the start of a trial: back in the saved context, without a
/// verdict, the faults of the trial installed.
pub open spec fn prepare_trial(emu: FaultInjectionsView, trial: Seq<SimulationData>)
    -> FaultInjectionsView {
    install_trial(emu.context_restore().init_states(false), trial)
}

/// The operations that start a trial.
pub open spec fn prepare_trial_ops(emu: FaultInjectionsView, trial: Seq<SimulationData>) -> Seq<
    BackendOpView,
> {
    emu.context_restore_ops() + trial_hooks(trial)
}

/// The faults retained after a trial that ended with the verdict `state`
/// while `faults` were installed: those of the trial are added exactly when
/// it succeeded.
pub open spec fn harvest(
    found: Seq<Seq<FaultDataView>>,
    state: RunState,
    faults: Seq<FaultDataView>,
) -> Seq<Seq<FaultDataView>> {
    if state == RunState::Success {
        found.push(faults)
    } else {
        found
    }
}

/// The result of a campaign that retained `found`: nothing where no trial
/// succeeded.
pub open spec fn campaign_result(found: Seq<Seq<FaultDataView>>) -> Option<
    Seq<Seq<FaultDataView>>,
> {
    if found.len() != 0 {
        Some(found)
    } else {
        None
    }
}

/// The state of a driver that does nothing, on the session `emu`.
pub open spec fn idle(emu: FaultInjectionsView) -> SimulationView {
    SimulationView {
        emu,
        phase: Phase::Idle,
        attacks: Seq::empty(),
        current: 0,
        found: Seq::empty(),
    }
}

/// The campaign from trial `from` on: the first trial whose faults can all be
/// installed runs; a trial with a fault that cannot be installed ends at once
/// with the verdict `Error`; after the last trial the campaign ends.
pub open spec fn next_trial(
    emu: FaultInjectionsView,
    attacks: Seq<Seq<SimulationData>>,
    from: nat,
    found: Seq<Seq<FaultDataView>>,
) -> Outcome
    decreases attacks.len() - from,
{
    if from >= attacks.len() {
        Outcome { sim: idle(emu), ops: Seq::empty(), next: NextView::Faults(campaign_result(found)) }
    } else {
        let ready = prepare_trial(emu, attacks[from as int]);
        let ops = prepare_trial_ops(emu, attacks[from as int]);
        if ready.state != RunState::Error {
            Outcome {
                sim: SimulationView {
                    emu: ready.run_steps(MAX_INSTRUCTIONS, false),
                    phase: Phase::Campaign,
                    attacks,
                    current: from,
                    found,
                },
                ops,
                next: NextView::Run(ready.run_request(MAX_INSTRUCTIONS)),
            }
        } else {
            let rest = next_trial(ready.release_usage_fault_hooks(), attacks, from + 1, found);
            Outcome {
                sim: rest.sim,
                ops: ops + seq![BackendOpView::RemoveUsageHooks] + rest.ops,
                next: rest.next,
            }
        }
    }
}

impl SimulationView {
    /// A driver for `image`, before anything has been set up.
    pub open spec fn initial(image: ImageView) -> SimulationView {
        idle(FaultInjectionsView::initial(image).setup_breakpoints())
    }

    /// The operations that set the emulator up for `image`: the five regions,
    /// then the two session hooks.
    pub open spec fn initial_ops(image: ImageView) -> Seq<BackendOpView> {
        let emu = FaultInjectionsView::initial(image);
        image.regions().map_values(|region: Region| BackendOpView::MapMemory(region)) + seq![
            BackendOpView::AddSystemHook(emu.flash_load_hook()),
            BackendOpView::AddSystemHook(emu.auth_hook()),
        ]
    }

    /// Whether a run with usage hooks is under way: that of a trace or of a
    /// trial.
    pub open spec fn hooked(self) -> bool {
        self.phase == Phase::Trace || self.phase == Phase::Campaign
    }

    /// What holds of every driver: the session is well formed, every fault
    /// of the campaign has a kind, and usage hooks and faults are installed
    /// only while the run of a trace or of a trial is under way.
    pub open spec fn wf(self) -> bool {
        &&& self.emu.wf()
        &&& all_resolved(self.attacks)
        &&& !self.hooked() ==> self.emu.usage_hooks.len() == 0 && self.emu.fault_data.len() == 0
    }

    /// The driver after it has given up what it was doing: the hooks and
    /// faults of a trace or trial under way are removed, the trials and what
    /// was retained of them are forgotten.
    pub open spec fn abandoned(self) -> SimulationView {
        idle(
            if self.hooked() {
                self.emu.release_usage_fault_hooks()
            } else {
                self.emu
            },
        )
    }

    /// The operations of giving up what the driver was doing.
    pub open spec fn abandon_ops(self) -> Seq<BackendOpView> {
        if self.hooked() {
            seq![BackendOpView::RemoveUsageHooks]
        } else {
            Seq::empty()
        }
    }

    /// The driver at the end of the session: it has given up what it was
    /// doing, and the session hooks are removed too.
    pub open spec fn teardown(self) -> SimulationView {
        idle(self.abandoned().emu.release_system_hooks())
    }

    /// The step that starts the program check: the run that is expected to
    /// succeed.
    pub open spec fn check_program(self) -> Outcome {
        let base = self.abandoned();
        let emu = init_and_load(base.emu, true);
        Outcome {
            sim: SimulationView {
                emu: emu.run_steps(MAX_INSTRUCTIONS, false),
                phase: Phase::CheckPositive,
                ..base
            },
            ops: self.abandon_ops() + init_and_load_ops(self.emu),
            next: NextView::Run(emu.run_request(MAX_INSTRUCTIONS)),
        }
    }

    /// The step that starts a trace with the faults `faults` in place. Where
    /// one of them cannot be installed there is no run, and the trace is what
    /// it was.
    pub open spec fn record_code_trace(self, faults: Seq<SimulationData>) -> Outcome {
        let base = self.abandoned();
        let emu = init_and_load(base.emu, false).deactivate_printf_function().set_trace_hook(
            faults,
        );
        let ops = self.abandon_ops() + init_and_load_ops(self.emu) + seq![
            BackendOpView::WriteMemory {
                address: self.emu.file_data.puts_address() as u64,
                data: ret_encoding(),
            },
            BackendOpView::AddUsageHook(self.emu.trace_hook()),
        ];
        if emu.state != RunState::Error {
            Outcome {
                sim: SimulationView {
                    emu: emu.run_steps(MAX_INSTRUCTIONS, false),
                    phase: Phase::Trace,
                    ..base
                },
                ops,
                next: NextView::Run(emu.run_request(MAX_INSTRUCTIONS)),
            }
        } else {
            Outcome {
                sim: idle(emu.release_usage_fault_hooks()),
                ops: ops.push(BackendOpView::RemoveUsageHooks),
                next: NextView::Traced(emu.trace_data),
            }
        }
    }

    /// The session from which every trial of a campaign starts: code loaded,
    /// output suppressed, a failing run expected, registers set, and all of
    /// that saved as the context.
    pub open spec fn campaign_base(self) -> FaultInjectionsView {
        init_and_load(self.abandoned().emu, false).deactivate_printf_function().init_states(false)
            .init_register().context_init()
    }

    /// The operations that lead to `campaign_base`.
    pub open spec fn campaign_base_ops(self) -> Seq<BackendOpView> {
        self.abandon_ops() + init_and_load_ops(self.emu) + seq![
            BackendOpView::WriteMemory {
                address: self.emu.file_data.puts_address() as u64,
                data: ret_encoding(),
            },
            BackendOpView::InitRegisters { stack_pointer: STACK_TOP },
            BackendOpView::SaveContext,
        ]
    }

    /// The step that starts a campaign of the trials `attacks`.
    pub open spec fn run_with_faults(self, attacks: Seq<Seq<SimulationData>>) -> Outcome {
        let rest = next_trial(self.campaign_base(), attacks, 0, Seq::empty());
        Outcome { sim: rest.sim, ops: self.campaign_base_ops() + rest.ops, next: rest.next }
    }

    /// The step after the emulator has returned at `pc`, `ok` telling whether
    /// it reported no error.
    pub open spec fn resume(self, pc: u64, ok: bool) -> Outcome {
        let emu = self.emu.run_returned(pc, ok);
        if self.emu.steps_on(ok) {
            Outcome {
                sim: SimulationView { emu, ..self },
                ops: Seq::empty(),
                next: NextView::Run(emu.run_request(1)),
            }
        } else {
            match self.phase {
                Phase::Idle => Outcome {
                    sim: SimulationView { emu, ..self },
                    ops: Seq::empty(),
                    next: NextView::Idle,
                },
                Phase::CheckPositive => if emu.state == RunState::Success {
                    let loaded = init_and_load(emu, false);
                    Outcome {
                        sim: SimulationView {
                            emu: loaded.run_steps(MAX_INSTRUCTIONS, false),
                            phase: Phase::CheckNegative,
                            ..self
                        },
                        ops: init_and_load_ops(emu),
                        next: NextView::Run(loaded.run_request(MAX_INSTRUCTIONS)),
                    }
                } else {
                    Outcome {
                        sim: SimulationView { emu, phase: Phase::Idle, ..self },
                        ops: Seq::empty(),
                        next: NextView::Checked(false),
                    }
                },
                Phase::CheckNegative => Outcome {
                    sim: SimulationView { emu, phase: Phase::Idle, ..self },
                    ops: Seq::empty(),
                    next: NextView::Checked(emu.state == RunState::Failed),
                },
                Phase::Trace => Outcome {
                    sim: idle(emu.release_usage_fault_hooks()),
                    ops: seq![BackendOpView::RemoveUsageHooks],
                    next: NextView::Traced(emu.trace_data),
                },
                Phase::Campaign => {
                    let rest = next_trial(
                        emu.release_usage_fault_hooks(),
                        self.attacks,
                        self.current + 1,
                        harvest(self.found, emu.state, emu.fault_data),
                    );
                    Outcome {
                        sim: rest.sim,
                        ops: seq![BackendOpView::RemoveUsageHooks] + rest.ops,
                        next: rest.next,
                    }
                },
            }
        }
    }

    /// The session after the hook `event` has fired.
    pub open spec fn hook_fired(self, event: HookEvent) -> SimulationView {
        SimulationView {
            emu: match event {
                HookEvent::FlashLoad => self.emu.flash_load_reached(),
                HookEvent::AuthWrite(value) => self.emu.auth_written(value),
                HookEvent::Trace(address) => self.emu.code_traced(address),
                HookEvent::Fault(address) => self.emu.fault_reached(address),
            },
            ..self
        }
    }

    /// The operations after the hook `event` has fired.
    pub open spec fn hook_fired_ops(self, event: HookEvent) -> Seq<BackendOpView> {
        match event {
            HookEvent::FlashLoad => seq![BackendOpView::Stop],
            HookEvent::AuthWrite(value) => seq![BackendOpView::Stop],
            HookEvent::Trace(address) => self.emu.code_traced_ops(address),
            HookEvent::Fault(address) => crate::injections::fault_writes(
                self.emu.fault_data,
                address,
            ),
        }
    }
}

/// How a trial ended: its verdict, and the faults that were installed for
/// it.
pub struct TrialOutcome {
    pub state: RunState,
    pub faults: Seq<FaultDataView>,
}

/// What a campaign retains of trials that ended as `outcomes` say, in that
/// order.
pub open spec fn harvest_all(outcomes: Seq<TrialOutcome>) -> Seq<Seq<FaultDataView>>
    decreases outcomes.len(),
{
    if outcomes.len() == 0 {
        Seq::empty()
    } else {
        harvest(harvest_all(outcomes.drop_last()), outcomes.last().state, outcomes.last().faults)
    }
}

/// A successful trial adds its faults behind those retained, a trial that
/// did not succeed adds nothing, and neither changes what was retained
/// before.
pub proof fn lemma_harvest_keeps_successes(
    found: Seq<Seq<FaultDataView>>,
    state: RunState,
    faults: Seq<FaultDataView>,
)
    ensures
        state == RunState::Success ==> harvest(found, state, faults).len() == found.len() + 1
            && harvest(found, state, faults).last() == faults,
        state != RunState::Success ==> harvest(found, state, faults) == found,
        forall|i: int| 0 <= i < found.len() ==> harvest(found, state, faults)[i] == found[i],
        campaign_result(harvest(found, state, faults)) is None <==> found.len() == 0 && state
            != RunState::Success,
{
}

/// A campaign returns the faults of exactly the trials that ended in
/// `Success`, in the order of the trials, and nothing where none did.
pub proof fn lemma_campaign_returns_successes(outcomes: Seq<TrialOutcome>)
    ensures
        harvest_all(outcomes) == outcomes.filter(
            |outcome: TrialOutcome| outcome.state == RunState::Success,
        ).map_values(|outcome: TrialOutcome| outcome.faults),
        campaign_result(harvest_all(outcomes)) is None <==> forall|i: int|
            0 <= i < outcomes.len() ==> (#[trigger] outcomes[i]).state != RunState::Success,
    decreases outcomes.len(),
{
    reveal(Seq::filter);
    let succeeded = |outcome: TrialOutcome| outcome.state == RunState::Success;
    let faults = |outcome: TrialOutcome| outcome.faults;
    if outcomes.len() == 0 {
        assert(harvest_all(outcomes) =~= outcomes.filter(succeeded).map_values(faults));
    } else {
        let before = outcomes.drop_last();
        lemma_campaign_returns_successes(before);
        assert(harvest_all(outcomes) =~= outcomes.filter(succeeded).map_values(faults));
        assert forall|i: int| 0 <= i < before.len() implies (#[trigger] before[i])
            == outcomes[i] by {}
        if campaign_result(harvest_all(outcomes)) is None {
            assert forall|i: int| 0 <= i < outcomes.len() implies (#[trigger] outcomes[i]).state
                != RunState::Success by {
                if i < before.len() {
                    assert(before[i] == outcomes[i]);
                }
            }
        } else if outcomes.last().state != RunState::Success {
            let i = choose|i: int|
                0 <= i < before.len() && (#[trigger] before[i]).state == RunState::Success;
            assert(outcomes[i].state == RunState::Success);
        }
    }
}

/// Installing the faults of a trial touches neither the image, the trace,
/// the code memory nor the saved context, and leaves the verdict alone or
/// makes it `Error`.
pub proof fn lemma_install_trial_keeps(emu: FaultInjectionsView, trial: Seq<SimulationData>)
    ensures
        install_trial(emu, trial).file_data == emu.file_data,
        install_trial(emu, trial).trace_data == emu.trace_data,
        install_trial(emu, trial).memory == emu.memory,
        install_trial(emu, trial).context == emu.context,
        install_trial(emu, trial).system_hooks == emu.system_hooks,
        install_trial(emu, trial).state == emu.state || install_trial(emu, trial).state
            == RunState::Error,
    decreases trial.len(),
{
    if trial.len() > 0 {
        lemma_install_trial_keeps(emu, trial.drop_last());
    }
}

/// Going on with a campaign never touches the trace, and the trial that it
/// runs starts without a verdict, from the code memory of the saved context.
pub proof fn lemma_next_trial_starts_clean(
    emu: FaultInjectionsView,
    attacks: Seq<Seq<SimulationData>>,
    from: nat,
    found: Seq<Seq<FaultDataView>>,
)
    ensures
        next_trial(emu, attacks, from, found).sim.emu.trace_data == emu.trace_data,
        next_trial(emu, attacks, from, found).sim.emu.context == emu.context,
        next_trial(emu, attacks, from, found).sim.emu.system_hooks == emu.system_hooks,
        next_trial(emu, attacks, from, found).next is Run ==> {
            let started = next_trial(emu, attacks, from, found).sim;
            &&& started.phase == Phase::Campaign
            &&& started.emu.state == RunState::Init
            &&& started.found == found
            &&& from <= started.current < attacks.len()
            &&& emu.context matches Some(context) ==> started.emu.memory == context.memory
        },
        !(next_trial(emu, attacks, from, found).next is Run) ==> next_trial(
            emu,
            attacks,
            from,
            found,
        ).next == NextView::Faults(campaign_result(found)),
    decreases attacks.len() - from,
{
    if from < attacks.len() {
        let restored = emu.context_restore().init_states(false);
        lemma_install_trial_keeps(restored, attacks[from as int]);
        let ready = prepare_trial(emu, attacks[from as int]);
        if ready.state == RunState::Error {
            lemma_next_trial_starts_clean(
                ready.release_usage_fault_hooks(),
                attacks,
                from + 1,
                found,
            );
        }
    }
}

/// The verdict of a check run depends on nothing but the expected outcome
/// and the hook that fires: whatever ran before, a run that reaches the
/// flash-load entry point ends in `Success` where success is expected and in
/// `Failed` where it is not, and repeating the run gives the same verdict.
pub proof fn lemma_check_run_verdict(
    emu: FaultInjectionsView,
    run_successful: bool,
    pc: u64,
    ok: bool,
)
    ensures
        init_and_load(emu, run_successful).state == RunState::Init,
        init_and_load(emu, run_successful).run_steps(MAX_INSTRUCTIONS, false)
            .flash_load_reached().run_returned(pc, ok).state == if run_successful {
            RunState::Success
        } else {
            RunState::Failed
        },
        init_and_load(emu, run_successful).run_steps(MAX_INSTRUCTIONS, false).run_returned(
            pc,
            ok,
        ).state == RunState::Error,
{
}

/// The program check passes exactly as it should: where both runs reach the
/// flash-load entry point, the first ends in `Success`, the second in
/// `Failed`, and the check passes, whatever the driver did before.
pub proof fn lemma_check_program_passes(sim: SimulationView, pc: u64, ok: bool)
    ensures
        ({
            let first = sim.check_program().sim.hook_fired(HookEvent::FlashLoad);
            let between = first.resume(pc, ok);
            let second = between.sim.hook_fired(HookEvent::FlashLoad);
            &&& sim.check_program().next is Run
            &&& first.emu.state == RunState::Success
            &&& between.next is Run
            &&& between.sim.emu.state == RunState::Init
            &&& second.emu.state == RunState::Failed
            &&& second.resume(pc, ok).next == NextView::Checked(true)
            &&& second.resume(pc, ok).sim.phase == Phase::Idle
        }),
{
}

/// The program check fails where a run ends without the verdict expected
/// of it; after a first run that fails no second run is asked for.
pub proof fn lemma_check_program_fails(sim: SimulationView, pc: u64, ok: bool)
    ensures
        sim.check_program().sim.resume(pc, ok).next == NextView::Checked(false),
        sim.check_program().sim.hook_fired(HookEvent::FlashLoad).resume(pc, ok).sim.resume(
            pc,
            ok,
        ).next == NextView::Checked(false),
{
}

/// When the run of a trial has ended, the campaign retains the faults of
/// the trial exactly if the verdict is `Success`; it then goes on with a
/// later trial or ends with what it has retained.
pub proof fn lemma_resume_harvests(sim: SimulationView, pc: u64, ok: bool)
    requires
        sim.phase == Phase::Campaign,
        !sim.emu.steps_on(ok),
    ensures
        ({
            let ended = sim.emu.run_returned(pc, ok);
            let retained = harvest(sim.found, ended.state, ended.fault_data);
            let after = sim.resume(pc, ok);
            &&& ended.state == final_verdict(sim.emu.state)
            &&& ended.fault_data == sim.emu.fault_data
            &&& after.next is Run ==> after.sim.found == retained && after.sim.current
                > sim.current
            &&& !(after.next is Run) ==> after.next == NextView::Faults(campaign_result(retained))
            &&& after.sim.emu.usage_hooks.len() == 0 || after.next is Run
        }),
{
    let ended = sim.emu.run_returned(pc, ok);
    lemma_next_trial_starts_clean(
        ended.release_usage_fault_hooks(),
        sim.attacks,
        sim.current + 1,
        harvest(sim.found, ended.state, ended.fault_data),
    );
    lemma_next_trial_ends_unhooked(
        ended.release_usage_fault_hooks(),
        sim.attacks,
        sim.current + 1,
        harvest(sim.found, ended.state, ended.fault_data),
    );
}

/// A campaign that ends leaves no usage hook and no fault installed.
pub proof fn lemma_next_trial_ends_unhooked(
    emu: FaultInjectionsView,
    attacks: Seq<Seq<SimulationData>>,
    from: nat,
    found: Seq<Seq<FaultDataView>>,
)
    requires
        emu.usage_hooks.len() == 0,
        emu.fault_data.len() == 0,
    ensures
        !(next_trial(emu, attacks, from, found).next is Run) ==> next_trial(
            emu,
            attacks,
            from,
            found,
        ).sim.emu.usage_hooks.len() == 0 && next_trial(
            emu,
            attacks,
            from,
            found,
        ).sim.emu.fault_data.len() == 0,
    decreases attacks.len() - from,
{
    if from < attacks.len() {
        let ready = prepare_trial(emu, attacks[from as int]);
        if ready.state == RunState::Error {
            lemma_next_trial_ends_unhooked(
                ready.release_usage_fault_hooks(),
                attacks,
                from + 1,
                found,
            );
        }
    }
}

/// Every run that the driver asks for starts without a verdict.
pub proof fn lemma_runs_start_without_verdict(
    sim: SimulationView,
    faults: Seq<SimulationData>,
    attacks: Seq<Seq<SimulationData>>,
    pc: u64,
    ok: bool,
)
    ensures
        sim.check_program().sim.emu.state == RunState::Init,
        sim.record_code_trace(faults).next is Run ==> sim.record_code_trace(faults).sim.emu.state
            == RunState::Init,
        sim.run_with_faults(attacks).next is Run ==> sim.run_with_faults(attacks).sim.emu.state
            == RunState::Init,
        sim.resume(pc, ok).next is Run ==> sim.resume(pc, ok).sim.emu.state == RunState::Init,
{
    let hooked = init_and_load(sim.abandoned().emu, false).deactivate_printf_function();
    crate::injections::lemma_set_all_fault_data_keeps(
        FaultInjectionsView { usage_hooks: hooked.usage_hooks.push(hooked.trace_hook()), ..hooked },
        faults,
    );
    lemma_next_trial_starts_clean(sim.campaign_base(), attacks, 0, Seq::empty());
    let emu = sim.emu.run_returned(pc, ok);
    lemma_next_trial_starts_clean(
        emu.release_usage_fault_hooks(),
        sim.attacks,
        sim.current + 1,
        harvest(sim.found, emu.state, emu.fault_data),
    );
}

/// The session hooks stay from setup to teardown: no hook that fires and no
/// step of a check, a trace or a campaign removes or adds one.
pub proof fn lemma_session_hooks_stay(
    sim: SimulationView,
    event: HookEvent,
    faults: Seq<SimulationData>,
    attacks: Seq<Seq<SimulationData>>,
    pc: u64,
    ok: bool,
)
    requires
        sim.wf(),
    ensures
        sim.hook_fired(event).emu.system_hooks == sim.emu.system_hooks,
        sim.check_program().sim.emu.system_hooks == sim.emu.system_hooks,
        sim.record_code_trace(faults).sim.emu.system_hooks == sim.emu.system_hooks,
        sim.run_with_faults(attacks).sim.emu.system_hooks == sim.emu.system_hooks,
        sim.resume(pc, ok).sim.emu.system_hooks == sim.emu.system_hooks,
        sim.teardown().emu.system_hooks.len() == 0,
        sim.teardown().emu.usage_hooks.len() == 0,
{
    let hooked = init_and_load(sim.abandoned().emu, false).deactivate_printf_function();
    crate::injections::lemma_set_all_fault_data_keeps(
        FaultInjectionsView { usage_hooks: hooked.usage_hooks.push(hooked.trace_hook()), ..hooked },
        faults,
    );
    lemma_next_trial_starts_clean(sim.campaign_base(), attacks, 0, Seq::empty());
    let emu = sim.emu.run_returned(pc, ok);
    lemma_next_trial_starts_clean(
        emu.release_usage_fault_hooks(),
        sim.attacks,
        sim.current + 1,
        harvest(sim.found, emu.state, emu.fault_data),
    );
}

/// The trace changes only while tracing: no hook but the trace hook and no
/// step of a check or a campaign touches it, and the trace hook keeps every
/// entry and lets no count fall.
pub proof fn lemma_trace_changes_only_by_tracing(
    sim: SimulationView,
    event: HookEvent,
    faults: Seq<SimulationData>,
    attacks: Seq<Seq<SimulationData>>,
    pc: u64,
    ok: bool,
)
    ensures
        !(event is Trace) ==> sim.hook_fired(event).emu.trace_data == sim.emu.trace_data,
        forall|address: u64| #[trigger]
            sim.emu.trace_data.contains_key(address) ==> sim.hook_fired(
                event,
            ).emu.trace_data.contains_key(address) && sim.hook_fired(
                event,
            ).emu.trace_data[address].count >= sim.emu.trace_data[address].count,
        sim.check_program().sim.emu.trace_data == sim.emu.trace_data,
        sim.record_code_trace(faults).sim.emu.trace_data == sim.emu.trace_data,
        sim.run_with_faults(attacks).sim.emu.trace_data == sim.emu.trace_data,
        sim.resume(pc, ok).sim.emu.trace_data == sim.emu.trace_data,
{
    let hooked = init_and_load(sim.abandoned().emu, false).deactivate_printf_function();
    crate::injections::lemma_set_all_fault_data_keeps(
        FaultInjectionsView { usage_hooks: hooked.usage_hooks.push(hooked.trace_hook()), ..hooked },
        faults,
    );
    lemma_next_trial_starts_clean(sim.campaign_base(), attacks, 0, Seq::empty());
    let emu = sim.emu.run_returned(pc, ok);
    lemma_next_trial_starts_clean(
        emu.release_usage_fault_hooks(),
        sim.attacks,
        sim.current + 1,
        harvest(sim.found, emu.state, emu.fault_data),
    );
}

/// What installing a trial captures and decides depends on the code memory,
/// on the faults already installed and on the verdict alone.
proof fn lemma_install_trial_same(
    emu: FaultInjectionsView,
    other: FaultInjectionsView,
    trial: Seq<SimulationData>,
)
    requires
        emu.memory == other.memory,
        emu.fault_data == other.fault_data,
        emu.state == other.state,
        emu.pc == other.pc,
    ensures
        install_trial(emu, trial).memory == emu.memory,
        install_trial(emu, trial).pc == emu.pc,
        install_trial(emu, trial).fault_data == install_trial(other, trial).fault_data,
        install_trial(emu, trial).state == install_trial(other, trial).state,
    decreases trial.len(),
{
    if trial.len() > 0 {
        lemma_install_trial_same(emu, other, trial.drop_last());
        lemma_install_trial_keeps(emu, trial.drop_last());
        lemma_install_trial_keeps(other, trial.drop_last());
    }
}

/// A trial starts from the saved context whatever the trials before it did:
/// its code memory and its start are those of the context, and the faults it
/// installs, with the bytes they capture, depend on the context and on the
/// trial alone.
pub proof fn lemma_trial_starts_from_context(
    emu: FaultInjectionsView,
    other: FaultInjectionsView,
    trial: Seq<SimulationData>,
)
    requires
        emu.context is Some,
        emu.context == other.context,
        emu.fault_data == other.fault_data,
    ensures
        prepare_trial(emu, trial).memory == emu.context->0.memory,
        prepare_trial(emu, trial).pc == emu.context->0.pc,
        prepare_trial(emu, trial).fault_data == prepare_trial(other, trial).fault_data,
        prepare_trial(emu, trial).state == prepare_trial(other, trial).state,
{
    lemma_install_trial_same(
        emu.context_restore().init_states(false),
        other.context_restore().init_states(false),
        trial,
    );
}

/// What comes after a step.
#[derive(Debug)]
pub enum Next {
    /// Run the emulator as requested, then call `resume`.
    Run(RunRequest),
    /// `check_program` has ended: whether the program behaves as expected.
    Checked(bool),
    /// `record_code_trace` has ended, with these fault candidates.
    Traced(Vec<SimulationData>),
    /// `run_with_faults` has ended, with the faults of the successful trials,
    /// if any.
    Faults(Option<Vec<Vec<FaultData>>>),
    /// Nothing was under way.
    Idle,
}

impl Next {
    /// Whether this is what the model `view` says.
    pub open spec fn matches(self, view: NextView) -> bool {
        match (self, view) {
            (Next::Run(request), NextView::Run(expected)) => request == expected,
            (Next::Checked(passed), NextView::Checked(expected)) => passed == expected,
            (Next::Traced(list), NextView::Traced(trace)) => is_candidate_list(list@, trace),
            (Next::Faults(Some(found)), NextView::Faults(Some(expected))) => found_view(found@)
                == expected,
            (Next::Faults(None), NextView::Faults(None)) => true,
            (Next::Idle, NextView::Idle) => true,
            _ => false,
        }
    }
}

/// A step: the operations to carry out on the emulator, in order, and what
/// comes after them.
#[derive(Debug)]
pub struct Step {
    pub ops: Vec<BackendOp>,
    pub next: Next,
}

impl Step {
    /// Whether this is the step that the model `outcome` describes.
    pub open spec fn matches(self, outcome: Outcome) -> bool {
        ops_view(self.ops@) == outcome.ops && self.next.matches(outcome.next)
    }
}

/// The campaign driver of one image.
pub struct Simulation {
    emu: FaultInjections,
    phase: Phase,
    attacks: Vec<Vec<SimulationData>>,
    current: usize,
    found: Vec<Vec<FaultData>>,
}

impl View for Simulation {
    type V = SimulationView;

    closed spec fn view(&self) -> SimulationView {
        SimulationView {
            emu: self.emu@,
            phase: self.phase,
            attacks: attacks_view(self.attacks@),
            current: self.current as nat,
            found: found_view(self.found@),
        }
    }
}

impl Simulation {
    /// The driver is well formed: see [`SimulationView::wf`].
    pub closed spec fn wf(&self) -> bool {
        &&& self.emu.wf()
        &&& self@.wf()
        &&& self.phase == Phase::Campaign ==> self.current < self.attacks@.len()
        &&& self.phase != Phase::Campaign ==> self.attacks@.len() == 0 && self.found@.len() == 0
            && self.current == 0
    }

    /// The faults of the campaign are not installed: no trial is under way.
    spec fn unhooked(&self) -> bool {
        self@.emu.usage_hooks.len() == 0 && self@.emu.fault_data.len() == 0
    }

    /// What is known of every well-formed driver.
    pub proof fn lemma_wf(&self)
        requires
            self.wf(),
        ensures
            self@.wf(),
            self@.phase == Phase::Campaign ==> self@.current < self@.attacks.len(),
            self@.phase != Phase::Campaign ==> self@ == (SimulationView {
                phase: self@.phase,
                ..idle(self@.emu)
            }),
    {
        assert(self@.attacks.len() == self.attacks@.len());
        if self.phase != Phase::Campaign {
            assert(self@.attacks =~= Seq::empty());
            assert(self@.found =~= Seq::empty());
        }
    }

    /// A driver for the image `file_data`, with the operations that set the
    /// emulator up for it: the memory map and the session hooks.
    pub fn new(file_data: &Image) -> (made: (Self, Vec<BackendOp>))
        requires
            file_data@.valid(),
        ensures
            made.0.wf(),
            made.0@ == SimulationView::initial(file_data@),
            ops_view(made.1@) == SimulationView::initial_ops(file_data@),
    {
        let mut emu = FaultInjections::new(file_data);
        let mut ops = emu.setup_mmio();
        let hooks = emu.setup_breakpoints();
        append_ops(&mut ops, hooks);
        let sim = Simulation {
            emu,
            phase: Phase::Idle,
            attacks: Vec::new(),
            current: 0,
            found: Vec::new(),
        };
        proof {
            sim.emu.lemma_wf();
            assert(sim@.attacks =~= Seq::empty());
            assert(sim@.found =~= Seq::empty());
        }
        (sim, ops)
    }

    /// The verdict of the last run.
    pub fn get_state(&self) -> (state: RunState)
        ensures
            state == self@.emu.state,
    {
        self.emu.get_state()
    }

    /// What the driver is doing.
    pub fn phase(&self) -> (phase: Phase)
        ensures
            phase == self@.phase,
    {
        self.phase
    }

    /// The emulation session.
    pub fn session(&self) -> (emu: &FaultInjections)
        ensures
            emu@ == self@.emu,
            self.wf() ==> emu.wf(),
    {
        &self.emu
    }

    /// Sets up registers and code for a run and clears the verdict.
    fn init_and_load(&mut self, run_successful: bool) -> (ops: Vec<BackendOp>)
        requires
            old(self).wf(),
        ensures
            final(self).wf(),
            final(self)@ == (SimulationView {
                emu: init_and_load(old(self)@.emu, run_successful),
                ..old(self)@
            }),
            ops_view(ops@) == init_and_load_ops(old(self)@.emu),
    {
        let mut ops = self.emu.init_register();
        let load = self.emu.load_code();
        append_ops(&mut ops, load);
        self.emu.init_states(run_successful);
        proof {
            self.emu.lemma_wf();
            assert(ops_view(ops@) =~= init_and_load_ops(old(self)@.emu));
        }
        ops
    }

    /// Gives up what the driver was doing.
    fn abandon(&mut self) -> (ops: Vec<BackendOp>)
        requires
            old(self).wf(),
        ensures
            final(self).wf(),
            final(self)@ == old(self)@.abandoned(),
            ops_view(ops@) == old(self)@.abandon_ops(),
    {
        let mut ops: Vec<BackendOp> = Vec::new();
        assert(ops_view(ops@) =~= Seq::empty());
        match self.phase {
            Phase::Trace | Phase::Campaign => {
                ops = self.emu.release_usage_fault_hooks();
            },
            _ => {},
        }
        self.found.clear();
        self.attacks.clear();
        self.current = 0;
        self.phase = Phase::Idle;
        proof {
            self.emu.lemma_wf();
            assert(self@.attacks =~= Seq::empty());
            assert(self@.found =~= Seq::empty());
        }
        ops
    }

    /// Ends the campaign: hands out what was retained and goes idle.
    fn end_campaign(&mut self) -> (found: Vec<Vec<FaultData>>)
        requires
            old(self).emu.wf(),
            old(self).unhooked(),
        ensures
            final(self).wf(),
            final(self)@ == idle(old(self)@.emu),
            found_view(found@) == old(self)@.found,
    {
        let mut found: Vec<Vec<FaultData>> = Vec::new();
        core::mem::swap(&mut self.found, &mut found);
        self.attacks.clear();
        self.current = 0;
        self.phase = Phase::Idle;
        proof {
            self.emu.lemma_wf();
            assert(self@.attacks =~= Seq::empty());
            assert(self@.found =~= Seq::empty());
        }
        found
    }

    /// Checks that the program under investigation behaves: starts the run
    /// that is expected to succeed. The run that is expected to fail follows
    /// it; the check passes where the first ends in `Success` and the second
    /// in `Failed`.
    pub fn check_program(&mut self) -> (step: Step)
        requires
            old(self).wf(),
        ensures
            final(self).wf(),
            final(self)@ == old(self)@.check_program().sim,
            step.matches(old(self)@.check_program()),
    {
        let mut ops = self.abandon();
        let load = self.init_and_load(true);
        append_ops(&mut ops, load);
        let request = self.emu.run_steps(MAX_INSTRUCTIONS, false);
        self.phase = Phase::CheckPositive;
        proof {
            self.emu.lemma_wf();
        }
        match request {
            Some(request) => Step { ops, next: Next::Run(request) },
            None => Step { ops, next: Next::Idle },
        }
    }

    /// The trace `record_map` as a list of fault candidates: one for each
    /// traced address, without a fault kind, in no particular order.
    pub fn convert(&self, record_map: HashMap<u64, TraceRecord>) -> (list: Vec<SimulationData>)
        ensures
            is_candidate_list(list@, record_map@),
    {
        let mut list: Vec<SimulationData> = Vec::new();
        for entry in entries: record_map.iter()
            invariant
                list@.len() == entries.index(),
                forall|i: int|
                    #![trigger list@[i]]
                    #![trigger entries.seq()[i]]
                    0 <= i < list@.len() ==> list@[i] == (SimulationData {
                        address: *entries.seq()[i].0,
                        size: entries.seq()[i].1.size,
                        count: entries.seq()[i].1.count,
                        fault_type: FaultType::Uninitialized,
                    }),
        {
            let (address, record) = entry;
            list.push(
                SimulationData {
                    address: *address,
                    size: record.size,
                    count: record.count,
                    fault_type: FaultType::Uninitialized,
                },
            );
        }
        proof {
            let trace = record_map@;
            assert(list@.len() == trace.len());
            assert(forall|i: int|
                0 <= i < list@.len() ==> trace.contains_key((#[trigger] list@[i]).address)
                    && list@[i] == (SimulationData {
                    address: list@[i].address,
                    size: trace[list@[i].address].size,
                    count: trace[list@[i].address].count,
                    fault_type: FaultType::Uninitialized,
                }));
            assert(forall|i: int, j: int|
                0 <= i < j < list@.len() ==> (#[trigger] list@[i]).address != (
                #[trigger] list@[j]).address);
            assert(forall|address: u64| #[trigger]
                trace.contains_key(address) ==> exists|i: int|
                    0 <= i < list@.len() && (#[trigger] list@[i]).address == address);
        }
        list
    }

    /// Records the program flow: starts a run of the unmodified program,
    /// expected to fail so that it runs to its end, with output suppressed,
    /// every instruction traced and the faults `faults` in place. The result,
    /// after the run, is the whole trace as fault candidates.
    pub fn record_code_trace(&mut self, faults: Vec<SimulationData>) -> (step: Step)
        requires
            old(self).wf(),
            forall|i: int| 0 <= i < faults@.len() ==> (#[trigger] faults@[i]).is_resolved(),
        ensures
            final(self).wf(),
            final(self)@ == old(self)@.record_code_trace(faults@).sim,
            step.matches(old(self)@.record_code_trace(faults@)),
    {
        let mut ops = self.abandon();
        let load = self.init_and_load(false);
        append_ops(&mut ops, load);
        let patch = self.emu.deactivate_printf_function();
        append_ops(&mut ops, patch);
        let hook = self.emu.set_trace_hook(faults);
        append_ops(&mut ops, hook);
        let ghost model = old(self)@.record_code_trace(faults@);
        if self.emu.get_state() != RunState::Error {
            let request = self.emu.run_steps(MAX_INSTRUCTIONS, false);
            self.phase = Phase::Trace;
            proof {
                self.emu.lemma_wf();
                assert(ops_view(ops@) =~= model.ops);
            }
            match request {
                Some(request) => Step { ops, next: Next::Run(request) },
                None => Step { ops, next: Next::Idle },
            }
        } else {
            let list = self.convert(self.emu.get_trace());
            let release = self.emu.release_usage_fault_hooks();
            append_ops(&mut ops, release);
            proof {
                self.emu.lemma_wf();
                assert(ops_view(ops@) =~= model.ops);
            }
            Step { ops, next: Next::Traced(list) }
        }
    }

    /// Installs the faults of the trial `self.current`, behind a restored
    /// context and a cleared verdict.
    fn prepare_trial(&mut self, ops: &mut Vec<BackendOp>)
        requires
            old(self).wf(),
            old(self).current < old(self).attacks@.len(),
        ensures
            final(self).emu.wf(),
            final(self).phase == old(self).phase,
            final(self).attacks == old(self).attacks,
            final(self).current == old(self).current,
            final(self).found == old(self).found,
            final(self).emu@ == prepare_trial(
                old(self)@.emu,
                old(self)@.attacks[old(self).current as int],
            ),
            ops_view(final(ops)@) == ops_view(old(ops)@) + prepare_trial_ops(
                old(self)@.emu,
                old(self)@.attacks[old(self).current as int],
            ),
    {
        let ghost trial = self@.attacks[self.current as int];
        let ghost prefix = ops_view(ops@);
        assert(trial == self.attacks@[self.current as int]@);
        let restore = self.emu.context_restore();
        append_ops(ops, restore);
        self.emu.init_states(false);
        let ghost start = self.emu@;
        let ghost restored = ops_view(ops@);
        let count: usize = self.attacks[self.current].len();
        let mut i: usize = 0;
        assert(trial_hooks(trial.take(0)) =~= Seq::empty());
        assert(ops_view(ops@) =~= restored + trial_hooks(trial.take(0)));
        while i < count
            invariant
                i <= count,
                count == trial.len(),
                self.current < self.attacks@.len(),
                trial == self.attacks@[self.current as int]@,
                forall|k: int| 0 <= k < trial.len() ==> (#[trigger] trial[k]).is_resolved(),
                self.emu.wf(),
                self.phase == old(self).phase,
                self.attacks == old(self).attacks,
                self.current == old(self).current,
                self.found == old(self).found,
                self.emu@ == install_trial(start, trial.take(i as int)),
                ops_view(ops@) == restored + trial_hooks(trial.take(i as int)),
            decreases count - i,
        {
            let ghost before = ops_view(ops@);
            let fault: SimulationData = self.attacks[self.current][i];
            let hook = self.emu.set_usage_fault_hook(fault);
            append_ops(ops, hook);
            i = i + 1;
            proof {
                assert(trial.take(i as int).drop_last() =~= trial.take(i - 1));
                assert(trial.take(i as int).last() == fault);
                assert(trial_hooks(trial.take(i as int)) =~= trial_hooks(trial.take(i - 1)).push(
                    BackendOpView::AddUsageHook(FaultInjectionsView::fault_hook(fault)),
                ));
                assert(ops_view(ops@) =~= restored + trial_hooks(trial.take(i as int)));
            }
        }
        proof {
            assert(trial.take(i as int) =~= trial);
            assert(ops_view(ops@) =~= prefix + prepare_trial_ops(old(self)@.emu, trial));
        }
    }

    /// Goes on with the campaign from the trial `self.current`: installs the
    /// first trial whose faults can all be installed and asks for its run, or
    /// ends the campaign.
    fn start_next_trial(&mut self, ops: &mut Vec<BackendOp>) -> (next: Next)
        requires
            old(self).emu.wf(),
            old(self)@.emu.wf(),
            all_resolved(old(self)@.attacks),
            old(self).unhooked(),
            old(self).current <= old(self).attacks@.len(),
        ensures
            final(self).wf(),
            ({
                let model = next_trial(
                    old(self)@.emu,
                    old(self)@.attacks,
                    old(self)@.current,
                    old(self)@.found,
                );
                &&& final(self)@ == model.sim
                &&& ops_view(final(ops)@) == ops_view(old(ops)@) + model.ops
                &&& next.matches(model.next)
            }),
    {
        let ghost prefix = ops_view(ops@);
        let ghost attacks = self@.attacks;
        let ghost found = self@.found;
        let ghost model = next_trial(self@.emu, attacks, self@.current, found);
        let ghost done: Seq<BackendOpView> = Seq::empty();
        self.phase = Phase::Campaign;
        assert(ops_view(ops@) =~= prefix + done);
        while self.current < self.attacks.len()
            invariant
                self.emu.wf(),
                self@.wf(),
                self.unhooked(),
                self.phase == Phase::Campaign,
                self.current <= self.attacks@.len(),
                self@.attacks == attacks,
                self@.found == found,
                prefix == ops_view(old(ops)@),
                model == next_trial(
                    old(self)@.emu,
                    old(self)@.attacks,
                    old(self)@.current,
                    old(self)@.found,
                ),
                ops_view(ops@) == prefix + done,
                ({
                    let rest = next_trial(self@.emu, attacks, self.current as nat, found);
                    &&& model.sim == rest.sim
                    &&& model.ops == done + rest.ops
                    &&& model.next == rest.next
                }),
            decreases self.attacks@.len() - self.current,
        {
            let ghost emu = self@.emu;
            let ghost trial = attacks[self.current as int];
            let ghost rest = next_trial(emu, attacks, self.current as nat, found);
            assert(self@.attacks.len() == self.attacks@.len());
            assert(self.wf());
            self.prepare_trial(ops);
            assert(self@.attacks == attacks);
            assert(self@.found == found);
            if self.emu.get_state() != RunState::Error {
                let request = self.emu.run_steps(MAX_INSTRUCTIONS, false);
                proof {
                    self.emu.lemma_wf();
                    assert(self@.attacks == attacks);
                    assert(self@.found == found);
                    assert(self@ == rest.sim);
                    assert(ops_view(ops@) =~= prefix + model.ops);
                }
                return match request {
                    Some(request) => Next::Run(request),
                    None => Next::Idle,
                };
            }
            let release = self.emu.release_usage_fault_hooks();
            append_ops(ops, release);
            self.current = self.current + 1;
            proof {
                self.emu.lemma_wf();
                done = done + prepare_trial_ops(emu, trial) + seq![BackendOpView::RemoveUsageHooks];
                assert(ops_view(ops@) =~= prefix + done);
                let after = next_trial(self@.emu, attacks, self.current as nat, found);
                assert(rest.ops == prepare_trial_ops(emu, trial) + seq![
                    BackendOpView::RemoveUsageHooks,
                ] + after.ops);
                assert(model.ops =~= done + after.ops);
            }
        }
        let found_now = self.end_campaign();
        proof {
            assert(model.ops =~= done);
            assert(ops_view(ops@) =~= prefix + model.ops);
        }
        if found_now.len() != 0 {
            Next::Faults(Some(found_now))
        } else {
            proof {
                assert(found.len() == found_now@.len());
            }
            Next::Faults(None)
        }
    }

    /// Runs the program once for each trial of `vec_of_vec_attacks`, with the
    /// faults of the trial injected together, every trial from the same saved
    /// context. The result, after the last run, holds the faults of the
    /// trials that ended in `Success`, in the order of the trials; it is
    /// nothing where no trial did.
    pub fn run_with_faults(&mut self, vec_of_vec_attacks: Vec<Vec<SimulationData>>) -> (step: Step)
        requires
            old(self).wf(),
            all_resolved(attacks_view(vec_of_vec_attacks@)),
        ensures
            final(self).wf(),
            final(self)@ == old(self)@.run_with_faults(attacks_view(vec_of_vec_attacks@)).sim,
            step.matches(old(self)@.run_with_faults(attacks_view(vec_of_vec_attacks@))),
    {
        let ghost start = old(self)@;
        let mut ops = self.abandon();
        let load = self.init_and_load(false);
        append_ops(&mut ops, load);
        let patch = self.emu.deactivate_printf_function();
        append_ops(&mut ops, patch);
        self.emu.init_states(false);
        let registers = self.emu.init_register();
        append_ops(&mut ops, registers);
        let context = self.emu.context_init();
        append_ops(&mut ops, context);
        self.attacks = vec_of_vec_attacks;
        self.current = 0;
        proof {
            self.emu.lemma_wf();
            assert(self@.found =~= Seq::empty());
            assert(self@.emu == start.campaign_base());
            assert(ops_view(ops@) =~= start.campaign_base_ops());
        }
        let next = self.start_next_trial(&mut ops);
        Step { ops, next }
    }

    /// Goes on after the emulator has returned from the run that the last
    /// step asked for: `pc` is where it stopped, `ok` whether it reported no
    /// error. A check goes on to its second run or ends; a trace ends with
    /// its candidates; a campaign retains the faults of the trial if it ended
    /// in `Success`, removes its hooks, and goes on to the next trial or
    /// ends.
    pub fn resume(&mut self, pc: u64, ok: bool) -> (step: Step)
        requires
            old(self).wf(),
        ensures
            final(self).wf(),
            final(self)@ == old(self)@.resume(pc, ok).sim,
            step.matches(old(self)@.resume(pc, ok)),
    {
        let ghost model = self@.resume(pc, ok);
        proof {
            self.lemma_wf();
        }
        let mut ops: Vec<BackendOp> = Vec::new();
        assert(ops_view(ops@) =~= Seq::empty());
        match self.emu.run_returned(pc, ok) {
            Some(request) => {
                proof {
                    self.emu.lemma_wf();
                    assert(self@.attacks == old(self)@.attacks);
                    assert(self@.found == old(self)@.found);
                }
                return Step { ops, next: Next::Run(request) };
            },
            None => {},
        }
        proof {
            self.emu.lemma_wf();
        }
        match self.phase {
            Phase::Idle => Step { ops, next: Next::Idle },
            Phase::CheckPositive => {
                if self.emu.get_state() == RunState::Success {
                    let load = self.init_and_load(false);
                    let request = self.emu.run_steps(MAX_INSTRUCTIONS, false);
                    self.phase = Phase::CheckNegative;
                    proof {
                        self.emu.lemma_wf();
                    }
                    match request {
                        Some(request) => Step { ops: load, next: Next::Run(request) },
                        None => Step { ops: load, next: Next::Idle },
                    }
                } else {
                    self.phase = Phase::Idle;
                    Step { ops, next: Next::Checked(false) }
                }
            },
            Phase::CheckNegative => {
                self.phase = Phase::Idle;
                let passed = self.emu.get_state() == RunState::Failed;
                Step { ops, next: Next::Checked(passed) }
            },
            Phase::Trace => {
                self.phase = Phase::Idle;
                let list = self.convert(self.emu.get_trace());
                let release = self.emu.release_usage_fault_hooks();
                proof {
                    self.emu.lemma_wf();
                }
                Step { ops: release, next: Next::Traced(list) }
            },
            Phase::Campaign => {
                let ghost found = self@.found;
                if self.emu.get_state() == RunState::Success {
                    let faults = self.emu.get_fault_data();
                    self.found.push(faults);
                    assert(self@.found =~= found.push(self@.emu.fault_data));
                }
                let mut ops = self.emu.release_usage_fault_hooks();
                let total: usize = self.attacks.len();
                assert(self.current < total);
                self.current = self.current + 1;
                proof {
                    self.emu.lemma_wf();
                    assert(self@.attacks == old(self)@.attacks);
                }
                let next = self.start_next_trial(&mut ops);
                Step { ops, next }
            },
        }
    }

    /// Ends the session: gives up what the driver was doing and removes
    /// every hook, those of the session included.
    pub fn teardown(&mut self) -> (ops: Vec<BackendOp>)
        requires
            old(self).wf(),
        ensures
            final(self).wf(),
            final(self)@ == old(self)@.teardown(),
            ops_view(ops@) == old(self)@.abandon_ops().push(BackendOpView::RemoveSystemHooks),
    {
        let mut ops = self.abandon();
        let release = self.emu.release_system_hooks();
        append_ops(&mut ops, release);
        proof {
            self.emu.lemma_wf();
            assert(ops_view(ops@) =~= old(self)@.abandon_ops().push(
                BackendOpView::RemoveSystemHooks,
            ));
        }
        ops
    }

    /// Takes note that a hook of the emulator has fired, and says what to do
    /// about it in the emulator: the writes of a fault, or to stop.
    pub fn hook_fired(&mut self, event: HookEvent) -> (ops: Vec<BackendOp>)
        requires
            old(self).wf(),
        ensures
            final(self).wf(),
            final(self)@ == old(self)@.hook_fired(event),
            ops_view(ops@) == old(self)@.hook_fired_ops(event),
    {
        let ops = match event {
            HookEvent::FlashLoad => self.emu.hook_code_flash_load_img_callback(),
            HookEvent::AuthWrite(value) => self.emu.mmio_auth_write_callback(value),
            HookEvent::Trace(address) => self.emu.hook_code_callback(address),
            HookEvent::Fault(address) => self.emu.hook_nop_code_callback(address),
        };
        proof {
            self.emu.lemma_wf();
        }
        ops
    }

    /// The target has written `value` to the serial output: the byte to
    /// print, unless output is suppressed.
    pub fn serial_written(&self, value: u64) -> (byte: Option<u8>)
        ensures
            byte == if self@.emu.print_output {
                Some((value % 256) as u8)
            } else {
                None
            },
    {
        self.emu.mmio_serial_write_callback(value)
    }
}

} // verus!
