//! The order of a run: resolve the module, learn its extent, scan its image,
//! take the preamble of the target, wait until it changes, install the hook.
//!
//! The orchestrator does none of the outside work. It says what is to be
//! done next, takes what came of it as an event, and decides. The first
//! failure ends the run.

use crate::config::Config;
use crate::error::{AppError, ErrorView};
use crate::hooks::{hook_failed, HookRecord, HookRequest, HookState, PakFileHook};
use crate::modules::{cache_after_resolve, resolve, ModuleEntry, ModuleInfo, ModuleScanner};
use crate::region::MemoryRegion;
use crate::scanner::{cache_after, scan_result, PatternScanner};
use crate::waiter::{ReadinessWaiter, WaitStep};
use vstd::prelude::*;
use vstd::string::*;

verus! {

/// How far a run has come.
#[derive(Debug, Clone, Copy, PartialEq, Eq, Structural)]
pub enum Stage {
    /// The listing of the loaded modules is awaited.
    ResolvingModule,
    /// The extent of the module is awaited.
    QueryingModule { module: usize },
    /// The bytes of the module's image are awaited.
    Scanning { base: usize, size: usize },
    /// The first reading of the word at the target is awaited.
    Snapshotting { target: usize },
    /// A reading of the word at the target that differs from `baseline` is
    /// awaited.
    Waiting { target: usize, baseline: u64 },
    /// The end of the installation is awaited.
    Installing { target: usize },
    /// The hook is installed; nothing is left to do.
    Parked { target: usize },
    /// A step failed; nothing more will be done.
    Aborted,
}

/// What the caller is to do next.
#[derive(Debug, Clone, Copy, PartialEq, Eq, Structural)]
pub enum Action {
    /// List the loaded modules and answer with `Event::Modules`.
    ListModules,
    /// Ask for the extent of the module and answer with `Event::Module`.
    QueryModule { module: usize },
    /// Hand over the `size` bytes at `base` with `Event::Image`.
    ReadImage { base: usize, size: usize },
    /// Sleep for `after_ms` milliseconds, read the eight bytes at `address`
    /// and answer with `Event::Word`.
    ReadWord { address: usize, after_ms: u64 },
    /// Install what the request names and answer with `Event::Installed`.
    Install { request: HookRequest },
    /// The hook is installed: keep the thread alive.
    Park,
    /// The run has failed: end it.
    Stop,
}

/// What came of the outside work.
#[derive(Debug)]
pub enum Event<'a> {
    /// The listing of the loaded modules, or why there is none.
    Modules(Result<Vec<ModuleEntry>, std::io::Error>),
    /// The extent of the module, or why it is not known.
    Module(Result<ModuleInfo, std::io::Error>),
    /// The bytes of the image.
    Image(&'a [u8]),
    /// A reading of the word at the target.
    Word(u64),
    /// How the installation ended: done, or the description of the fault.
    Installed(Result<(), String>),
}

/// What a run is set up with.
pub ghost struct Plan {
    /// The name of the module.
    pub module: Seq<char>,
    /// The pattern of the signature.
    pub pattern: Seq<u8>,
    /// The bytes of the signature's mask.
    pub mask: Seq<u8>,
    /// How many bytes the target lies in front of the match.
    pub adjust: usize,
    /// The pause between two readings of the target, in milliseconds.
    pub poll_interval_ms: u64,
    /// The routine to install.
    pub replacement: usize,
}

/// The mathematical content of an orchestrator.
pub ghost struct SequenceState {
    pub plan: Plan,
    pub stage: Stage,
    /// What the module scanner remembers.
    pub modules: Map<Seq<u8>, usize>,
    /// What the pattern scanner remembers.
    pub scans: Map<(usize, usize), usize>,
    /// The hook.
    pub hook: HookRecord,
}

/// The place of a stage in the order of a run.
pub open spec fn stage_rank(stage: Stage) -> nat {
    match stage {
        Stage::ResolvingModule => 0,
        Stage::QueryingModule { .. } => 1,
        Stage::Scanning { .. } => 2,
        Stage::Snapshotting { .. } => 3,
        Stage::Waiting { .. } => 4,
        Stage::Installing { .. } => 5,
        Stage::Parked { .. } => 6,
        Stage::Aborted => 7,
    }
}

/// The target that belongs to a match at `found`: `adjust` bytes in front
/// of it, and not below address 0.
pub open spec fn adjusted_target(found: usize, adjust: usize) -> usize {
    if found >= adjust {
        (found - adjust) as usize
    } else {
        0
    }
}

/// The request that a run makes of the hook for `target`.
pub open spec fn request_for(plan: Plan, target: usize) -> HookRequest {
    HookRequest { address: target, replacement: plan.replacement }
}

/// The action that a stage stands for: what is asked again when an event
/// arrives that the stage does not wait for.
pub open spec fn pending_action(state: SequenceState) -> Action {
    match state.stage {
        Stage::ResolvingModule => Action::ListModules,
        Stage::QueryingModule { module } => Action::QueryModule { module },
        Stage::Scanning { base, size } => Action::ReadImage { base, size },
        Stage::Snapshotting { target } => Action::ReadWord { address: target, after_ms: 0 },
        Stage::Waiting { target, baseline } => Action::ReadWord {
            address: target,
            after_ms: state.plan.poll_interval_ms,
        },
        Stage::Installing { target } => Action::Install {
            request: request_for(state.plan, target),
        },
        Stage::Parked { .. } => Action::Park,
        Stage::Aborted => Action::Stop,
    }
}

/// The state of a run that starts with the given plan.
pub open spec fn initial_state(plan: Plan) -> SequenceState {
    SequenceState {
        plan,
        stage: Stage::ResolvingModule,
        modules: Map::empty(),
        scans: Map::empty(),
        hook: HookRecord::initial(),
    }
}

/// The state after the listing of the modules has arrived.
pub open spec fn after_modules(
    state: SequenceState,
    listing: Result<Vec<ModuleEntry>, std::io::Error>,
) -> (SequenceState, Result<Action, ErrorView>) {
    let modules = cache_after_resolve(state.modules, state.plan.module, listing);
    match resolve(state.modules, state.plan.module, listing) {
        Ok(module) => (
            SequenceState { stage: Stage::QueryingModule { module }, modules, ..state },
            Ok(Action::QueryModule { module }),
        ),
        Err(e) => (SequenceState { stage: Stage::Aborted, modules, ..state }, Err(e)),
    }
}

/// The state after the extent of the module has arrived.
pub open spec fn after_module(state: SequenceState, queried: Result<ModuleInfo, std::io::Error>) -> (
    SequenceState,
    Result<Action, ErrorView>,
) {
    match queried {
        Ok(info) => (
            SequenceState {
                stage: Stage::Scanning { base: info.base_address, size: info.image_size },
                ..state
            },
            Ok(Action::ReadImage { base: info.base_address, size: info.image_size }),
        ),
        Err(_) => (
            SequenceState { stage: Stage::Aborted, ..state },
            Err(ErrorView::ModuleInfoFailed),
        ),
    }
}

/// The state after the image that lies at `base` has arrived. An image
/// that would reach past the end of the address space is refused; a match
/// whose target would be the null address is refused.
pub open spec fn after_image(state: SequenceState, base: usize, image: Seq<u8>) -> (
    SequenceState,
    Result<Action, ErrorView>,
) {
    if base + image.len() > usize::MAX {
        (
            SequenceState { stage: Stage::Aborted, ..state },
            Err(ErrorView::MemoryAccessViolation { address: base }),
        )
    } else {
        let scans = cache_after(state.scans, base, image, state.plan.pattern, state.plan.mask);
        match scan_result(state.scans, base, image, state.plan.pattern, state.plan.mask) {
            Err(e) => (SequenceState { stage: Stage::Aborted, scans, ..state }, Err(e@)),
            Ok(found) => {
                let target = adjusted_target(found, state.plan.adjust);
                if target == 0 {
                    (
                        SequenceState { stage: Stage::Aborted, scans, ..state },
                        Err(ErrorView::MemoryAccessViolation { address: 0 }),
                    )
                } else {
                    (
                        SequenceState { stage: Stage::Snapshotting { target }, scans, ..state },
                        Ok(Action::ReadWord { address: target, after_ms: 0 }),
                    )
                }
            },
        }
    }
}

/// The state after a reading of the awaited word: a reading that equals the
/// baseline asks for the next one, a reading that differs starts the
/// installation.
pub open spec fn after_reading(state: SequenceState, target: usize, baseline: u64, value: u64) -> (
    SequenceState,
    Result<Action, ErrorView>,
) {
    if value == baseline {
        (state, Ok(Action::ReadWord { address: target, after_ms: state.plan.poll_interval_ms }))
    } else if state.hook.accepts_apply() {
        (
            SequenceState {
                stage: Stage::Installing { target },
                hook: state.hook.after_apply(request_for(state.plan, target)),
                ..state
            },
            Ok(Action::Install { request: request_for(state.plan, target) }),
        )
    } else {
        (
            SequenceState { stage: Stage::Aborted, ..state },
            Err(hook_failed("Hook is already applied"@)),
        )
    }
}

/// The state after the installation has ended.
pub open spec fn after_installation(
    state: SequenceState,
    target: usize,
    outcome: Result<(), String>,
) -> (SequenceState, Result<Action, ErrorView>) {
    let hook = state.hook.after_complete(outcome is Ok);
    if !state.hook.accepts_complete() {
        (
            SequenceState { stage: Stage::Aborted, hook, ..state },
            Err(hook_failed("Cannot complete hook in state: "@ + state.hook.state.name())),
        )
    } else {
        match outcome {
            Ok(_) => (SequenceState { stage: Stage::Parked { target }, hook, ..state }, Ok(Action::Park)),
            Err(fault) => (
                SequenceState { stage: Stage::Aborted, hook, ..state },
                Err(hook_failed("Failed to apply hook: "@ + fault@)),
            ),
        }
    }
}

/// The state after an event, and what the run answers to it: the next
/// action, or the error that ended the run. An event that the stage does
/// not wait for changes nothing and is answered with the pending action.
pub open spec fn step(state: SequenceState, event: Event) -> (
    SequenceState,
    Result<Action, ErrorView>,
) {
    match (state.stage, event) {
        (Stage::ResolvingModule, Event::Modules(listing)) => after_modules(state, listing),
        (Stage::QueryingModule { module }, Event::Module(queried)) => after_module(state, queried),
        (Stage::Scanning { base, size }, Event::Image(image)) => after_image(state, base, image@),
        (Stage::Snapshotting { target }, Event::Word(value)) => (
            SequenceState { stage: Stage::Waiting { target, baseline: value }, ..state },
            Ok(Action::ReadWord { address: target, after_ms: 0 }),
        ),
        (Stage::Waiting { target, baseline }, Event::Word(value)) => after_reading(
            state,
            target,
            baseline,
            value,
        ),
        (Stage::Installing { target }, Event::Installed(outcome)) => after_installation(
            state,
            target,
            outcome,
        ),
        _ => (state, Ok(pending_action(state))),
    }
}

/// Sequences a run and owns the scanners and the hook that the run uses.
pub struct Orchestrator<'a> {
    config: Config<'a>,
    adjust: usize,
    poll_interval_ms: u64,
    replacement: usize,
    stage: Stage,
    modules: ModuleScanner,
    patterns: PatternScanner,
    hook: PakFileHook,
}

impl<'a> View for Orchestrator<'a> {
    type V = SequenceState;

    closed spec fn view(&self) -> SequenceState {
        SequenceState {
            plan: Plan {
                module: self.config.target_module@,
                pattern: self.config.pattern@,
                mask: self.config.mask.spec_bytes(),
                adjust: self.adjust,
                poll_interval_ms: self.poll_interval_ms,
                replacement: self.replacement,
            },
            stage: self.stage,
            modules: self.modules@,
            scans: self.patterns@,
            hook: self.hook@,
        }
    }
}

impl<'a> Orchestrator<'a> {
    /// A run for the given configuration, whose target lies `adjust` bytes
    /// in front of the match, whose wait reads every `poll_interval_ms`
    /// milliseconds, and which installs `replacement`. A configuration that
    /// breaks a rule is refused with the error that reports the rule.
    pub fn new(config: Config<'a>, adjust: usize, poll_interval_ms: u64, replacement: usize) -> (r:
        Result<Self, AppError>)
        ensures
            r is Ok <==> config.is_valid(),
            r matches Err(e) ==> config.violation() == Some(e@),
            r matches Ok(run) ==> run@ == initial_state(
                Plan {
                    module: config.target_module@,
                    pattern: config.pattern@,
                    mask: config.mask.spec_bytes(),
                    adjust,
                    poll_interval_ms,
                    replacement,
                },
            ) && reachable(run@),
    {
        match config.validate() {
            Err(e) => Err(e),
            Ok(()) => Ok(
                Orchestrator {
                    config,
                    adjust,
                    poll_interval_ms,
                    replacement,
                    stage: Stage::ResolvingModule,
                    modules: ModuleScanner::new(),
                    patterns: PatternScanner::new(),
                    hook: PakFileHook::new(),
                },
            ),
        }
    }

    /// How far the run has come.
    pub fn stage(&self) -> (r: Stage)
        ensures
            r == self@.stage,
    {
        self.stage
    }

    /// The hook of the run.
    pub fn hook(&self) -> (r: &PakFileHook)
        ensures
            r@ == self@.hook,
    {
        &self.hook
    }

    /// The action that the run waits for.
    pub fn pending(&self) -> (r: Action)
        ensures
            r == pending_action(self@),
    {
        match self.stage {
            Stage::ResolvingModule => Action::ListModules,
            Stage::QueryingModule { module } => Action::QueryModule { module },
            Stage::Scanning { base, size } => Action::ReadImage { base, size },
            Stage::Snapshotting { target } => Action::ReadWord { address: target, after_ms: 0 },
            Stage::Waiting { target, baseline } => Action::ReadWord {
                address: target,
                after_ms: self.poll_interval_ms,
            },
            Stage::Installing { target } => Action::Install {
                request: HookRequest { address: target, replacement: self.replacement },
            },
            Stage::Parked { .. } => Action::Park,
            Stage::Aborted => Action::Stop,
        }
    }

    /// Takes what came of the outside work and answers with the next
    /// action, or with the error that ends the run.
    pub fn advance(&mut self, event: Event<'_>) -> (r: Result<Action, AppError>)
        ensures
            final(self)@ == step(old(self)@, event).0,
            r matches Ok(action) ==> step(old(self)@, event).1 == Ok::<Action, ErrorView>(action),
            r matches Err(e) ==> step(old(self)@, event).1 == Err::<Action, ErrorView>(e@),
            reachable(old(self)@) ==> reachable(final(self)@),
            r matches Err(AppError::EnumerationFailed { source }) ==> event matches Event::Modules(
                Err(failure),
            ) && failure == source,
            r matches Err(AppError::ModuleInfoFailed { source }) ==> event matches Event::Module(
                Err(failure),
            ) && failure == source,
    {
        proof {
            if reachable(self@) {
                lemma_runs_stay_reachable(self@.plan, self@, event);
            }
        }
        match (self.stage, event) {
            (Stage::ResolvingModule, Event::Modules(listing)) => {
                match self.modules.find_module(self.config.target_module, listing) {
                    Ok(module) => {
                        self.stage = Stage::QueryingModule { module };
                        Ok(Action::QueryModule { module })
                    },
                    Err(e) => {
                        self.stage = Stage::Aborted;
                        Err(e)
                    },
                }
            },
            (Stage::QueryingModule { module }, Event::Module(queried)) => {
                match self.modules.get_module_info(queried) {
                    Ok(info) => {
                        self.stage =
                        Stage::Scanning { base: info.base_address, size: info.image_size };
                        Ok(Action::ReadImage { base: info.base_address, size: info.image_size })
                    },
                    Err(e) => {
                        self.stage = Stage::Aborted;
                        Err(e)
                    },
                }
            },
            (Stage::Scanning { base, size }, Event::Image(image)) => {
                let region = match MemoryRegion::new(base, image) {
                    Some(region) => region,
                    None => {
                        self.stage = Stage::Aborted;
                        return Err(AppError::MemoryAccessViolation { address: base });
                    },
                };
                match self.patterns.scan(&region, self.config.pattern, self.config.mask) {
                    Err(e) => {
                        self.stage = Stage::Aborted;
                        Err(e)
                    },
                    Ok(found) => {
                        let target: usize = found.saturating_sub(self.adjust);
                        if target == 0 {
                            self.stage = Stage::Aborted;
                            Err(AppError::MemoryAccessViolation { address: 0 })
                        } else {
                            self.stage = Stage::Snapshotting { target };
                            Ok(Action::ReadWord { address: target, after_ms: 0 })
                        }
                    },
                }
            },
            (Stage::Snapshotting { target }, Event::Word(value)) => {
                self.stage = Stage::Waiting { target, baseline: value };
                Ok(Action::ReadWord { address: target, after_ms: 0 })
            },
            (Stage::Waiting { target, baseline }, Event::Word(value)) => {
                let mut waiter = ReadinessWaiter::new(target, baseline, self.poll_interval_ms);
                match waiter.observe(value) {
                    WaitStep::Retry { after_ms } => Ok(
                        Action::ReadWord { address: target, after_ms },
                    ),
                    WaitStep::Ready => match self.hook.apply(target, self.replacement) {
                        Ok(request) => {
                            self.stage = Stage::Installing { target };
                            Ok(Action::Install { request })
                        },
                        Err(e) => {
                            self.stage = Stage::Aborted;
                            Err(e)
                        },
                    },
                    WaitStep::Expired => {
                        // A wait without end never expires.
                        assert(false);
                        Ok(self.pending())
                    },
                }
            },
            (Stage::Installing { target }, Event::Installed(outcome)) => {
                match self.hook.complete(outcome) {
                    Ok(()) => {
                        self.stage = Stage::Parked { target };
                        Ok(Action::Park)
                    },
                    Err(e) => {
                        self.stage = Stage::Aborted;
                        Err(e)
                    },
                }
            },
            _ => Ok(self.pending()),
        }
    }
}

/// What holds of every state that a run can reach: up to the end of the
/// wait the hook is untouched; during the installation it is in progress
/// for the target; a parked run has it installed at the target; and no
/// target is the null address.
pub open spec fn reachable(state: SequenceState) -> bool {
    match state.stage {
        Stage::ResolvingModule | Stage::QueryingModule { .. } | Stage::Scanning { .. } => state.hook
            == HookRecord::initial(),
        Stage::Snapshotting { target } => target != 0 && state.hook == HookRecord::initial(),
        Stage::Waiting { target, .. } => target != 0 && state.hook == HookRecord::initial(),
        Stage::Installing { target } => {
            &&& target != 0
            &&& state.hook.state == HookState::Applying
            &&& state.hook.pending == request_for(state.plan, target)
        },
        Stage::Parked { target } => {
            &&& target != 0
            &&& state.hook.is_active()
            &&& state.hook.target_address == Some(target)
            &&& state.hook.replacement == Some(state.plan.replacement)
        },
        Stage::Aborted => !state.hook.is_active(),
    }
}

/// A run starts in a reachable state and every event keeps it in one. So a
/// parked run has its hook installed at the target it waited for, and a run
/// that is not parked has no installed hook.
pub proof fn lemma_runs_stay_reachable(plan: Plan, state: SequenceState, event: Event)
    requires
        reachable(state),
    ensures
        reachable(initial_state(plan)),
        reachable(step(state, event).0),
        step(state, event).0.hook.is_active() <==> step(state, event).0.stage is Parked,
{
}

/// A failed step ends the run, and a run that has ended stays ended: it
/// answers every event with `Stop` and changes nothing.
pub proof fn lemma_failure_ends_the_run(state: SequenceState, event: Event)
    ensures
        step(state, event).1 is Err ==> step(state, event).0.stage == Stage::Aborted,
        state.stage == Stage::Aborted ==> step(state, event) == (
            state,
            Ok::<Action, ErrorView>(Action::Stop),
        ),
        state.stage is Parked ==> step(state, event) == (
            state,
            Ok::<Action, ErrorView>(Action::Park),
        ),
{
}

/// The stages follow each other in one order: an event leaves the run where
/// it is, moves it to the next stage, or ends it.
pub proof fn lemma_stages_keep_their_order(state: SequenceState, event: Event)
    ensures
        ({
            let next = step(state, event).0.stage;
            ||| next == state.stage
            ||| stage_rank(next) == stage_rank(state.stage) + 1
            ||| next == Stage::Aborted
        }),
        step(state, event).0.plan == state.plan,
{
}

/// The installation is asked for only when the wait is over: by a reading
/// of the target that differs from the baseline, and for that target. Up to
/// then the hook is untouched.
pub proof fn lemma_install_follows_the_wait(state: SequenceState, event: Event)
    requires
        !(state.stage is Installing),
    ensures
        step(state, event).1 matches Ok(Action::Install { request }) ==> {
            &&& state.stage matches Stage::Waiting { target, baseline }
            &&& event matches Event::Word(value)
            &&& event->Word_0 != state.stage->Waiting_baseline
            &&& request == request_for(state.plan, state.stage->Waiting_target)
            &&& step(state, event).0.stage == (Stage::Installing {
                target: state.stage->Waiting_target,
            })
        },
        stage_rank(step(state, event).0.stage) <= 4 ==> step(state, event).0.hook == state.hook,
{
}

} // verus!
