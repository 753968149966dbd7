//! The engine process supervisor's decisions. It owns the one engine
//! handle, and for every lifecycle request it hands its driver a plan: the
//! ordered process actions to perform against the operating system. The
//! driver performs them and reports back what happened. The laws at the end
//! are stated over a model of the process table holding the identifiers of
//! every process that matches the engine binary's path.
use vstd::prelude::*;
use crate::events::BridgeError;

verus! {

/// How long the driver pauses after reclaiming stale instances, for the
/// system to release their resources, in milliseconds.
pub const RECLAIM_PAUSE_MS: u64 = 300;

/// How long a restart waits between stopping and starting, for ports and
/// sockets to be released, in milliseconds.
pub const RESTART_PAUSE_MS: u64 = 500;

/// The lifecycle states of the engine subprocess.
#[derive(Debug, Clone, Copy, PartialEq, Eq, Structural)]
pub enum EngineState {
    NotStarted,
    Starting,
    Running,
    Stopping,
    Stopped,
}

/// One step of a start plan, in the order the driver must perform them.
#[derive(Debug, Clone, Copy, PartialEq, Eq, Structural)]
pub enum StartAction {
    /// Forcibly end every process matching the engine binary's path: a
    /// leftover of a prior, improperly terminated session.
    ReclaimStale,
    /// Pause for `RECLAIM_PAUSE_MS` so the system reclaims their resources.
    AwaitCleanup,
    /// Spawn the engine binary with its serve subcommand, its library
    /// search paths pointing at its own resource directory, and its output
    /// streams discarded.
    SpawnEngine,
}

/// One step of a stop plan, in the order the driver must perform them.
#[derive(Debug, Clone, Copy, PartialEq, Eq, Structural)]
pub enum StopAction {
    /// Forcibly end the direct children of the owned engine process first:
    /// the engine may fork workers of its own.
    TerminateChildren { pid: u64 },
    /// Forcibly end the owned engine process itself.
    TerminateEngine { pid: u64 },
    /// Wait for the owned process's exit, so no zombie is left.
    AwaitExit { pid: u64 },
    /// As defense in depth, forcibly end every process matching the engine
    /// binary's path, tracked or not.
    ReclaimStale,
}

/// The plan a start request yields: stale instances are reclaimed first
/// whenever the probe of the process table found any.
pub open spec fn start_plan(stale_count: int) -> Seq<StartAction> {
    if stale_count > 0 {
        seq![StartAction::ReclaimStale, StartAction::AwaitCleanup, StartAction::SpawnEngine]
    } else {
        seq![StartAction::SpawnEngine]
    }
}

/// The plan a stop request yields: with an owned handle, children first,
/// then the engine, then the wait; in every case the path-matching sweep.
pub open spec fn stop_plan(pid: Option<u64>) -> Seq<StopAction> {
    match pid {
        Some(p) => seq![
            StopAction::TerminateChildren { pid: p },
            StopAction::TerminateEngine { pid: p },
            StopAction::AwaitExit { pid: p },
            StopAction::ReclaimStale,
        ],
        None => seq![StopAction::ReclaimStale],
    }
}

/// The supervisor: the one owner of the engine handle.
pub struct Supervisor {
    state: EngineState,
    pid: Option<u64>,
}

impl Supervisor {
    /// The lifecycle state the supervisor is in.
    pub closed spec fn state_of(self) -> EngineState {
        self.state
    }

    /// The tracked process identifier of the owned engine, if one runs.
    pub closed spec fn engine_pid(self) -> Option<u64> {
        self.pid
    }

    /// At most one engine handle is live, and exactly while the engine
    /// counts as running.
    pub open spec fn well_formed(self) -> bool {
        self.engine_pid() is Some <==> self.state_of() == EngineState::Running
    }

    pub fn new() -> (r: Supervisor)
        ensures
            r.well_formed(),
            r.state_of() == EngineState::NotStarted,
            r.engine_pid() is None,
    {
        Supervisor { state: EngineState::NotStarted, pid: None }
    }

    pub fn current_state(&self) -> (r: EngineState)
        ensures
            r == self.state_of(),
    {
        self.state
    }

    pub fn current_pid(&self) -> (r: Option<u64>)
        ensures
            r == self.engine_pid(),
    {
        self.pid
    }

    /// Decides a start request. A missing binary is the fatal
    /// configuration error and changes nothing; otherwise any owned handle
    /// is given up (the plan's sweep covers it) and the start plan is
    /// handed back, shaped by how many stale instances the driver's probe
    /// found.
    pub fn begin_start(&mut self, binary_found: bool, stale_count: usize) -> (r: Result<
        Vec<StartAction>,
        BridgeError,
    >)
        requires
            old(self).well_formed(),
        ensures
            final(self).well_formed(),
            !binary_found ==> (r matches Err(e) && e is BinaryMissing && final(self).state_of()
                == old(self).state_of() && final(self).engine_pid() == old(self).engine_pid()),
            binary_found ==> (r matches Ok(plan) && plan@ == start_plan(stale_count as int)
                && final(self).state_of() == EngineState::Starting && final(self).engine_pid()
                is None),
    {
        if !binary_found {
            return Err(BridgeError::BinaryMissing);
        }
        self.state = EngineState::Starting;
        self.pid = None;
        let mut plan: Vec<StartAction> = Vec::new();
        if stale_count > 0 {
            plan.push(StartAction::ReclaimStale);
            plan.push(StartAction::AwaitCleanup);
        }
        plan.push(StartAction::SpawnEngine);
        proof {
            assert(plan@ =~= start_plan(stale_count as int));
        }
        Ok(plan)
    }

    /// Records the spawned process: the new handle replaces any older one.
    pub fn confirm_started(&mut self, pid: u64)
        requires
            old(self).well_formed(),
            old(self).state_of() == EngineState::Starting,
        ensures
            final(self).well_formed(),
            final(self).state_of() == EngineState::Running,
            final(self).engine_pid() == Some(pid),
    {
        self.state = EngineState::Running;
        self.pid = Some(pid);
    }

    /// Records that the spawn failed: the application goes on without a
    /// functioning engine.
    pub fn spawn_failed(&mut self)
        requires
            old(self).well_formed(),
            old(self).state_of() == EngineState::Starting,
        ensures
            final(self).well_formed(),
            final(self).state_of() == EngineState::Stopped,
            final(self).engine_pid() is None,
    {
        self.state = EngineState::Stopped;
        self.pid = None;
    }

    /// Decides a stop request. Never an error: with no live handle the
    /// plan is just the defensive sweep, so stopping what never started is
    /// safe.
    pub fn begin_stop(&mut self) -> (r: Vec<StopAction>)
        requires
            old(self).well_formed(),
        ensures
            final(self).well_formed(),
            final(self).state_of() == EngineState::Stopping,
            final(self).engine_pid() is None,
            r@ == stop_plan(old(self).engine_pid()),
    {
        let mut plan: Vec<StopAction> = Vec::new();
        match self.pid {
            Some(p) => {
                plan.push(StopAction::TerminateChildren { pid: p });
                plan.push(StopAction::TerminateEngine { pid: p });
                plan.push(StopAction::AwaitExit { pid: p });
                plan.push(StopAction::ReclaimStale);
            },
            None => {
                plan.push(StopAction::ReclaimStale);
            },
        }
        proof {
            assert(plan@ =~= stop_plan(old(self).engine_pid()));
        }
        self.state = EngineState::Stopping;
        self.pid = None;
        plan
    }

    /// Records that the stop plan ran to its end.
    pub fn confirm_stopped(&mut self)
        requires
            old(self).well_formed(),
            old(self).state_of() == EngineState::Stopping,
        ensures
            final(self).well_formed(),
            final(self).state_of() == EngineState::Stopped,
            final(self).engine_pid() is None,
    {
        self.state = EngineState::Stopped;
    }
}

/// What one start action does to the table of processes matching the
/// engine binary's path. A spawn adds the fresh process; the sweep ends
/// them all.
pub open spec fn apply_start_action(procs: Seq<u64>, action: StartAction, fresh_pid: u64) -> Seq<
    u64,
> {
    match action {
        StartAction::ReclaimStale => Seq::empty(),
        StartAction::AwaitCleanup => procs,
        StartAction::SpawnEngine => procs.push(fresh_pid),
    }
}

/// A start plan run against the process table, action by action.
pub open spec fn apply_start_actions(procs: Seq<u64>, plan: Seq<StartAction>, fresh_pid: u64) -> Seq<
    u64,
>
    decreases plan.len(),
{
    if plan.len() == 0 {
        procs
    } else {
        apply_start_actions(apply_start_action(procs, plan[0], fresh_pid), plan.skip(1), fresh_pid)
    }
}

/// The processes matching the engine binary's path, with `pid` gone.
pub open spec fn without_pid(procs: Seq<u64>, pid: u64) -> Seq<u64>
    decreases procs.len(),
{
    if procs.len() == 0 {
        procs
    } else if procs[0] == pid {
        without_pid(procs.skip(1), pid)
    } else {
        seq![procs[0]] + without_pid(procs.skip(1), pid)
    }
}

/// What one stop action does to the table of processes matching the engine
/// binary's path. The engine's children do not match the binary's path
/// themselves, so ending them leaves the table as it is.
pub open spec fn apply_stop_action(procs: Seq<u64>, action: StopAction) -> Seq<u64> {
    match action {
        StopAction::TerminateChildren { pid } => procs,
        StopAction::TerminateEngine { pid } => without_pid(procs, pid),
        StopAction::AwaitExit { pid } => procs,
        StopAction::ReclaimStale => Seq::empty(),
    }
}

/// A stop plan run against the process table, action by action.
pub open spec fn apply_stop_actions(procs: Seq<u64>, plan: Seq<StopAction>) -> Seq<u64>
    decreases plan.len(),
{
    if plan.len() == 0 {
        procs
    } else {
        apply_stop_actions(apply_stop_action(procs, plan[0]), plan.skip(1))
    }
}

/// Starting reclaims before it spawns: whatever stale engine processes a
/// prior session left, once the start plan has run, exactly the one fresh
/// engine process is alive — never two.
pub proof fn lemma_start_yields_one_engine(procs: Seq<u64>, stale_count: int, fresh_pid: u64)
    requires
        procs.len() == stale_count,
    ensures
        apply_start_actions(procs, start_plan(stale_count), fresh_pid) == seq![fresh_pid],
        apply_start_actions(procs, start_plan(stale_count), fresh_pid).len() == 1,
{
    reveal_with_fuel(apply_start_actions, 5);
    let plan = start_plan(stale_count);
    if stale_count > 0 {
        assert(plan.skip(1) =~= seq![StartAction::AwaitCleanup, StartAction::SpawnEngine]);
        assert(plan.skip(1).skip(1) =~= seq![StartAction::SpawnEngine]);
        assert(plan.skip(1).skip(1).skip(1) =~= Seq::<StartAction>::empty());
        assert(Seq::<u64>::empty().push(fresh_pid) =~= seq![fresh_pid]);
    } else {
        assert(procs =~= Seq::<u64>::empty());
        assert(plan.skip(1) =~= Seq::<StartAction>::empty());
        assert(procs.push(fresh_pid) =~= seq![fresh_pid]);
    }
}

/// Stopping clears the table whatever was in it, handle or no handle: the
/// plan always ends with the defensive path-matching sweep. With no handle
/// the plan is only that sweep, so a stop with nothing started is a no-op
/// against a clean table and never an error.
pub proof fn lemma_stop_clears_engines(procs: Seq<u64>, pid: Option<u64>)
    ensures
        apply_stop_actions(procs, stop_plan(pid)) == Seq::<u64>::empty(),
{
    reveal_with_fuel(apply_stop_actions, 6);
    let plan = stop_plan(pid);
    match pid {
        Some(p) => {
            assert(plan.skip(1) =~= seq![
                StopAction::TerminateEngine { pid: p },
                StopAction::AwaitExit { pid: p },
                StopAction::ReclaimStale,
            ]);
            assert(plan.skip(1).skip(1) =~= seq![
                StopAction::AwaitExit { pid: p },
                StopAction::ReclaimStale,
            ]);
            assert(plan.skip(1).skip(1).skip(1) =~= seq![StopAction::ReclaimStale]);
            assert(plan.skip(1).skip(1).skip(1).skip(1) =~= Seq::<StopAction>::empty());
        },
        None => {
            assert(plan.skip(1) =~= Seq::<StopAction>::empty());
        },
    }
}

/// Runs a start plan against a model of the process table: the test double
/// the laws above are exercised on.
pub fn apply_start_plan(procs: &mut Vec<u64>, plan: &Vec<StartAction>, fresh_pid: u64)
    ensures
        final(procs)@ == apply_start_actions(old(procs)@, plan@, fresh_pid),
{
    let ghost all = apply_start_actions(old(procs)@, plan@, fresh_pid);
    proof {
        assert(plan@.skip(0) =~= plan@);
    }
    let mut i: usize = 0;
    while i < plan.len()
        invariant
            i <= plan@.len(),
            all == apply_start_actions(procs@, plan@.skip(i as int), fresh_pid),
        decreases plan@.len() - i,
    {
        proof {
            assert(plan@.skip(i as int)[0] == plan@[i as int]);
            assert(plan@.skip(i as int).skip(1) =~= plan@.skip(i as int + 1));
        }
        match plan[i] {
            StartAction::ReclaimStale => {
                procs.clear();
            },
            StartAction::AwaitCleanup => {},
            StartAction::SpawnEngine => {
                procs.push(fresh_pid);
            },
        }
        i = i + 1;
    }
}

/// Runs a stop plan against the same model of the process table.
pub fn apply_stop_plan(procs: &mut Vec<u64>, plan: &Vec<StopAction>)
    ensures
        final(procs)@ == apply_stop_actions(old(procs)@, plan@),
{
    let ghost all = apply_stop_actions(old(procs)@, plan@);
    proof {
        assert(plan@.skip(0) =~= plan@);
    }
    let mut i: usize = 0;
    while i < plan.len()
        invariant
            i <= plan@.len(),
            all == apply_stop_actions(procs@, plan@.skip(i as int)),
        decreases plan@.len() - i,
    {
        proof {
            assert(plan@.skip(i as int)[0] == plan@[i as int]);
            assert(plan@.skip(i as int).skip(1) =~= plan@.skip(i as int + 1));
        }
        match plan[i] {
            StopAction::TerminateChildren { pid } => {},
            StopAction::TerminateEngine { pid } => {
                remove_matching_pid(procs, pid);
            },
            StopAction::AwaitExit { pid } => {},
            StopAction::ReclaimStale => {
                procs.clear();
            },
        }
        i = i + 1;
    }
}

/// Drops every entry equal to `pid` from the model table.
fn remove_matching_pid(procs: &mut Vec<u64>, pid: u64)
    ensures
        final(procs)@ == without_pid(old(procs)@, pid),
{
    let mut out: Vec<u64> = Vec::new();
    proof {
        assert(old(procs)@.skip(0) =~= old(procs)@);
        assert(Seq::<u64>::empty() + without_pid(old(procs)@, pid) =~= without_pid(
            old(procs)@,
            pid,
        ));
    }
    let mut i: usize = 0;
    while i < procs.len()
        invariant
            i <= procs@.len(),
            procs@ == old(procs)@,
            without_pid(old(procs)@, pid) == out@ + without_pid(procs@.skip(i as int), pid),
        decreases procs@.len() - i,
    {
        proof {
            assert(procs@.skip(i as int)[0] == procs@[i as int]);
            assert(procs@.skip(i as int).skip(1) =~= procs@.skip(i as int + 1));
        }
        let p = procs[i];
        if p != pid {
            let ghost out_before = out@;
            out.push(p);
            proof {
                assert(out_before + (seq![p] + without_pid(procs@.skip(i as int + 1), pid))
                    =~= out@ + without_pid(procs@.skip(i as int + 1), pid));
            }
        }
        i = i + 1;
    }
    proof {
        assert(procs@.skip(procs@.len() as int) =~= Seq::<u64>::empty());
        assert(out@ + Seq::<u64>::empty() =~= out@);
    }
    let mut swap_target: Vec<u64> = out;
    core::mem::swap(procs, &mut swap_target);
}

} // verus!
