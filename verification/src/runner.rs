//! The scheduler of a scenario: which steps may start, in which order, which
//! steps are given up because a step they depend on failed, and when the run
//! is over.
//!
//! The scheduler decides and records; it performs nothing. A driver asks it
//! what to do next, does that, and reports each step's result back.

use crate::events::{event_views, log_event, log_step, EngineEvent, EventView};
use crate::scenario::{has_unique_ids, ids_unique, Scenario, Step};
use crate::state::{latest_lines, ScenarioRuntime, StatusView, StepRuntimeState, StepStatus};
use crate::steps::{RunResultView, StepRunResult};
use crate::text::{str_eq, text_list};
use vstd::prelude::*;
use vstd::string::StringExecFns;

verus! {

/// How long the driver waits when nothing can be started and nothing runs,
/// in milliseconds.
pub const IDLE_POLL_MILLIS: u64 = 100;

/// The reason recorded for a step that is given up because a step it depends
/// on failed.
pub open spec fn upstream_reason() -> Seq<char> {
    "upstream dependency failed"@
}

/// The log line of a step that is given up.
pub open spec fn upstream_line() -> Seq<char> {
    "not run: an upstream dependency failed"@
}

/// The statuses of a list of step records.
pub open spec fn status_views(states: Seq<StepRuntimeState>) -> Seq<StatusView> {
    Seq::new(states.len(), |i: int| states[i].status@)
}

/// For each record, when its step was started.
pub open spec fn start_times(states: Seq<StepRuntimeState>) -> Seq<Option<u64>> {
    Seq::new(states.len(), |i: int| states[i].started_at)
}

/// For each record, when its step ended.
pub open spec fn end_times(states: Seq<StepRuntimeState>) -> Seq<Option<u64>> {
    Seq::new(states.len(), |i: int| states[i].finished_at)
}

/// The identifiers a step depends on.
pub open spec fn deps(step: Step) -> Seq<Seq<char>> {
    text_list(step.depends_on@)
}

/// The step at index `j` has identifier `id`.
pub open spec fn step_named(steps: Seq<Step>, j: int, id: Seq<char>) -> bool {
    0 <= j < steps.len() && steps[j].id@ == id
}

/// A step named `dep` has succeeded.
pub open spec fn dep_succeeded(steps: Seq<Step>, st: Seq<StatusView>, dep: Seq<char>) -> bool {
    exists|j: int| #[trigger] step_named(steps, j, dep) && st[j] is Success
}

/// A step named `dep` has failed.
pub open spec fn dep_failed(steps: Seq<Step>, st: Seq<StatusView>, dep: Seq<char>) -> bool {
    exists|j: int| #[trigger] step_named(steps, j, dep) && st[j] is Failed
}

/// Every step that step `i` depends on has succeeded.
pub open spec fn deps_succeeded(steps: Seq<Step>, st: Seq<StatusView>, i: int) -> bool {
    forall|k: int|
        0 <= k < deps(steps[i]).len() ==> dep_succeeded(steps, st, #[trigger] deps(steps[i])[k])
}

/// Some step that step `i` depends on has failed.
pub open spec fn some_dep_failed(steps: Seq<Step>, st: Seq<StatusView>, i: int) -> bool {
    exists|k: int|
        0 <= k < deps(steps[i]).len() && dep_failed(steps, st, #[trigger] deps(steps[i])[k])
}

/// Step `i` is ready: it has not started, every step it depends on has
/// succeeded, and none has failed.
pub open spec fn is_ready(steps: Seq<Step>, st: Seq<StatusView>, i: int) -> bool {
    &&& 0 <= i < steps.len()
    &&& st[i] is Pending
    &&& deps_succeeded(steps, st, i)
    &&& !some_dep_failed(steps, st, i)
}

/// Step `i` is blocked: it has not started and a step it depends on has failed.
pub open spec fn is_blocked(steps: Seq<Step>, st: Seq<StatusView>, i: int) -> bool {
    &&& 0 <= i < steps.len()
    &&& st[i] is Pending
    &&& some_dep_failed(steps, st, i)
}

/// No step is blocked: every failure has reached the steps that depend on it.
pub open spec fn failure_closed(steps: Seq<Step>, st: Seq<StatusView>) -> bool {
    forall|i: int| 0 <= i < steps.len() ==> !is_blocked(steps, st, i)
}

/// Every step that was started was started after all the steps it depends
/// on had succeeded; a step that runs or has succeeded was started, and a
/// pending step was not.
pub open spec fn started_after_deps(steps: Seq<Step>, st: Seq<StatusView>, ran: Seq<bool>) -> bool {
    forall|i: int|
        0 <= i < steps.len() ==> {
            &&& (#[trigger] ran[i] ==> deps_succeeded(steps, st, i))
            &&& (st[i] is Running || st[i] is Success ==> ran[i])
            &&& (st[i] is Pending ==> !ran[i])
        }
}

/// Some step is running.
pub open spec fn any_running(st: Seq<StatusView>) -> bool {
    exists|i: int| 0 <= i < st.len() && #[trigger] st[i] is Running
}

/// Every step has ended.
pub open spec fn all_resolved(st: Seq<StatusView>) -> bool {
    forall|i: int| 0 <= i < st.len() ==> (#[trigger] st[i] is Success || st[i] is Failed)
}

/// The number of steps that have not started.
pub open spec fn pending_count(st: Seq<StatusView>) -> nat
    decreases st.len(),
{
    if st.len() == 0 {
        0
    } else {
        pending_count(st.drop_last()) + if st.last() is Pending {
            1nat
        } else {
            0nat
        }
    }
}

/// A step that leaves the pending state lowers the count by one.
pub proof fn lemma_pending_count_update(st: Seq<StatusView>, i: int, v: StatusView)
    requires
        0 <= i < st.len(),
        st[i] is Pending,
        !(v is Pending),
    ensures
        pending_count(st.update(i, v)) + 1 == pending_count(st),
    decreases st.len(),
{
    if i == st.len() - 1 {
        assert(st.update(i, v).drop_last() =~= st.drop_last());
    } else {
        assert(st.update(i, v).drop_last() =~= st.drop_last().update(i, v));
        lemma_pending_count_update(st.drop_last(), i, v);
    }
}

/// The statuses after the steps of `order` were given up, one after the other.
pub open spec fn after_marking(st: Seq<StatusView>, order: Seq<int>) -> Seq<StatusView>
    decreases order.len(),
{
    if order.len() == 0 {
        st
    } else {
        after_marking(st, order.drop_last()).update(
            order.last(),
            StatusView::Failed(upstream_reason()),
        )
    }
}

/// The times of ending after the steps of `order` were given up at `now`.
pub open spec fn after_marking_times(times: Seq<Option<u64>>, order: Seq<int>, now: u64) -> Seq<
    Option<u64>,
>
    decreases order.len(),
{
    if order.len() == 0 {
        times
    } else {
        after_marking_times(times, order.drop_last(), now).update(order.last(), Some(now))
    }
}

/// Each step of `order` was blocked when its turn came: it had not started,
/// and a step it depends on had failed or had been given up before it.
pub open spec fn marking_justified(steps: Seq<Step>, st: Seq<StatusView>, order: Seq<int>) -> bool
    decreases order.len(),
{
    order.len() == 0 || (marking_justified(steps, st, order.drop_last()) && is_blocked(
        steps,
        after_marking(st, order.drop_last()),
        order.last(),
    ))
}

/// `order` gives up exactly the steps that a failure reaches: each of its
/// steps was blocked in its turn, and no step is blocked after it.
pub open spec fn is_marking(steps: Seq<Step>, st: Seq<StatusView>, order: Seq<int>) -> bool {
    marking_justified(steps, st, order) && failure_closed(steps, after_marking(st, order))
}

/// The events of giving up the steps of `order`: for each, a log line and the
/// notice that it ended in failure. No step is reported as started.
pub open spec fn marking_events(steps: Seq<Step>, order: Seq<int>) -> Seq<EventView>
    decreases order.len(),
{
    if order.len() == 0 {
        Seq::empty()
    } else {
        marking_events(steps, order.drop_last()) + seq![
            log_event(steps[order.last()].id@, upstream_line()),
            EventView::StepFinished { step_id: steps[order.last()].id@, success: false },
        ]
    }
}

/// The ready steps among the first `n` that run one at a time (`parallel`
/// false) or that may run concurrently (`parallel` true), in declaration
/// order.
pub open spec fn ready_below(steps: Seq<Step>, st: Seq<StatusView>, parallel: bool, n: int) -> Seq<
    int,
>
    decreases n,
{
    if n <= 0 {
        Seq::empty()
    } else if is_ready(steps, st, n - 1) && steps[n - 1].allow_parallel == parallel {
        ready_below(steps, st, parallel, n - 1).push(n - 1)
    } else {
        ready_below(steps, st, parallel, n - 1)
    }
}

/// The ready steps that run one at a time (`parallel` false) or that may run
/// concurrently (`parallel` true), in declaration order.
pub open spec fn ready_steps(steps: Seq<Step>, st: Seq<StatusView>, parallel: bool) -> Seq<int> {
    ready_below(steps, st, parallel, steps.len() as int)
}

/// Where the scheduler stands within its cycle.
#[derive(Debug, Clone, Copy, PartialEq, Eq, Structural)]
pub enum Phase {
    /// A new cycle is about to start.
    TickStart,
    /// The steps found ready in this cycle are being started.
    Dispatch,
    /// The run is over.
    Finished,
}

/// What the driver is to do next.
#[derive(Debug, Clone, Copy, PartialEq, Eq, Structural)]
pub enum Directive {
    /// Run the step at `index` to its end, report the result, then ask again.
    Run { index: usize },
    /// Start the step at `index` as a concurrent task and ask again at once.
    Spawn { index: usize },
    /// Wait until one concurrent task has ended, report its result, then ask
    /// again.
    AwaitAny,
    /// Wait for `millis` milliseconds, then ask again.
    Sleep { millis: u64 },
    /// The run is over.
    Finish,
}

/// The state of the scheduler as the contracts see it.
pub struct SchedulerView {
    /// Where each step stands.
    pub statuses: Seq<StatusView>,
    /// When each step was started, if it was.
    pub started_at: Seq<Option<u64>>,
    /// When each step ended, if it has.
    pub finished_at: Seq<Option<u64>>,
    /// The steps found ready in this cycle that are still to be run one at a
    /// time, next first.
    pub sequential: Seq<int>,
    /// The steps found ready in this cycle that are still to be started
    /// concurrently, next first.
    pub parallel: Seq<int>,
    /// Where the scheduler stands within its cycle.
    pub phase: Phase,
}

impl SchedulerView {
    /// Whether each step was ever started.
    pub open spec fn ran(self) -> Seq<bool> {
        Seq::new(self.started_at.len(), |i: int| self.started_at[i] is Some)
    }
}

/// The entries of a queue are steps that have not started, whose
/// dependencies have all succeeded, in declaration order.
pub open spec fn queue_ok(
    steps: Seq<Step>,
    st: Seq<StatusView>,
    queue: Seq<int>,
    parallel: bool,
) -> bool {
    &&& forall|p: int|
        0 <= p < queue.len() ==> {
            let i = #[trigger] queue[p];
            &&& 0 <= i < steps.len()
            &&& st[i] is Pending
            &&& deps_succeeded(steps, st, i)
            &&& steps[i].allow_parallel == parallel
        }
    &&& forall|p: int, q: int| 0 <= p < q < queue.len() ==> queue[p] < queue[q]
}

/// The indices of a queue as integers.
pub open spec fn ints(q: Seq<usize>) -> Seq<int> {
    Seq::new(q.len(), |p: int| q[p] as int)
}

/// The scheduler of one run.
pub struct Scheduler {
    runtime: ScenarioRuntime,
    sequential: Vec<usize>,
    seq_next: usize,
    parallel: Vec<usize>,
    par_next: usize,
    phase: Phase,
}

impl View for Scheduler {
    type V = SchedulerView;

    closed spec fn view(&self) -> SchedulerView {
        SchedulerView {
            statuses: status_views(self.runtime.steps_state@),
            started_at: start_times(self.runtime.steps_state@),
            finished_at: end_times(self.runtime.steps_state@),
            sequential: ints(
                self.sequential@.subrange(self.seq_next as int, self.sequential@.len() as int),
            ),
            parallel: ints(
                self.parallel@.subrange(self.par_next as int, self.parallel@.len() as int),
            ),
            phase: self.phase,
        }
    }
}

/// The first index whose step has identifier `id`.
fn find_step(steps: &Vec<Step>, id: &str) -> (found: Option<usize>)
    ensures
        match found {
            Some(j) => step_named(steps@, j as int, id@),
            None => forall|j: int| !step_named(steps@, j, id@),
        },
{
    let mut j: usize = 0;
    while j < steps.len()
        invariant
            j <= steps.len(),
            forall|k: int| 0 <= k < j ==> !step_named(steps@, k, id@),
        decreases steps.len() - j,
    {
        if str_eq(steps[j].id.as_str(), id) {
            return Some(j);
        }
        j += 1;
    }
    None
}

/// Whether a step named `dep` has failed.
fn dep_has_failed(steps: &Vec<Step>, states: &Vec<StepRuntimeState>, dep: &str) -> (yes: bool)
    requires
        states@.len() == steps@.len(),
        ids_unique(steps@),
    ensures
        yes == dep_failed(steps@, status_views(states@), dep@),
{
    match find_step(steps, dep) {
        Some(j) => {
            proof {
                assert forall|k: int| #[trigger]
                    step_named(steps@, k, dep@) implies k == j by {}
            }
            match states[j].status {
                StepStatus::Failed(_) => true,
                _ => false,
            }
        },
        None => false,
    }
}

/// Whether a step named `dep` has succeeded.
fn dep_has_succeeded(steps: &Vec<Step>, states: &Vec<StepRuntimeState>, dep: &str) -> (yes: bool)
    requires
        states@.len() == steps@.len(),
        ids_unique(steps@),
    ensures
        yes == dep_succeeded(steps@, status_views(states@), dep@),
{
    match find_step(steps, dep) {
        Some(j) => {
            proof {
                assert forall|k: int| #[trigger]
                    step_named(steps@, k, dep@) implies k == j by {}
            }
            match states[j].status {
                StepStatus::Success => true,
                _ => false,
            }
        },
        None => false,
    }
}

/// Whether a step that step `i` depends on has failed.
fn has_failed_dep(steps: &Vec<Step>, states: &Vec<StepRuntimeState>, i: usize) -> (yes: bool)
    requires
        states@.len() == steps@.len(),
        ids_unique(steps@),
        i < steps@.len(),
    ensures
        yes == some_dep_failed(steps@, status_views(states@), i as int),
{
    let step = &steps[i];
    let mut k: usize = 0;
    while k < step.depends_on.len()
        invariant
            states@.len() == steps@.len(),
            ids_unique(steps@),
            i < steps@.len(),
            step == steps@[i as int],
            k <= step.depends_on.len(),
            forall|m: int|
                0 <= m < k ==> !dep_failed(
                    steps@,
                    status_views(states@),
                    #[trigger] deps(steps@[i as int])[m],
                ),
        decreases step.depends_on.len() - k,
    {
        if dep_has_failed(steps, states, step.depends_on[k].as_str()) {
            proof {
                assert(deps(steps@[i as int])[k as int] == step.depends_on@[k as int]@);
            }
            return true;
        }
        proof {
            assert(deps(steps@[i as int])[k as int] == step.depends_on@[k as int]@);
        }
        k += 1;
    }
    false
}

/// Whether every step that step `i` depends on has succeeded.
fn has_all_deps(steps: &Vec<Step>, states: &Vec<StepRuntimeState>, i: usize) -> (yes: bool)
    requires
        states@.len() == steps@.len(),
        ids_unique(steps@),
        i < steps@.len(),
    ensures
        yes == deps_succeeded(steps@, status_views(states@), i as int),
{
    let step = &steps[i];
    let mut k: usize = 0;
    while k < step.depends_on.len()
        invariant
            states@.len() == steps@.len(),
            ids_unique(steps@),
            i < steps@.len(),
            step == steps@[i as int],
            k <= step.depends_on.len(),
            forall|m: int|
                0 <= m < k ==> dep_succeeded(
                    steps@,
                    status_views(states@),
                    #[trigger] deps(steps@[i as int])[m],
                ),
        decreases step.depends_on.len() - k,
    {
        if !dep_has_succeeded(steps, states, step.depends_on[k].as_str()) {
            proof {
                assert(deps(steps@[i as int])[k as int] == step.depends_on@[k as int]@);
            }
            return false;
        }
        proof {
            assert(deps(steps@[i as int])[k as int] == step.depends_on@[k as int]@);
        }
        k += 1;
    }
    true
}

/// Whether the record shows a step that has not started.
fn is_pending(state: &StepRuntimeState) -> (yes: bool)
    ensures
        yes == (state.status@ is Pending),
{
    match state.status {
        StepStatus::Pending => true,
        _ => false,
    }
}

/// A change of one step's status leaves what has succeeded as it was, unless
/// the step had succeeded or succeeds now.
pub proof fn lemma_succeeded_stable(steps: Seq<Step>, st: Seq<StatusView>, i: int, v: StatusView)
    requires
        0 <= i < st.len(),
        st.len() == steps.len(),
        !(st[i] is Success),
    ensures
        forall|dep: Seq<char>|
            dep_succeeded(steps, st, dep) ==> #[trigger] dep_succeeded(
                steps,
                st.update(i, v),
                dep,
            ),
        forall|j: int|
            0 <= j < steps.len() && deps_succeeded(steps, st, j) ==> #[trigger] deps_succeeded(
                steps,
                st.update(i, v),
                j,
            ),
{
    let st2 = st.update(i, v);
    assert forall|dep: Seq<char>| dep_succeeded(steps, st, dep) implies #[trigger] dep_succeeded(
        steps,
        st2,
        dep,
    ) by {
        let j = choose|j: int| #[trigger] step_named(steps, j, dep) && st[j] is Success;
        assert(step_named(steps, j, dep) && st2[j] is Success);
    }
    assert forall|j: int|
        0 <= j < steps.len() && deps_succeeded(steps, st, j) implies #[trigger] deps_succeeded(
        steps,
        st2,
        j,
    ) by {
        assert forall|k: int| 0 <= k < deps(steps[j]).len() implies dep_succeeded(
            steps,
            st2,
            #[trigger] deps(steps[j])[k],
        ) by {
            assert(dep_succeeded(steps, st, deps(steps[j])[k]));
        }
    }
}

impl Scheduler {
    /// The scenario that runs. The scheduler reads it and never changes it.
    pub closed spec fn scenario(&self) -> Scenario {
        self.runtime.scenario
    }

    /// The steps of the scenario that runs.
    pub open spec fn steps(&self) -> Seq<Step> {
        self.scenario().steps@
    }

    /// The log lines kept for each step.
    pub closed spec fn log_lines(&self) -> Seq<Seq<String>> {
        Seq::new(self.runtime.steps_state@.len(), |i: int| self.runtime.steps_state@[i].logs@)
    }

    /// What holds of the scheduler between any two calls: there is one record
    /// per step, no two steps share an identifier, the steps queued for
    /// this cycle have not started and have all their dependencies
    /// succeeded, there are queued steps only while a cycle dispatches, and
    /// every step that started to run did so after its dependencies had
    /// succeeded.
    pub closed spec fn wf(&self) -> bool {
        &&& self.runtime.steps_state@.len() == self.steps().len()
        &&& ids_unique(self.steps())
        &&& self.seq_next <= self.sequential@.len()
        &&& self.par_next <= self.parallel@.len()
        &&& queue_ok(self.steps(), self@.statuses, self@.sequential, false)
        &&& queue_ok(self.steps(), self@.statuses, self@.parallel, true)
        &&& self@.started_at.len() == self.steps().len()
        &&& self@.finished_at.len() == self.steps().len()
        &&& started_after_deps(self.steps(), self@.statuses, self@.ran())
        &&& (self.phase != Phase::Dispatch ==> self@.sequential.len() == 0 && self@.parallel.len()
            == 0)
    }

    /// What `wf` promises to the outside.
    pub proof fn lemma_wf(&self)
        requires
            self.wf(),
        ensures
            self@.statuses.len() == self.steps().len(),
            ids_unique(self.steps()),
            queue_ok(self.steps(), self@.statuses, self@.sequential, false),
            queue_ok(self.steps(), self@.statuses, self@.parallel, true),
            self@.started_at.len() == self.steps().len(),
            self@.finished_at.len() == self.steps().len(),
            started_after_deps(self.steps(), self@.statuses, self@.ran()),
            self@.phase != Phase::Dispatch ==> self@.sequential.len() == 0
                && self@.parallel.len() == 0,
    {
    }

    /// No step starts before the steps it depends on have succeeded: of
    /// every step that was ever started, each dependency has ended in
    /// success, which is when its successful end was announced.
    pub proof fn lemma_started_after_dependencies(&self, i: int)
        requires
            self.wf(),
            0 <= i < self.steps().len(),
            self@.started_at[i] is Some,
        ensures
            deps_succeeded(self.steps(), self@.statuses, i),
    {
        assert(self@.ran()[i]);
    }

    /// A scheduler for `scenario`, before anything has run.
    pub fn new(scenario: Scenario) -> (s: Self)
        requires
            ids_unique(scenario.steps@),
        ensures
            s.wf(),
            s.scenario() == scenario,
            s.steps() == scenario.steps@,
            s@.phase == Phase::TickStart,
            s@.statuses.len() == scenario.steps@.len(),
            forall|i: int| 0 <= i < s@.statuses.len() ==> #[trigger] s@.statuses[i] is Pending,
            s@.started_at == Seq::new(scenario.steps@.len(), |i: int| None::<u64>),
            s@.finished_at == Seq::new(scenario.steps@.len(), |i: int| None::<u64>),
            s.log_lines().len() == scenario.steps@.len(),
            forall|i: int| 0 <= i < s.log_lines().len() ==> (#[trigger] s.log_lines()[i]).len() == 0,
    {
        let runtime = ScenarioRuntime::new(scenario);
        let s = Scheduler {
            runtime,
            sequential: Vec::new(),
            seq_next: 0,
            parallel: Vec::new(),
            par_next: 0,
            phase: Phase::TickStart,
        };
        proof {
            assert(s@.sequential =~= Seq::<int>::empty());
            assert(s@.parallel =~= Seq::<int>::empty());
            assert(s@.started_at =~= Seq::new(scenario.steps@.len(), |i: int| None::<u64>));
            assert(s@.finished_at =~= Seq::new(scenario.steps@.len(), |i: int| None::<u64>));
        }
        s
    }

    /// A scheduler for `scenario`, or nothing where two of its steps share
    /// an identifier.
    pub fn for_scenario(scenario: Scenario) -> (s: Option<Self>)
        ensures
            match s {
                Some(s) => {
                    &&& ids_unique(scenario.steps@)
                    &&& s.wf()
                    &&& s.scenario() == scenario
                    &&& s.steps() == scenario.steps@
                    &&& s@.phase == Phase::TickStart
                    &&& s@.statuses.len() == scenario.steps@.len()
                    &&& forall|i: int|
                        0 <= i < s@.statuses.len() ==> #[trigger] s@.statuses[i] is Pending
                    &&& s@.started_at == Seq::new(scenario.steps@.len(), |i: int| None::<u64>)
                    &&& s@.finished_at == Seq::new(scenario.steps@.len(), |i: int| None::<u64>)
                    &&& s.log_lines().len() == scenario.steps@.len()
                    &&& forall|i: int|
                        0 <= i < s.log_lines().len() ==> (#[trigger] s.log_lines()[i]).len() == 0
                },
                None => !ids_unique(scenario.steps@),
            },
    {
        if has_unique_ids(&scenario.steps) {
            Some(Scheduler::new(scenario))
        } else {
            None
        }
    }

    /// Keeps a log line of the step at `index` in the step's record. The
    /// record holds the latest lines only, `MAX_LOG_LINES` at most. A line for
    /// a step that does not exist is dropped.
    pub fn record_log(&mut self, index: usize, line: String)
        requires
            old(self).wf(),
        ensures
            final(self).wf(),
            final(self).scenario() == old(self).scenario(),
            final(self).steps() == old(self).steps(),
            final(self)@ == old(self)@,
            final(self).log_lines() == if index < old(self).log_lines().len() {
                old(self).log_lines().update(
                    index as int,
                    latest_lines(old(self).log_lines()[index as int].push(line)),
                )
            } else {
                old(self).log_lines()
            },
    {
        if index < self.runtime.steps_state.len() {
            let ghost before = self@;
            let ghost lines = self.log_lines();
            self.runtime.steps_state[index].push_log(line);
            proof {
                assert(self@.statuses =~= before.statuses);
                assert(self@.started_at =~= before.started_at);
                assert(self@.finished_at =~= before.finished_at);
                assert(self@.sequential =~= before.sequential);
                assert(self@.parallel =~= before.parallel);
                assert(self.log_lines() =~= lines.update(
                    index as int,
                    latest_lines(lines[index as int].push(line)),
                ));
            }
        }
    }

    /// The scenario and the records of its steps.
    pub fn runtime(&self) -> (runtime: &ScenarioRuntime)
        ensures
            runtime.scenario == self.scenario(),
            runtime.scenario.steps@ == self.steps(),
            status_views(runtime.steps_state@) == self@.statuses,
            start_times(runtime.steps_state@) == self@.started_at,
            end_times(runtime.steps_state@) == self@.finished_at,
            runtime.steps_state@.len() == self.log_lines().len(),
            forall|i: int|
                0 <= i < runtime.steps_state@.len() ==> (#[trigger] runtime.steps_state@[i]).logs@
                    == self.log_lines()[i],
    {
        &self.runtime
    }

    /// Gives up every step that a failure reaches: a step that has not
    /// started and depends on a failed step fails itself, without running,
    /// and so do the steps that depend on it in turn.
    fn mark_blocked_steps(&mut self, now: u64) -> (events: Vec<EngineEvent>)
        requires
            old(self).wf(),
            old(self)@.sequential.len() == 0,
            old(self)@.parallel.len() == 0,
        ensures
            final(self).wf(),
            final(self).scenario() == old(self).scenario(),
            final(self).steps() == old(self).steps(),
            final(self)@.phase == old(self)@.phase,
            final(self)@.started_at == old(self)@.started_at,
            final(self).log_lines() == old(self).log_lines(),
            final(self)@.sequential.len() == 0,
            final(self)@.parallel.len() == 0,
            exists|order: Seq<int>|
                {
                    &&& is_marking(old(self).steps(), old(self)@.statuses, order)
                    &&& final(self)@.statuses == #[trigger] after_marking(
                        old(self)@.statuses,
                        order,
                    )
                    &&& final(self)@.finished_at == after_marking_times(
                        old(self)@.finished_at,
                        order,
                        now,
                    )
                    &&& event_views(events@) == marking_events(old(self).steps(), order)
                },
    {
        let mut events: Vec<EngineEvent> = Vec::new();
        let ghost mut order: Seq<int> = Seq::empty();
        let ghost steps = self.steps();
        let ghost st0 = self@.statuses;
        let n = self.runtime.scenario.steps.len();
        let mut changed = true;
        proof {
            assert(event_views(events@) =~= marking_events(steps, order));
        }
        while changed
            invariant
                self.wf(),
                self.scenario() == old(self).scenario(),
                self.steps() == steps,
                self.phase == old(self).phase,
                self@.started_at == old(self)@.started_at,
                self.log_lines() == old(self).log_lines(),
                self@.finished_at == after_marking_times(old(self)@.finished_at, order, now),
                self@.sequential.len() == 0,
                self@.parallel.len() == 0,
                n == steps.len(),
                marking_justified(steps, st0, order),
                self@.statuses == after_marking(st0, order),
                event_views(events@) == marking_events(steps, order),
                !changed ==> failure_closed(steps, self@.statuses),
            decreases
                    pending_count(self@.statuses),
                    (if changed {
                        1nat
                    } else {
                        0nat
                    }),
        {
            changed = false;
            let ghost round_start = self@.statuses;
            let mut i: usize = 0;
            while i < n
                invariant
                    self.wf(),
                    self.scenario() == old(self).scenario(),
                    self.steps() == steps,
                    self.phase == old(self).phase,
                    self@.started_at == old(self)@.started_at,
                    self.log_lines() == old(self).log_lines(),
                    self@.finished_at == after_marking_times(old(self)@.finished_at, order, now),
                    self@.sequential.len() == 0,
                    self@.parallel.len() == 0,
                    n == steps.len(),
                    i <= n,
                    marking_justified(steps, st0, order),
                    self@.statuses == after_marking(st0, order),
                    event_views(events@) == marking_events(steps, order),
                    !changed ==> self@.statuses == round_start,
                    !changed ==> forall|j: int| 0 <= j < i ==> !is_blocked(steps, round_start, j),
                    changed ==> pending_count(self@.statuses) < pending_count(round_start),
                decreases n - i,
            {
                if is_pending(&self.runtime.steps_state[i]) && has_failed_dep(
                    &self.runtime.scenario.steps,
                    &self.runtime.steps_state,
                    i,
                ) {
                    let ghost before = self@.statuses;
                    let ghost ended_before = self@.finished_at;
                    let ghost events_before = event_views(events@);
                    self.runtime.steps_state[i].status = StepStatus::Failed(
                        String::from_str("upstream dependency failed"),
                    );
                    self.runtime.steps_state[i].finished_at = Some(now);
                    let id = &self.runtime.scenario.steps[i].id;
                    events.push(log_step(id.as_str(), "not run: an upstream dependency failed"));
                    events.push(EngineEvent::StepFinished { step_id: id.clone(), success: false });
                    proof {
                        let v = StatusView::Failed(upstream_reason());
                        assert(self@.statuses =~= before.update(i as int, v));
                        assert(self@.started_at =~= old(self)@.started_at);
                        assert(self.log_lines() =~= old(self).log_lines());
                        assert(self@.finished_at =~= ended_before.update(i as int, Some(now)));
                        assert(self@.ran() =~= old(self)@.ran());
                        let longer = order.push(i as int);
                        assert(longer.drop_last() =~= order);
                        assert(longer.last() == i);
                        assert(is_blocked(steps, before, i as int));
                        lemma_pending_count_update(before, i as int, v);
                        lemma_succeeded_stable(steps, before, i as int, v);
                        assert(event_views(events@) =~= events_before + seq![
                            log_event(steps[i as int].id@, upstream_line()),
                            EventView::StepFinished { step_id: steps[i as int].id@, success: false },
                        ]);
                        order = longer;
                        assert(self@.sequential =~= Seq::<int>::empty());
                        assert(self@.parallel =~= Seq::<int>::empty());
                    }
                    changed = true;
                }
                i += 1;
            }
        }
        proof {
            assert(is_marking(steps, st0, order));
        }
        events
    }
}

impl Scheduler {
    /// Queues the steps that are ready, those that run one at a time apart
    /// from those that may run concurrently, each in declaration order.
    fn collect_ready_steps(&mut self)
        requires
            old(self).wf(),
            old(self)@.sequential.len() == 0,
            old(self)@.parallel.len() == 0,
        ensures
            final(self).wf(),
            final(self).scenario() == old(self).scenario(),
            final(self).steps() == old(self).steps(),
            final(self)@.statuses == old(self)@.statuses,
            final(self)@.started_at == old(self)@.started_at,
            final(self)@.finished_at == old(self)@.finished_at,
            final(self).log_lines() == old(self).log_lines(),
            final(self)@.phase == Phase::Dispatch,
            final(self)@.sequential == ready_steps(old(self).steps(), old(self)@.statuses, false),
            final(self)@.parallel == ready_steps(old(self).steps(), old(self)@.statuses, true),
    {
        let ghost steps = self.steps();
        let ghost st = self@.statuses;
        let n = self.runtime.scenario.steps.len();
        let mut sequential: Vec<usize> = Vec::new();
        let mut parallel: Vec<usize> = Vec::new();
        let mut i: usize = 0;
        proof {
            assert(ints(sequential@) =~= ready_below(steps, st, false, 0));
            assert(ints(parallel@) =~= ready_below(steps, st, true, 0));
        }
        while i < n
            invariant
                self.wf(),
                self.scenario() == old(self).scenario(),
                self.steps() == steps,
                self@.statuses == st,
                self@.started_at == old(self)@.started_at,
                self@.finished_at == old(self)@.finished_at,
                self.log_lines() == old(self).log_lines(),
                n == steps.len(),
                i <= n,
                ints(sequential@) == ready_below(steps, st, false, i as int),
                ints(parallel@) == ready_below(steps, st, true, i as int),
            decreases n - i,
        {
            let ready = is_pending(&self.runtime.steps_state[i]) && has_all_deps(
                &self.runtime.scenario.steps,
                &self.runtime.steps_state,
                i,
            ) && !has_failed_dep(&self.runtime.scenario.steps, &self.runtime.steps_state, i);
            if ready {
                if self.runtime.scenario.steps[i].allow_parallel {
                    let ghost before = ints(parallel@);
                    parallel.push(i);
                    proof {
                        assert(ints(parallel@) =~= before.push(i as int));
                    }
                } else {
                    let ghost before = ints(sequential@);
                    sequential.push(i);
                    proof {
                        assert(ints(sequential@) =~= before.push(i as int));
                    }
                }
            }
            i += 1;
        }
        proof {
            lemma_ready_below(steps, st, false, n as int);
            lemma_ready_below(steps, st, true, n as int);
            assert(sequential@.subrange(0, sequential@.len() as int) =~= sequential@);
            assert(parallel@.subrange(0, parallel@.len() as int) =~= parallel@);
        }
        self.sequential = sequential;
        self.seq_next = 0;
        self.parallel = parallel;
        self.par_next = 0;
        self.phase = Phase::Dispatch;
    }

    /// Whether some step is running.
    fn some_step_runs(&self) -> (yes: bool)
        ensures
            yes == any_running(self@.statuses),
    {
        let mut i: usize = 0;
        while i < self.runtime.steps_state.len()
            invariant
                i <= self.runtime.steps_state@.len(),
                forall|j: int| 0 <= j < i ==> !(#[trigger] self@.statuses[j] is Running),
            decreases self.runtime.steps_state@.len() - i,
        {
            match self.runtime.steps_state[i].status {
                StepStatus::Running => {
                    assert(self@.statuses[i as int] is Running);
                    return true;
                },
                _ => {},
            }
            i += 1;
        }
        false
    }

    /// Whether every step has ended.
    fn every_step_ended(&self) -> (yes: bool)
        ensures
            yes == all_resolved(self@.statuses),
    {
        let mut i: usize = 0;
        while i < self.runtime.steps_state.len()
            invariant
                i <= self.runtime.steps_state@.len(),
                forall|j: int|
                    0 <= j < i ==> (#[trigger] self@.statuses[j] is Success
                        || self@.statuses[j] is Failed),
            decreases self.runtime.steps_state@.len() - i,
        {
            match self.runtime.steps_state[i].status {
                StepStatus::Success => {},
                StepStatus::Failed(_) => {},
                _ => {
                    assert(!(self@.statuses[i as int] is Success || self@.statuses[i as int]
                        is Failed));
                    return false;
                },
            }
            i += 1;
        }
        true
    }

    /// Marks the step at `index` as running and reports its start.
    fn start_step(&mut self, index: usize, now: u64, events: &mut Vec<EngineEvent>)
        requires
            index < old(self).runtime.steps_state@.len(),
            old(self).runtime.steps_state@.len() == old(self).steps().len(),
        ensures
            final(self).scenario() == old(self).scenario(),
            final(self).steps() == old(self).steps(),
            final(self).runtime.steps_state@.len() == old(self).runtime.steps_state@.len(),
            final(self)@.statuses == old(self)@.statuses.update(
                index as int,
                StatusView::Running,
            ),
            final(self)@.started_at == old(self)@.started_at.update(index as int, Some(now)),
            final(self)@.finished_at == old(self)@.finished_at,
            final(self).log_lines() == old(self).log_lines(),
            final(self).sequential == old(self).sequential,
            final(self).parallel == old(self).parallel,
            final(self).seq_next == old(self).seq_next,
            final(self).par_next == old(self).par_next,
            final(self).phase == old(self).phase,
            event_views(final(events)@) == event_views(old(events)@).push(
                EventView::StepStarted { step_id: old(self).steps()[index as int].id@ },
            ),
    {
        let ghost before = self@.statuses;
        let ghost started_before = self@.started_at;
        let ghost ended_before = self@.finished_at;
        let ghost events_before = event_views(events@);
        self.runtime.steps_state[index].status = StepStatus::Running;
        self.runtime.steps_state[index].started_at = Some(now);
        events.push(
            EngineEvent::StepStarted { step_id: self.runtime.scenario.steps[index].id.clone() },
        );
        proof {
            assert(self@.statuses =~= before.update(index as int, StatusView::Running));
            assert(self@.started_at =~= started_before.update(index as int, Some(now)));
            assert(self@.finished_at =~= ended_before);
            assert(self.log_lines() =~= old(self).log_lines());
            assert(event_views(events@) =~= events_before.push(
                EventView::StepStarted { step_id: self.steps()[index as int].id@ },
            ));
        }
    }

    /// Starts the next queued step, or, when none is queued, ends the cycle.
    fn dispatch_next(&mut self, now: u64, events: Vec<EngineEvent>) -> (r: (
        Directive,
        Vec<EngineEvent>,
    ))
        requires
            old(self).wf(),
            old(self)@.phase == Phase::Dispatch,
        ensures
            final(self).wf(),
            final(self).scenario() == old(self).scenario(),
            final(self).steps() == old(self).steps(),
            final(self).log_lines() == old(self).log_lines(),
            final(self)@ == dispatch(old(self).steps(), old(self)@, now).0,
            r.0 == dispatch(old(self).steps(), old(self)@, now).1,
            event_views(r.1@) == event_views(events@) + dispatch(old(self).steps(), old(self)@, now).2,
    {
        let mut events = events;
        let ghost steps = self.steps();
        let ghost s0 = self@;
        let ghost events_before = event_views(events@);
        if self.seq_next < self.sequential.len() {
            let index = self.sequential[self.seq_next];
            proof {
                assert(s0.sequential[0] == index);
                lemma_succeeded_stable(steps, s0.statuses, index as int, StatusView::Running);
            }
            self.seq_next = self.seq_next + 1;
            self.start_step(index, now, &mut events);
            proof {
                assert(self@.sequential =~= s0.sequential.drop_first());
                assert(self@.parallel =~= s0.parallel);
                assert(self@.ran() =~= s0.ran().update(index as int, true));
                assert forall|p: int| 0 <= p < self@.sequential.len() implies {
                    let i = #[trigger] self@.sequential[p];
                    i != index
                } by {
                    assert(self@.sequential[p] == s0.sequential[p + 1]);
                }
                assert(events_before.push(EventView::StepStarted { step_id: steps[index as int].id@ })
                    =~= events_before + seq![
                    EventView::StepStarted { step_id: steps[index as int].id@ },
                ]);
                assert(self@ == dispatch(steps, s0, now).0);
            }
            (Directive::Run { index }, events)
        } else if self.par_next < self.parallel.len() {
            let index = self.parallel[self.par_next];
            proof {
                assert(s0.sequential.len() == 0);
                assert(s0.parallel[0] == index);
                lemma_succeeded_stable(steps, s0.statuses, index as int, StatusView::Running);
            }
            self.par_next = self.par_next + 1;
            self.start_step(index, now, &mut events);
            proof {
                assert(self@.parallel =~= s0.parallel.drop_first());
                assert(self@.sequential =~= s0.sequential);
                assert(self@.ran() =~= s0.ran().update(index as int, true));
                assert forall|p: int| 0 <= p < self@.parallel.len() implies {
                    let i = #[trigger] self@.parallel[p];
                    i != index
                } by {
                    assert(self@.parallel[p] == s0.parallel[p + 1]);
                }
                assert(events_before.push(EventView::StepStarted { step_id: steps[index as int].id@ })
                    =~= events_before + seq![
                    EventView::StepStarted { step_id: steps[index as int].id@ },
                ]);
                assert(self@ == dispatch(steps, s0, now).0);
            }
            (Directive::Spawn { index }, events)
        } else {
            proof {
                assert(s0.sequential.len() == 0);
                assert(s0.parallel.len() == 0);
            }
            if self.some_step_runs() {
                self.phase = Phase::TickStart;
                proof {
                    assert(events_before + Seq::<EventView>::empty() =~= events_before);
                    assert(self@ == dispatch(steps, s0, now).0);
                }
                (Directive::AwaitAny, events)
            } else if self.every_step_ended() {
                self.phase = Phase::Finished;
                events.push(EngineEvent::ScenarioFinished);
                proof {
                    assert(event_views(events@) =~= events_before + seq![
                        EventView::ScenarioFinished,
                    ]);
                    assert(self@ == dispatch(steps, s0, now).0);
                }
                (Directive::Finish, events)
            } else {
                self.phase = Phase::TickStart;
                proof {
                    assert(events_before + Seq::<EventView>::empty() =~= events_before);
                    assert(self@ == dispatch(steps, s0, now).0);
                }
                (Directive::Sleep { millis: IDLE_POLL_MILLIS }, events)
            }
        }
    }

    /// Says what the driver is to do next, and which events to hand to the
    /// observer before doing it.
    ///
    /// A cycle starts by looking at `cancelled`: a cancelled run ends at
    /// once. Otherwise every step that a failure reaches is given up, and
    /// the steps that are ready are queued. The queued steps that run one at
    /// a time are handed out first, in declaration order, then those that may
    /// run concurrently. When the queues are empty the cycle ends: the
    /// driver waits for a concurrent task if one runs; the run is over if
    /// every step has ended; and else the driver waits a moment before the
    /// next cycle. The run's end is announced once, as the last event.
    pub fn next(&mut self, cancelled: bool, now: u64) -> (r: (Directive, Vec<EngineEvent>))
        requires
            old(self).wf(),
        ensures
            final(self).wf(),
            final(self).scenario() == old(self).scenario(),
            final(self).steps() == old(self).steps(),
            final(self).log_lines() == old(self).log_lines(),
            exists|order: Seq<int>|
                {
                    &&& (old(self)@.phase == Phase::TickStart && !cancelled ==> is_marking(
                        old(self).steps(),
                        old(self)@.statuses,
                        order,
                    ))
                    &&& (final(self)@, r.0, event_views(r.1@)) == #[trigger] next_of(
                        old(self).steps(),
                        old(self)@,
                        cancelled,
                        order,
                        now,
                    )
                },
            match r.0 {
                Directive::Run { index } => started_properly(
                    old(self).steps(),
                    final(self)@.statuses,
                    event_views(r.1@),
                    index as int,
                    false,
                ),
                Directive::Spawn { index } => started_properly(
                    old(self).steps(),
                    final(self)@.statuses,
                    event_views(r.1@),
                    index as int,
                    true,
                ),
                _ => true,
            },
    {
        let ghost steps = self.steps();
        let ghost s0 = self@;
        let n = self.runtime.scenario.steps.len();
        proof {
            assert(steps.len() == n);
        }
        match self.phase {
            Phase::Finished => {
                let events: Vec<EngineEvent> = Vec::new();
                proof {
                    assert(event_views(events@) =~= Seq::<EventView>::empty());
                    assert((self@, Directive::Finish, event_views(events@)) == next_of(
                        steps,
                        s0,
                        cancelled,
                        Seq::<int>::empty(),
                        now,
                    ));
                }
                (Directive::Finish, events)
            },
            Phase::TickStart => {
                if cancelled {
                    let mut events: Vec<EngineEvent> = Vec::new();
                    events.push(EngineEvent::ScenarioFinished);
                    self.phase = Phase::Finished;
                    proof {
                        assert(event_views(events@) =~= seq![EventView::ScenarioFinished]);
                        assert(self@ == (SchedulerView { phase: Phase::Finished, ..s0 }));
                        assert((self@, Directive::Finish, event_views(events@)) == next_of(
                            steps,
                            s0,
                            cancelled,
                            Seq::<int>::empty(),
                            now,
                        ));
                    }
                    (Directive::Finish, events)
                } else {
                    let events = self.mark_blocked_steps(now);
                    let ghost order = choose|order: Seq<int>|
                        {
                            &&& is_marking(steps, s0.statuses, order)
                            &&& self@.statuses == #[trigger] after_marking(s0.statuses, order)
                            &&& self@.finished_at == after_marking_times(
                                s0.finished_at,
                                order,
                                now,
                            )
                            &&& event_views(events@) == marking_events(steps, order)
                        };
                    self.collect_ready_steps();
                    let ghost collected = self@;
                    let r = self.dispatch_next(now, events);
                    proof {
                        assert(collected == (SchedulerView {
                            statuses: after_marking(s0.statuses, order),
                            started_at: s0.started_at,
                            finished_at: after_marking_times(s0.finished_at, order, now),
                            sequential: ready_steps(steps, after_marking(s0.statuses, order), false),
                            parallel: ready_steps(steps, after_marking(s0.statuses, order), true),
                            phase: Phase::Dispatch,
                        }));
                        assert((self@, r.0, event_views(r.1@)) == next_of(
                            steps,
                            s0,
                            cancelled,
                            order,
                            now,
                        ));
                        self.lemma_wf();
                        lemma_dispatch_starts(steps, collected, now);
                    }
                    r
                }
            },
            Phase::Dispatch => {
                let events: Vec<EngineEvent> = Vec::new();
                proof {
                    assert(event_views(events@) =~= Seq::<EventView>::empty());
                }
                let r = self.dispatch_next(now, events);
                proof {
                    let started = dispatch(steps, s0, now).2;
                    assert(Seq::<EventView>::empty() + started =~= started);
                    assert((self@, r.0, event_views(r.1@)) == next_of(
                        steps,
                        s0,
                        cancelled,
                        Seq::<int>::empty(),
                        now,
                    ));
                    self.lemma_wf();
                    lemma_dispatch_starts(steps, s0, now);
                }
                r
            },
        }
    }

    /// Records the result of the step at `index`, which the driver has run,
    /// and says which events to hand to the observer. A success is reported
    /// as the step's end; a failure is logged with its reason and then
    /// reported. A result for a step that is not running changes nothing and
    /// yields no event; nor does a result that comes when the run is over,
    /// so that nothing follows the announcement of the run's end.
    pub fn complete(&mut self, index: usize, result: StepRunResult, now: u64) -> (events: Vec<
        EngineEvent,
    >)
        requires
            old(self).wf(),
        ensures
            final(self).wf(),
            final(self).scenario() == old(self).scenario(),
            final(self).steps() == old(self).steps(),
            final(self).log_lines() == old(self).log_lines(),
            final(self)@ == completed(old(self).steps(), old(self)@, index as int, result@, now).0,
            event_views(events@) == completed(
                old(self).steps(),
                old(self)@,
                index as int,
                result@,
                now,
            ).1,
    {
        let ghost steps = self.steps();
        let ghost s0 = self@;
        let mut events: Vec<EngineEvent> = Vec::new();
        let over = match self.phase {
            Phase::Finished => true,
            _ => false,
        };
        if over || index >= self.runtime.steps_state.len() {
            proof {
                assert(event_views(events@) =~= Seq::<EventView>::empty());
            }
            return events;
        }
        match self.runtime.steps_state[index].status {
            StepStatus::Running => {},
            _ => {
                proof {
                    assert(event_views(events@) =~= Seq::<EventView>::empty());
                }
                return events;
            },
        }
        let id = self.runtime.scenario.steps[index].id.clone();
        match result {
            StepRunResult::Success => {
                self.runtime.steps_state[index].status = StepStatus::Success;
                self.runtime.steps_state[index].finished_at = Some(now);
                events.push(EngineEvent::StepFinished { step_id: id, success: true });
                proof {
                    let v = StatusView::Success;
                    assert(self@.statuses =~= s0.statuses.update(index as int, v));
                    lemma_succeeded_stable(steps, s0.statuses, index as int, v);
                    assert(self@.started_at =~= s0.started_at);
                    assert(self.log_lines() =~= old(self).log_lines());
                    assert(self@.finished_at =~= s0.finished_at.update(index as int, Some(now)));
                    assert(self@.ran() =~= s0.ran());
                    assert(self@.sequential =~= s0.sequential);
                    assert(self@.parallel =~= s0.parallel);
                    assert(event_views(events@) =~= seq![
                        EventView::StepFinished { step_id: steps[index as int].id@, success: true },
                    ]);
                    assert(self@ == (SchedulerView {
                        statuses: s0.statuses.update(index as int, v),
                        finished_at: s0.finished_at.update(index as int, Some(now)),
                        ..s0
                    }));
                }
            },
            StepRunResult::Failed(reason) => {
                events.push(log_step(id.as_str(), reason.as_str()));
                events.push(EngineEvent::StepFinished { step_id: id, success: false });
                let ghost text = reason@;
                self.runtime.steps_state[index].status = StepStatus::Failed(reason);
                self.runtime.steps_state[index].finished_at = Some(now);
                proof {
                    let v = StatusView::Failed(text);
                    assert(self@.statuses =~= s0.statuses.update(index as int, v));
                    lemma_succeeded_stable(steps, s0.statuses, index as int, v);
                    assert(self@.started_at =~= s0.started_at);
                    assert(self.log_lines() =~= old(self).log_lines());
                    assert(self@.finished_at =~= s0.finished_at.update(index as int, Some(now)));
                    assert(self@.ran() =~= s0.ran());
                    assert(self@.sequential =~= s0.sequential);
                    assert(self@.parallel =~= s0.parallel);
                    assert(event_views(events@) =~= seq![
                        log_event(steps[index as int].id@, text),
                        EventView::StepFinished { step_id: steps[index as int].id@, success: false },
                    ]);
                    assert(self@ == (SchedulerView {
                        statuses: s0.statuses.update(index as int, v),
                        finished_at: s0.finished_at.update(index as int, Some(now)),
                        ..s0
                    }));
                }
            },
        }
        events
    }
}

/// What the scheduler does with its queues: it starts the next queued step,
/// the ones that run one at a time first; with empty queues it ends the
/// cycle.
pub open spec fn dispatch(steps: Seq<Step>, s: SchedulerView, now: u64) -> (
    SchedulerView,
    Directive,
    Seq<EventView>,
) {
    if s.sequential.len() > 0 {
        let i = s.sequential[0];
        (
            SchedulerView {
                statuses: s.statuses.update(i, StatusView::Running),
                started_at: s.started_at.update(i, Some(now)),
                sequential: s.sequential.drop_first(),
                ..s
            },
            Directive::Run { index: i as usize },
            seq![EventView::StepStarted { step_id: steps[i].id@ }],
        )
    } else if s.parallel.len() > 0 {
        let i = s.parallel[0];
        (
            SchedulerView {
                statuses: s.statuses.update(i, StatusView::Running),
                started_at: s.started_at.update(i, Some(now)),
                parallel: s.parallel.drop_first(),
                ..s
            },
            Directive::Spawn { index: i as usize },
            seq![EventView::StepStarted { step_id: steps[i].id@ }],
        )
    } else if any_running(s.statuses) {
        (SchedulerView { phase: Phase::TickStart, ..s }, Directive::AwaitAny, Seq::empty())
    } else if all_resolved(s.statuses) {
        (
            SchedulerView { phase: Phase::Finished, ..s },
            Directive::Finish,
            seq![EventView::ScenarioFinished],
        )
    } else {
        (
            SchedulerView { phase: Phase::TickStart, ..s },
            Directive::Sleep { millis: IDLE_POLL_MILLIS },
            Seq::empty(),
        )
    }
}

/// A cycle that starts and is not cancelled: the steps of `order` are given
/// up, the ready steps are queued, and the first of them is started.
pub open spec fn ticked(steps: Seq<Step>, s: SchedulerView, order: Seq<int>, now: u64) -> (
    SchedulerView,
    Directive,
    Seq<EventView>,
) {
    let marked = after_marking(s.statuses, order);
    let collected = SchedulerView {
        statuses: marked,
        started_at: s.started_at,
        finished_at: after_marking_times(s.finished_at, order, now),
        sequential: ready_steps(steps, marked, false),
        parallel: ready_steps(steps, marked, true),
        phase: Phase::Dispatch,
    };
    let d = dispatch(steps, collected, now);
    (d.0, d.1, marking_events(steps, order) + d.2)
}

/// What the scheduler does where no cycle starts: a run that is over stays
/// over, a cancelled run ends, and a cycle under way goes on.
pub open spec fn quiet_next(steps: Seq<Step>, s: SchedulerView, cancelled: bool, now: u64) -> (
    SchedulerView,
    Directive,
    Seq<EventView>,
) {
    match s.phase {
        Phase::Finished => (s, Directive::Finish, Seq::empty()),
        Phase::TickStart => (
            SchedulerView { phase: Phase::Finished, ..s },
            Directive::Finish,
            seq![EventView::ScenarioFinished],
        ),
        Phase::Dispatch => dispatch(steps, s, now),
    }
}

/// What the scheduler records for a result: the step at `index`, if it is
/// running and the run is not over, has ended as the result says. Any other
/// result is dropped.
pub open spec fn completed(
    steps: Seq<Step>,
    s: SchedulerView,
    index: int,
    result: RunResultView,
    now: u64,
) -> (
    SchedulerView,
    Seq<EventView>,
) {
    if s.phase != Phase::Finished && 0 <= index < s.statuses.len() && s.statuses[index]
        is Running {
        match result {
            RunResultView::Success => (
                SchedulerView {
                    statuses: s.statuses.update(index, StatusView::Success),
                    finished_at: s.finished_at.update(index, Some(now)),
                    ..s
                },
                seq![EventView::StepFinished { step_id: steps[index].id@, success: true }],
            ),
            RunResultView::Failed(reason) => (
                SchedulerView {
                    statuses: s.statuses.update(index, StatusView::Failed(reason)),
                    finished_at: s.finished_at.update(index, Some(now)),
                    ..s
                },
                seq![
                    log_event(steps[index].id@, reason),
                    EventView::StepFinished { step_id: steps[index].id@, success: false },
                ],
            ),
        }
    } else {
        (s, Seq::empty())
    }
}

/// The ready steps found are steps that have not started, with all their
/// dependencies succeeded, in declaration order; and every such step among
/// the first `n` is found.
pub proof fn lemma_ready_below(steps: Seq<Step>, st: Seq<StatusView>, parallel: bool, n: int)
    requires
        0 <= n <= steps.len(),
    ensures
        queue_ok(steps, st, ready_below(steps, st, parallel, n), parallel),
        forall|p: int|
            0 <= p < ready_below(steps, st, parallel, n).len() ==> #[trigger] ready_below(
                steps,
                st,
                parallel,
                n,
            )[p] < n,
        forall|i: int|
            0 <= i < n && is_ready(steps, st, i) && steps[i].allow_parallel == parallel
                ==> ready_below(steps, st, parallel, n).contains(i),
    decreases n,
{
    if n > 0 {
        lemma_ready_below(steps, st, parallel, n - 1);
        let shorter = ready_below(steps, st, parallel, n - 1);
        let all = ready_below(steps, st, parallel, n);
        if is_ready(steps, st, n - 1) && steps[n - 1].allow_parallel == parallel {
            assert(all == shorter.push(n - 1));
            assert(all[all.len() - 1] == n - 1);
            assert forall|i: int|
                0 <= i < n && is_ready(steps, st, i) && steps[i].allow_parallel
                    == parallel implies all.contains(i) by {
                if i < n - 1 {
                    let p = choose|p: int| 0 <= p < shorter.len() && shorter[p] == i;
                    assert(all[p] == i);
                }
            }
        }
    }
}

/// The step at `index` was started as it should be: it is a step of the
/// kind the directive is for, every step it depends on has succeeded, and
/// its start is the last of the events.
pub open spec fn started_properly(
    steps: Seq<Step>,
    statuses: Seq<StatusView>,
    events: Seq<EventView>,
    index: int,
    parallel: bool,
) -> bool {
    &&& 0 <= index < steps.len()
    &&& steps[index].allow_parallel == parallel
    &&& deps_succeeded(steps, statuses, index)
    &&& events.len() > 0
    &&& events.last() == (EventView::StepStarted { step_id: steps[index].id@ })
}

/// A step that the scheduler starts is the head of a queue, and its start is
/// the last event.
pub proof fn lemma_dispatch_starts(steps: Seq<Step>, s: SchedulerView, now: u64)
    requires
        steps.len() <= usize::MAX,
        queue_ok(steps, s.statuses, s.sequential, false),
        queue_ok(steps, s.statuses, s.parallel, true),
    ensures
        match dispatch(steps, s, now).1 {
            Directive::Run { index } => {
                &&& index == s.sequential[0]
                &&& index < steps.len()
                &&& !steps[index as int].allow_parallel
                &&& dispatch(steps, s, now).2.len() > 0
                &&& dispatch(steps, s, now).2.last() == (EventView::StepStarted {
                    step_id: steps[index as int].id@,
                })
            },
            Directive::Spawn { index } => {
                &&& index == s.parallel[0]
                &&& index < steps.len()
                &&& steps[index as int].allow_parallel
                &&& dispatch(steps, s, now).2.len() > 0
                &&& dispatch(steps, s, now).2.last() == (EventView::StepStarted {
                    step_id: steps[index as int].id@,
                })
            },
            _ => true,
        },
{
}

/// Step `i` depends on step `j`.
pub open spec fn depends_on_step(steps: Seq<Step>, i: int, j: int) -> bool {
    &&& 0 <= i < steps.len()
    &&& 0 <= j < steps.len()
    &&& exists|k: int| 0 <= k < deps(steps[i]).len() && #[trigger] deps(steps[i])[k] == steps[j].id@
}

/// Each step of `path` but the first depends on the step before it.
pub open spec fn is_dependency_path(steps: Seq<Step>, path: Seq<int>) -> bool {
    &&& path.len() > 0
    &&& 0 <= path[0] < steps.len()
    &&& forall|p: int| 1 <= p < path.len() ==> depends_on_step(steps, #[trigger] path[p], path[p - 1])
}

/// Where failures have been passed on, a step that depends on a failed step
/// has failed itself, and was never started.
pub proof fn lemma_failure_reaches_dependent(
    steps: Seq<Step>,
    st: Seq<StatusView>,
    ran: Seq<bool>,
    i: int,
    j: int,
)
    requires
        st.len() == steps.len(),
        ran.len() == steps.len(),
        ids_unique(steps),
        started_after_deps(steps, st, ran),
        failure_closed(steps, st),
        depends_on_step(steps, i, j),
        st[j] is Failed,
    ensures
        st[i] is Failed,
        !ran[i],
{
    let k = choose|k: int|
        0 <= k < deps(steps[i]).len() && #[trigger] deps(steps[i])[k] == steps[j].id@;
    let d = deps(steps[i])[k];
    assert(step_named(steps, j, d));
    assert(dep_failed(steps, st, d));
    assert(some_dep_failed(steps, st, i));
    assert(!is_blocked(steps, st, i));
    if ran[i] {
        assert(dep_succeeded(steps, st, d));
        let j2 = choose|j2: int| #[trigger] step_named(steps, j2, d) && st[j2] is Success;
        assert(j2 == j);
    }
}

/// Once a step has failed and failures have been passed on, every step that
/// depends on it, directly or through other steps, has failed without ever
/// having been started.
pub proof fn lemma_failure_reaches_all_dependents(
    steps: Seq<Step>,
    st: Seq<StatusView>,
    ran: Seq<bool>,
    path: Seq<int>,
)
    requires
        st.len() == steps.len(),
        ran.len() == steps.len(),
        ids_unique(steps),
        started_after_deps(steps, st, ran),
        failure_closed(steps, st),
        is_dependency_path(steps, path),
        st[path[0]] is Failed,
    ensures
        forall|p: int| 1 <= p < path.len() ==> st[#[trigger] path[p]] is Failed && !ran[path[p]],
    decreases path.len(),
{
    if path.len() > 1 {
        let shorter = path.drop_last();
        assert(is_dependency_path(steps, shorter)) by {
            assert forall|p: int| 1 <= p < shorter.len() implies depends_on_step(
                steps,
                #[trigger] shorter[p],
                shorter[p - 1],
            ) by {
                assert(shorter[p] == path[p]);
            }
        }
        lemma_failure_reaches_all_dependents(steps, st, ran, shorter);
        let last = path.len() - 1;
        assert(depends_on_step(steps, path[last], path[last - 1]));
        assert(st[path[last - 1]] is Failed) by {
            if last - 1 >= 1 {
                assert(shorter[last - 1] == path[last - 1]);
            }
        }
        lemma_failure_reaches_dependent(steps, st, ran, path[last], path[last - 1]);
        assert forall|p: int| 1 <= p < path.len() implies st[#[trigger] path[p]] is Failed
            && !ran[path[p]] by {
            if p < last {
                assert(shorter[p] == path[p]);
            }
        }
    }
}

/// Some step has identifier `dep`.
pub open spec fn dep_known(steps: Seq<Step>, dep: Seq<char>) -> bool {
    exists|j: int| #[trigger] step_named(steps, j, dep)
}

/// Every identifier that a step depends on is the identifier of a step.
pub open spec fn deps_resolve(steps: Seq<Step>) -> bool {
    forall|i: int, k: int|
        0 <= i < steps.len() && 0 <= k < deps(steps[i]).len() ==> dep_known(
            steps,
            #[trigger] deps(steps[i])[k],
        )
}

/// `rank` orders the steps so that each step ranks above the steps it
/// depends on.
pub open spec fn respects(steps: Seq<Step>, rank: Seq<nat>) -> bool {
    &&& rank.len() == steps.len()
    &&& forall|i: int, j: int| #[trigger] depends_on_step(steps, i, j) ==> rank[j] < rank[i]
}

/// The dependencies form no cycle.
pub open spec fn acyclic(steps: Seq<Step>) -> bool {
    exists|rank: Seq<nat>| respects(steps, rank)
}

/// Where nothing runs and failures have been passed on, a pending step leads
/// to a ready one: itself, or a pending step that it depends on.
proof fn lemma_pending_leads_to_ready(
    steps: Seq<Step>,
    st: Seq<StatusView>,
    rank: Seq<nat>,
    i: int,
)
    requires
        st.len() == steps.len(),
        ids_unique(steps),
        deps_resolve(steps),
        respects(steps, rank),
        !any_running(st),
        failure_closed(steps, st),
        0 <= i < steps.len(),
        st[i] is Pending,
    ensures
        exists|r: int| is_ready(steps, st, r),
    decreases rank[i],
{
    assert(!is_blocked(steps, st, i));
    if deps_succeeded(steps, st, i) {
        assert(is_ready(steps, st, i));
    } else {
        let k = choose|k: int|
            0 <= k < deps(steps[i]).len() && !dep_succeeded(steps, st, #[trigger] deps(steps[i])[k]);
        let d = deps(steps[i])[k];
        assert(dep_known(steps, d));
        let j = choose|j: int| #[trigger] step_named(steps, j, d);
        assert(depends_on_step(steps, i, j));
        assert(!(st[j] is Success));
        assert(!(st[j] is Failed)) by {
            if st[j] is Failed {
                assert(dep_failed(steps, st, d));
                assert(some_dep_failed(steps, st, i));
            }
        }
        assert(!(st[j] is Running));
        lemma_pending_leads_to_ready(steps, st, rank, j);
    }
}

/// In a scenario whose dependencies resolve and form no cycle, some step is
/// ready whenever a step is pending, nothing runs, and failures have been
/// passed on.
pub proof fn lemma_some_step_is_ready(steps: Seq<Step>, st: Seq<StatusView>)
    requires
        st.len() == steps.len(),
        ids_unique(steps),
        deps_resolve(steps),
        acyclic(steps),
        !any_running(st),
        failure_closed(steps, st),
        exists|i: int| 0 <= i < st.len() && #[trigger] st[i] is Pending,
    ensures
        exists|r: int| is_ready(steps, st, r),
{
    let rank = choose|rank: Seq<nat>| respects(steps, rank);
    let i = choose|i: int| 0 <= i < st.len() && #[trigger] st[i] is Pending;
    lemma_pending_leads_to_ready(steps, st, rank, i);
}

/// Giving up blocked steps changes pending steps only, and only into failed
/// ones.
pub proof fn lemma_after_marking(steps: Seq<Step>, st: Seq<StatusView>, order: Seq<int>)
    requires
        st.len() == steps.len(),
        marking_justified(steps, st, order),
    ensures
        after_marking(st, order).len() == st.len(),
        forall|i: int|
            0 <= i < st.len() ==> (#[trigger] after_marking(st, order)[i] == st[i] || (st[i]
                is Pending && after_marking(st, order)[i] == StatusView::Failed(
                upstream_reason(),
            ))),
    decreases order.len(),
{
    if order.len() > 0 {
        lemma_after_marking(steps, st, order.drop_last());
    }
}

/// The events of giving up steps are log lines and notices of failure.
pub proof fn lemma_marking_events(steps: Seq<Step>, order: Seq<int>)
    ensures
        forall|p: int|
            0 <= p < marking_events(steps, order).len() ==> (#[trigger] marking_events(
                steps,
                order,
            )[p] is StepLog || marking_events(steps, order)[p] matches EventView::StepFinished {
                success: false,
                ..
            }),
    decreases order.len(),
{
    if order.len() > 0 {
        lemma_marking_events(steps, order.drop_last());
    }
}

/// The run makes progress. In a scenario whose dependencies resolve and form
/// no cycle, a cycle that starts while no step runs ends the run, if every
/// step has ended, or starts a step: the scheduler never idles there, so a
/// run in which every started step ends comes to its end.
pub proof fn lemma_cycle_makes_progress(
    steps: Seq<Step>,
    s: SchedulerView,
    order: Seq<int>,
    now: u64,
)
    requires
        steps.len() <= usize::MAX,
        s.statuses.len() == steps.len(),
        ids_unique(steps),
        deps_resolve(steps),
        acyclic(steps),
        is_marking(steps, s.statuses, order),
        !any_running(s.statuses),
    ensures
        match ticked(steps, s, order, now).1 {
            Directive::Run { index } => pending_count(ticked(steps, s, order, now).0.statuses)
                < pending_count(s.statuses),
            Directive::Spawn { index } => pending_count(ticked(steps, s, order, now).0.statuses)
                < pending_count(s.statuses),
            Directive::Finish => all_resolved(ticked(steps, s, order, now).0.statuses),
            _ => false,
        },
{
    let marked = after_marking(s.statuses, order);
    lemma_after_marking(steps, s.statuses, order);
    lemma_marking_keeps_count(steps, s.statuses, order);
    assert(!any_running(marked)) by {
        if any_running(marked) {
            let i = choose|i: int| 0 <= i < marked.len() && #[trigger] marked[i] is Running;
            assert(s.statuses[i] is Running);
        }
    }
    lemma_ready_below(steps, marked, false, steps.len() as int);
    lemma_ready_below(steps, marked, true, steps.len() as int);
    let seq_q = ready_steps(steps, marked, false);
    let par_q = ready_steps(steps, marked, true);
    if exists|i: int| 0 <= i < marked.len() && #[trigger] marked[i] is Pending {
        lemma_some_step_is_ready(steps, marked);
        let r = choose|r: int| is_ready(steps, marked, r);
        if steps[r].allow_parallel {
            assert(par_q.contains(r));
        } else {
            assert(seq_q.contains(r));
        }
        if seq_q.len() > 0 {
            lemma_pending_count_update(marked, seq_q[0], StatusView::Running);
        } else {
            lemma_pending_count_update(marked, par_q[0], StatusView::Running);
        }
    } else {
        assert(all_resolved(marked));
        assert(seq_q.len() == 0) by {
            if seq_q.len() > 0 {
                assert(marked[seq_q[0]] is Pending);
            }
        }
        assert(par_q.len() == 0) by {
            if par_q.len() > 0 {
                assert(marked[par_q[0]] is Pending);
            }
        }
    }
}

/// Giving up blocked steps does not raise the number of pending steps.
pub proof fn lemma_marking_keeps_count(steps: Seq<Step>, st: Seq<StatusView>, order: Seq<int>)
    requires
        st.len() == steps.len(),
        marking_justified(steps, st, order),
    ensures
        pending_count(after_marking(st, order)) <= pending_count(st),
    decreases order.len(),
{
    if order.len() > 0 {
        lemma_marking_keeps_count(steps, st, order.drop_last());
        lemma_after_marking(steps, st, order.drop_last());
        lemma_pending_count_update(
            after_marking(st, order.drop_last()),
            order.last(),
            StatusView::Failed(upstream_reason()),
        );
    }
}

/// The end of the run is announced exactly once, as the last event: by the
/// call that ends the run. No call before it announces an end, and no call
/// after it yields any event.
pub proof fn lemma_end_announced_once(
    steps: Seq<Step>,
    s: SchedulerView,
    cancelled: bool,
    order: Seq<int>,
    now: u64,
)
    ensures
        s.phase == Phase::Finished ==> {
            &&& next_of(steps, s, cancelled, order, now).0.phase == Phase::Finished
            &&& next_of(steps, s, cancelled, order, now).2.len() == 0
        },
        s.phase != Phase::Finished && next_of(steps, s, cancelled, order, now).0.phase
            == Phase::Finished ==> {
            &&& next_of(steps, s, cancelled, order, now).1 == Directive::Finish
            &&& next_of(steps, s, cancelled, order, now).2.len() > 0
            &&& next_of(steps, s, cancelled, order, now).2.last() == EventView::ScenarioFinished
            &&& forall|p: int|
                0 <= p < next_of(steps, s, cancelled, order, now).2.len() - 1 ==> #[trigger] next_of(
                    steps,
                    s,
                    cancelled,
                    order,
                    now,
                ).2[p] != EventView::ScenarioFinished
        },
        next_of(steps, s, cancelled, order, now).0.phase != Phase::Finished ==> {
            &&& next_of(steps, s, cancelled, order, now).1 != Directive::Finish
            &&& forall|p: int|
                0 <= p < next_of(steps, s, cancelled, order, now).2.len() ==> #[trigger] next_of(
                    steps,
                    s,
                    cancelled,
                    order,
                    now,
                ).2[p] != EventView::ScenarioFinished
        },
{
    lemma_marking_events(steps, order);
}

/// A result never announces the end of the run, and a result that comes
/// when the run is over yields no event at all: nothing follows the
/// announcement of the run's end.
pub proof fn lemma_nothing_follows_the_end(
    steps: Seq<Step>,
    s: SchedulerView,
    index: int,
    result: RunResultView,
    now: u64,
)
    ensures
        s.phase == Phase::Finished ==> completed(steps, s, index, result, now) == (
            s,
            Seq::<EventView>::empty(),
        ),
        completed(steps, s, index, result, now).0.phase == s.phase,
        forall|p: int|
            0 <= p < completed(steps, s, index, result, now).1.len() ==> #[trigger] completed(
                steps,
                s,
                index,
                result,
                now,
            ).1[p] != EventView::ScenarioFinished,
{
}

/// The number of steps that run.
pub open spec fn running_count(st: Seq<StatusView>) -> nat
    decreases st.len(),
{
    if st.len() == 0 {
        0
    } else {
        running_count(st.drop_last()) + if st.last() is Running {
            1nat
        } else {
            0nat
        }
    }
}

/// How a change of one step's status changes the numbers of pending and of
/// running steps.
pub proof fn lemma_counts_update(st: Seq<StatusView>, i: int, v: StatusView)
    requires
        0 <= i < st.len(),
    ensures
        pending_count(st.update(i, v)) + (if st[i] is Pending {
            1nat
        } else {
            0nat
        }) == pending_count(st) + (if v is Pending {
            1nat
        } else {
            0nat
        }),
        running_count(st.update(i, v)) + (if st[i] is Running {
            1nat
        } else {
            0nat
        }) == running_count(st) + (if v is Running {
            1nat
        } else {
            0nat
        }),
    decreases st.len(),
{
    if i == st.len() - 1 {
        assert(st.update(i, v).drop_last() =~= st.drop_last());
    } else {
        assert(st.update(i, v).drop_last() =~= st.drop_last().update(i, v));
        lemma_counts_update(st.drop_last(), i, v);
    }
}

/// Where a step runs, the number of running steps is not zero; where none
/// runs, it is.
pub proof fn lemma_running_count(st: Seq<StatusView>)
    ensures
        any_running(st) <==> running_count(st) > 0,
    decreases st.len(),
{
    if st.len() > 0 {
        lemma_running_count(st.drop_last());
        if any_running(st) {
            let i = choose|i: int| 0 <= i < st.len() && #[trigger] st[i] is Running;
            if i < st.len() - 1 {
                assert(st.drop_last()[i] is Running);
            }
        }
        if any_running(st.drop_last()) {
            let i = choose|i: int|
                0 <= i < st.drop_last().len() && #[trigger] st.drop_last()[i] is Running;
            assert(st[i] is Running);
        }
        if st.last() is Running {
            assert(st[st.len() - 1] is Running);
        }
    }
}

/// Giving up blocked steps leaves the number of running steps as it was.
pub proof fn lemma_marking_keeps_running(steps: Seq<Step>, st: Seq<StatusView>, order: Seq<int>)
    requires
        st.len() == steps.len(),
        marking_justified(steps, st, order),
    ensures
        running_count(after_marking(st, order)) == running_count(st),
    decreases order.len(),
{
    if order.len() > 0 {
        lemma_marking_keeps_running(steps, st, order.drop_last());
        lemma_after_marking(steps, st, order.drop_last());
        lemma_counts_update(
            after_marking(st, order.drop_last()),
            order.last(),
            StatusView::Failed(upstream_reason()),
        );
    }
}

/// The work that is left: what is pending weighs four, what runs weighs two,
/// and a cycle under way weighs one.
pub open spec fn work_left(s: SchedulerView) -> nat {
    4 * pending_count(s.statuses) + 2 * running_count(s.statuses) + if s.phase
        == Phase::Dispatch {
        1nat
    } else {
        0nat
    }
}

/// What the scheduler answers when asked what to do next.
pub open spec fn next_of(
    steps: Seq<Step>,
    s: SchedulerView,
    cancelled: bool,
    order: Seq<int>,
    now: u64,
) -> (SchedulerView, Directive, Seq<EventView>) {
    if s.phase == Phase::TickStart && !cancelled {
        ticked(steps, s, order, now)
    } else {
        quiet_next(steps, s, cancelled, now)
    }
}

/// A state of the scheduler as it occurs in a run: one status per step,
/// queues as they should be, and queued steps only while a cycle dispatches.
pub open spec fn view_ok(steps: Seq<Step>, s: SchedulerView) -> bool {
    &&& steps.len() <= usize::MAX
    &&& s.statuses.len() == steps.len()
    &&& queue_ok(steps, s.statuses, s.sequential, false)
    &&& queue_ok(steps, s.statuses, s.parallel, true)
    &&& (s.phase != Phase::Dispatch ==> s.sequential.len() == 0 && s.parallel.len() == 0)
}

/// Every run comes to its end. In a scenario whose dependencies resolve and
/// form no cycle, asking the scheduler never adds to the work that is left,
/// and takes from it whenever the scheduler starts a step or asks the driver
/// to wait a moment. The scheduler asks to wait for a running step only while
/// one runs; and it says that the run is over exactly when it is.
pub proof fn lemma_asking_lowers_work(
    steps: Seq<Step>,
    s: SchedulerView,
    cancelled: bool,
    order: Seq<int>,
    now: u64,
)
    requires
        view_ok(steps, s),
        ids_unique(steps),
        deps_resolve(steps),
        acyclic(steps),
        s.phase == Phase::TickStart && !cancelled ==> is_marking(steps, s.statuses, order),
        s.phase != Phase::Finished,
    ensures
        ({
            let r = next_of(steps, s, cancelled, order, now);
            &&& work_left(r.0) <= work_left(s)
            &&& match r.1 {
                Directive::Run { .. } => work_left(r.0) < work_left(s),
                Directive::Spawn { .. } => work_left(r.0) < work_left(s),
                Directive::Sleep { .. } => work_left(r.0) < work_left(s),
                Directive::AwaitAny => any_running(r.0.statuses),
                Directive::Finish => r.0.phase == Phase::Finished,
            }
            &&& r.0.phase == Phase::Finished <==> r.1 == Directive::Finish
        }),
{
    if s.phase == Phase::TickStart && !cancelled {
        let marked = after_marking(s.statuses, order);
        lemma_after_marking(steps, s.statuses, order);
        lemma_marking_keeps_count(steps, s.statuses, order);
        lemma_marking_keeps_running(steps, s.statuses, order);
        lemma_ready_below(steps, marked, false, steps.len() as int);
        lemma_ready_below(steps, marked, true, steps.len() as int);
        let collected = SchedulerView {
            statuses: marked,
            started_at: s.started_at,
            finished_at: after_marking_times(s.finished_at, order, now),
            sequential: ready_steps(steps, marked, false),
            parallel: ready_steps(steps, marked, true),
            phase: Phase::Dispatch,
        };
        lemma_dispatch_lowers_work(steps, collected, now);
        lemma_running_count(marked);
        if !any_running(marked) {
            lemma_running_count(s.statuses);
            lemma_cycle_makes_progress(steps, s, order, now);
        }
    } else if s.phase == Phase::Dispatch {
        lemma_dispatch_lowers_work(steps, s, now);
    }
}

/// Handing out a queued step, or ending a cycle, takes from the work that
/// is left, but for a cycle that ends with the run.
pub proof fn lemma_dispatch_lowers_work(steps: Seq<Step>, s: SchedulerView, now: u64)
    requires
        view_ok(steps, s),
        s.phase == Phase::Dispatch,
    ensures
        ({
            let r = dispatch(steps, s, now);
            &&& match r.1 {
                Directive::Run { .. } => work_left(r.0) + 2 == work_left(s),
                Directive::Spawn { .. } => work_left(r.0) + 2 == work_left(s),
                Directive::Sleep { .. } => work_left(r.0) + 1 == work_left(s),
                Directive::AwaitAny => work_left(r.0) + 1 == work_left(s) && any_running(
                    r.0.statuses,
                ),
                Directive::Finish => work_left(r.0) + 1 == work_left(s) && r.0.phase
                    == Phase::Finished,
            }
            &&& r.0.phase == Phase::Finished <==> r.1 == Directive::Finish
        }),
{
    if s.sequential.len() > 0 {
        lemma_counts_update(s.statuses, s.sequential[0], StatusView::Running);
    } else if s.parallel.len() > 0 {
        lemma_counts_update(s.statuses, s.parallel[0], StatusView::Running);
    }
}

/// The result of a running step takes from the work that is left.
pub proof fn lemma_result_lowers_work(
    steps: Seq<Step>,
    s: SchedulerView,
    index: int,
    result: RunResultView,
    now: u64,
)
    requires
        s.phase != Phase::Finished,
        0 <= index < s.statuses.len(),
        s.statuses[index] is Running,
    ensures
        work_left(completed(steps, s, index, result, now).0) + 2 == work_left(s),
{
    match result {
        RunResultView::Success => {
            lemma_counts_update(s.statuses, index, StatusView::Success);
        },
        RunResultView::Failed(reason) => {
            lemma_counts_update(s.statuses, index, StatusView::Failed(reason));
        },
    }
}

} // verus!
