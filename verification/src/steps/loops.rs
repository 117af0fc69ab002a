//! Loop steps: a block of child steps that is run once for each match of a
//! glob pattern.
//!
//! Within one iteration the children run one at a time, each as soon as the
//! children it depends on are done, in declaration order among those that
//! are ready. The driver finds the matches and runs the children; what to run
//! next, and when the loop is over, is decided here.

use crate::context::{expansion, reports, ExecutionContext};
use crate::error::{expanded_or_reported, StepError};
use crate::events::{event_views, log_event, log_step, EngineEvent, EventView};
use crate::runner::{acyclic, dep_known, depends_on_step, deps, deps_resolve, respects, step_named};
use crate::scenario::{IterationFailurePolicy, LoopStepConfig, Step};
use crate::steps::{RunResultView, StepRunResult};
use crate::text::{str_eq, text_list};
use vstd::prelude::*;
use vstd::string::StringExecFns;

verus! {

/// Why a loop ended.
#[derive(Debug, Clone, Copy, PartialEq, Eq, Structural)]
pub enum LoopEnd {
    /// Every iteration was gone through, or there was none.
    Completed,
    /// The run was cancelled between two iterations.
    Cancelled,
    /// No child is ready, and not every child is done: the children wait for
    /// each other.
    Stalled,
    /// The child at `index` failed, and the loop stops at the first failure.
    ChildFailed { index: usize },
    /// The child at `child` depends, by the entry at `dependency` of its
    /// list, on a step that is not among its siblings.
    Unresolved { child: usize, dependency: usize },
}

/// Where a loop stands.
#[derive(Debug, Clone, Copy, PartialEq, Eq, Structural)]
pub enum LoopPhase {
    /// An iteration is about to start.
    IterationStart,
    /// An iteration is under way and no child runs.
    Children,
    /// The child at `index` runs.
    Awaiting { index: usize },
    /// The loop has ended.
    Finished { end: LoopEnd },
}

/// What the driver is to do next.
#[derive(Debug, Clone, Copy, PartialEq, Eq, Structural)]
pub enum LoopDirective {
    /// Ask again.
    Again,
    /// Run the child at `index` and report its result.
    RunChild { index: usize },
    /// Stop: the loop has ended.
    Finish { end: LoopEnd },
}

/// One move of a loop.
#[derive(Debug)]
pub struct LoopMove {
    /// What the driver is to do.
    pub directive: LoopDirective,
    /// The events to hand to the observer first.
    pub events: Vec<EngineEvent>,
    /// The error the loop step fails with, where this move ends the loop in
    /// failure.
    pub error: Option<StepError>,
}

/// The state of a loop as the contracts see it.
pub struct LoopView {
    /// The index of the match of the current iteration.
    pub entry: int,
    /// For each child, whether it is done in the current iteration.
    pub done: Seq<bool>,
    /// Where the loop stands.
    pub phase: LoopPhase,
}

/// The run of one loop step.
pub struct LoopRun<'a> {
    config: &'a LoopStepConfig,
    matches: Vec<String>,
    entry: usize,
    done: Vec<bool>,
    phase: LoopPhase,
}

/// A child named `dep` is done.
pub open spec fn dep_done(steps: Seq<Step>, done: Seq<bool>, dep: Seq<char>) -> bool {
    exists|j: int| #[trigger] step_named(steps, j, dep) && done[j]
}

/// The child at `i` is ready: it is not done, and every child it depends on
/// is.
pub open spec fn child_ready(steps: Seq<Step>, done: Seq<bool>, i: int) -> bool {
    &&& 0 <= i < steps.len()
    &&& !done[i]
    &&& forall|k: int|
        0 <= k < deps(steps[i]).len() ==> dep_done(steps, done, #[trigger] deps(steps[i])[k])
}

/// The child at `i` is the first that is ready.
pub open spec fn first_ready_at(steps: Seq<Step>, done: Seq<bool>, i: int) -> bool {
    child_ready(steps, done, i) && forall|j: int| 0 <= j < i ==> !child_ready(steps, done, j)
}

/// No child is ready.
pub open spec fn none_ready(steps: Seq<Step>, done: Seq<bool>) -> bool {
    forall|j: int| 0 <= j < steps.len() ==> !child_ready(steps, done, j)
}

/// Every child is done.
pub open spec fn all_done(done: Seq<bool>) -> bool {
    forall|j: int| 0 <= j < done.len() ==> #[trigger] done[j]
}

/// The entry `k` of the list of child `i` is the first dependency, in the
/// order of the children and of their lists, that names no sibling.
pub open spec fn first_unresolved_at(steps: Seq<Step>, i: int, k: int) -> bool {
    &&& 0 <= i < steps.len()
    &&& 0 <= k < deps(steps[i]).len()
    &&& !dep_known(steps, deps(steps[i])[k])
    &&& forall|m: int| 0 <= m < k ==> dep_known(steps, #[trigger] deps(steps[i])[m])
    &&& forall|j: int, m: int|
        0 <= j < i && 0 <= m < deps(steps[j]).len() ==> dep_known(
            steps,
            #[trigger] deps(steps[j])[m],
        )
}

/// The log line of a loop without matches.
pub open spec fn no_match_line(pattern: Seq<char>) -> Seq<char> {
    "no files match the loop pattern: "@ + pattern
}

/// The log line that reports the match of an iteration.
pub open spec fn iteration_line(name: Seq<char>, value: Seq<char>) -> Seq<char> {
    "loop variable "@ + name + " = "@ + value
}

/// The log line that reports the start of a child.
pub open spec fn child_line(name: Seq<char>) -> Seq<char> {
    "running loop step '"@ + name + "'"@
}

/// The log line that reports a failed child in a loop that goes on.
pub open spec fn child_failure_line(name: Seq<char>, reason: Seq<char>) -> Seq<char> {
    "loop step '"@ + name + "' failed: "@ + reason + ", continuing with the next match"@
}

/// The glob pattern of a loop step, expanded through the context.
pub fn loop_pattern(config: &LoopStepConfig, ctx: &ExecutionContext) -> (res: Result<
    String,
    StepError,
>)
    ensures
        expanded_or_reported(res, config.for_each_glob@, "loop.pattern"@, ctx.bindings()),
{
    match ctx.expand_required(config.for_each_glob.as_str(), "loop.pattern") {
        Ok(text) => Ok(text),
        Err(e) => Err(StepError::Expansion(e)),
    }
}

/// Whether some step of `steps` has the identifier `id`.
fn knows(steps: &Vec<Step>, id: &str) -> (yes: bool)
    ensures
        yes == dep_known(steps@, id@),
{
    let mut j: usize = 0;
    while j < steps.len()
        invariant
            j <= steps.len(),
            forall|m: int| 0 <= m < j ==> !step_named(steps@, m, id@),
        decreases steps.len() - j,
    {
        if str_eq(steps[j].id.as_str(), id) {
            assert(step_named(steps@, j as int, id@));
            return true;
        }
        j += 1;
    }
    false
}

/// Looks for a dependency of a child that names no sibling, and returns the
/// first one: the index of the child and the index of the entry in its list.
pub fn find_unresolved_dependency(steps: &Vec<Step>) -> (found: Option<(usize, usize)>)
    ensures
        match found {
            Some((i, k)) => first_unresolved_at(steps@, i as int, k as int),
            None => deps_resolve(steps@),
        },
{
    let mut i: usize = 0;
    while i < steps.len()
        invariant
            i <= steps.len(),
            forall|j: int, m: int|
                0 <= j < i && 0 <= m < deps(steps@[j]).len() ==> dep_known(
                    steps@,
                    #[trigger] deps(steps@[j])[m],
                ),
        decreases steps.len() - i,
    {
        let list = &steps[i].depends_on;
        let mut k: usize = 0;
        while k < list.len()
            invariant
                i < steps.len(),
                list == steps@[i as int].depends_on,
                k <= list.len(),
                forall|m: int|
                    0 <= m < k ==> dep_known(steps@, #[trigger] deps(steps@[i as int])[m]),
                forall|j: int, m: int|
                    0 <= j < i && 0 <= m < deps(steps@[j]).len() ==> dep_known(
                        steps@,
                        #[trigger] deps(steps@[j])[m],
                    ),
            decreases list.len() - k,
        {
            proof {
                assert(deps(steps@[i as int])[k as int] == list@[k as int]@);
            }
            if !knows(steps, list[k].as_str()) {
                return Some((i, k));
            }
            k += 1;
        }
        i += 1;
    }
    None
}

impl<'a> View for LoopRun<'a> {
    type V = LoopView;

    closed spec fn view(&self) -> LoopView {
        LoopView { entry: self.entry as int, done: self.done@, phase: self.phase }
    }
}

/// A list of `n` times `false`.
fn none_done(n: usize) -> (done: Vec<bool>)
    ensures
        done@ == Seq::new(n as nat, |j: int| false),
{
    let mut done: Vec<bool> = Vec::new();
    let mut j: usize = 0;
    while j < n
        invariant
            j <= n,
            done@ == Seq::new(j as nat, |m: int| false),
        decreases n - j,
    {
        done.push(false);
        proof {
            assert(done@ =~= Seq::new((j + 1) as nat, |m: int| false));
        }
        j += 1;
    }
    done
}

impl<'a> LoopRun<'a> {
    /// The loop's configuration.
    pub closed spec fn config(&self) -> LoopStepConfig {
        *self.config
    }

    /// The matches the loop goes through.
    pub closed spec fn matches(&self) -> Seq<Seq<char>> {
        text_list(self.matches@)
    }

    /// The children of the loop.
    pub open spec fn children(&self) -> Seq<Step> {
        self.config().steps@
    }

    /// What holds of a loop between any two calls: there is a mark for each
    /// child; while the loop has not ended, the current match exists; and the
    /// child that runs exists and is not done.
    pub closed spec fn wf(&self) -> bool {
        &&& self.done@.len() == self.config.steps@.len()
        &&& (!(self.phase is Finished) ==> self.entry < self.matches@.len())
        &&& (self.phase matches LoopPhase::Awaiting { index } ==> index < self.done@.len()
            && !self.done@[index as int])
    }

    /// What `wf` promises to the outside.
    pub proof fn lemma_wf(&self)
        requires
            self.wf(),
        ensures
            self@.done.len() == self.children().len(),
            !(self@.phase is Finished) ==> 0 <= self@.entry < self.matches().len(),
            self@.phase matches LoopPhase::Awaiting { index } ==> index < self.children().len()
                && !self@.done[index as int],
    {
    }

    /// Starts the loop of `config` over `matches`, the paths that the
    /// expanded pattern `pattern` matches. A loop without matches ends at
    /// once, successfully, with a log line that says so. A loop whose
    /// children depend on a step that is not among them ends at once in
    /// failure. Any other loop starts its first iteration.
    pub fn begin(config: &'a LoopStepConfig, pattern: &str, matches: Vec<String>, step_id: &str) -> (r:
        (LoopRun<'a>, LoopMove))
        ensures
            r.0.wf(),
            r.0.config() == *config,
            r.0.matches() == text_list(matches@),
            r.0@.entry == 0,
            r.0@.done == Seq::new(config.steps@.len(), |j: int| false),
            matches@.len() == 0 ==> {
                &&& r.0@.phase == (LoopPhase::Finished { end: LoopEnd::Completed })
                &&& r.1.directive == (LoopDirective::Finish { end: LoopEnd::Completed })
                &&& event_views(r.1.events@) == seq![
                    log_event(step_id@, no_match_line(pattern@)),
                ]
                &&& r.1.error is None
            },
            matches@.len() > 0 && deps_resolve(config.steps@) ==> {
                &&& r.0@.phase == LoopPhase::IterationStart
                &&& r.1.directive == LoopDirective::Again
                &&& r.1.events@.len() == 0
                &&& r.1.error is None
            },
            matches@.len() > 0 && !deps_resolve(config.steps@) ==> exists|i: int, k: int|
                {
                    &&& #[trigger] first_unresolved_at(config.steps@, i, k)
                    &&& r.0@.phase == (LoopPhase::Finished {
                        end: LoopEnd::Unresolved { child: i as usize, dependency: k as usize },
                    })
                    &&& r.1.directive == (LoopDirective::Finish {
                        end: LoopEnd::Unresolved { child: i as usize, dependency: k as usize },
                    })
                    &&& r.1.events@.len() == 0
                    &&& (r.1.error matches Some(
                        StepError::UnresolvedLoopDependency { step, dependency },
                    ) && step@ == config.steps@[i].id@ && dependency@ == deps(config.steps@[i])[k])
                },
    {
        let done = none_done(config.steps.len());
        let mut events: Vec<EngineEvent> = Vec::new();
        if matches.len() == 0 {
            let mut line = String::from_str("no files match the loop pattern: ");
            line.append(pattern);
            events.push(log_step(step_id, line.as_str()));
            let end = LoopEnd::Completed;
            let run = LoopRun { config, matches, entry: 0, done, phase: LoopPhase::Finished { end } };
            proof {
                assert(event_views(events@) =~= seq![log_event(step_id@, no_match_line(pattern@))]);
            }
            return (run, LoopMove { directive: LoopDirective::Finish { end }, events, error: None });
        }
        match find_unresolved_dependency(&config.steps) {
            Some((child, dependency)) => {
                let end = LoopEnd::Unresolved { child, dependency };
                let error = StepError::UnresolvedLoopDependency {
                    step: config.steps[child].id.clone(),
                    dependency: config.steps[child].depends_on[dependency].clone(),
                };
                let run = LoopRun {
                    config,
                    matches,
                    entry: 0,
                    done,
                    phase: LoopPhase::Finished { end },
                };
                proof {
                    assert(first_unresolved_at(config.steps@, child as int, dependency as int));
                    assert(deps(config.steps@[child as int])[dependency as int]
                        == config.steps@[child as int].depends_on@[dependency as int]@);
                }
                (
                    run,
                    LoopMove { directive: LoopDirective::Finish { end }, events, error: Some(error) },
                )
            },
            None => {
                let run = LoopRun { config, matches, entry: 0, done, phase: LoopPhase::IterationStart };
                (run, LoopMove { directive: LoopDirective::Again, events, error: None })
            },
        }
    }

    /// Whether every child that the child at `i` depends on is done.
    fn deps_done(&self, i: usize) -> (yes: bool)
        requires
            self.wf(),
            i < self.children().len(),
        ensures
            yes == (forall|k: int|
                0 <= k < deps(self.children()[i as int]).len() ==> dep_done(
                    self.children(),
                    self@.done,
                    #[trigger] deps(self.children()[i as int])[k],
                )),
    {
        let list = &self.config.steps[i].depends_on;
        let mut k: usize = 0;
        while k < list.len()
            invariant
                self.wf(),
                i < self.children().len(),
                list == self.children()[i as int].depends_on,
                k <= list.len(),
                forall|m: int|
                    0 <= m < k ==> dep_done(
                        self.children(),
                        self@.done,
                        #[trigger] deps(self.children()[i as int])[m],
                    ),
            decreases list.len() - k,
        {
            proof {
                assert(deps(self.children()[i as int])[k as int] == list@[k as int]@);
            }
            if !self.is_done(list[k].as_str()) {
                return false;
            }
            k += 1;
        }
        true
    }

    /// Whether a child named `dep` is done.
    fn is_done(&self, dep: &str) -> (yes: bool)
        requires
            self.wf(),
        ensures
            yes == dep_done(self.children(), self@.done, dep@),
    {
        let mut j: usize = 0;
        while j < self.config.steps.len()
            invariant
                self.wf(),
                j <= self.children().len(),
                forall|m: int|
                    0 <= m < j ==> !(#[trigger] step_named(self.children(), m, dep@)
                        && self@.done[m]),
            decreases self.children().len() - j,
        {
            if self.done[j] && str_eq(self.config.steps[j].id.as_str(), dep) {
                assert(step_named(self.children(), j as int, dep@));
                return true;
            }
            j += 1;
        }
        false
    }

    /// The first child that is ready, if there is one.
    fn first_ready(&self) -> (found: Option<usize>)
        requires
            self.wf(),
        ensures
            match found {
                Some(i) => first_ready_at(self.children(), self@.done, i as int),
                None => none_ready(self.children(), self@.done),
            },
    {
        let mut i: usize = 0;
        while i < self.config.steps.len()
            invariant
                self.wf(),
                i <= self.children().len(),
                forall|j: int| 0 <= j < i ==> !child_ready(self.children(), self@.done, j),
            decreases self.children().len() - i,
        {
            if !self.done[i] && self.deps_done(i) {
                return Some(i);
            }
            i += 1;
        }
        None
    }

    /// Whether every child is done.
    fn every_child_done(&self) -> (yes: bool)
        ensures
            yes == all_done(self@.done),
    {
        let mut j: usize = 0;
        while j < self.done.len()
            invariant
                j <= self.done@.len(),
                forall|m: int| 0 <= m < j ==> #[trigger] self@.done[m],
            decreases self.done@.len() - j,
        {
            if !self.done[j] {
                return false;
            }
            j += 1;
        }
        true
    }

    /// Goes on to the next match, or ends the loop after the last one.
    fn advance(&mut self) -> (directive: LoopDirective)
        requires
            old(self).wf(),
            !(old(self)@.phase is Finished),
        ensures
            final(self).wf(),
            final(self).config() == old(self).config(),
            final(self).matches() == old(self).matches(),
            (final(self)@, directive) == advanced(old(self)@, old(self).matches().len()),
    {
        let n = self.matches.len();
        if self.entry + 1 < n {
            self.entry = self.entry + 1;
            self.done = none_done(self.config.steps.len());
            self.phase = LoopPhase::IterationStart;
            LoopDirective::Again
        } else {
            let end = LoopEnd::Completed;
            self.phase = LoopPhase::Finished { end };
            LoopDirective::Finish { end }
        }
    }

    /// Says what the driver is to do next.
    ///
    /// At the start of an iteration a cancelled run ends the loop in
    /// failure; otherwise the current match is bound to the loop's variable
    /// and logged. Within an iteration the first child that is ready is
    /// handed out. When no child is ready, the iteration is over if every
    /// child is done, and the loop goes on to the next match or ends; if not
    /// every child is done the children wait for each other, and the loop
    /// ends in failure. While a child runs, the same child is handed out
    /// again. A loop that has ended stays ended.
    pub fn next(&mut self, ctx: &mut ExecutionContext, cancelled: bool, step_id: &str) -> (m:
        LoopMove)
        requires
            old(self).wf(),
        ensures
            final(self).wf(),
            final(self).config() == old(self).config(),
            final(self).matches() == old(self).matches(),
            final(ctx).env() == old(ctx).env(),
            match old(self)@.phase {
                LoopPhase::Finished { end } => {
                    &&& final(self)@ == old(self)@
                    &&& m.directive == (LoopDirective::Finish { end })
                    &&& m.events@.len() == 0
                    &&& m.error is None
                    &&& final(ctx).vars() == old(ctx).vars()
                },
                LoopPhase::Awaiting { index } => {
                    &&& final(self)@ == old(self)@
                    &&& m.directive == (LoopDirective::RunChild { index })
                    &&& m.events@.len() == 0
                    &&& m.error is None
                    &&& final(ctx).vars() == old(ctx).vars()
                },
                LoopPhase::IterationStart => if cancelled {
                    &&& final(self)@ == (LoopView {
                        phase: LoopPhase::Finished { end: LoopEnd::Cancelled },
                        ..old(self)@
                    })
                    &&& m.directive == (LoopDirective::Finish { end: LoopEnd::Cancelled })
                    &&& m.events@.len() == 0
                    &&& m.error matches Some(StepError::LoopCancelled)
                    &&& final(ctx).vars() == old(ctx).vars()
                } else {
                    &&& final(self)@ == (LoopView { phase: LoopPhase::Children, ..old(self)@ })
                    &&& m.directive == LoopDirective::Again
                    &&& event_views(m.events@) == seq![
                        log_event(
                            step_id@,
                            iteration_line(
                                old(self).config().as_var@,
                                old(self).matches()[old(self)@.entry],
                            ),
                        ),
                    ]
                    &&& m.error is None
                    &&& final(ctx).vars() == old(ctx).vars().insert(
                        old(self).config().as_var@,
                        old(self).matches()[old(self)@.entry],
                    )
                },
                LoopPhase::Children => {
                    &&& final(ctx).vars() == old(ctx).vars()
                    &&& (forall|i: int|
                        first_ready_at(old(self).children(), old(self)@.done, i) ==> {
                            &&& final(self)@ == (LoopView {
                                phase: LoopPhase::Awaiting { index: i as usize },
                                ..old(self)@
                            })
                            &&& m.directive == (LoopDirective::RunChild { index: i as usize })
                            &&& event_views(m.events@) == seq![
                                log_event(step_id@, child_line(old(self).children()[i].name@)),
                            ]
                            &&& m.error is None
                        })
                    &&& (none_ready(old(self).children(), old(self)@.done) && all_done(
                        old(self)@.done,
                    ) ==> {
                        &&& (final(self)@, m.directive) == advanced(
                            old(self)@,
                            old(self).matches().len(),
                        )
                        &&& m.events@.len() == 0
                        &&& m.error is None
                    })
                    &&& (none_ready(old(self).children(), old(self)@.done) && !all_done(
                        old(self)@.done,
                    ) ==> {
                        &&& final(self)@ == (LoopView {
                            phase: LoopPhase::Finished { end: LoopEnd::Stalled },
                            ..old(self)@
                        })
                        &&& m.directive == (LoopDirective::Finish { end: LoopEnd::Stalled })
                        &&& m.events@.len() == 0
                        &&& m.error matches Some(StepError::LoopStalled)
                    })
                },
            },
    {
        let mut events: Vec<EngineEvent> = Vec::new();
        match self.phase {
            LoopPhase::Finished { end } => LoopMove {
                directive: LoopDirective::Finish { end },
                events,
                error: None,
            },
            LoopPhase::Awaiting { index } => LoopMove {
                directive: LoopDirective::RunChild { index },
                events,
                error: None,
            },
            LoopPhase::IterationStart => {
                if cancelled {
                    let end = LoopEnd::Cancelled;
                    self.phase = LoopPhase::Finished { end };
                    return LoopMove {
                        directive: LoopDirective::Finish { end },
                        events,
                        error: Some(StepError::LoopCancelled),
                    };
                }
                let value = &self.matches[self.entry];
                proof {
                    assert(self.matches()[self.entry as int] == value@);
                }
                ctx.set_var(self.config.as_var.as_str(), value.as_str());
                let mut line = String::from_str("loop variable ");
                line.append(self.config.as_var.as_str());
                line.append(" = ");
                line.append(value.as_str());
                events.push(log_step(step_id, line.as_str()));
                proof {
                    assert(event_views(events@) =~= seq![
                        log_event(step_id@, iteration_line(self.config().as_var@, value@)),
                    ]);
                }
                self.phase = LoopPhase::Children;
                LoopMove { directive: LoopDirective::Again, events, error: None }
            },
            LoopPhase::Children => {
                match self.first_ready() {
                    Some(index) => {
                        let mut line = String::from_str("running loop step '");
                        line.append(self.config.steps[index].name.as_str());
                        line.append("'");
                        events.push(log_step(step_id, line.as_str()));
                        proof {
                            assert(event_views(events@) =~= seq![
                                log_event(
                                    step_id@,
                                    child_line(self.children()[index as int].name@),
                                ),
                            ]);
                            assert forall|i: int|
                                first_ready_at(
                                    self.children(),
                                    self@.done,
                                    i,
                                ) implies i == index by {
                                if i < index {
                                    assert(!child_ready(self.children(), self@.done, i));
                                }
                                if index < i {
                                    assert(!child_ready(self.children(), self@.done, index as int));
                                }
                            }
                        }
                        self.phase = LoopPhase::Awaiting { index };
                        LoopMove { directive: LoopDirective::RunChild { index }, events, error: None }
                    },
                    None => {
                        if self.every_child_done() {
                            let directive = self.advance();
                            LoopMove { directive, events, error: None }
                        } else {
                            let end = LoopEnd::Stalled;
                            self.phase = LoopPhase::Finished { end };
                            LoopMove {
                                directive: LoopDirective::Finish { end },
                                events,
                                error: Some(StepError::LoopStalled),
                            }
                        }
                    },
                }
            },
        }
    }

    /// Records the result of the child that ran. A child that succeeded is
    /// done, and the iteration goes on. A child that failed ends the loop in
    /// failure where the loop stops at the first failure; where the loop
    /// goes on, the failure is logged and the loop turns to the next match,
    /// or ends after the last one. A result that comes while no child runs
    /// changes nothing.
    pub fn child_done(&mut self, result: StepRunResult, step_id: &str) -> (m: LoopMove)
        requires
            old(self).wf(),
        ensures
            final(self).wf(),
            final(self).config() == old(self).config(),
            final(self).matches() == old(self).matches(),
            match old(self)@.phase {
                LoopPhase::Awaiting { index } => match result@ {
                    RunResultView::Success => {
                        &&& final(self)@ == (LoopView {
                            done: old(self)@.done.update(index as int, true),
                            phase: LoopPhase::Children,
                            ..old(self)@
                        })
                        &&& m.directive == LoopDirective::Again
                        &&& m.events@.len() == 0
                        &&& m.error is None
                    },
                    RunResultView::Failed(reason) => match old(
                        self,
                    ).config().iteration_failure_policy {
                        IterationFailurePolicy::StopAll => {
                            &&& final(self)@ == (LoopView {
                                phase: LoopPhase::Finished {
                                    end: LoopEnd::ChildFailed { index },
                                },
                                ..old(self)@
                            })
                            &&& m.directive == (LoopDirective::Finish {
                                end: LoopEnd::ChildFailed { index },
                            })
                            &&& m.events@.len() == 0
                            &&& (m.error matches Some(StepError::ChildFailed { step, reason: why })
                                && step@ == old(self).children()[index as int].name@ && why@
                                == reason)
                        },
                        IterationFailurePolicy::Continue => {
                            &&& (final(self)@, m.directive) == advanced(
                                old(self)@,
                                old(self).matches().len(),
                            )
                            &&& event_views(m.events@) == seq![
                                log_event(
                                    step_id@,
                                    child_failure_line(
                                        old(self).children()[index as int].name@,
                                        reason,
                                    ),
                                ),
                            ]
                            &&& m.error is None
                        },
                    },
                },
                _ => {
                    &&& final(self)@ == old(self)@
                    &&& m.directive == LoopDirective::Again
                    &&& m.events@.len() == 0
                    &&& m.error is None
                },
            },
    {
        let mut events: Vec<EngineEvent> = Vec::new();
        let index = match self.phase {
            LoopPhase::Awaiting { index } => index,
            _ => {
                return LoopMove { directive: LoopDirective::Again, events, error: None };
            },
        };
        match result {
            StepRunResult::Success => {
                self.done.set(index, true);
                self.phase = LoopPhase::Children;
                LoopMove { directive: LoopDirective::Again, events, error: None }
            },
            StepRunResult::Failed(reason) => {
                let name = &self.config.steps[index].name;
                match self.config.iteration_failure_policy {
                    IterationFailurePolicy::StopAll => {
                        let end = LoopEnd::ChildFailed { index };
                        self.phase = LoopPhase::Finished { end };
                        LoopMove {
                            directive: LoopDirective::Finish { end },
                            events,
                            error: Some(StepError::ChildFailed { step: name.clone(), reason }),
                        }
                    },
                    IterationFailurePolicy::Continue => {
                        let mut line = String::from_str("loop step '");
                        line.append(name.as_str());
                        line.append("' failed: ");
                        line.append(reason.as_str());
                        line.append(", continuing with the next match");
                        events.push(log_step(step_id, line.as_str()));
                        proof {
                            assert(event_views(events@) =~= seq![
                                log_event(
                                    step_id@,
                                    child_failure_line(
                                        self.children()[index as int].name@,
                                        reason@,
                                    ),
                                ),
                            ]);
                        }
                        let directive = self.advance();
                        LoopMove { directive, events, error: None }
                    },
                }
            },
        }
    }
}

/// What the end of an iteration leads to: the start of the next one, with no
/// child done, or, after the last match, the end of the loop.
pub open spec fn advanced(s: LoopView, matches: nat) -> (LoopView, LoopDirective) {
    if s.entry + 1 < matches {
        (
            LoopView {
                entry: s.entry + 1,
                done: Seq::new(s.done.len(), |j: int| false),
                phase: LoopPhase::IterationStart,
            },
            LoopDirective::Again,
        )
    } else {
        (
            LoopView { phase: LoopPhase::Finished { end: LoopEnd::Completed }, ..s },
            LoopDirective::Finish { end: LoopEnd::Completed },
        )
    }
}

/// Below a child that is not done there is a child that is ready: the
/// child itself, or one that it depends on.
proof fn lemma_undone_leads_to_ready(steps: Seq<Step>, done: Seq<bool>, rank: Seq<nat>, i: int)
    requires
        done.len() == steps.len(),
        deps_resolve(steps),
        respects(steps, rank),
        0 <= i < steps.len(),
        !done[i],
    ensures
        exists|r: int| child_ready(steps, done, r),
    decreases rank[i],
{
    if forall|k: int|
        0 <= k < deps(steps[i]).len() ==> dep_done(steps, done, #[trigger] deps(steps[i])[k]) {
        assert(child_ready(steps, done, i));
    } else {
        let k = choose|k: int|
            0 <= k < deps(steps[i]).len() && !dep_done(steps, done, #[trigger] deps(steps[i])[k]);
        let d = deps(steps[i])[k];
        assert(dep_known(steps, d));
        let j = choose|j: int| #[trigger] step_named(steps, j, d);
        assert(depends_on_step(steps, i, j));
        assert(!done[j]);
        lemma_undone_leads_to_ready(steps, done, rank, j);
    }
}

/// A loop whose children depend on their siblings only, and not in a
/// circle, never stalls: while a child is not done, some child is ready.
pub proof fn lemma_loop_never_stalls(steps: Seq<Step>, done: Seq<bool>)
    requires
        done.len() == steps.len(),
        deps_resolve(steps),
        acyclic(steps),
        !all_done(done),
    ensures
        !none_ready(steps, done),
{
    let rank = choose|rank: Seq<nat>| respects(steps, rank);
    let i = choose|i: int| 0 <= i < done.len() && !#[trigger] done[i];
    lemma_undone_leads_to_ready(steps, done, rank, i);
}

} // verus!
