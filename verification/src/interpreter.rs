//! Interpreter: converts a validated document into an executable plan of
//! ordered steps, each bound to a declared tool positionally or by keyword
//! matching, with sequential dependencies; plus the out-of-band execution
//! state tracker mutated by the hosting runtime.

use vstd::prelude::*;
use crate::errors::ApexResult;
use crate::text::{
    chars_of, contains_chars, contains_str, lower_chars, push_deep, spec_contains, spec_lower,
};
use crate::validate::{ToolDeclV, ToolDeclaration, ValidatedDocument, ValidatedV};

verus! {

// --- Execution state model ---

/// Status of a single execution step.
#[derive(Debug, Clone, Copy, PartialEq, Eq, Structural)]
pub enum StepStatus {
    /// Step has not started
    Pending,
    /// Step is currently executing
    Running,
    /// Step completed successfully
    Complete,
    /// Step failed with an error
    Failed,
    /// Step was skipped (due to earlier failure or constraint)
    Skipped,
}

impl View for StepStatus {
    type V = StepStatus;

    open spec fn view(&self) -> StepStatus {
        *self
    }
}

impl DeepView for StepStatus {
    type V = StepStatus;

    open spec fn deep_view(&self) -> StepStatus {
        *self
    }
}

impl Default for StepStatus {
    /// A step starts out pending.
    fn default() -> (r: StepStatus)
        ensures
            r == StepStatus::Pending,
    {
        StepStatus::Pending
    }
}

impl StepStatus {
    /// Check if the step is in a terminal state.
    pub fn is_terminal(&self) -> (r: bool)
        ensures
            r == (*self is Complete || *self is Failed || *self is Skipped),
    {
        matches!(self, StepStatus::Complete | StepStatus::Failed | StepStatus::Skipped)
    }

    /// Check if the step can be resumed.
    pub fn can_resume(&self) -> (r: bool)
        ensures
            r == (*self is Pending || *self is Failed),
    {
        matches!(self, StepStatus::Pending | StepStatus::Failed)
    }
}

/// Mathematical model of an [`ExecutionState`].
pub struct StateV {
    pub step_states: Seq<StepStatus>,
    pub checkpoint: usize,
    pub tool_results: Seq<Option<Seq<char>>>,
    pub validation_outcomes: Seq<bool>,
    pub paused: bool,
    pub error: Option<Seq<char>>,
}

/// Execution state for tracking plan progress, stored out of band and
/// mutated by the hosting runtime through the step-transition operations.
#[derive(Debug, Clone)]
pub struct ExecutionState {
    /// Status of each step (indexed by step_number - 1)
    pub step_states: Vec<StepStatus>,
    /// Index of last completed step (0 = none completed)
    pub checkpoint: usize,
    /// Tool results for completed steps
    pub tool_results: Vec<Option<String>>,
    /// Validation outcomes
    pub validation_outcomes: Vec<bool>,
    /// Whether execution is paused
    pub paused: bool,
    /// Error message if execution failed
    pub error: Option<String>,
}

impl View for ExecutionState {
    type V = StateV;

    open spec fn view(&self) -> StateV {
        StateV {
            step_states: self.step_states.deep_view(),
            checkpoint: self.checkpoint,
            tool_results: self.tool_results.deep_view(),
            validation_outcomes: self.validation_outcomes.deep_view(),
            paused: self.paused,
            error: match self.error {
                Some(ref e) => Some(e@),
                None => None,
            },
        }
    }
}

impl ExecutionState {
    /// Create the initial state for a plan with `num_steps` steps: every
    /// step pending, no results, checkpoint at zero.
    pub fn new(num_steps: usize) -> (r: ExecutionState)
        ensures
            r@.step_states.len() == num_steps,
            forall|i: int| 0 <= i < num_steps ==> r@.step_states[i] == StepStatus::Pending,
            r@.checkpoint == 0,
            r@.tool_results.len() == num_steps,
            forall|i: int| 0 <= i < num_steps ==> r@.tool_results[i] is None,
            r@.validation_outcomes.len() == 0,
            r@.paused == false,
            r@.error is None,
    {
        let mut step_states: Vec<StepStatus> = Vec::new();
        let mut tool_results: Vec<Option<String>> = Vec::new();
        let mut i: usize = 0;
        while i < num_steps
            invariant
                i <= num_steps,
                step_states.deep_view().len() == i,
                forall|k: int| 0 <= k < i ==> step_states.deep_view()[k] == StepStatus::Pending,
                tool_results.deep_view().len() == i,
                forall|k: int| 0 <= k < i ==> tool_results.deep_view()[k] is None,
            decreases num_steps - i,
        {
            push_deep(&mut step_states, StepStatus::Pending);
            push_deep(&mut tool_results, None);
            i = i + 1;
        }
        ExecutionState {
            step_states,
            checkpoint: 0,
            tool_results,
            validation_outcomes: Vec::new(),
            paused: false,
            error: None,
        }
    }

    /// The current step index (0-based).
    pub fn current_step(&self) -> (r: usize)
        ensures
            r == self@.checkpoint,
    {
        self.checkpoint
    }

    /// Whether every step has reached a terminal state.
    pub fn is_complete(&self) -> (r: bool)
        ensures
            r == forall|i: int|
                0 <= i < self@.step_states.len() ==> (#[trigger] self@.step_states[i] is Complete
                    || self@.step_states[i] is Failed || self@.step_states[i] is Skipped),
    {
        let n = self.step_states.len();
        let mut i: usize = 0;
        while i < n
            invariant
                i <= n,
                n == self.step_states@.len(),
                self@.step_states.len() == n,
                forall|k: int|
                    0 <= k < n ==> self@.step_states[k] == #[trigger] self.step_states@[k],
                forall|k: int|
                    0 <= k < i ==> (#[trigger] self@.step_states[k] is Complete
                        || self@.step_states[k] is Failed || self@.step_states[k] is Skipped),
            decreases n - i,
        {
            if !self.step_states[i].is_terminal() {
                proof {
                    assert(!(self@.step_states[i as int] is Complete));
                    assert(!(self@.step_states[i as int] is Failed));
                    assert(!(self@.step_states[i as int] is Skipped));
                }
                return false;
            }
            i = i + 1;
        }
        true
    }

    /// Whether any step has failed.
    pub fn is_failed(&self) -> (r: bool)
        ensures
            r == exists|i: int|
                0 <= i < self@.step_states.len() && #[trigger] self@.step_states[i] is Failed,
    {
        let n = self.step_states.len();
        let mut i: usize = 0;
        while i < n
            invariant
                i <= n,
                n == self.step_states@.len(),
                self@.step_states.len() == n,
                forall|k: int|
                    0 <= k < n ==> self@.step_states[k] == #[trigger] self.step_states@[k],
                forall|k: int| 0 <= k < i ==> !(#[trigger] self@.step_states[k] is Failed),
            decreases n - i,
        {
            if matches!(self.step_states[i], StepStatus::Failed) {
                proof {
                    assert(0 <= i < self@.step_states.len());
                    assert(self@.step_states[i as int] is Failed);
                }
                return true;
            }
            i = i + 1;
        }
        false
    }

    /// Mark a step as running; out-of-range step numbers change nothing.
    pub fn start_step(&mut self, step: usize)
        ensures
            final(self)@ == (StateV {
                step_states: if step < old(self)@.step_states.len() {
                    old(self)@.step_states.update(step as int, StepStatus::Running)
                } else {
                    old(self)@.step_states
                },
                ..old(self)@
            }),
    {
        if step < self.step_states.len() {
            let ghost pre = self.step_states.deep_view();
            self.step_states[step] = StepStatus::Running;
            proof {
                assert(self.step_states.deep_view() =~= pre.update(
                    step as int,
                    StepStatus::Running,
                ));
            }
        } else {
            proof {
                assert(self@ =~= old(self)@);
            }
        }
    }

    /// Mark a step as complete with an optional result, advancing the
    /// checkpoint past it; out-of-range step numbers change nothing.
    pub fn complete_step(&mut self, step: usize, result: Option<String>)
        ensures
            final(self)@ == (StateV {
                step_states: if step < old(self)@.step_states.len() {
                    old(self)@.step_states.update(step as int, StepStatus::Complete)
                } else {
                    old(self)@.step_states
                },
                checkpoint: if step < old(self)@.step_states.len() {
                    (step + 1) as usize
                } else {
                    old(self)@.checkpoint
                },
                tool_results: if step < old(self)@.step_states.len() && step < old(
                    self,
                )@.tool_results.len() {
                    old(self)@.tool_results.update(
                        step as int,
                        match result {
                            Some(ref s) => Some(s@),
                            None => None,
                        },
                    )
                } else {
                    old(self)@.tool_results
                },
                ..old(self)@
            }),
    {
        if step < self.step_states.len() {
            let ghost pres = self.step_states.deep_view();
            let ghost prer = self.tool_results.deep_view();
            self.step_states[step] = StepStatus::Complete;
            proof {
                assert(self.step_states.deep_view() =~= pres.update(
                    step as int,
                    StepStatus::Complete,
                ));
            }
            if step < self.tool_results.len() {
                let ghost rv = match result {
                    Some(ref s) => Some(s@),
                    None => None,
                };
                self.tool_results[step] = result;
                proof {
                    assert(self.tool_results.deep_view() =~= prer.update(step as int, rv));
                }
            }
            self.checkpoint = step + 1;
        } else {
            proof {
                assert(self@ =~= old(self)@);
            }
        }
    }

    /// Mark a step as failed, recording the error; out-of-range step numbers
    /// change nothing.
    pub fn fail_step(&mut self, step: usize, error: String)
        ensures
            final(self)@ == (StateV {
                step_states: if step < old(self)@.step_states.len() {
                    old(self)@.step_states.update(step as int, StepStatus::Failed)
                } else {
                    old(self)@.step_states
                },
                error: if step < old(self)@.step_states.len() {
                    Some(error@)
                } else {
                    old(self)@.error
                },
                ..old(self)@
            }),
    {
        if step < self.step_states.len() {
            let ghost pre = self.step_states.deep_view();
            self.step_states[step] = StepStatus::Failed;
            self.error = Some(error);
            proof {
                assert(self.step_states.deep_view() =~= pre.update(
                    step as int,
                    StepStatus::Failed,
                ));
            }
        } else {
            proof {
                assert(self@ =~= old(self)@);
            }
        }
    }

    /// Mark a step as skipped; out-of-range step numbers change nothing.
    pub fn skip_step(&mut self, step: usize)
        ensures
            final(self)@ == (StateV {
                step_states: if step < old(self)@.step_states.len() {
                    old(self)@.step_states.update(step as int, StepStatus::Skipped)
                } else {
                    old(self)@.step_states
                },
                ..old(self)@
            }),
    {
        if step < self.step_states.len() {
            let ghost pre = self.step_states.deep_view();
            self.step_states[step] = StepStatus::Skipped;
            proof {
                assert(self.step_states.deep_view() =~= pre.update(
                    step as int,
                    StepStatus::Skipped,
                ));
            }
        } else {
            proof {
                assert(self@ =~= old(self)@);
            }
        }
    }
}

impl Default for ExecutionState {
    /// The state of an empty plan.
    fn default() -> (r: ExecutionState)
        ensures
            r@.step_states.len() == 0,
            r@.checkpoint == 0,
            r@.tool_results.len() == 0,
            r@.validation_outcomes.len() == 0,
            r@.paused == false,
            r@.error is None,
    {
        ExecutionState::new(0)
    }
}

// --- Plan structures ---

/// Mathematical model of a [`ToolInvocation`].
pub struct ToolInvV {
    pub name: Seq<char>,
    pub raw_arguments: Option<Seq<char>>,
}

/// Tool invocation in an execution plan.
#[derive(Debug, Clone)]
pub struct ToolInvocation {
    /// Tool name
    pub name: String,
    /// Raw arguments (unparsed)
    pub raw_arguments: Option<String>,
}

impl View for ToolInvocation {
    type V = ToolInvV;

    open spec fn view(&self) -> ToolInvV {
        ToolInvV {
            name: self.name@,
            raw_arguments: match self.raw_arguments {
                Some(ref a) => Some(a@),
                None => None,
            },
        }
    }
}

impl DeepView for ToolInvocation {
    type V = ToolInvV;

    open spec fn deep_view(&self) -> ToolInvV {
        self@
    }
}

/// The invocation a declaration converts to.
pub open spec fn spec_inv_of_decl(d: ToolDeclV) -> ToolInvV {
    ToolInvV { name: d.name, raw_arguments: d.arguments }
}

impl ToolInvocation {
    /// Create an invocation from a tool declaration.
    pub fn from_declaration(decl: &ToolDeclaration) -> (r: ToolInvocation)
        ensures
            r@ == spec_inv_of_decl(decl@),
    {
        ToolInvocation {
            name: decl.name.clone(),
            raw_arguments: match &decl.arguments {
                Some(a) => Some(a.clone()),
                None => None,
            },
        }
    }
}

/// A fresh copy of an invocation.
fn dup_tool(t: &ToolInvocation) -> (r: ToolInvocation)
    ensures
        r@ == t@,
{
    ToolInvocation {
        name: t.name.clone(),
        raw_arguments: match &t.raw_arguments {
            Some(a) => Some(a.clone()),
            None => None,
        },
    }
}

/// Mathematical model of an [`ExecutionStep`].
pub struct StepV {
    pub step_number: usize,
    pub description: Seq<char>,
    pub tool: Option<ToolInvV>,
    pub depends_on: Seq<usize>,
}

/// Single execution step.
#[derive(Debug, Clone)]
pub struct ExecutionStep {
    /// Step number (1-indexed)
    pub step_number: usize,
    /// Step description from PLAN
    pub description: String,
    /// Associated tool invocation (if any)
    pub tool: Option<ToolInvocation>,
    /// Dependencies (step numbers that must complete first)
    pub depends_on: Vec<usize>,
}

impl View for ExecutionStep {
    type V = StepV;

    open spec fn view(&self) -> StepV {
        StepV {
            step_number: self.step_number,
            description: self.description@,
            tool: match self.tool {
                Some(ref t) => Some(t@),
                None => None,
            },
            depends_on: self.depends_on@,
        }
    }
}

impl DeepView for ExecutionStep {
    type V = StepV;

    open spec fn deep_view(&self) -> StepV {
        self@
    }
}

impl ExecutionStep {
    /// Create a new step with no tool and no dependencies.
    pub fn new(step_number: usize, description: String) -> (r: ExecutionStep)
        ensures
            r@ == (StepV {
                step_number,
                description: description@,
                tool: None,
                depends_on: Seq::empty(),
            }),
    {
        let r = ExecutionStep { step_number, description, tool: None, depends_on: Vec::new() };
        proof {
            assert(r@.depends_on =~= Seq::<usize>::empty());
        }
        r
    }

    /// The step with a tool invocation attached.
    pub fn with_tool(self, tool: ToolInvocation) -> (r: ExecutionStep)
        ensures
            r@ == (StepV { tool: Some(tool@), ..self@ }),
    {
        ExecutionStep { tool: Some(tool), ..self }
    }

    /// The step with one more dependency appended.
    pub fn depends_on(self, step: usize) -> (r: ExecutionStep)
        ensures
            r@ == (StepV { depends_on: self@.depends_on.push(step), ..self@ }),
    {
        let mut s = self;
        s.depends_on.push(step);
        s
    }
}

/// Mathematical model of an [`ExecutionPlan`].
pub struct PlanV {
    pub task: Seq<char>,
    pub goals: Seq<Seq<char>>,
    pub constraints: Seq<Seq<char>>,
    pub steps: Seq<StepV>,
    pub validation: Seq<Seq<char>>,
    pub available_tools: Seq<ToolInvV>,
}

/// Complete execution plan.
#[derive(Debug, Clone)]
pub struct ExecutionPlan {
    /// Task description
    pub task: String,
    /// Goals to achieve
    pub goals: Vec<String>,
    /// Constraints to respect
    pub constraints: Vec<String>,
    /// Ordered execution steps
    pub steps: Vec<ExecutionStep>,
    /// Validation conditions to check after execution
    pub validation: Vec<String>,
    /// Available tools
    pub available_tools: Vec<ToolInvocation>,
}

impl View for ExecutionPlan {
    type V = PlanV;

    open spec fn view(&self) -> PlanV {
        PlanV {
            task: self.task@,
            goals: self.goals.deep_view(),
            constraints: self.constraints.deep_view(),
            steps: self.steps.deep_view(),
            validation: self.validation.deep_view(),
            available_tools: self.available_tools.deep_view(),
        }
    }
}

impl ExecutionPlan {
    /// Check if the plan has no steps.
    pub fn is_empty(&self) -> (r: bool)
        ensures
            r == (self@.steps.len() == 0),
    {
        self.steps.len() == 0
    }

    /// The total step count.
    pub fn step_count(&self) -> (r: usize)
        ensures
            r == self@.steps.len(),
    {
        self.steps.len()
    }

    /// The steps with no dependencies, which can start immediately.
    pub fn initial_steps(&self) -> (r: Vec<&ExecutionStep>)
        ensures
            r.deep_view() == self@.steps.filter(|s: StepV| s.depends_on.len() == 0),
    {
        let n = self.steps.len();
        let mut r: Vec<&ExecutionStep> = Vec::new();
        let mut i: usize = 0;
        proof {
            reveal(Seq::filter);
            assert(self@.steps.take(0) =~= Seq::<StepV>::empty());
            assert(r.deep_view() =~= self@.steps.take(0).filter(
                |s: StepV| s.depends_on.len() == 0,
            ));
        }
        while i < n
            invariant
                i <= n,
                n == self.steps@.len(),
                self@.steps.len() == n,
                forall|k: int| 0 <= k < n ==> self@.steps[k] == #[trigger] self.steps@[k]@,
                r.deep_view() == self@.steps.take(i as int).filter(
                    |s: StepV| s.depends_on.len() == 0,
                ),
            decreases n - i,
        {
            let ghost dr = r.deep_view();
            let ghost rv = r@;
            if self.steps[i].depends_on.len() == 0 {
                r.push(&self.steps[i]);
                proof {
                    assert forall|k: int| 0 <= k < r@.len() implies r@[k].deep_view() == dr.push(
                        self@.steps[i as int],
                    )[k] by {
                        if k < rv.len() {
                            assert(r@[k] == rv[k]);
                        }
                    }
                    assert(r.deep_view() =~= dr.push(self@.steps[i as int]));
                }
            }
            i = i + 1;
            proof {
                reveal(Seq::filter);
                let cur = self@.steps.take(i as int);
                assert(cur.drop_last() =~= self@.steps.take(i - 1));
                assert(cur.last() == self@.steps[i - 1]);
            }
        }
        proof {
            assert(self@.steps.take(n as int) =~= self@.steps);
        }
        r
    }

    /// The steps that depend on the given step number.
    pub fn dependents(&self, step_number: usize) -> (r: Vec<&ExecutionStep>)
        ensures
            r.deep_view() == self@.steps.filter(
                |s: StepV| s.depends_on.contains(step_number),
            ),
    {
        let n = self.steps.len();
        let mut r: Vec<&ExecutionStep> = Vec::new();
        let mut i: usize = 0;
        proof {
            reveal(Seq::filter);
            assert(self@.steps.take(0) =~= Seq::<StepV>::empty());
            assert(r.deep_view() =~= self@.steps.take(0).filter(
                |s: StepV| s.depends_on.contains(step_number),
            ));
        }
        while i < n
            invariant
                i <= n,
                n == self.steps@.len(),
                self@.steps.len() == n,
                forall|k: int| 0 <= k < n ==> self@.steps[k] == #[trigger] self.steps@[k]@,
                r.deep_view() == self@.steps.take(i as int).filter(
                    |s: StepV| s.depends_on.contains(step_number),
                ),
            decreases n - i,
        {
            let ghost dr = r.deep_view();
            let ghost rv = r@;
            let deps = &self.steps[i].depends_on;
            let m = deps.len();
            let mut j: usize = 0;
            let mut found = false;
            while j < m
                invariant
                    j <= m,
                    m == deps@.len(),
                    found ==> deps@.contains(step_number),
                    !found ==> forall|k: int| 0 <= k < j ==> deps@[k] != step_number,
                decreases m - j,
            {
                if deps[j] == step_number {
                    found = true;
                }
                j = j + 1;
            }
            proof {
                if !found {
                    assert(!deps@.contains(step_number));
                }
            }
            if found {
                r.push(&self.steps[i]);
                proof {
                    assert forall|k: int| 0 <= k < r@.len() implies r@[k].deep_view() == dr.push(
                        self@.steps[i as int],
                    )[k] by {
                        if k < rv.len() {
                            assert(r@[k] == rv[k]);
                        }
                    }
                    assert(r.deep_view() =~= dr.push(self@.steps[i as int]));
                }
            }
            i = i + 1;
            proof {
                reveal(Seq::filter);
                let cur = self@.steps.take(i as int);
                assert(cur.drop_last() =~= self@.steps.take(i - 1));
                assert(cur.last() == self@.steps[i - 1]);
            }
        }
        proof {
            assert(self@.steps.take(n as int) =~= self@.steps);
        }
        r
    }
}

// --- Plan construction ---

/// The invocation list of an optional TOOLS view.
pub open spec fn spec_tool_invs(tools: Option<Seq<ToolDeclV>>) -> Seq<ToolInvV> {
    match tools {
        Some(ts) => ts.map_values(|d: ToolDeclV| spec_inv_of_decl(d)),
        None => Seq::empty(),
    }
}

/// Whether a tool fits a step description: the case-folded name occurs in
/// the case-folded description, or both mention one of the verbs read,
/// write, search, edit.
pub open spec fn spec_tool_matches(desc: Seq<char>, tool: ToolInvV) -> bool {
    let dl = spec_lower(desc);
    let tl = spec_lower(tool.name);
    ||| spec_contains(dl, tl)
    ||| (spec_contains(dl, "read"@) && spec_contains(tl, "read"@))
    ||| (spec_contains(dl, "write"@) && spec_contains(tl, "write"@))
    ||| (spec_contains(dl, "search"@) && spec_contains(tl, "search"@))
    ||| (spec_contains(dl, "edit"@) && spec_contains(tl, "edit"@))
}

/// The first declared tool that fits the description, if any.
pub open spec fn spec_match_tool(desc: Seq<char>, tools: Seq<ToolInvV>) -> Option<ToolInvV>
    decreases tools.len(),
{
    if tools.len() == 0 {
        None
    } else if spec_tool_matches(desc, tools[0]) {
        Some(tools[0])
    } else {
        spec_match_tool(desc, tools.drop_first())
    }
}

/// Step `i` (0-based) of the plan: numbered `i+1`, bound positionally when
/// the tool count equals the step count and heuristically otherwise, and
/// depending exactly on the previous step.
pub open spec fn spec_step(steps: Seq<Seq<char>>, tools: Seq<ToolInvV>, i: int) -> StepV {
    StepV {
        step_number: (i + 1) as usize,
        description: steps[i],
        tool: if tools.len() == steps.len() {
            Some(tools[i])
        } else {
            spec_match_tool(steps[i], tools)
        },
        depends_on: if i == 0 {
            Seq::empty()
        } else {
            seq![i as usize]
        },
    }
}

/// The steps built from an optional PLAN view.
pub open spec fn spec_steps(plan: Option<Seq<Seq<char>>>, tools: Seq<ToolInvV>) -> Seq<StepV> {
    match plan {
        Some(steps) => Seq::new(steps.len(), |i: int| spec_step(steps, tools, i)),
        None => Seq::empty(),
    }
}

/// The plan a validated document interprets to.
pub open spec fn spec_plan(v: ValidatedV) -> PlanV {
    let tools = spec_tool_invs(v.tools);
    PlanV {
        task: v.task,
        goals: match v.goals {
            Some(g) => g,
            None => Seq::empty(),
        },
        constraints: match v.constraints {
            Some(c) => c,
            None => Seq::empty(),
        },
        steps: spec_steps(v.plan, tools),
        validation: match v.validation {
            Some(c) => c,
            None => Seq::empty(),
        },
        available_tools: tools,
    }
}

/// Positional binding: when a plan declares exactly as many tools as steps,
/// step `i` binds tool `i`, for every plan size.
pub proof fn lemma_positional_binding(steps: Seq<Seq<char>>, tools: Seq<ToolInvV>)
    requires
        tools.len() == steps.len(),
    ensures
        forall|i: int|
            0 <= i < steps.len() ==> (#[trigger] spec_steps(Some(steps), tools)[i]).tool == Some(
                tools[i],
            ),
{
}

/// Step numbers are a dense 1-based sequence matching the plan order.
pub proof fn lemma_step_numbers_dense(steps: Seq<Seq<char>>, tools: Seq<ToolInvV>)
    requires
        steps.len() <= usize::MAX,
    ensures
        spec_steps(Some(steps), tools).len() == steps.len(),
        forall|k: int|
            0 <= k < steps.len() ==> (#[trigger] spec_steps(Some(steps), tools)[k]).step_number
                == k + 1,
{
}

/// Sequential dependencies: the first step depends on nothing, and every
/// later step `k` (0-based) depends exactly on step number `k`.
pub proof fn lemma_sequential_dependencies(steps: Seq<Seq<char>>, tools: Seq<ToolInvV>)
    requires
        steps.len() >= 1,
    ensures
        spec_steps(Some(steps), tools)[0].depends_on =~= Seq::<usize>::empty(),
        forall|k: int|
            1 <= k < steps.len() ==> (#[trigger] spec_steps(Some(steps), tools)[k]).depends_on
                =~= seq![k as usize],
{
}

/// Heuristic tool matching based on step description keywords: the first
/// declared tool that fits, if any.
fn match_tool_to_step(step_desc: &str, tools: &Vec<ToolInvocation>) -> (r: Option<ToolInvocation>)
    ensures
        match spec_match_tool(step_desc@, tools.deep_view()) {
            Some(t) => r matches Some(rt) && rt@ == t,
            None => r is None,
        },
{
    let ghost full = tools.deep_view();
    let dl = lower_chars(&chars_of(step_desc));
    let n = tools.len();
    let mut i: usize = 0;
    proof {
        assert(full.skip(0) =~= full);
    }
    while i < n
        invariant
            i <= n,
            n == tools@.len(),
            full == tools.deep_view(),
            full.len() == n,
            forall|k: int| 0 <= k < n ==> full[k] == #[trigger] tools@[k]@,
            dl@ == spec_lower(step_desc@),
            spec_match_tool(step_desc@, full) == spec_match_tool(
                step_desc@,
                full.skip(i as int),
            ),
        decreases n - i,
    {
        proof {
            assert(full.skip(i as int)[0] == full[i as int]);
            assert(full.skip(i as int).drop_first() =~= full.skip(i + 1));
        }
        let tool = &tools[i];
        let tl = lower_chars(&chars_of(tool.name.as_str()));
        let hit = contains_chars(&dl, &tl) || (contains_str(&dl, "read") && contains_str(
            &tl,
            "read",
        )) || (contains_str(&dl, "write") && contains_str(&tl, "write")) || (contains_str(
            &dl,
            "search",
        ) && contains_str(&tl, "search")) || (contains_str(&dl, "edit") && contains_str(
            &tl,
            "edit",
        ));
        if hit {
            proof {
                assert(spec_tool_matches(step_desc@, full[i as int]));
            }
            return Some(dup_tool(tool));
        }
        proof {
            assert(!spec_tool_matches(step_desc@, full[i as int]));
        }
        i = i + 1;
    }
    proof {
        assert(full.skip(n as int) =~= Seq::<ToolInvV>::empty());
    }
    None
}

/// Build execution steps from the plan, binding tools positionally when the
/// counts agree and heuristically otherwise.
fn build_steps(doc: &ValidatedDocument, tools: &Vec<ToolInvocation>) -> (r: ApexResult<
    Vec<ExecutionStep>,
>)
    ensures
        r matches Ok(steps) && steps.deep_view() == spec_steps(doc@.plan, tools.deep_view()),
{
    let mut steps: Vec<ExecutionStep> = Vec::new();
    match &doc.plan {
        Some(plan) => {
            let ghost pv = doc@.plan.unwrap();
            let n = plan.steps.len();
            let mut i: usize = 0;
            let positional = tools.len() == plan.steps.len();
            while i < n
                invariant
                    i <= n,
                    n == plan.steps@.len(),
                    pv == plan.steps.deep_view(),
                    pv == doc@.plan.unwrap(),
                    doc@.plan is Some,
                    pv.len() == n,
                    forall|k: int| 0 <= k < n ==> pv[k] == #[trigger] plan.steps@[k]@,
                    positional == (tools.deep_view().len() == n),
                    steps.deep_view().len() == i,
                    forall|k: int|
                        0 <= k < i ==> steps.deep_view()[k] == spec_step(
                            pv,
                            tools.deep_view(),
                            k,
                        ),
                decreases n - i,
            {
                let step_number = i + 1;
                let desc = plan.steps[i].clone();
                let tool: Option<ToolInvocation> = if positional {
                    Some(dup_tool(&tools[i]))
                } else {
                    match_tool_to_step(desc.as_str(), tools)
                };
                let mut depends_on: Vec<usize> = Vec::new();
                if step_number > 1 {
                    depends_on.push(step_number - 1);
                }
                let step = ExecutionStep { step_number, description: desc, tool, depends_on };
                proof {
                    if i == 0 {
                        assert(step@.depends_on =~= Seq::<usize>::empty());
                    } else {
                        assert(step@.depends_on =~= seq![i as usize]);
                    }
                    assert(step@ == spec_step(pv, tools.deep_view(), i as int));
                }
                push_deep(&mut steps, step);
                i = i + 1;
            }
            proof {
                assert(steps.deep_view() =~= spec_steps(doc@.plan, tools.deep_view()));
            }
        },
        None => {
            proof {
                assert(steps.deep_view() =~= Seq::<StepV>::empty());
            }
        },
    }
    Ok(steps)
}

/// Build an execution plan from a validated document.
pub fn build_execution_plan(doc: &ValidatedDocument) -> (r: ApexResult<ExecutionPlan>)
    ensures
        r matches Ok(p) && p@ == spec_plan(doc@),
{
    let task = doc.task.line.clone();

    let goals: Vec<String> = match &doc.goals {
        Some(g) => clone_strings(&g.goals),
        None => Vec::new(),
    };
    let constraints: Vec<String> = match &doc.constraints {
        Some(c) => clone_strings(&c.rules),
        None => Vec::new(),
    };
    let validation: Vec<String> = match &doc.validation {
        Some(v) => clone_strings(&v.conditions),
        None => Vec::new(),
    };

    let mut available_tools: Vec<ToolInvocation> = Vec::new();
    match &doc.tools {
        Some(t) => {
            let n = t.tools.len();
            let mut i: usize = 0;
            while i < n
                invariant
                    i <= n,
                    n == t.tools@.len(),
                    t.tools.deep_view().len() == n,
                    forall|k: int| 0 <= k < n ==> t.tools.deep_view()[k] == #[trigger] t.tools@[k]@,
                    available_tools.deep_view().len() == i,
                    forall|k: int|
                        0 <= k < i ==> available_tools.deep_view()[k] == spec_inv_of_decl(
                            t.tools.deep_view()[k],
                        ),
                decreases n - i,
            {
                push_deep(&mut available_tools, ToolInvocation::from_declaration(&t.tools[i]));
                i = i + 1;
            }
            proof {
                assert(available_tools.deep_view() =~= spec_tool_invs(doc@.tools));
            }
        },
        None => {
            proof {
                assert(available_tools.deep_view() =~= Seq::<ToolInvV>::empty());
            }
        },
    }

    let steps = match build_steps(doc, &available_tools) {
        Ok(s) => s,
        Err(e) => {
            return Err(e);
        },
    };

    let plan = ExecutionPlan { task, goals, constraints, steps, validation, available_tools };
    proof {
        match doc@.goals {
            Some(g) => {},
            None => {
                assert(plan@.goals =~= Seq::<Seq<char>>::empty());
            },
        }
        match doc@.constraints {
            Some(g) => {},
            None => {
                assert(plan@.constraints =~= Seq::<Seq<char>>::empty());
            },
        }
        match doc@.validation {
            Some(g) => {},
            None => {
                assert(plan@.validation =~= Seq::<Seq<char>>::empty());
            },
        }
    }
    Ok(plan)
}

/// A fresh copy of a string list.
fn clone_strings(v: &Vec<String>) -> (r: Vec<String>)
    ensures
        r.deep_view() == v.deep_view(),
{
    let n = v.len();
    let mut r: Vec<String> = Vec::new();
    let mut i: usize = 0;
    while i < n
        invariant
            i <= n,
            n == v@.len(),
            v.deep_view().len() == n,
            forall|k: int| 0 <= k < n ==> v.deep_view()[k] == #[trigger] v@[k]@,
            r.deep_view().len() == i,
            forall|k: int| 0 <= k < i ==> r.deep_view()[k] == v.deep_view()[k],
        decreases n - i,
    {
        push_deep(&mut r, v[i].clone());
        i = i + 1;
    }
    proof {
        assert(r.deep_view() =~= v.deep_view());
    }
    r
}

/// Configuration for plan building.
#[derive(Debug, Clone)]
pub struct InterpreterConfig {
    /// Allow empty plans (TASK without PLAN)
    pub allow_empty_plan: bool,
    /// Strict tool matching (error if tool not found for step)
    pub strict_tool_matching: bool,
    /// Infer sequential dependencies
    pub infer_dependencies: bool,
}

impl Default for InterpreterConfig {
    /// The default configuration: empty plans allowed, lax tool matching,
    /// sequential dependencies inferred.
    fn default() -> (r: InterpreterConfig)
        ensures
            r.allow_empty_plan == true,
            r.strict_tool_matching == false,
            r.infer_dependencies == true,
    {
        InterpreterConfig {
            allow_empty_plan: true,
            strict_tool_matching: false,
            infer_dependencies: true,
        }
    }
}

} // verus!
