use vstd::prelude::*;
use crate::json::{JsonValue, JsonV};
use crate::text::{strs_view, dup_strings, dec_rep, push_u64_dec};
use crate::memory::MemoryHandle;

verus! {

/// How often a failing step is re-attempted, and how long to back off
/// between attempts.
#[derive(Debug, Clone, Copy, PartialEq, Eq, Structural)]
pub struct RetryPolicy {
    pub max_retries: usize,
    pub backoff_ms: u64,
    pub jitter: bool,
}

impl RetryPolicy {
    /// A policy whose fields are all zero or false counts as "unset":
    /// the run's default policy applies in its place.
    pub open spec fn is_unset(self) -> bool {
        self.max_retries == 0 && self.backoff_ms == 0 && !self.jitter
    }
}

impl Default for RetryPolicy {
    fn default() -> (r: Self)
        ensures
            r.is_unset(),
    {
        RetryPolicy { max_retries: 0, backoff_ms: 0, jitter: false }
    }
}

/// What a run falls back to once a step's retries are exhausted.
#[derive(Debug, Clone, PartialEq, Eq)]
pub enum FallbackStrategy {
    Skip,
    RetryWithLimit { max_additional_retries: usize },
    AlternateTool { tool: String },
    Abort,
}

pub enum FallbackStrategyV {
    Skip,
    RetryWithLimit { max_additional_retries: int },
    AlternateTool { tool: Seq<char> },
    Abort,
}

impl View for FallbackStrategy {
    type V = FallbackStrategyV;

    open spec fn view(&self) -> FallbackStrategyV {
        match self {
            FallbackStrategy::Skip => FallbackStrategyV::Skip,
            FallbackStrategy::RetryWithLimit { max_additional_retries } =>
                FallbackStrategyV::RetryWithLimit {
                    max_additional_retries: *max_additional_retries as int,
                },
            FallbackStrategy::AlternateTool { tool } => FallbackStrategyV::AlternateTool {
                tool: tool@,
            },
            FallbackStrategy::Abort => FallbackStrategyV::Abort,
        }
    }
}

impl FallbackStrategy {
    pub fn duplicate(&self) -> (r: Self)
        ensures
            r@ == self@,
    {
        match self {
            FallbackStrategy::Skip => FallbackStrategy::Skip,
            FallbackStrategy::RetryWithLimit { max_additional_retries } =>
                FallbackStrategy::RetryWithLimit {
                    max_additional_retries: *max_additional_retries,
                },
            FallbackStrategy::AlternateTool { tool } => FallbackStrategy::AlternateTool {
                tool: tool.clone(),
            },
            FallbackStrategy::Abort => FallbackStrategy::Abort,
        }
    }
}

/// A fallback strategy together with an optional human-readable reason.
#[derive(Debug, Clone, PartialEq, Eq)]
pub struct FallbackPolicy {
    pub strategy: FallbackStrategy,
    pub reason: Option<String>,
}

#[verifier::ext_equal]
pub struct FallbackPolicyV {
    pub strategy: FallbackStrategyV,
    pub reason: Option<Seq<char>>,
}

pub open spec fn opt_str_view(o: Option<String>) -> Option<Seq<char>> {
    match o {
        Some(s) => Some(s@),
        None => None,
    }
}

impl View for FallbackPolicy {
    type V = FallbackPolicyV;

    open spec fn view(&self) -> FallbackPolicyV {
        FallbackPolicyV { strategy: self.strategy@, reason: opt_str_view(self.reason) }
    }
}

impl FallbackPolicy {
    pub fn duplicate(&self) -> (r: Self)
        ensures
            r@ == self@,
    {
        FallbackPolicy {
            strategy: self.strategy.duplicate(),
            reason: match &self.reason {
                Some(s) => Some(s.clone()),
                None => None,
            },
        }
    }
}

/// Guard rails that apply to one step.
#[derive(Debug, Clone, PartialEq, Eq)]
pub struct SafetyPolicy {
    pub allow_tool_execution: bool,
    pub redaction_rules: Vec<String>,
    pub rbac_roles: Vec<String>,
}

#[verifier::ext_equal]
pub struct SafetyPolicyV {
    pub allow_tool_execution: bool,
    pub redaction_rules: Seq<Seq<char>>,
    pub rbac_roles: Seq<Seq<char>>,
}

impl View for SafetyPolicy {
    type V = SafetyPolicyV;

    open spec fn view(&self) -> SafetyPolicyV {
        SafetyPolicyV {
            allow_tool_execution: self.allow_tool_execution,
            redaction_rules: strs_view(self.redaction_rules@),
            rbac_roles: strs_view(self.rbac_roles@),
        }
    }
}

impl Default for SafetyPolicy {
    fn default() -> (r: Self)
        ensures
            !r.allow_tool_execution,
            r@.redaction_rules.len() == 0,
            r@.rbac_roles.len() == 0,
    {
        SafetyPolicy {
            allow_tool_execution: false,
            redaction_rules: Vec::new(),
            rbac_roles: Vec::new(),
        }
    }
}

impl SafetyPolicy {
    pub fn duplicate(&self) -> (r: Self)
        ensures
            r@ == self@,
    {
        let r = SafetyPolicy {
            allow_tool_execution: self.allow_tool_execution,
            redaction_rules: dup_strings(&self.redaction_rules),
            rbac_roles: dup_strings(&self.rbac_roles),
        };
        proof {
            assert(r@ =~= self@);
        }
        r
    }
}

/// The retry, fallback and safety policies bundled with one step.
#[derive(Debug, Clone, PartialEq, Eq)]
pub struct StepPolicies {
    pub retry: RetryPolicy,
    pub fallback: Option<FallbackPolicy>,
    pub safety: SafetyPolicy,
}

#[verifier::ext_equal]
pub struct StepPoliciesV {
    pub retry: RetryPolicy,
    pub fallback: Option<FallbackPolicyV>,
    pub safety: SafetyPolicyV,
}

pub open spec fn opt_fallback_view(o: Option<FallbackPolicy>) -> Option<FallbackPolicyV> {
    match o {
        Some(p) => Some(p@),
        None => None,
    }
}

impl View for StepPolicies {
    type V = StepPoliciesV;

    open spec fn view(&self) -> StepPoliciesV {
        StepPoliciesV {
            retry: self.retry,
            fallback: opt_fallback_view(self.fallback),
            safety: self.safety@,
        }
    }
}

impl Default for StepPolicies {
    fn default() -> (r: Self)
        ensures
            r.retry.is_unset(),
            r@.fallback is None,
            !r@.safety.allow_tool_execution,
            r@.safety.redaction_rules.len() == 0,
            r@.safety.rbac_roles.len() == 0,
    {
        StepPolicies {
            retry: RetryPolicy::default(),
            fallback: None,
            safety: SafetyPolicy::default(),
        }
    }
}

impl StepPolicies {
    pub fn duplicate(&self) -> (r: Self)
        ensures
            r@ == self@,
    {
        let r = StepPolicies {
            retry: self.retry,
            fallback: match &self.fallback {
                Some(p) => Some(p.duplicate()),
                None => None,
            },
            safety: self.safety.duplicate(),
        };
        proof {
            assert(r@ =~= self@);
        }
        r
    }
}

/// A smaller unit of work recorded under a step.
#[derive(Debug, Clone, PartialEq, Eq)]
pub struct Subtask {
    pub id: String,
    pub description: String,
}

#[verifier::ext_equal]
pub struct SubtaskV {
    pub id: Seq<char>,
    pub description: Seq<char>,
}

impl View for Subtask {
    type V = SubtaskV;

    open spec fn view(&self) -> SubtaskV {
        SubtaskV { id: self.id@, description: self.description@ }
    }
}

pub open spec fn subtasks_view(s: Seq<Subtask>) -> Seq<SubtaskV> {
    Seq::new(s.len(), |i: int| s[i]@)
}

fn dup_subtasks(v: &Vec<Subtask>) -> (r: Vec<Subtask>)
    ensures
        subtasks_view(r@) == subtasks_view(v@),
{
    let mut out: Vec<Subtask> = Vec::new();
    let mut i: usize = 0;
    while i < v.len()
        invariant
            i <= v.len(),
            out@.len() == i as int,
            forall|j: int| 0 <= j < i as int ==> out@[j]@ == v@[j]@,
        decreases v.len() - i,
    {
        let s = &v[i];
        let d = Subtask { id: s.id.clone(), description: s.description.clone() };
        proof {
            assert(d@ =~= s@);
        }
        out.push(d);
        i = i + 1;
    }
    proof {
        assert(subtasks_view(out@) =~= subtasks_view(v@));
    }
    out
}

/// A running commentary that an agent may keep while working.
#[derive(Debug, Clone, PartialEq, Eq)]
pub struct ChainOfThought {
    notes: Vec<String>,
}

impl View for ChainOfThought {
    type V = Seq<Seq<char>>;

    closed spec fn view(&self) -> Seq<Seq<char>> {
        strs_view(self.notes@)
    }
}

impl ChainOfThought {
    pub fn new() -> (r: Self)
        ensures
            r@.len() == 0,
    {
        ChainOfThought { notes: Vec::new() }
    }

    pub fn push(&mut self, note: String)
        ensures
            final(self)@ == old(self)@.push(note@),
    {
        self.notes.push(note);
        proof {
            assert(final(self)@ =~= old(self)@.push(note@));
        }
    }

    pub fn notes(&self) -> (r: &Vec<String>)
        ensures
            strs_view(r@) == self@,
    {
        &self.notes
    }

    pub fn duplicate(&self) -> (r: Self)
        ensures
            r@ == self@,
    {
        ChainOfThought { notes: dup_strings(&self.notes) }
    }
}

impl Default for ChainOfThought {
    fn default() -> (r: Self)
        ensures
            r@.len() == 0,
    {
        ChainOfThought::new()
    }
}

pub open spec fn opt_cot_view(o: Option<ChainOfThought>) -> Option<Seq<Seq<char>>> {
    match o {
        Some(c) => Some(c@),
        None => None,
    }
}

fn dup_opt_cot(o: &Option<ChainOfThought>) -> (r: Option<ChainOfThought>)
    ensures
        opt_cot_view(r) == opt_cot_view(*o),
{
    match o {
        Some(c) => Some(c.duplicate()),
        None => None,
    }
}

/// One unit of work in a plan, optionally bound to a named tool.
#[derive(Debug, PartialEq, Eq)]
pub struct Step {
    pub id: String,
    pub description: String,
    pub tool: Option<String>,
    pub args: JsonValue,
    pub subtasks: Vec<Subtask>,
    pub policies: StepPolicies,
    pub chain_of_thought: Option<ChainOfThought>,
}

#[verifier::ext_equal]
pub struct StepV {
    pub id: Seq<char>,
    pub description: Seq<char>,
    pub tool: Option<Seq<char>>,
    pub args: JsonV,
    pub subtasks: Seq<SubtaskV>,
    pub policies: StepPoliciesV,
    pub chain_of_thought: Option<Seq<Seq<char>>>,
}

impl View for Step {
    type V = StepV;

    open spec fn view(&self) -> StepV {
        StepV {
            id: self.id@,
            description: self.description@,
            tool: opt_str_view(self.tool),
            args: self.args@,
            subtasks: subtasks_view(self.subtasks@),
            policies: self.policies@,
            chain_of_thought: opt_cot_view(self.chain_of_thought),
        }
    }
}

impl Step {
    pub fn duplicate(&self) -> (r: Self)
        ensures
            r@ == self@,
    {
        let r = Step {
            id: self.id.clone(),
            description: self.description.clone(),
            tool: match &self.tool {
                Some(t) => Some(t.clone()),
                None => None,
            },
            args: self.args.duplicate(),
            subtasks: dup_subtasks(&self.subtasks),
            policies: self.policies.duplicate(),
            chain_of_thought: dup_opt_cot(&self.chain_of_thought),
        };
        proof {
            assert(r@ =~= self@);
        }
        r
    }

    /// Binds the step to a tool with the given argument payload.
    pub fn with_tool(self, tool: String, args: JsonValue) -> (r: Self)
        ensures
            r@ == (StepV { tool: Some(tool@), args: args@, ..self@ }),
    {
        let r = Step { tool: Some(tool), args, ..self };
        proof {
            assert(r@ =~= (StepV { tool: Some(tool@), args: args@, ..self@ }));
        }
        r
    }

    /// Appends a note to the step's running commentary, starting one if
    /// none is kept yet.
    pub fn add_cot_note(&mut self, note: String)
        ensures
            final(self)@ == (StepV {
                chain_of_thought: Some(
                    match old(self)@.chain_of_thought {
                        Some(notes) => notes.push(note@),
                        None => seq![note@],
                    },
                ),
                ..old(self)@
            }),
    {
        let mut cot = match self.chain_of_thought.take() {
            Some(c) => c,
            None => ChainOfThought::new(),
        };
        cot.push(note);
        self.chain_of_thought = Some(cot);
        proof {
            assert(seq![note@] =~= Seq::<Seq<char>>::empty().push(note@));
            assert(final(self)@ =~= (StepV {
                chain_of_thought: Some(
                    match old(self)@.chain_of_thought {
                        Some(notes) => notes.push(note@),
                        None => seq![note@],
                    },
                ),
                ..old(self)@
            }));
        }
    }

    /// Records a subtask under this step.
    pub fn record_subtask(&mut self, id: String, description: String)
        ensures
            final(self)@ == (StepV {
                subtasks: old(self)@.subtasks.push(
                    SubtaskV { id: id@, description: description@ },
                ),
                ..old(self)@
            }),
    {
        self.subtasks.push(Subtask { id, description });
        proof {
            assert(subtasks_view(final(self).subtasks@) =~= old(self)@.subtasks.push(
                SubtaskV { id: id@, description: description@ },
            ));
            assert(final(self)@ =~= (StepV {
                subtasks: old(self)@.subtasks.push(
                    SubtaskV { id: id@, description: description@ },
                ),
                ..old(self)@
            }));
        }
    }
}

pub open spec fn steps_view(s: Seq<Step>) -> Seq<StepV> {
    Seq::new(s.len(), |i: int| s[i]@)
}

fn dup_steps(v: &Vec<Step>) -> (r: Vec<Step>)
    ensures
        steps_view(r@) == steps_view(v@),
{
    let mut out: Vec<Step> = Vec::new();
    let mut i: usize = 0;
    while i < v.len()
        invariant
            i <= v.len(),
            out@.len() == i as int,
            forall|j: int| 0 <= j < i as int ==> out@[j]@ == v@[j]@,
        decreases v.len() - i,
    {
        out.push(v[i].duplicate());
        i = i + 1;
    }
    proof {
        assert(steps_view(out@) =~= steps_view(v@));
    }
    out
}

/// An ordered list of steps toward a goal, produced fresh each time an
/// agent thinks.
#[derive(Debug, PartialEq, Eq)]
pub struct Plan {
    pub goal: String,
    pub steps: Vec<Step>,
    pub metadata: JsonValue,
}

#[verifier::ext_equal]
pub struct PlanV {
    pub goal: Seq<char>,
    pub steps: Seq<StepV>,
    pub metadata: JsonV,
}

impl View for Plan {
    type V = PlanV;

    open spec fn view(&self) -> PlanV {
        PlanV { goal: self.goal@, steps: steps_view(self.steps@), metadata: self.metadata@ }
    }
}

impl Plan {
    pub fn duplicate(&self) -> (r: Self)
        ensures
            r@ == self@,
    {
        let r = Plan {
            goal: self.goal.clone(),
            steps: dup_steps(&self.steps),
            metadata: self.metadata.duplicate(),
        };
        proof {
            assert(r@ =~= self@);
        }
        r
    }

    /// Pairs the plan with a cursor so its steps can be taken in order,
    /// each exactly once.
    pub fn executable(self) -> (r: ExecutablePlan)
        ensures
            r@.plan == self@,
            r@.current == 0,
    {
        ExecutablePlan { plan: self, current: 0 }
    }
}

pub open spec fn opt_plan_view(o: Option<Plan>) -> Option<PlanV> {
    match o {
        Some(p) => Some(p@),
        None => None,
    }
}

/// A plan plus a cursor: the only way plans are consumed.
#[derive(Debug, PartialEq, Eq)]
pub struct ExecutablePlan {
    pub plan: Plan,
    pub current: usize,
}

#[verifier::ext_equal]
pub struct ExecutablePlanV {
    pub plan: PlanV,
    pub current: int,
}

impl View for ExecutablePlan {
    type V = ExecutablePlanV;

    open spec fn view(&self) -> ExecutablePlanV {
        ExecutablePlanV { plan: self.plan@, current: self.current as int }
    }
}

impl ExecutablePlan {
    /// Yields the next step in order, or nothing once the plan is spent.
    pub fn next(&mut self) -> (r: Option<Step>)
        ensures
            old(self)@.current < old(self)@.plan.steps.len() ==> {
                &&& r matches Some(step) && step@ == old(self)@.plan.steps[old(self)@.current]
                &&& final(self)@.current == old(self)@.current + 1
                &&& final(self)@.plan == old(self)@.plan
            },
            old(self)@.current >= old(self)@.plan.steps.len() ==> {
                &&& r is None
                &&& final(self)@ == old(self)@
            },
    {
        if self.current < self.plan.steps.len() {
            let step = self.plan.steps[self.current].duplicate();
            self.current = self.current + 1;
            Some(step)
        } else {
            None
        }
    }
}

/// A step's result: an append-only history entry, immutable once produced.
#[derive(Debug, PartialEq, Eq)]
pub struct StepOutcome {
    pub step_id: String,
    pub output: JsonValue,
    pub observations: Vec<String>,
    pub success: bool,
    pub retries: usize,
    pub fallback_used: bool,
    pub control_notes: Vec<String>,
}

#[verifier::ext_equal]
pub struct OutcomeV {
    pub step_id: Seq<char>,
    pub output: JsonV,
    pub observations: Seq<Seq<char>>,
    pub success: bool,
    pub retries: int,
    pub fallback_used: bool,
    pub control_notes: Seq<Seq<char>>,
}

impl View for StepOutcome {
    type V = OutcomeV;

    open spec fn view(&self) -> OutcomeV {
        OutcomeV {
            step_id: self.step_id@,
            output: self.output@,
            observations: strs_view(self.observations@),
            success: self.success,
            retries: self.retries as int,
            fallback_used: self.fallback_used,
            control_notes: strs_view(self.control_notes@),
        }
    }
}

/// The structured output recording an error's text.
pub open spec fn error_output(msg: Seq<char>) -> JsonV {
    JsonV::Obj(seq![("error"@, JsonV::Str(msg))])
}

/// What a generic failure outcome holds for a step and error.
pub open spec fn failure_outcome(sid: Seq<char>, e: AgentErrorV) -> OutcomeV {
    OutcomeV {
        step_id: sid,
        output: error_output(e.message()),
        observations: seq!["step failed"@],
        success: false,
        retries: 0,
        fallback_used: false,
        control_notes: seq!["failure"@],
    }
}

impl StepOutcome {
    pub fn duplicate(&self) -> (r: Self)
        ensures
            r@ == self@,
    {
        let r = StepOutcome {
            step_id: self.step_id.clone(),
            output: self.output.duplicate(),
            observations: dup_strings(&self.observations),
            success: self.success,
            retries: self.retries,
            fallback_used: self.fallback_used,
            control_notes: dup_strings(&self.control_notes),
        };
        proof {
            assert(r@ =~= self@);
        }
        r
    }

    /// A clean success carrying the given output.
    pub fn success(step_id: String, output: JsonValue) -> (r: Self)
        ensures
            r@ == (OutcomeV {
                step_id: step_id@,
                output: output@,
                observations: Seq::empty(),
                success: true,
                retries: 0,
                fallback_used: false,
                control_notes: Seq::empty(),
            }),
    {
        let r = StepOutcome {
            step_id,
            output,
            observations: Vec::new(),
            success: true,
            retries: 0,
            fallback_used: false,
            control_notes: Vec::new(),
        };
        proof {
            assert(r@ =~= (OutcomeV {
                step_id: r.step_id@,
                output: r.output@,
                observations: Seq::empty(),
                success: true,
                retries: 0,
                fallback_used: false,
                control_notes: Seq::empty(),
            }));
        }
        r
    }

    /// A generic failure recording the error's text.
    pub fn failure(step_id: String, error: AgentError) -> (r: Self)
        ensures
            r@ == failure_outcome(step_id@, error@),
    {
        let msg = error.message();
        let r = StepOutcome {
            step_id,
            output: JsonValue::obj1("error", JsonValue::Str(msg)),
            observations: vec!["step failed".to_owned()],
            success: false,
            retries: 0,
            fallback_used: false,
            control_notes: vec!["failure".to_owned()],
        };
        proof {
            assert(strs_view(r.observations@) =~= seq!["step failed"@]);
            assert(strs_view(r.control_notes@) =~= seq!["failure"@]);
            assert(r@ =~= failure_outcome(r.step_id@, error@));
        }
        r
    }
}

pub open spec fn outcomes_view(s: Seq<StepOutcome>) -> Seq<OutcomeV> {
    Seq::new(s.len(), |i: int| s[i]@)
}

fn dup_outcomes(v: &Vec<StepOutcome>) -> (r: Vec<StepOutcome>)
    ensures
        outcomes_view(r@) == outcomes_view(v@),
{
    let mut out: Vec<StepOutcome> = Vec::new();
    let mut i: usize = 0;
    while i < v.len()
        invariant
            i <= v.len(),
            out@.len() == i as int,
            forall|j: int| 0 <= j < i as int ==> out@[j]@ == v@[j]@,
        decreases v.len() - i,
    {
        out.push(v[i].duplicate());
        i = i + 1;
    }
    proof {
        assert(outcomes_view(out@) =~= outcomes_view(v@));
    }
    out
}

/// A terminal condition, one variant per kind of failure.
#[derive(Debug, Clone, PartialEq, Eq)]
pub enum AgentError {
    Planning(String),
    Execution(String),
    Tool(String),
    Memory(String),
    Safety(String),
    Timeout,
    Validation(String),
    RetryExhausted { attempts: usize },
}

pub enum AgentErrorV {
    Planning(Seq<char>),
    Execution(Seq<char>),
    Tool(Seq<char>),
    Memory(Seq<char>),
    Safety(Seq<char>),
    Timeout,
    Validation(Seq<char>),
    RetryExhausted { attempts: nat },
}

impl AgentErrorV {
    /// The error's one-line text.
    pub open spec fn message(self) -> Seq<char> {
        match self {
            AgentErrorV::Planning(m) => "planning failed: "@ + m,
            AgentErrorV::Execution(m) => "execution failed: "@ + m,
            AgentErrorV::Tool(m) => "tool failure: "@ + m,
            AgentErrorV::Memory(m) => "memory failure: "@ + m,
            AgentErrorV::Safety(m) => "safety violation: "@ + m,
            AgentErrorV::Timeout => "timeout"@,
            AgentErrorV::Validation(m) => "validation failed: "@ + m,
            AgentErrorV::RetryExhausted { attempts } => "retry exhausted after "@ + dec_rep(
                attempts,
            ) + " attempts"@,
        }
    }
}

impl View for AgentError {
    type V = AgentErrorV;

    open spec fn view(&self) -> AgentErrorV {
        match self {
            AgentError::Planning(m) => AgentErrorV::Planning(m@),
            AgentError::Execution(m) => AgentErrorV::Execution(m@),
            AgentError::Tool(m) => AgentErrorV::Tool(m@),
            AgentError::Memory(m) => AgentErrorV::Memory(m@),
            AgentError::Safety(m) => AgentErrorV::Safety(m@),
            AgentError::Timeout => AgentErrorV::Timeout,
            AgentError::Validation(m) => AgentErrorV::Validation(m@),
            AgentError::RetryExhausted { attempts } => AgentErrorV::RetryExhausted {
                attempts: *attempts as nat,
            },
        }
    }
}

impl AgentError {
    pub fn duplicate(&self) -> (r: Self)
        ensures
            r@ == self@,
    {
        match self {
            AgentError::Planning(m) => AgentError::Planning(m.clone()),
            AgentError::Execution(m) => AgentError::Execution(m.clone()),
            AgentError::Tool(m) => AgentError::Tool(m.clone()),
            AgentError::Memory(m) => AgentError::Memory(m.clone()),
            AgentError::Safety(m) => AgentError::Safety(m.clone()),
            AgentError::Timeout => AgentError::Timeout,
            AgentError::Validation(m) => AgentError::Validation(m.clone()),
            AgentError::RetryExhausted { attempts } => AgentError::RetryExhausted {
                attempts: *attempts,
            },
        }
    }

    /// The error's one-line text.
    pub fn message(&self) -> (r: String)
        ensures
            r@ == self@.message(),
    {
        let mut s = String::new();
        match self {
            AgentError::Planning(m) => {
                s.push_str("planning failed: ");
                s.push_str(m.as_str());
            },
            AgentError::Execution(m) => {
                s.push_str("execution failed: ");
                s.push_str(m.as_str());
            },
            AgentError::Tool(m) => {
                s.push_str("tool failure: ");
                s.push_str(m.as_str());
            },
            AgentError::Memory(m) => {
                s.push_str("memory failure: ");
                s.push_str(m.as_str());
            },
            AgentError::Safety(m) => {
                s.push_str("safety violation: ");
                s.push_str(m.as_str());
            },
            AgentError::Timeout => {
                s.push_str("timeout");
            },
            AgentError::Validation(m) => {
                s.push_str("validation failed: ");
                s.push_str(m.as_str());
            },
            AgentError::RetryExhausted { attempts } => {
                s.push_str("retry exhausted after ");
                push_u64_dec(&mut s, *attempts as u64);
                s.push_str(" attempts");
            },
        }
        proof {
            assert(s@ =~= self@.message());
        }
        s
    }
}

/// Which tools an agent may or may not call.
#[derive(Debug, Clone, PartialEq, Eq)]
pub struct ToolPermissions {
    pub allowed: Vec<String>,
    pub denied: Vec<String>,
}

#[verifier::ext_equal]
pub struct ToolPermissionsV {
    pub allowed: Seq<Seq<char>>,
    pub denied: Seq<Seq<char>>,
}

impl View for ToolPermissions {
    type V = ToolPermissionsV;

    open spec fn view(&self) -> ToolPermissionsV {
        ToolPermissionsV { allowed: strs_view(self.allowed@), denied: strs_view(self.denied@) }
    }
}

impl Default for ToolPermissions {
    fn default() -> (r: Self)
        ensures
            r@.allowed.len() == 0,
            r@.denied.len() == 0,
    {
        ToolPermissions { allowed: Vec::new(), denied: Vec::new() }
    }
}

impl ToolPermissions {
    pub fn duplicate(&self) -> (r: Self)
        ensures
            r@ == self@,
    {
        let r = ToolPermissions {
            allowed: dup_strings(&self.allowed),
            denied: dup_strings(&self.denied),
        };
        proof {
            assert(r@ =~= self@);
        }
        r
    }
}

/// Fixed facts about one agent; immutable once a run starts.
#[derive(Debug, Clone, PartialEq, Eq)]
pub struct AgentConfig {
    pub name: String,
    pub description: Option<String>,
    pub max_iterations: usize,
    pub retry_policy: RetryPolicy,
}

#[verifier::ext_equal]
pub struct AgentConfigV {
    pub name: Seq<char>,
    pub description: Option<Seq<char>>,
    pub max_iterations: int,
    pub retry_policy: RetryPolicy,
}

impl View for AgentConfig {
    type V = AgentConfigV;

    open spec fn view(&self) -> AgentConfigV {
        AgentConfigV {
            name: self.name@,
            description: opt_str_view(self.description),
            max_iterations: self.max_iterations as int,
            retry_policy: self.retry_policy,
        }
    }
}

impl Default for AgentConfig {
    fn default() -> (r: Self)
        ensures
            r@.name.len() == 0,
            r@.description is None,
            r@.max_iterations == 0,
            r.retry_policy.is_unset(),
    {
        AgentConfig {
            name: String::new(),
            description: None,
            max_iterations: 0,
            retry_policy: RetryPolicy::default(),
        }
    }
}

impl AgentConfig {
    pub fn duplicate(&self) -> (r: Self)
        ensures
            r@ == self@,
    {
        let r = AgentConfig {
            name: self.name.clone(),
            description: match &self.description {
                Some(d) => Some(d.clone()),
                None => None,
            },
            max_iterations: self.max_iterations,
            retry_policy: self.retry_policy,
        };
        proof {
            assert(r@ =~= self@);
        }
        r
    }
}

/// What changes over one run: the live plan, the iteration counter and
/// the history of outcomes.
#[derive(Debug, PartialEq, Eq)]
pub struct AgentState {
    pub plan: Option<Plan>,
    pub memory_keys: Vec<String>,
    pub iteration: usize,
    pub step_history: Vec<StepOutcome>,
    pub chain_of_thought: Option<ChainOfThought>,
}

#[verifier::ext_equal]
pub struct AgentStateV {
    pub plan: Option<PlanV>,
    pub memory_keys: Seq<Seq<char>>,
    pub iteration: int,
    pub step_history: Seq<OutcomeV>,
    pub chain_of_thought: Option<Seq<Seq<char>>>,
}

impl View for AgentState {
    type V = AgentStateV;

    open spec fn view(&self) -> AgentStateV {
        AgentStateV {
            plan: opt_plan_view(self.plan),
            memory_keys: strs_view(self.memory_keys@),
            iteration: self.iteration as int,
            step_history: outcomes_view(self.step_history@),
            chain_of_thought: opt_cot_view(self.chain_of_thought),
        }
    }
}

impl Default for AgentState {
    fn default() -> (r: Self)
        ensures
            r@.plan is None,
            r@.memory_keys.len() == 0,
            r@.iteration == 0,
            r@.step_history.len() == 0,
            r@.chain_of_thought is None,
    {
        AgentState {
            plan: None,
            memory_keys: Vec::new(),
            iteration: 0,
            step_history: Vec::new(),
            chain_of_thought: None,
        }
    }
}

impl AgentState {
    pub fn duplicate(&self) -> (r: Self)
        ensures
            r@ == self@,
    {
        let r = AgentState {
            plan: match &self.plan {
                Some(p) => Some(p.duplicate()),
                None => None,
            },
            memory_keys: dup_strings(&self.memory_keys),
            iteration: self.iteration,
            step_history: dup_outcomes(&self.step_history),
            chain_of_thought: dup_opt_cot(&self.chain_of_thought),
        };
        proof {
            assert(r@ =~= self@);
        }
        r
    }
}

/// Everything one run works against: configuration, live state, free-form
/// metadata, an optional shared memory handle and tool permissions.
pub struct AgentContext {
    pub config: AgentConfig,
    pub state: AgentState,
    pub metadata: JsonValue,
    pub memory: Option<MemoryHandle>,
    pub tool_permissions: ToolPermissions,
}

#[verifier::ext_equal]
pub struct AgentContextV {
    pub config: AgentConfigV,
    pub state: AgentStateV,
    pub metadata: JsonV,
    pub memory: Option<MemoryHandle>,
    pub tool_permissions: ToolPermissionsV,
}

impl View for AgentContext {
    type V = AgentContextV;

    open spec fn view(&self) -> AgentContextV {
        AgentContextV {
            config: self.config@,
            state: self.state@,
            metadata: self.metadata@,
            memory: self.memory,
            tool_permissions: self.tool_permissions@,
        }
    }
}

impl Default for AgentContext {
    fn default() -> (r: Self)
        ensures
            r@ == AgentContext::default_view(),
    {
        let r = AgentContext {
            config: AgentConfig::default(),
            state: AgentState::default(),
            metadata: JsonValue::Obj(Vec::new()),
            memory: None,
            tool_permissions: ToolPermissions::default(),
        };
        proof {
            assert(r@ =~~= AgentContext::default_view());
        }
        r
    }
}

impl AgentContext {
    /// The view of a default context.
    pub open spec fn default_view() -> AgentContextV {
        AgentContextV {
            config: AgentConfig::default_view(),
            state: AgentState::default_view(),
            metadata: JsonV::Obj(Seq::empty()),
            memory: None,
            tool_permissions: ToolPermissionsV { allowed: Seq::empty(), denied: Seq::empty() },
        }
    }
}

impl AgentConfig {
    /// The view of a default configuration.
    pub open spec fn default_view() -> AgentConfigV {
        AgentConfigV {
            name: Seq::empty(),
            description: None,
            max_iterations: 0,
            retry_policy: RetryPolicy { max_retries: 0, backoff_ms: 0, jitter: false },
        }
    }
}

impl AgentState {
    /// The view of a fresh state.
    pub open spec fn default_view() -> AgentStateV {
        AgentStateV {
            plan: None,
            memory_keys: Seq::empty(),
            iteration: 0,
            step_history: Seq::empty(),
            chain_of_thought: None,
        }
    }
}

impl AgentContext {
    pub fn duplicate(&self) -> (r: Self)
        ensures
            r@ == self@,
    {
        let r = AgentContext {
            config: self.config.duplicate(),
            state: self.state.duplicate(),
            metadata: self.metadata.duplicate(),
            memory: match &self.memory {
                Some(h) => Some(crate::memory::clone_handle(h)),
                None => None,
            },
            tool_permissions: self.tool_permissions.duplicate(),
        };
        proof {
            assert(r@ =~= self@);
        }
        r
    }
}

/// The agent capability: produce plans, act on steps, and observe and
/// reflect on results. Every hook other than `plan` and `execute_step`
/// has a default.
pub trait Agent {
    fn plan(&self, ctx: &AgentContext) -> Result<Plan, AgentError>;

    fn execute_step(&self, step: &Step, ctx: &mut AgentContext) -> Result<StepOutcome, AgentError>;

    fn initialize(&self, ctx: &mut AgentContext) -> Result<(), AgentError> {
        Ok(())
    }

    fn think(&self, ctx: &AgentContext) -> Result<Plan, AgentError> {
        self.plan(ctx)
    }

    fn act(&self, step: &Step, ctx: &mut AgentContext) -> Result<StepOutcome, AgentError> {
        self.execute_step(step, ctx)
    }

    fn observe(&self, outcome: &StepOutcome, ctx: &mut AgentContext) -> Result<(), AgentError> {
        Ok(())
    }

    fn reflect(&self, ctx: &mut AgentContext) -> Result<(), AgentError> {
        Ok(())
    }
}

} // verus!
