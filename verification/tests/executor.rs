use std::cell::Cell;

use agentrt::{
    Agent, AgentConfig, AgentContext, AgentError, AgentState, FallbackPolicy, FallbackStrategy,
    JsonValue, Plan, RetryPolicy, Step, StepExecutor, StepOutcome, StepPolicies, ToolPermissions,
};

fn context() -> AgentContext {
    AgentContext {
        config: AgentConfig {
            name: "x".to_string(),
            description: None,
            max_iterations: 1,
            retry_policy: RetryPolicy::default(),
        },
        state: AgentState::default(),
        metadata: JsonValue::Null,
        memory: None,
        tool_permissions: ToolPermissions::default(),
    }
}

fn step_with(policies: StepPolicies) -> Step {
    Step {
        id: "s".to_string(),
        description: "d".to_string(),
        tool: None,
        args: JsonValue::Null,
        subtasks: vec![],
        policies,
        chain_of_thought: None,
    }
}

#[derive(Debug)]
struct AlwaysFailing {
    calls: Cell<usize>,
}

impl Agent for AlwaysFailing {
    fn plan(&self, _ctx: &AgentContext) -> Result<Plan, AgentError> {
        Err(AgentError::Planning("unused".to_string()))
    }

    fn execute_step(&self, _step: &Step, _ctx: &mut AgentContext) -> Result<StepOutcome, AgentError> {
        self.calls.set(self.calls.get() + 1);
        Err(AgentError::Execution("down".to_string()))
    }
}

#[test]
fn exhausted_retries_without_fallback_report_the_count() {
    let agent = AlwaysFailing { calls: Cell::new(0) };
    let mut ctx = context();
    let step = step_with(StepPolicies {
        retry: RetryPolicy { max_retries: 2, backoff_ms: 0, jitter: false },
        ..StepPolicies::default()
    });

    let outcome = StepExecutor::run_step(step, &agent, &mut ctx).0;
    assert_eq!(agent.calls.get(), 3, "one initial call plus two retries");
    assert!(!outcome.success);
    assert!(!outcome.fallback_used);
    assert_eq!(outcome.retries, 2);
    assert_eq!(
        outcome.output.get("error"),
        Some(&JsonValue::text("execution failed: down"))
    );
}

#[test]
fn skip_fallback_marks_the_step_bypassed() {
    let agent = AlwaysFailing { calls: Cell::new(0) };
    let mut ctx = context();
    let step = step_with(StepPolicies {
        retry: RetryPolicy { max_retries: 1, backoff_ms: 0, jitter: false },
        fallback: Some(FallbackPolicy { strategy: FallbackStrategy::Skip, reason: None }),
        ..StepPolicies::default()
    });

    let outcome = StepExecutor::run_step(step, &agent, &mut ctx).0;
    assert!(!outcome.success);
    assert!(outcome.fallback_used);
    assert_eq!(outcome.retries, 1);
    assert_eq!(outcome.output.get("skipped"), Some(&JsonValue::Bool(true)));
    assert_eq!(
        outcome.output.get("error"),
        Some(&JsonValue::text("execution failed: down"))
    );
    assert_eq!(outcome.control_notes, vec!["fallback: skip".to_string()]);
}

#[test]
fn abort_fallback_abandons_the_step_only() {
    let agent = AlwaysFailing { calls: Cell::new(0) };
    let mut ctx = context();
    let step = step_with(StepPolicies {
        fallback: Some(FallbackPolicy { strategy: FallbackStrategy::Abort, reason: None }),
        ..StepPolicies::default()
    });

    let outcome = StepExecutor::run_step(step, &agent, &mut ctx).0;
    assert!(!outcome.success);
    assert!(outcome.fallback_used);
    assert_eq!(outcome.control_notes, vec!["fallback: abort".to_string()]);
    assert_eq!(outcome.observations, vec!["aborted via fallback".to_string()]);
}

#[derive(Debug)]
struct EventuallySucceeds {
    calls: Cell<usize>,
    succeed_on: usize,
}

impl Agent for EventuallySucceeds {
    fn plan(&self, _ctx: &AgentContext) -> Result<Plan, AgentError> {
        Err(AgentError::Planning("unused".to_string()))
    }

    fn execute_step(&self, step: &Step, _ctx: &mut AgentContext) -> Result<StepOutcome, AgentError> {
        let n = self.calls.get() + 1;
        self.calls.set(n);
        if n >= self.succeed_on {
            Ok(StepOutcome::success(step.id.clone(), JsonValue::text("late win")))
        } else {
            Err(AgentError::Execution("still down".to_string()))
        }
    }
}

#[test]
fn bounded_retry_fallback_counts_extra_attempts() {
    // One initial call, no retries, then the fallback's attempts 0..=2;
    // success lands on the fourth call, two extra attempts in.
    let agent = EventuallySucceeds { calls: Cell::new(0), succeed_on: 4 };
    let mut ctx = context();
    let step = step_with(StepPolicies {
        fallback: Some(FallbackPolicy {
            strategy: FallbackStrategy::RetryWithLimit { max_additional_retries: 3 },
            reason: None,
        }),
        ..StepPolicies::default()
    });

    let outcome = StepExecutor::run_step(step, &agent, &mut ctx).0;
    assert!(outcome.success);
    assert!(outcome.fallback_used);
    assert_eq!(outcome.retries, 2);
    assert_eq!(outcome.output, JsonValue::text("late win"));
    assert_eq!(outcome.control_notes, vec!["fallback: retry".to_string()]);
}

#[test]
fn bounded_retry_fallback_exhausts_and_fails() {
    let agent = AlwaysFailing { calls: Cell::new(0) };
    let mut ctx = context();
    let step = step_with(StepPolicies {
        fallback: Some(FallbackPolicy {
            strategy: FallbackStrategy::RetryWithLimit { max_additional_retries: 1 },
            reason: None,
        }),
        ..StepPolicies::default()
    });

    let outcome = StepExecutor::run_step(step, &agent, &mut ctx).0;
    assert!(!outcome.success);
    assert!(outcome.fallback_used);
    assert_eq!(outcome.retries, 1);
    assert_eq!(
        outcome.control_notes,
        vec!["fallback: retry exhausted".to_string()]
    );
}

#[derive(Debug)]
struct AlternateFailsToo;

impl Agent for AlternateFailsToo {
    fn plan(&self, _ctx: &AgentContext) -> Result<Plan, AgentError> {
        Err(AgentError::Planning("unused".to_string()))
    }

    fn execute_step(&self, _step: &Step, _ctx: &mut AgentContext) -> Result<StepOutcome, AgentError> {
        Err(AgentError::Tool("every tool is down".to_string()))
    }
}

#[test]
fn alternate_tool_failure_is_reported() {
    let agent = AlternateFailsToo;
    let mut ctx = context();
    let step = step_with(StepPolicies {
        fallback: Some(FallbackPolicy {
            strategy: FallbackStrategy::AlternateTool { tool: "alt".to_string() },
            reason: None,
        }),
        ..StepPolicies::default()
    });

    let outcome = StepExecutor::run_step(step, &agent, &mut ctx).0;
    assert!(!outcome.success);
    assert!(outcome.fallback_used);
    assert_eq!(
        outcome.observations,
        vec!["alternate tool failed".to_string()]
    );
    assert_eq!(
        outcome.control_notes,
        vec!["fallback: alternate tool".to_string()]
    );
}
