use std::cell::Cell;

use agentrt::{
    Agent, AgentConfig, AgentContext, AgentError, AgentState, ControlLoop, ControlMode, JsonValue,
    Plan, RetryPolicy, Step, StepOutcome, StepPolicies, ToolPermissions,
};

fn context() -> AgentContext {
    AgentContext {
        config: AgentConfig {
            name: "c".to_string(),
            description: None,
            max_iterations: 4,
            retry_policy: RetryPolicy::default(),
        },
        state: AgentState::default(),
        metadata: JsonValue::Null,
        memory: None,
        tool_permissions: ToolPermissions::default(),
    }
}

fn step(id: String) -> Step {
    Step {
        id,
        description: "one unit".to_string(),
        tool: None,
        args: JsonValue::Null,
        subtasks: vec![],
        policies: StepPolicies::default(),
        chain_of_thought: None,
    }
}

#[derive(Debug)]
struct MultiStepAgent {
    thinks: Cell<usize>,
}

impl Agent for MultiStepAgent {
    fn plan(&self, _ctx: &AgentContext) -> Result<Plan, AgentError> {
        self.thinks.set(self.thinks.get() + 1);
        Ok(Plan {
            goal: "three steps".to_string(),
            steps: vec![
                step("s0".to_string()),
                step("s1".to_string()),
                step("s2".to_string()),
            ],
            metadata: JsonValue::Null,
        })
    }

    fn execute_step(&self, s: &Step, _ctx: &mut AgentContext) -> Result<StepOutcome, AgentError> {
        Ok(StepOutcome::success(s.id.clone(), JsonValue::Null))
    }
}

#[test]
fn deterministic_mode_caps_at_the_iteration_budget() {
    let agent = MultiStepAgent { thinks: Cell::new(0) };
    let mut ctx = context();
    let loop_ctrl = ControlLoop { max_iterations: 2, delay_ms: 0, mode: ControlMode::Deterministic };
    let outcomes = loop_ctrl.run(&agent, &mut ctx).0.expect("loop to run");
    assert_eq!(outcomes.len(), 2);
    assert_eq!(outcomes[0].step_id, "s0");
    assert_eq!(outcomes[1].step_id, "s1");
    assert_eq!(agent.thinks.get(), 1, "deterministic mode plans once");
}

#[test]
fn deterministic_mode_stops_when_the_plan_runs_out() {
    let agent = MultiStepAgent { thinks: Cell::new(0) };
    let mut ctx = context();
    let loop_ctrl = ControlLoop { max_iterations: 9, delay_ms: 0, mode: ControlMode::Deterministic };
    let outcomes = loop_ctrl.run(&agent, &mut ctx).0.expect("loop to run");
    assert_eq!(outcomes.len(), 3);
}

#[derive(Debug)]
struct SingleStepPlanner {
    thinks: Cell<usize>,
}

impl Agent for SingleStepPlanner {
    fn plan(&self, _ctx: &AgentContext) -> Result<Plan, AgentError> {
        let n = self.thinks.get();
        self.thinks.set(n + 1);
        Ok(Plan {
            goal: "one at a time".to_string(),
            steps: vec![step(n.to_string())],
            metadata: JsonValue::Null,
        })
    }

    fn execute_step(&self, s: &Step, _ctx: &mut AgentContext) -> Result<StepOutcome, AgentError> {
        Ok(StepOutcome::success(s.id.clone(), JsonValue::Null))
    }
}

#[test]
fn procedural_mode_chains_plans_end_to_end() {
    let agent = SingleStepPlanner { thinks: Cell::new(0) };
    let mut ctx = context();
    let loop_ctrl = ControlLoop { max_iterations: 3, delay_ms: 0, mode: ControlMode::Procedural };
    let outcomes = loop_ctrl.run(&agent, &mut ctx).0.expect("loop to run");
    assert_eq!(outcomes.len(), 3);
    assert_eq!(outcomes[0].step_id, "0");
    assert_eq!(outcomes[1].step_id, "1");
    assert_eq!(outcomes[2].step_id, "2");
    assert_eq!(agent.thinks.get(), 3, "each exhausted cursor triggers a replan");
}

#[derive(Debug)]
struct BrokenInitialize;

impl Agent for BrokenInitialize {
    fn plan(&self, _ctx: &AgentContext) -> Result<Plan, AgentError> {
        Ok(Plan { goal: "g".to_string(), steps: vec![], metadata: JsonValue::Null })
    }

    fn execute_step(&self, s: &Step, _ctx: &mut AgentContext) -> Result<StepOutcome, AgentError> {
        Ok(StepOutcome::success(s.id.clone(), JsonValue::Null))
    }

    fn initialize(&self, _ctx: &mut AgentContext) -> Result<(), AgentError> {
        Err(AgentError::Validation("not ready".to_string()))
    }
}

#[test]
fn lifecycle_errors_abort_the_run() {
    let agent = BrokenInitialize;
    let mut ctx = context();
    let loop_ctrl = ControlLoop { max_iterations: 1, delay_ms: 0, mode: ControlMode::Deterministic };
    let err = loop_ctrl.run(&agent, &mut ctx).0.unwrap_err();
    assert_eq!(err.message(), "validation failed: not ready");
}

#[derive(Debug)]
struct EmptyPlanner;

impl Agent for EmptyPlanner {
    fn plan(&self, _ctx: &AgentContext) -> Result<Plan, AgentError> {
        Ok(Plan { goal: "g".to_string(), steps: vec![], metadata: JsonValue::Null })
    }

    fn execute_step(&self, s: &Step, _ctx: &mut AgentContext) -> Result<StepOutcome, AgentError> {
        Ok(StepOutcome::success(s.id.clone(), JsonValue::Null))
    }
}

#[test]
fn empty_plans_end_the_run_without_outcomes() {
    let planner = EmptyPlanner;
    let mut ctx = context();
    let loop_ctrl = ControlLoop { max_iterations: 5, delay_ms: 0, mode: ControlMode::Deterministic };
    let outcomes = loop_ctrl.run(&planner, &mut ctx).0.expect("loop to run");
    assert!(outcomes.is_empty());
}
