use std::cell::Cell;
use std::cell::RefCell;
use std::sync::Arc;

use agentrt::{
    Agent, AgentConfig, AgentContext, AgentError, AgentState, ControlLoop, ControlMode,
    FallbackPolicy, FallbackStrategy, InMemoryBus, InMemoryStore, JsonValue, MemoryError,
    MemoryStore, MemoryTopology, MultiAgentOrchestrator, Plan, RetryPolicy, Step, StepExecutor,
    StepOutcome, StepPolicies, ToolPermissions,
};

fn empty_object() -> JsonValue {
    JsonValue::Obj(vec![])
}

fn base_step(id: &str, description: &str) -> Step {
    Step {
        id: id.to_string(),
        description: description.to_string(),
        tool: None,
        args: empty_object(),
        subtasks: vec![],
        policies: StepPolicies::default(),
        chain_of_thought: None,
    }
}

fn base_context() -> AgentContext {
    AgentContext {
        config: AgentConfig {
            name: "t".to_string(),
            description: None,
            max_iterations: 2,
            retry_policy: RetryPolicy::default(),
        },
        state: AgentState::default(),
        metadata: empty_object(),
        memory: None,
        tool_permissions: ToolPermissions::default(),
    }
}

#[derive(Debug)]
struct TestAgent;

impl Agent for TestAgent {
    fn plan(&self, _ctx: &AgentContext) -> Result<Plan, AgentError> {
        Ok(Plan {
            goal: "test".to_string(),
            steps: vec![base_step("one", "noop")],
            metadata: empty_object(),
        })
    }

    fn execute_step(&self, step: &Step, _ctx: &mut AgentContext) -> Result<StepOutcome, AgentError> {
        Ok(StepOutcome {
            step_id: step.id.clone(),
            output: JsonValue::obj1("ok", JsonValue::Bool(true)),
            observations: vec![],
            success: true,
            retries: 0,
            fallback_used: false,
            control_notes: vec![],
        })
    }
}

#[test]
fn runs_control_loop() {
    let agent = TestAgent;
    let mut ctx = base_context();
    let loop_ctrl = ControlLoop { max_iterations: 2, delay_ms: 0, mode: ControlMode::Deterministic };
    let outcomes = loop_ctrl.run(&agent, &mut ctx).0.expect("loop to run");
    assert_eq!(outcomes.len(), 1);
    assert!(outcomes[0].success);
}

#[derive(Debug)]
struct FlakyAgent {
    attempts: Cell<usize>,
}

impl Agent for FlakyAgent {
    fn plan(&self, _ctx: &AgentContext) -> Result<Plan, AgentError> {
        let mut step = base_step("retry", "sometimes fails");
        step.policies = StepPolicies {
            retry: RetryPolicy { max_retries: 1, backoff_ms: 0, jitter: false },
            ..StepPolicies::default()
        };
        Ok(Plan {
            goal: "flaky".to_string(),
            steps: vec![step],
            metadata: empty_object(),
        })
    }

    fn execute_step(&self, step: &Step, _ctx: &mut AgentContext) -> Result<StepOutcome, AgentError> {
        let n = self.attempts.get() + 1;
        self.attempts.set(n);
        if n == 1 {
            return Err(AgentError::Execution("first attempt fails".to_string()));
        }
        Ok(StepOutcome::success(step.id.clone(), JsonValue::obj1("ok", JsonValue::Bool(true))))
    }
}

#[test]
fn step_executor_retries_and_records_counts() {
    let agent = FlakyAgent { attempts: Cell::new(0) };
    let mut ctx = base_context();
    let plan = agent.plan(&ctx).expect("plan available");
    let step = plan.steps.first().expect("step present").duplicate();
    let outcome = StepExecutor::run_step(step, &agent, &mut ctx).0;
    assert!(outcome.success);
    assert_eq!(outcome.retries, 1);
}

#[derive(Debug)]
struct AlternateToolAgent;

impl Agent for AlternateToolAgent {
    fn plan(&self, _ctx: &AgentContext) -> Result<Plan, AgentError> {
        let mut step = base_step("main", "use alternate");
        step.policies = StepPolicies {
            fallback: Some(FallbackPolicy {
                strategy: FallbackStrategy::AlternateTool { tool: "alt".to_string() },
                reason: None,
            }),
            ..StepPolicies::default()
        };
        Ok(Plan {
            goal: "fallback".to_string(),
            steps: vec![step],
            metadata: empty_object(),
        })
    }

    fn execute_step(&self, step: &Step, _ctx: &mut AgentContext) -> Result<StepOutcome, AgentError> {
        if step.tool.as_deref() == Some("alt") {
            Ok(StepOutcome::success(step.id.clone(), JsonValue::obj1("alt", JsonValue::Bool(true))))
        } else {
            Err(AgentError::Execution("primary tool unavailable".to_string()))
        }
    }
}

#[test]
fn fallback_switches_tool() {
    let agent = AlternateToolAgent;
    let mut ctx = base_context();
    let plan = agent.plan(&ctx).expect("plan available");
    let step = plan.steps.first().expect("step present").duplicate();
    let outcome = StepExecutor::run_step(step, &agent, &mut ctx).0;
    assert!(outcome.success);
    assert!(outcome.fallback_used);
    assert_eq!(
        outcome.output.get("alt"),
        Some(&JsonValue::Bool(true)),
        "alternate output expected"
    );
}

#[derive(Debug)]
struct ModeAwareAgent;

impl Agent for ModeAwareAgent {
    fn plan(&self, ctx: &AgentContext) -> Result<Plan, AgentError> {
        Ok(Plan {
            goal: "mode".to_string(),
            steps: vec![base_step(&ctx.state.iteration.to_string(), "id matches iteration")],
            metadata: empty_object(),
        })
    }

    fn execute_step(&self, step: &Step, _ctx: &mut AgentContext) -> Result<StepOutcome, AgentError> {
        Ok(StepOutcome::success(step.id.clone(), JsonValue::obj1("ok", JsonValue::Bool(true))))
    }
}

#[test]
fn reactive_mode_replans_each_iteration() {
    let agent = ModeAwareAgent;
    let mut ctx = base_context();
    ctx.config.name = "reactive".to_string();
    let loop_ctrl = ControlLoop { max_iterations: 2, delay_ms: 0, mode: ControlMode::Reactive };
    let outcomes = loop_ctrl.run(&agent, &mut ctx).0.expect("loop to run");
    assert_eq!(outcomes.len(), 2);
    assert_eq!(outcomes[0].step_id, "0");
    assert_eq!(outcomes[1].step_id, "1");
}

#[derive(Debug)]
struct ReflectiveAgent {
    reflections: Cell<usize>,
}

impl Agent for ReflectiveAgent {
    fn plan(&self, _ctx: &AgentContext) -> Result<Plan, AgentError> {
        Ok(Plan {
            goal: "reflect".to_string(),
            steps: vec![base_step("r1", "single")],
            metadata: empty_object(),
        })
    }

    fn execute_step(&self, step: &Step, _ctx: &mut AgentContext) -> Result<StepOutcome, AgentError> {
        Ok(StepOutcome::success(step.id.clone(), JsonValue::obj1("ok", JsonValue::Bool(true))))
    }

    fn reflect(&self, _ctx: &mut AgentContext) -> Result<(), AgentError> {
        self.reflections.set(self.reflections.get() + 1);
        Ok(())
    }
}

#[test]
fn reflection_enabled_mode_reflects_per_step() {
    let agent = ReflectiveAgent { reflections: Cell::new(0) };
    let mut ctx = base_context();
    ctx.config.max_iterations = 1;
    let loop_ctrl = ControlLoop {
        max_iterations: 1,
        delay_ms: 0,
        mode: ControlMode::ReflectionEnabled,
    };
    loop_ctrl.run(&agent, &mut ctx).0.expect("loop to run");
    assert_eq!(agent.reflections.get(), 2);
}

#[derive(Debug)]
struct SharedTestStore {
    inner: RefCell<InMemoryStore>,
}

impl MemoryStore for SharedTestStore {
    fn put(&self, key: &str, value: &JsonValue) -> Result<(), MemoryError> {
        self.inner.borrow_mut().put(key, value)
    }

    fn get(&self, key: &str) -> Result<Option<JsonValue>, MemoryError> {
        self.inner.borrow().get(key)
    }

    fn search(&self, query: &str) -> Result<Vec<JsonValue>, MemoryError> {
        self.inner.borrow().search(query)
    }
}

#[test]
fn orchestrator_shares_memory_and_routes_messages() {
    let shared: agentrt::MemoryHandle = Arc::new(agentrt::StoreCell {
        store: Box::new(SharedTestStore { inner: RefCell::new(InMemoryStore::new()) }),
    });
    let bus = InMemoryBus::new();
    let mut orchestrator =
        MultiAgentOrchestrator::new(bus, MemoryTopology::Shared(Arc::clone(&shared)));

    let base_ctx = base_context();
    orchestrator.register_agent("alpha".to_string(), base_ctx.duplicate());
    orchestrator.register_agent("beta".to_string(), base_ctx.duplicate());

    let mut prepared = base_ctx.duplicate();
    orchestrator.prepare_context(&mut prepared);
    let prepared_handle = prepared.memory.expect("memory injected");
    assert!(Arc::ptr_eq(&prepared_handle, &shared));

    orchestrator
        .send_message("beta", JsonValue::obj1("ping", JsonValue::Bool(true)))
        .expect("message sent");
    let received = orchestrator.recv_message("beta").expect("message received");
    assert_eq!(
        received.expect("payload present").get("ping"),
        Some(&JsonValue::Bool(true))
    );
    let second = orchestrator.recv_message("beta").expect("second receive works");
    assert!(second.is_none());
}
