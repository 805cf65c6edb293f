use agentrt::{
    AgentError, ChainOfThought, FallbackPolicy, FallbackStrategy, JsonValue, Plan, RetryPolicy,
    Step, StepOutcome, StepPolicies, backoff_delay, resolve_retry_policy,
};

fn plain_step(id: &str) -> Step {
    Step {
        id: id.to_string(),
        description: "work".to_string(),
        tool: None,
        args: JsonValue::Null,
        subtasks: vec![],
        policies: StepPolicies::default(),
        chain_of_thought: None,
    }
}

#[test]
fn executable_plan_yields_each_step_once() {
    let plan = Plan {
        goal: "two steps".to_string(),
        steps: vec![plain_step("a"), plain_step("b")],
        metadata: JsonValue::Null,
    };
    let mut cursor = plan.executable();
    assert_eq!(cursor.next().map(|s| s.id), Some("a".to_string()));
    assert_eq!(cursor.next().map(|s| s.id), Some("b".to_string()));
    assert!(cursor.next().is_none());
    assert!(cursor.next().is_none());
}

#[test]
fn failure_outcome_records_error_text() {
    let outcome = StepOutcome::failure(
        "s1".to_string(),
        AgentError::Planning("boom".to_string()),
    );
    assert!(!outcome.success);
    assert_eq!(outcome.retries, 0);
    assert_eq!(
        outcome.output.get("error"),
        Some(&JsonValue::text("planning failed: boom"))
    );
    assert_eq!(outcome.observations, vec!["step failed".to_string()]);
    assert_eq!(outcome.control_notes, vec!["failure".to_string()]);
}

#[test]
fn error_messages_follow_their_kinds() {
    assert_eq!(AgentError::Timeout.message(), "timeout");
    assert_eq!(
        AgentError::Tool("offline".to_string()).message(),
        "tool failure: offline"
    );
    assert_eq!(
        AgentError::RetryExhausted { attempts: 12 }.message(),
        "retry exhausted after 12 attempts"
    );
    assert_eq!(
        AgentError::Validation("bad field".to_string()).message(),
        "validation failed: bad field"
    );
}

#[test]
fn step_builders_accumulate_structure() {
    let step = plain_step("s");
    let mut step = step.with_tool(
        "math".to_string(),
        JsonValue::obj1("expression", JsonValue::text("1+1")),
    );
    assert_eq!(step.tool.as_deref(), Some("math"));

    step.add_cot_note("thinking".to_string());
    step.add_cot_note("more".to_string());
    let notes = step.chain_of_thought.as_ref().expect("notes kept").notes();
    assert_eq!(notes, &vec!["thinking".to_string(), "more".to_string()]);

    step.record_subtask("sub1".to_string(), "first piece".to_string());
    assert_eq!(step.subtasks.len(), 1);
    assert_eq!(step.subtasks[0].id, "sub1");
}

#[test]
fn chain_of_thought_keeps_notes_in_order() {
    let mut cot = ChainOfThought::new();
    assert!(cot.notes().is_empty());
    cot.push("first".to_string());
    cot.push("second".to_string());
    assert_eq!(cot.notes(), &vec!["first".to_string(), "second".to_string()]);
}

#[test]
fn retry_policy_resolution_prefers_set_fields() {
    let default_policy = RetryPolicy { max_retries: 3, backoff_ms: 5, jitter: false };

    let unset = plain_step("u");
    assert_eq!(resolve_retry_policy(&unset, &default_policy), default_policy);

    let mut own = plain_step("o");
    own.policies.retry = RetryPolicy { max_retries: 1, backoff_ms: 0, jitter: false };
    assert_eq!(
        resolve_retry_policy(&own, &default_policy),
        RetryPolicy { max_retries: 1, backoff_ms: 0, jitter: false }
    );
}

#[test]
fn backoff_grows_linearly_without_jitter() {
    let policy = RetryPolicy { max_retries: 5, backoff_ms: 100, jitter: false };
    assert_eq!(backoff_delay(&policy, 0), 100);
    assert_eq!(backoff_delay(&policy, 1), 200);
    assert_eq!(backoff_delay(&policy, 4), 500);

    let zero = RetryPolicy { max_retries: 5, backoff_ms: 0, jitter: true };
    assert_eq!(backoff_delay(&zero, 3), 0);

    let jittered = RetryPolicy { max_retries: 5, backoff_ms: 100, jitter: true };
    let d = backoff_delay(&jittered, 0);
    assert!(d >= 100 && d <= 200);
}

#[test]
fn fallback_policies_copy_deeply() {
    let policy = FallbackPolicy {
        strategy: FallbackStrategy::AlternateTool { tool: "alt".to_string() },
        reason: Some("primary flaky".to_string()),
    };
    let copy = policy.duplicate();
    assert_eq!(copy, policy);
}

#[test]
fn json_values_render_compactly() {
    let value = JsonValue::obj2(
        "a",
        JsonValue::Int(1),
        "b",
        JsonValue::Arr(vec![JsonValue::Bool(true), JsonValue::Null, JsonValue::Int(-7)]),
    );
    assert_eq!(value.to_text(), "{\"a\":1,\"b\":[true,null,-7]}");
    assert_eq!(JsonValue::text("hi").to_text(), "\"hi\"");
}

#[test]
fn json_lookup_and_duplicate_agree() {
    let value = JsonValue::obj2(
        "k1",
        JsonValue::text("v1"),
        "k2",
        JsonValue::Int(9),
    );
    let copy = value.duplicate();
    assert_eq!(copy, value);
    assert_eq!(value.get("k2"), Some(&JsonValue::Int(9)));
    assert!(value.get("absent").is_none());
    assert_eq!(value.get("k1").and_then(|v| v.as_str()), Some("v1"));
}
