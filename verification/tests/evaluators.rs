use agentrt::{
    ChainOfThoughtGuardrail, GuardrailEvaluator, JsonValidityEvaluator, JsonValue,
    PassThroughPlanEvaluator, PlanEvaluator, RewardEvaluator, ScoreRewardEvaluator,
    SelfAssessmentEvaluator, StepEvaluator, ToolCallCorrectnessEvaluator, ToxicityEvaluator,
};

#[test]
fn json_validity_passes_for_objects() {
    let evaluator = JsonValidityEvaluator;
    let result = evaluator
        .evaluate(&JsonValue::obj1("message", JsonValue::text("ok")))
        .unwrap();

    assert!(result.passed);
    assert!(result.score_milli > 900);
}

#[test]
fn json_validity_rejects_scalars() {
    let evaluator = JsonValidityEvaluator;
    let result = evaluator.evaluate(&JsonValue::Int(7)).unwrap();

    assert!(!result.passed);
    assert_eq!(
        result.details.get("type"),
        Some(&JsonValue::text("number"))
    );
}

#[test]
fn toxicity_blocks_offending_terms() {
    let evaluator = ToxicityEvaluator::default();
    let result = evaluator
        .validate(&JsonValue::text("This message encourages violence"))
        .unwrap();

    assert!(!result.passed);
    let offending = result.details.get("offending_terms").expect("details present");
    assert!(offending.is_array());
}

#[test]
fn toxicity_folds_case_before_matching() {
    let evaluator = ToxicityEvaluator::default();
    let result = evaluator
        .validate(&JsonValue::text("COMPLETELY VIOLENCE-FREE? no: VIOLENCE"))
        .unwrap();

    assert!(!result.passed, "uppercase text must still be screened");
}

#[test]
fn toxicity_passes_clean_text() {
    let evaluator = ToxicityEvaluator::default();
    let result = evaluator
        .validate(&JsonValue::text("a friendly and calm sentence"))
        .unwrap();

    assert!(result.passed);
    assert_eq!(result.score_milli, 1000);
}

#[test]
fn tool_call_validator_requires_structure() {
    let evaluator = ToolCallCorrectnessEvaluator;
    let result = evaluator
        .evaluate(&JsonValue::obj2(
            "tool",
            JsonValue::text("search"),
            "arguments",
            JsonValue::obj1("query", JsonValue::text("rust")),
        ))
        .unwrap();

    assert!(result.passed);
}

#[test]
fn tool_call_validator_rejects_missing_fields() {
    let evaluator = ToolCallCorrectnessEvaluator;
    let result = evaluator
        .evaluate(&JsonValue::obj1("tool", JsonValue::text("search")))
        .unwrap();

    assert!(!result.passed);
    assert_eq!(
        result.reason.as_deref(),
        Some("tool call must contain 'tool' and 'arguments' fields")
    );
}

#[test]
fn chain_of_thought_guardrail_detects_markers() {
    let evaluator = ChainOfThoughtGuardrail;
    let result = evaluator
        .validate(&JsonValue::text("Chain-of-thought: I reasoned about X"))
        .unwrap();

    assert!(!result.passed);
}

#[test]
fn hallucination_guardrail_flags_markers() {
    let evaluator = agentrt::HallucinationEvaluator;
    let flagged = evaluator
        .validate(&JsonValue::text("I am guessing here"))
        .unwrap();
    assert!(!flagged.passed);

    let clean = evaluator
        .validate(&JsonValue::text("grounded in the cited sources"))
        .unwrap();
    assert!(clean.passed);
}

#[test]
fn reward_evaluator_uses_score() {
    let evaluator = ScoreRewardEvaluator;
    let result = evaluator
        .reward(&JsonValue::obj2(
            "score",
            JsonValue::Int(800),
            "reason",
            JsonValue::text("high-quality"),
        ))
        .unwrap();

    assert!(result.passed);
    assert_eq!(result.score_milli, 800);
    assert_eq!(result.reason.as_deref(), Some("high-quality"));
}

#[test]
fn self_assessment_reads_score_and_notes() {
    let evaluator = SelfAssessmentEvaluator;
    let assessment = JsonValue::obj2(
        "score",
        JsonValue::Int(750),
        "notes",
        JsonValue::text("solid"),
    );
    let result = evaluator
        .evaluate(&JsonValue::obj1("self_assessment", assessment))
        .unwrap();

    assert!(result.passed);
    assert_eq!(result.score_milli, 750);
    assert_eq!(result.details.get("notes"), Some(&JsonValue::text("solid")));

    let missing = evaluator.evaluate(&JsonValue::obj1("other", JsonValue::Null)).unwrap();
    assert!(!missing.passed);
}

#[test]
fn pass_through_plan_evaluator_keeps_order() {
    let evaluator = PassThroughPlanEvaluator;
    let plans = vec![JsonValue::Null, JsonValue::Null, JsonValue::Null];
    let ranking = evaluator.rank(&plans).unwrap();

    assert_eq!(ranking.order, vec![0, 1, 2]);
    assert_eq!(ranking.rationales.len(), 3);
    assert!(ranking.rationales.iter().all(|r| r.is_none()));
}
