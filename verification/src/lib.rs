//! An orchestration runtime for autonomous agents: plans made of steps,
//! a retrying and falling-back step executor, a mode-driven control
//! loop, a policy-checked tool registry, and a multi-agent orchestrator
//! over a message bus and a memory topology.

mod control;
mod data;
mod evals;
mod executor;
mod json;
mod memory;
mod models;
mod orchestrator;
mod registry;
mod text;
mod tools;

pub use control::{
    ControlLoop, ControlMode, HookV, RunTraceV, RunV, ThinkV, cursor_step, empty_plan_v,
    finish_model, lemma_deterministic_run, lemma_reactive_run, lemma_reflection_run, loop_model,
    after_model, mk_trace, run_model, run_result_matches,
};
pub use data::{
    Agent, AgentConfig, AgentConfigV, AgentContext, AgentContextV, AgentError, AgentErrorV,
    AgentState, AgentStateV, ChainOfThought, ExecutablePlan, ExecutablePlanV, FallbackPolicy,
    FallbackPolicyV, FallbackStrategy, FallbackStrategyV, OutcomeV, Plan, PlanV, RetryPolicy,
    SafetyPolicy, SafetyPolicyV, Step, StepOutcome, StepPolicies, StepPoliciesV, StepV, Subtask,
    SubtaskV, ToolPermissions, ToolPermissionsV, error_output, failure_outcome, outcomes_view,
    steps_view, subtasks_view,
};
pub use evals::{
    ChainOfThoughtGuardrail, EvalError, EvaluationResult, EvaluationResultV, GuardrailEvaluator,
    HallucinationEvaluator, IntoReason, JsonValidityEvaluator, OutputEvaluator,
    PassThroughPlanEvaluator, PlanEvaluator, PlanRanking, RewardEvaluator, ScoreRewardEvaluator,
    SelfAssessmentEvaluator, StepEvaluator, ToolCallCorrectnessEvaluator, ToxicityEvaluator,
    clamp_milli, hallucination_signals, lower_of, score_of, terms_found, type_tag,
};
pub use executor::{
    ActV, StepExecutor, abort_outcome, alternate_failed_outcome, backoff_base, backoff_delay,
    effective_retry_policy, fallback_model, lemma_alternate_tool_takes_over,
    lemma_retries_exhausted_without_fallback, lemma_skip_marks_failure, no_fallback_outcome,
    resolve_retry_policy, retry_exhausted_outcome, retry_limit_model, retry_model, run_step_model,
    skip_outcome,
};
pub use json::{
    JsonV, JsonValue, int_text, jv_fields_lookup, jv_lookup, jv_obj_view, jv_seq_view, jv_text,
    jv_view, lemma_jv_obj_view, lemma_jv_seq_view,
};
pub use memory::{
    InMemoryStore, MemoryError, MemoryHandle, MemoryStore, NullStore, PostgresStore, RedisStore,
    SqliteStore, StoreCell, VectorBackend, VectorStore, clone_handle, entry_for, kv_view,
    postgres_refusal, record_matches, search_spec,
};
pub use models::{
    AzureOpenAIModel, CompletionChunk, EmbeddingModel, LLMModel, LLMResponse, LLMResponseV,
    ModelMetadata, ModelMetadataV, OllamaModel, OpenAIChatModel, RandomReasoner, RestModel,
    StubModel, ToolCallInfo, ToolCallInfoV, UsageMetrics, build_usage, is_blank, split_blanks,
    tokenize,
};
pub use orchestrator::{
    InMemoryBus, MemoryTopology, MessageBus, MultiAgentOrchestrator, bus_view, ctx_for, first_for,
    lemma_bus_round_trip,
};
pub use registry::{
    AccessController, AccessControllerV, RateLimitPolicy, RateWindow, Tool, ToolBox, ToolEntryV,
    ToolError, ToolInvocationError, ToolMetadata, ToolMetadataV, ToolRegistry, access_ok,
    cooling_remaining, denial_reason, elapsed_ms, find_entry, has_common_role,
    lemma_rate_limit_exact, live_window, name_lt, rate_retry_after, spec_insert, window_iter,
};
pub use text::{
    bytes_lt, dec_rep, is_sub, str_contains, str_eq, str_lt, strs_view,
};
pub use tools::{
    LogTool, MathTool, SearchProvider, SearchResult, SearchResultV, SearchTool, TimeTool,
    limit_of, render_results, result_json, results_view,
};
