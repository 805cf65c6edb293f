use vstd::prelude::*;
use rand::Rng;
use crate::data::{
    Agent, AgentContext, AgentError, AgentErrorV, FallbackPolicy, FallbackPolicyV,
    FallbackStrategy, FallbackStrategyV, OutcomeV, RetryPolicy, Step, StepOutcome, StepV,
    error_output, failure_outcome,
};
use crate::json::{JsonValue, JsonV};
use crate::text::strs_view;

verus! {

/// One recorded result of an agent's act capability.
pub type ActV = Result<OutcomeV, AgentErrorV>;

/// The retry policy that governs a step: the step's own policy when any
/// of its fields is set, else the run's default.
pub open spec fn effective_retry_policy(step: StepV, default: RetryPolicy) -> RetryPolicy {
    if !step.policies.retry.is_unset() {
        step.policies.retry
    } else {
        default
    }
}

/// Resolves the retry policy for one step against the run's default.
pub fn resolve_retry_policy(step: &Step, default_policy: &RetryPolicy) -> (r: RetryPolicy)
    ensures
        r == effective_retry_policy(step@, *default_policy),
{
    if step.policies.retry.max_retries > 0 || step.policies.retry.backoff_ms > 0
        || step.policies.retry.jitter {
        step.policies.retry
    } else {
        *default_policy
    }
}

/// The backoff before retry number `retry_count + 1`, without jitter,
/// capped at the largest representable delay.
pub open spec fn backoff_base(policy: RetryPolicy, retry_count: nat) -> nat {
    let base = (policy.backoff_ms as nat) * (retry_count + 1);
    if base > u64::MAX as nat {
        u64::MAX as nat
    } else {
        base
    }
}

/// Relies on rand's `thread_rng` and `Rng::gen_range`: a draw from the
/// inclusive range `0..=bound`, which always lies within that range.
#[verifier::external_body]
pub(crate) fn draw_u64(bound: u64) -> (r: u64)
    ensures
        r <= bound,
{
    rand::thread_rng().gen_range(0..=bound)
}

/// The delay in milliseconds before the next retry: the base backoff
/// grows linearly with the retry count, and jitter, when enabled, adds a
/// random share of one base unit. A zero base means no delay at all.
pub fn backoff_delay(policy: &RetryPolicy, retry_count: usize) -> (r: u64)
    ensures
        backoff_base(*policy, retry_count as nat) == 0 ==> r == 0,
        !policy.jitter ==> r == backoff_base(*policy, retry_count as nat),
        policy.jitter && backoff_base(*policy, retry_count as nat) != 0 ==> {
            let base = backoff_base(*policy, retry_count as nat);
            let cap = if policy.backoff_ms > 0 {
                policy.backoff_ms as nat
            } else {
                1nat
            };
            base <= r && r <= base + cap
        },
{
    let c = retry_count as u64;
    let base: u64 = if c == u64::MAX {
        proof {
            assert(policy.backoff_ms == 0 ==> backoff_base(*policy, retry_count as nat) == 0);
            if policy.backoff_ms > 0 {
                assert(policy.backoff_ms * (retry_count as nat + 1) >= 1 * (u64::MAX + 1))
                    by (nonlinear_arith)
                    requires
                        policy.backoff_ms >= 1,
                        retry_count as nat + 1 >= u64::MAX + 1,
                ;
            }
        }
        if policy.backoff_ms == 0 {
            0
        } else {
            u64::MAX
        }
    } else {
        match policy.backoff_ms.checked_mul(c + 1) {
            Some(b) => b,
            None => u64::MAX,
        }
    };
    if base == 0 {
        return 0;
    }
    if policy.jitter {
        let cap = if policy.backoff_ms > 0 {
            policy.backoff_ms
        } else {
            1
        };
        let j = draw_u64(cap);
        match base.checked_add(j) {
            Some(total) => total,
            None => u64::MAX,
        }
    } else {
        base
    }
}

/// What the skip fallback yields: a failed outcome that records the error
/// and marks the step as intentionally bypassed.
pub open spec fn skip_outcome(sid: Seq<char>, e: AgentErrorV, retries: nat) -> OutcomeV {
    OutcomeV {
        step_id: sid,
        output: JsonV::Obj(
            seq![("skipped"@, JsonV::Bool(true)), ("error"@, JsonV::Str(e.message()))],
        ),
        observations: seq!["skipped via fallback"@],
        success: false,
        retries: retries as int,
        fallback_used: true,
        control_notes: seq!["fallback: skip"@],
    }
}

/// What the abort fallback yields: the step is abandoned; stopping the
/// whole run stays the caller's decision.
pub open spec fn abort_outcome(sid: Seq<char>, e: AgentErrorV, retries: nat) -> OutcomeV {
    OutcomeV {
        step_id: sid,
        output: error_output(e.message()),
        observations: seq!["aborted via fallback"@],
        success: false,
        retries: retries as int,
        fallback_used: true,
        control_notes: seq!["fallback: abort"@],
    }
}

/// What a step without a fallback policy yields on exhaustion: a generic
/// failure that still reports how many retries were spent.
pub open spec fn no_fallback_outcome(sid: Seq<char>, e: AgentErrorV, retries: nat) -> OutcomeV {
    OutcomeV { retries: retries as int, ..failure_outcome(sid, e) }
}

/// What the bounded-retry fallback yields once its extra attempts are
/// spent as well.
pub open spec fn retry_exhausted_outcome(sid: Seq<char>, e: AgentErrorV, total: nat) -> OutcomeV {
    OutcomeV {
        step_id: sid,
        output: error_output(e.message()),
        observations: seq!["retry fallback exhausted"@],
        success: false,
        retries: total as int,
        fallback_used: true,
        control_notes: seq!["fallback: retry exhausted"@],
    }
}

/// What the alternate-tool fallback yields when the alternate fails too.
pub open spec fn alternate_failed_outcome(sid: Seq<char>, e: AgentErrorV, retries: nat)
    -> OutcomeV {
    OutcomeV {
        step_id: sid,
        output: error_output(e.message()),
        observations: seq!["alternate tool failed"@],
        success: false,
        retries: retries as int,
        fallback_used: true,
        control_notes: seq!["fallback: alternate tool"@],
    }
}

/// A sum capped at the largest `usize`.
pub open spec fn sat_usize(x: int) -> int {
    if x > usize::MAX as int {
        usize::MAX as int
    } else {
        x
    }
}

/// The meaning of the bounded-retry fallback over a sequence of act
/// results: attempt `attempt` of at most `m`, with `base` retries already
/// on the clock before the fallback began.
pub open spec fn retry_limit_model(
    sid: Seq<char>,
    m: int,
    base: nat,
    attempt: nat,
    acts: Seq<ActV>,
) -> OutcomeV
    decreases acts.len(),
{
    if acts.len() == 0 {
        arbitrary()
    } else {
        let total = sat_usize(base as int + attempt as int);
        match acts[0] {
            Ok(o) => OutcomeV {
                retries: total,
                fallback_used: true,
                control_notes: o.control_notes.push("fallback: retry"@),
                ..o
            },
            Err(e) => {
                if attempt >= m {
                    retry_exhausted_outcome(sid, e, total as nat)
                } else {
                    retry_limit_model(sid, m, base, attempt + 1, acts.drop_first())
                }
            },
        }
    }
}

/// The meaning of the fallback phase: what one step yields once its
/// retries are exhausted with error `e`, given the act results any
/// further attempts would see.
pub open spec fn fallback_model(
    sid: Seq<char>,
    fb: Option<FallbackPolicyV>,
    e: AgentErrorV,
    retries: nat,
    rest: Seq<ActV>,
) -> OutcomeV {
    match fb {
        None => no_fallback_outcome(sid, e, retries),
        Some(p) => match p.strategy {
            FallbackStrategyV::Skip => skip_outcome(sid, e, retries),
            FallbackStrategyV::Abort => abort_outcome(sid, e, retries),
            FallbackStrategyV::RetryWithLimit { max_additional_retries } => retry_limit_model(
                sid,
                max_additional_retries,
                retries,
                0,
                rest,
            ),
            FallbackStrategyV::AlternateTool { tool } => {
                if rest.len() == 0 {
                    arbitrary()
                } else {
                    match rest[0] {
                        Ok(o) => OutcomeV {
                            retries: retries as int,
                            fallback_used: true,
                            control_notes: o.control_notes.push("fallback: alternate tool"@),
                            ..o
                        },
                        Err(e2) => alternate_failed_outcome(sid, e2, retries),
                    }
                }
            },
        },
    }
}

/// The meaning of the retry phase: act results are consumed in order;
/// the first success is returned with the retries spent so far stamped
/// on it, and on exhaustion the fallback phase takes over.
pub open spec fn retry_model(
    sid: Seq<char>,
    pol: RetryPolicy,
    fb: Option<FallbackPolicyV>,
    acts: Seq<ActV>,
    consumed: nat,
) -> OutcomeV
    decreases acts.len(),
{
    if acts.len() == 0 {
        arbitrary()
    } else {
        match acts[0] {
            Ok(o) => OutcomeV { retries: consumed as int, ..o },
            Err(e) => {
                if consumed < pol.max_retries {
                    retry_model(sid, pol, fb, acts.drop_first(), consumed + 1)
                } else {
                    fallback_model(sid, fb, e, consumed, acts.drop_first())
                }
            },
        }
    }
}

/// The meaning of executing one step, given the sequence of act results
/// the agent would deliver.
pub open spec fn run_step_model(
    sid: Seq<char>,
    pol: RetryPolicy,
    fb: Option<FallbackPolicyV>,
    acts: Seq<ActV>,
) -> OutcomeV {
    retry_model(sid, pol, fb, acts, 0)
}

/// Consuming a failing prefix of the retry phase only moves the count.
proof fn lemma_retry_prefix(
    sid: Seq<char>,
    pol: RetryPolicy,
    fb: Option<FallbackPolicyV>,
    prefix: Seq<ActV>,
    rest: Seq<ActV>,
    c: nat,
)
    requires
        forall|i: int| 0 <= i < prefix.len() ==> prefix[i] is Err,
        c + prefix.len() <= pol.max_retries,
    ensures
        retry_model(sid, pol, fb, prefix + rest, c) == retry_model(
            sid,
            pol,
            fb,
            rest,
            c + prefix.len(),
        ),
    decreases prefix.len(),
{
    if prefix.len() == 0 {
        assert(prefix + rest =~= rest);
    } else {
        assert((prefix + rest)[0] == prefix[0]);
        assert((prefix + rest).drop_first() =~= prefix.drop_first() + rest);
        lemma_retry_prefix(sid, pol, fb, prefix.drop_first(), rest, c + 1);
    }
}

/// Consuming a failing prefix of the bounded-retry fallback only moves
/// the attempt counter.
proof fn lemma_retry_limit_prefix(
    sid: Seq<char>,
    m: int,
    base: nat,
    attempt: nat,
    prefix: Seq<ActV>,
    rest: Seq<ActV>,
)
    requires
        forall|i: int| 0 <= i < prefix.len() ==> prefix[i] is Err,
        attempt + prefix.len() <= m,
    ensures
        retry_limit_model(sid, m, base, attempt, prefix + rest) == retry_limit_model(
            sid,
            m,
            base,
            attempt + prefix.len(),
            rest,
        ),
    decreases prefix.len(),
{
    if prefix.len() == 0 {
        assert(prefix + rest =~= rest);
    } else {
        assert((prefix + rest)[0] == prefix[0]);
        assert((prefix + rest).drop_first() =~= prefix.drop_first() + rest);
        lemma_retry_limit_prefix(sid, m, base, attempt + 1, prefix.drop_first(), rest);
    }
}

/// Law: for a step whose effective policy allows `n` retries and that has
/// no fallback policy, an act capability that fails on the first call and
/// on every one of the `n` retries yields a failed outcome with
/// `retries == n`, no fallback used, and the last error's text recorded.
pub proof fn lemma_retries_exhausted_without_fallback(
    sid: Seq<char>,
    pol: RetryPolicy,
    acts: Seq<ActV>,
)
    requires
        acts.len() == pol.max_retries + 1,
        forall|i: int| 0 <= i < acts.len() ==> acts[i] is Err,
    ensures
        ({
            let o = run_step_model(sid, pol, None, acts);
            &&& o.success == false
            &&& o.retries == pol.max_retries
            &&& o.fallback_used == false
            &&& o.step_id == sid
            &&& o.output == error_output(acts[pol.max_retries as int]->Err_0.message())
        }),
{
    let n = pol.max_retries as int;
    let prefix = acts.subrange(0, n);
    let rest = acts.subrange(n, acts.len() as int);
    assert(acts =~= prefix + rest);
    lemma_retry_prefix(sid, pol, None, prefix, rest, 0);
    assert(rest[0] == acts[n]);
}

/// Law: for a step with fallback `AlternateTool(t)`, when the primary
/// fails through every allowed attempt and the alternate call succeeds,
/// the outcome is the alternate's output and success flag, marked
/// fallback-used, with the original retry count preserved and a control
/// note appended.
pub proof fn lemma_alternate_tool_takes_over(
    sid: Seq<char>,
    pol: RetryPolicy,
    tool: Seq<char>,
    reason: Option<Seq<char>>,
    acts: Seq<ActV>,
    alt: OutcomeV,
)
    requires
        acts.len() == pol.max_retries + 2,
        forall|i: int| 0 <= i < acts.len() - 1 ==> acts[i] is Err,
        acts[acts.len() - 1] == Result::<OutcomeV, AgentErrorV>::Ok(alt),
    ensures
        ({
            let fb = Some(
                FallbackPolicyV { strategy: FallbackStrategyV::AlternateTool { tool }, reason },
            );
            let o = run_step_model(sid, pol, fb, acts);
            &&& o.fallback_used == true
            &&& o.output == alt.output
            &&& o.success == alt.success
            &&& o.step_id == alt.step_id
            &&& o.observations == alt.observations
            &&& o.retries == pol.max_retries
            &&& o.control_notes == alt.control_notes.push("fallback: alternate tool"@)
        }),
{
    let fb = Some(FallbackPolicyV { strategy: FallbackStrategyV::AlternateTool { tool }, reason });
    let n = pol.max_retries as int;
    let prefix = acts.subrange(0, n);
    let rest = acts.subrange(n, acts.len() as int);
    assert(acts =~= prefix + rest);
    lemma_retry_prefix(sid, pol, fb, prefix, rest, 0);
    assert(rest[0] == acts[n]);
    assert(rest.drop_first()[0] == acts[n + 1]);
}

/// Law: for a step with fallback `Skip`, after retry exhaustion the
/// outcome is a failure marked fallback-used whose output records that
/// the step was skipped together with the error's text.
pub proof fn lemma_skip_marks_failure(
    sid: Seq<char>,
    pol: RetryPolicy,
    reason: Option<Seq<char>>,
    acts: Seq<ActV>,
)
    requires
        acts.len() == pol.max_retries + 1,
        forall|i: int| 0 <= i < acts.len() ==> acts[i] is Err,
    ensures
        ({
            let fb = Some(FallbackPolicyV { strategy: FallbackStrategyV::Skip, reason });
            let o = run_step_model(sid, pol, fb, acts);
            &&& o.success == false
            &&& o.fallback_used == true
            &&& o.retries == pol.max_retries
            &&& o.step_id == sid
            &&& o.output == JsonV::Obj(
                seq![
                    ("skipped"@, JsonV::Bool(true)),
                    ("error"@, JsonV::Str(acts[pol.max_retries as int]->Err_0.message())),
                ],
            )
        }),
{
    let fb = Some(FallbackPolicyV { strategy: FallbackStrategyV::Skip, reason });
    let n = pol.max_retries as int;
    let prefix = acts.subrange(0, n);
    let rest = acts.subrange(n, acts.len() as int);
    assert(acts =~= prefix + rest);
    lemma_retry_prefix(sid, pol, fb, prefix, rest, 0);
    assert(rest[0] == acts[n]);
}

/// Runs exactly one step against one agent, applying the step's retry
/// policy and then, on exhaustion, its fallback policy.
pub struct StepExecutor;

impl StepExecutor {
    /// Runs one step. The act capability is retried under the step's
    /// effective policy; on exhaustion the fallback policy is applied.
    /// Always yields an outcome, never an error. The ghost sequence
    /// records the act results observed, and the outcome is exactly what
    /// the executor's model yields on that record.
    pub fn run_step<A: Agent>(step: Step, agent: &A, ctx: &mut AgentContext) -> (r: (
        StepOutcome,
        Ghost<Seq<ActV>>,
    ))
        ensures
            r.0@ == run_step_model(
                step@.id,
                effective_retry_policy(step@, old(ctx)@.config.retry_policy),
                step@.policies.fallback,
                r.1@,
            ),
    {
        let retry_policy = resolve_retry_policy(&step, &ctx.config.retry_policy);
        let ghost gpol = effective_retry_policy(step@, old(ctx)@.config.retry_policy);
        let ghost gstep = step@;
        let mut retries: usize = 0;
        let ghost mut trace: Seq<ActV> = Seq::empty();
        loop
            invariant
                retry_policy == gpol,
                gstep == step@,
                gpol == effective_retry_policy(gstep, old(ctx)@.config.retry_policy),
                retries <= gpol.max_retries,
                trace.len() == retries,
                forall|i: int| 0 <= i < trace.len() ==> trace[i] is Err,
            decreases gpol.max_retries - retries,
        {
            match agent.act(&step, ctx) {
                Ok(mut outcome) => {
                    let ghost ov = outcome@;
                    outcome.retries = retries;
                    proof {
                        let prior = trace;
                        trace = trace.push(Ok(ov));
                        assert(trace =~= prior + seq![Result::<OutcomeV, AgentErrorV>::Ok(ov)]);
                        lemma_retry_prefix(
                            gstep.id,
                            gpol,
                            gstep.policies.fallback,
                            prior,
                            seq![Result::<OutcomeV, AgentErrorV>::Ok(ov)],
                            0,
                        );
                        assert(outcome@ =~= (OutcomeV { retries: retries as int, ..ov }));
                        assert(retry_model(
                            gstep.id,
                            gpol,
                            gstep.policies.fallback,
                            seq![Result::<OutcomeV, AgentErrorV>::Ok(ov)],
                            retries as nat,
                        ) == (OutcomeV { retries: retries as int, ..ov }));
                        assert(run_step_model(gstep.id, gpol, gstep.policies.fallback, trace)
                            == outcome@);
                    }
                    return (outcome, Ghost(trace));
                },
                Err(err) => {
                    if retries < retry_policy.max_retries {
                        let _delay = backoff_delay(&retry_policy, retries);
                        proof {
                            trace = trace.push(Err(err@));
                        }
                        retries = retries + 1;
                    } else {
                        let ghost ev = err@;
                        let ghost prior = trace;
                        proof {
                            trace = trace.push(Err(ev));
                        }
                        let (outcome, sub) = Self::apply_fallback(step, agent, ctx, err, retries);
                        proof {
                            let one = seq![Result::<OutcomeV, AgentErrorV>::Err(ev)];
                            lemma_retry_prefix(
                                gstep.id,
                                gpol,
                                gstep.policies.fallback,
                                prior,
                                one + sub@,
                                0,
                            );
                            assert(trace + sub@ =~= prior + (one + sub@));
                            assert((one + sub@)[0] == one[0]);
                            assert((one + sub@).drop_first() =~= sub@);
                            assert(retry_model(
                                gstep.id,
                                gpol,
                                gstep.policies.fallback,
                                one + sub@,
                                retries as nat,
                            ) == fallback_model(
                                gstep.id,
                                gstep.policies.fallback,
                                ev,
                                retries as nat,
                                sub@,
                            ));
                            assert(run_step_model(
                                gstep.id,
                                gpol,
                                gstep.policies.fallback,
                                trace + sub@,
                            ) == outcome@);
                        }
                        return (outcome, Ghost(trace + sub@));
                    }
                },
            }
        }
    }

    /// Applies the step's fallback policy after retry exhaustion. The
    /// ghost sequence records any further act results the fallback
    /// consumed, and the outcome is exactly what the fallback model
    /// yields on that record.
    fn apply_fallback<A: Agent>(
        step: Step,
        agent: &A,
        ctx: &mut AgentContext,
        error: AgentError,
        retries: usize,
    ) -> (r: (StepOutcome, Ghost<Seq<ActV>>))
        ensures
            r.0@ == fallback_model(
                step@.id,
                step@.policies.fallback,
                error@,
                retries as nat,
                r.1@,
            ),
    {
        let ghost gstep = step@;
        let fb: Option<FallbackPolicy> = match &step.policies.fallback {
            Some(p) => Some(p.duplicate()),
            None => None,
        };
        proof {
            assert(crate::data::opt_fallback_view(fb) == gstep.policies.fallback);
        }
        match fb {
            None => {
                let mut out = StepOutcome::failure(step.id, error);
                out.retries = retries;
                proof {
                    assert(out@ =~= no_fallback_outcome(gstep.id, error@, retries as nat));
                }
                (out, Ghost(Seq::empty()))
            },
            Some(policy) => match policy.strategy {
                FallbackStrategy::Skip => {
                    let msg = error.message();
                    let out = StepOutcome {
                        step_id: step.id,
                        output: JsonValue::obj2(
                            "skipped",
                            JsonValue::Bool(true),
                            "error",
                            JsonValue::Str(msg),
                        ),
                        observations: vec!["skipped via fallback".to_owned()],
                        success: false,
                        retries,
                        fallback_used: true,
                        control_notes: vec!["fallback: skip".to_owned()],
                    };
                    proof {
                        assert(strs_view(out.observations@) =~= seq!["skipped via fallback"@]);
                        assert(strs_view(out.control_notes@) =~= seq!["fallback: skip"@]);
                        assert(out@ =~= skip_outcome(gstep.id, error@, retries as nat));
                    }
                    (out, Ghost(Seq::empty()))
                },
                FallbackStrategy::Abort => {
                    let msg = error.message();
                    let out = StepOutcome {
                        step_id: step.id,
                        output: JsonValue::obj1("error", JsonValue::Str(msg)),
                        observations: vec!["aborted via fallback".to_owned()],
                        success: false,
                        retries,
                        fallback_used: true,
                        control_notes: vec!["fallback: abort".to_owned()],
                    };
                    proof {
                        assert(strs_view(out.observations@) =~= seq!["aborted via fallback"@]);
                        assert(strs_view(out.control_notes@) =~= seq!["fallback: abort"@]);
                        assert(out@ =~= abort_outcome(gstep.id, error@, retries as nat));
                    }
                    (out, Ghost(Seq::empty()))
                },
                FallbackStrategy::RetryWithLimit { max_additional_retries } => {
                    let m = max_additional_retries;
                    let mut attempt: usize = 0;
                    let ghost mut sub: Seq<ActV> = Seq::empty();
                    loop
                        invariant
                            gstep == step@,
                            gstep.policies.fallback matches Some(p) && p.strategy
                                == (FallbackStrategyV::RetryWithLimit {
                                max_additional_retries: m as int,
                            }),
                            attempt <= m,
                            sub.len() == attempt,
                            forall|i: int| 0 <= i < sub.len() ==> sub[i] is Err,
                        decreases m - attempt,
                    {
                        let total: usize = match retries.checked_add(attempt) {
                            Some(t) => t,
                            None => usize::MAX,
                        };
                        proof {
                            assert(total as int == sat_usize(retries as int + attempt as int));
                        }
                        match agent.act(&step, ctx) {
                            Ok(mut outcome) => {
                                let ghost ov = outcome@;
                                outcome.retries = total;
                                outcome.fallback_used = true;
                                outcome.control_notes.push("fallback: retry".to_owned());
                                proof {
                                    let prior = sub;
                                    let one = seq![Result::<OutcomeV, AgentErrorV>::Ok(ov)];
                                    sub = sub.push(Ok(ov));
                                    assert(sub =~= prior + one);
                                    lemma_retry_limit_prefix(
                                        gstep.id,
                                        m as int,
                                        retries as nat,
                                        0,
                                        prior,
                                        one,
                                    );
                                    assert(strs_view(outcome.control_notes@)
                                        =~= ov.control_notes.push("fallback: retry"@));
                                    assert(outcome@ =~= (OutcomeV {
                                        retries: sat_usize(retries as int + attempt as int),
                                        fallback_used: true,
                                        control_notes: ov.control_notes.push("fallback: retry"@),
                                        ..ov
                                    }));
                                }
                                return (outcome, Ghost(sub));
                            },
                            Err(err) => {
                                if attempt == m {
                                    let ghost ev = err@;
                                    let msg = err.message();
                                    let out = StepOutcome {
                                        step_id: step.id,
                                        output: JsonValue::obj1("error", JsonValue::Str(msg)),
                                        observations: vec!["retry fallback exhausted".to_owned()],
                                        success: false,
                                        retries: total,
                                        fallback_used: true,
                                        control_notes: vec!["fallback: retry exhausted".to_owned()],
                                    };
                                    proof {
                                        let prior = sub;
                                        let one = seq![Result::<OutcomeV, AgentErrorV>::Err(ev)];
                                        sub = sub.push(Err(ev));
                                        assert(sub =~= prior + one);
                                        lemma_retry_limit_prefix(
                                            gstep.id,
                                            m as int,
                                            retries as nat,
                                            0,
                                            prior,
                                            one,
                                        );
                                        assert(strs_view(out.observations@)
                                            =~= seq!["retry fallback exhausted"@]);
                                        assert(strs_view(out.control_notes@)
                                            =~= seq!["fallback: retry exhausted"@]);
                                        assert(out@ =~= retry_exhausted_outcome(
                                            gstep.id,
                                            ev,
                                            (sat_usize(retries as int + attempt as int)) as nat,
                                        ));
                                    }
                                    return (out, Ghost(sub));
                                } else {
                                    proof {
                                        sub = sub.push(Err(err@));
                                    }
                                    attempt = attempt + 1;
                                }
                            },
                        }
                    }
                },
                FallbackStrategy::AlternateTool { tool } => {
                    let sid = step.id.clone();
                    let mut alternate = step;
                    alternate.tool = Some(tool);
                    match agent.act(&alternate, ctx) {
                        Ok(mut outcome) => {
                            let ghost ov = outcome@;
                            outcome.retries = retries;
                            outcome.fallback_used = true;
                            outcome.control_notes.push("fallback: alternate tool".to_owned());
                            proof {
                                let one = seq![Result::<OutcomeV, AgentErrorV>::Ok(ov)];
                                assert(strs_view(outcome.control_notes@) =~= ov.control_notes.push(
                                    "fallback: alternate tool"@,
                                ));
                                assert(outcome@ =~= (OutcomeV {
                                    retries: retries as int,
                                    fallback_used: true,
                                    control_notes: ov.control_notes.push(
                                        "fallback: alternate tool"@,
                                    ),
                                    ..ov
                                }));
                            }
                            let ghost gsub: Seq<ActV> = seq![Result::<OutcomeV, AgentErrorV>::Ok(ov)];
                            (outcome, Ghost(gsub))
                        },
                        Err(err) => {
                            let ghost ev = err@;
                            let msg = err.message();
                            let out = StepOutcome {
                                step_id: alternate.id,
                                output: JsonValue::obj1("error", JsonValue::Str(msg)),
                                observations: vec!["alternate tool failed".to_owned()],
                                success: false,
                                retries,
                                fallback_used: true,
                                control_notes: vec!["fallback: alternate tool".to_owned()],
                            };
                            proof {
                                assert(strs_view(out.observations@)
                                    =~= seq!["alternate tool failed"@]);
                                assert(strs_view(out.control_notes@)
                                    =~= seq!["fallback: alternate tool"@]);
                                assert(out@ =~= alternate_failed_outcome(
                                    gstep.id,
                                    ev,
                                    retries as nat,
                                ));
                            }
                            let ghost gsub: Seq<ActV> = seq![Result::<OutcomeV, AgentErrorV>::Err(ev)];
                            (out, Ghost(gsub))
                        },
                    }
                },
            },
        }
    }
}

} // verus!
