use vstd::prelude::*;
use crate::data::{
    Agent, AgentContext, AgentError, AgentErrorV, ExecutablePlan, OutcomeV, Plan, PlanV, Step,
    StepOutcome, StepV, outcomes_view,
};
use crate::executor::StepExecutor;
use crate::json::{JsonValue, JsonV};
use vstd::math::min;

verus! {

/// The result of one lifecycle hook call.
pub type HookV = Result<(), AgentErrorV>;

/// The result of one think call.
pub type ThinkV = Result<PlanV, AgentErrorV>;

/// When the loop replans versus continues an existing plan.
#[derive(Debug, Clone, Copy, PartialEq, Eq, Structural)]
pub enum ControlMode {
    Deterministic,
    Reactive,
    Procedural,
    ReflectionEnabled,
}

impl Default for ControlMode {
    fn default() -> (r: Self)
        ensures
            r == ControlMode::Deterministic,
    {
        ControlMode::Deterministic
    }
}

/// Everything one run consumed from its collaborators, in order: the
/// initialize result, then each think result, each step outcome the
/// executor delivered, each observe result and each reflect result.
#[verifier::ext_equal]
pub struct RunTraceV {
    pub init: HookV,
    pub thinks: Seq<ThinkV>,
    pub steps: Seq<OutcomeV>,
    pub observes: Seq<HookV>,
    pub reflects: Seq<HookV>,
}

pub open spec fn mk_trace(
    init: HookV,
    thinks: Seq<ThinkV>,
    steps: Seq<OutcomeV>,
    observes: Seq<HookV>,
    reflects: Seq<HookV>,
) -> RunTraceV {
    RunTraceV { init, thinks, steps, observes, reflects }
}

/// A run's result, the steps it dispatched, and how much of each stream
/// it consumed.
#[verifier::ext_equal]
pub struct RunV {
    pub result: Result<Seq<OutcomeV>, AgentErrorV>,
    pub dispatched: Seq<StepV>,
    pub thinks_used: nat,
    pub steps_used: nat,
    pub observes_used: nat,
    pub reflects_used: nat,
}

/// The view of a plan with nothing in it: what the loop's cursor holds
/// before any plan was produced.
pub open spec fn empty_plan_v() -> PlanV {
    PlanV { goal: Seq::empty(), steps: Seq::empty(), metadata: JsonV::Null }
}

/// One pull on a plan cursor: the step yielded, if any, and the cursor
/// afterwards.
pub open spec fn cursor_step(cur: (PlanV, int)) -> (Option<StepV>, (PlanV, int)) {
    let (p, c) = cur;
    if 0 <= c < p.steps.len() {
        (Some(p.steps[c]), (p, c + 1))
    } else {
        (None, (p, c))
    }
}

/// The trailing reflect call that closes every run, in every mode.
pub open spec fn finish_model(
    tr: RunTraceV,
    rc: nat,
    outs: Seq<OutcomeV>,
    disp: Seq<StepV>,
    tc: nat,
    sc: nat,
    oc: nat,
) -> RunV {
    match tr.reflects[rc as int] {
        Err(e) => RunV {
            result: Err(e),
            dispatched: disp,
            thinks_used: tc,
            steps_used: sc,
            observes_used: oc,
            reflects_used: rc + 1,
        },
        Ok(u) => RunV {
            result: Ok(outs),
            dispatched: disp,
            thinks_used: tc,
            steps_used: sc,
            observes_used: oc,
            reflects_used: rc + 1,
        },
    }
}

/// What happens once a step has been chosen for this iteration: none
/// ends the run early; otherwise the step is dispatched, observed,
/// recorded, and (under ReflectionEnabled) reflected on.
pub open spec fn after_model(
    mode: ControlMode,
    maxit: nat,
    tr: RunTraceV,
    i: nat,
    tc: nat,
    sc: nat,
    oc: nat,
    rc: nat,
    cur: (PlanV, int),
    outs: Seq<OutcomeV>,
    disp: Seq<StepV>,
    stepo: Option<StepV>,
) -> RunV
    decreases maxit - i, 0nat,
{
    match stepo {
        None => finish_model(tr, rc, outs, disp, tc, sc, oc),
        Some(st) => {
            let outcome = tr.steps[sc as int];
            let disp2 = disp.push(st);
            match tr.observes[oc as int] {
                Err(e) => RunV {
                    result: Err(e),
                    dispatched: disp2,
                    thinks_used: tc,
                    steps_used: sc + 1,
                    observes_used: oc + 1,
                    reflects_used: rc,
                },
                Ok(u) => {
                    let outs2 = outs.push(outcome);
                    if mode == ControlMode::ReflectionEnabled {
                        match tr.reflects[rc as int] {
                            Err(e) => RunV {
                                result: Err(e),
                                dispatched: disp2,
                                thinks_used: tc,
                                steps_used: sc + 1,
                                observes_used: oc + 1,
                                reflects_used: rc + 1,
                            },
                            Ok(u2) => {
                                if i < maxit {
                                    loop_model(
                                        mode,
                                        maxit,
                                        tr,
                                        i + 1,
                                        tc,
                                        sc + 1,
                                        oc + 1,
                                        rc + 1,
                                        cur,
                                        outs2,
                                        disp2,
                                    )
                                } else {
                                    arbitrary()
                                }
                            },
                        }
                    } else {
                        if i < maxit {
                            loop_model(
                                mode,
                                maxit,
                                tr,
                                i + 1,
                                tc,
                                sc + 1,
                                oc + 1,
                                rc,
                                cur,
                                outs2,
                                disp2,
                            )
                        } else {
                            arbitrary()
                        }
                    }
                },
            }
        },
    }
}

/// One iteration of the loop: choose the next step under the mode's
/// planning rule, then hand over to `after_model`.
pub open spec fn loop_model(
    mode: ControlMode,
    maxit: nat,
    tr: RunTraceV,
    i: nat,
    tc: nat,
    sc: nat,
    oc: nat,
    rc: nat,
    cur: (PlanV, int),
    outs: Seq<OutcomeV>,
    disp: Seq<StepV>,
) -> RunV
    decreases maxit - i, 1nat,
{
    if i >= maxit {
        finish_model(tr, rc, outs, disp, tc, sc, oc)
    } else {
        match mode {
            ControlMode::Deterministic | ControlMode::ReflectionEnabled => {
                let t = cursor_step(cur);
                after_model(mode, maxit, tr, i, tc, sc, oc, rc, t.1, outs, disp, t.0)
            },
            ControlMode::Reactive => {
                match tr.thinks[tc as int] {
                    Err(e) => RunV {
                        result: Err(e),
                        dispatched: disp,
                        thinks_used: tc + 1,
                        steps_used: sc,
                        observes_used: oc,
                        reflects_used: rc,
                    },
                    Ok(p) => {
                        let stepo: Option<StepV> = if p.steps.len() > 0 {
                            Some(p.steps[0])
                        } else {
                            None
                        };
                        after_model(
                            mode,
                            maxit,
                            tr,
                            i,
                            tc + 1,
                            sc,
                            oc,
                            rc,
                            cur,
                            outs,
                            disp,
                            stepo,
                        )
                    },
                }
            },
            ControlMode::Procedural => {
                let t = cursor_step(cur);
                if t.0 is Some {
                    after_model(mode, maxit, tr, i, tc, sc, oc, rc, t.1, outs, disp, t.0)
                } else {
                    match tr.thinks[tc as int] {
                        Err(e) => RunV {
                            result: Err(e),
                            dispatched: disp,
                            thinks_used: tc + 1,
                            steps_used: sc,
                            observes_used: oc,
                            reflects_used: rc,
                        },
                        Ok(p) => {
                            let t2 = cursor_step((p, 0));
                            after_model(
                                mode,
                                maxit,
                                tr,
                                i,
                                tc + 1,
                                sc,
                                oc,
                                rc,
                                t2.1,
                                outs,
                                disp,
                                t2.0,
                            )
                        },
                    }
                }
            },
        }
    }
}

/// The meaning of one whole run over a trace of collaborator results:
/// initialize once; for modes that plan up front, think once before the
/// loop; then iterate.
pub open spec fn run_model(mode: ControlMode, maxit: nat, tr: RunTraceV) -> RunV {
    match tr.init {
        Err(e) => RunV {
            result: Err(e),
            dispatched: Seq::empty(),
            thinks_used: 0,
            steps_used: 0,
            observes_used: 0,
            reflects_used: 0,
        },
        Ok(u) => {
            match mode {
                ControlMode::Deterministic | ControlMode::ReflectionEnabled => {
                    match tr.thinks[0] {
                        Err(e) => RunV {
                            result: Err(e),
                            dispatched: Seq::empty(),
                            thinks_used: 1,
                            steps_used: 0,
                            observes_used: 0,
                            reflects_used: 0,
                        },
                        Ok(p) => loop_model(
                            mode,
                            maxit,
                            tr,
                            0,
                            1,
                            0,
                            0,
                            0,
                            (p, 0),
                            Seq::empty(),
                            Seq::empty(),
                        ),
                    }
                },
                _ => loop_model(
                    mode,
                    maxit,
                    tr,
                    0,
                    0,
                    0,
                    0,
                    0,
                    (empty_plan_v(), 0),
                    Seq::empty(),
                    Seq::empty(),
                ),
            }
        },
    }
}

/// Whether an executable result agrees with the model's result.
pub open spec fn run_result_matches(r: Result<Vec<StepOutcome>, AgentError>, m: RunV) -> bool {
    match r {
        Ok(v) => m.result == Result::<Seq<OutcomeV>, AgentErrorV>::Ok(outcomes_view(v@)),
        Err(e) => m.result == Result::<Seq<OutcomeV>, AgentErrorV>::Err(e@),
    }
}

/// The view of the loop's plan cursor.
pub open spec fn cur_view(e: ExecutablePlan) -> (PlanV, int) {
    (e@.plan, e@.current)
}

/// The view of a step that may not be there.
pub open spec fn opt_step_view(o: Option<Step>) -> Option<StepV> {
    match o {
        Some(s) => Some(s@),
        None => None,
    }
}

/// Steps a plan-following run forward: in Deterministic or
/// ReflectionEnabled mode, while observe keeps succeeding and reflect
/// keeps succeeding where the mode calls it, the loop takes one plan
/// step per iteration until the plan or the iteration budget runs out.
proof fn lemma_planned_loop(
    mode: ControlMode,
    maxit: nat,
    tr: RunTraceV,
    i: nat,
    tc: nat,
    sc: nat,
    oc: nat,
    rc: nat,
    p: PlanV,
    c: nat,
    outs: Seq<OutcomeV>,
    disp: Seq<StepV>,
)
    requires
        mode == ControlMode::Deterministic || mode == ControlMode::ReflectionEnabled,
        i <= maxit,
        c <= p.steps.len(),
        sc + min(p.steps.len() - c, maxit - i) <= tr.steps.len(),
        forall|j: int|
            oc <= j < oc + min(p.steps.len() - c, maxit - i) ==> #[trigger] tr.observes[j]
                == HookV::Ok(()),
        ({
            let refl_n: int = if mode == ControlMode::ReflectionEnabled {
                min(p.steps.len() - c, maxit - i)
            } else {
                0
            };
            forall|j: int| rc <= j <= rc + refl_n ==> #[trigger] tr.reflects[j] == HookV::Ok(())
        }),
    ensures
        ({
            let n = min(p.steps.len() - c, maxit - i);
            let refl_n: int = if mode == ControlMode::ReflectionEnabled {
                n
            } else {
                0
            };
            loop_model(mode, maxit, tr, i, tc, sc, oc, rc, (p, c as int), outs, disp) == RunV {
                result: Ok(outs + tr.steps.subrange(sc as int, sc + n)),
                dispatched: disp + p.steps.subrange(c as int, c + n),
                thinks_used: tc,
                steps_used: (sc + n) as nat,
                observes_used: (oc + n) as nat,
                reflects_used: (rc + refl_n + 1) as nat,
            }
        }),
    decreases maxit - i,
{
    let n = min(p.steps.len() - c, maxit - i);
    if i == maxit || c == p.steps.len() {
        assert(n == 0);
        assert(outs + tr.steps.subrange(sc as int, sc as int) =~= outs);
        assert(disp + p.steps.subrange(c as int, c as int) =~= disp);
        assert(loop_model(mode, maxit, tr, i, tc, sc, oc, rc, (p, c as int), outs, disp)
            == finish_model(tr, rc, outs, disp, tc, sc, oc));
    } else {
        assert(tr.observes[oc as int] == HookV::Ok(()));
        if mode == ControlMode::ReflectionEnabled {
            assert(tr.reflects[rc as int] == HookV::Ok(()));
        }
        let rc2: nat = if mode == ControlMode::ReflectionEnabled {
            rc + 1
        } else {
            rc
        };
        lemma_planned_loop(
            mode,
            maxit,
            tr,
            i + 1,
            tc,
            sc + 1,
            oc + 1,
            rc2,
            p,
            c + 1,
            outs.push(tr.steps[sc as int]),
            disp.push(p.steps[c as int]),
        );
        assert(outs.push(tr.steps[sc as int]) + tr.steps.subrange(sc as int + 1, sc + n) =~= outs
            + tr.steps.subrange(sc as int, sc + n));
        assert(disp.push(p.steps[c as int]) + p.steps.subrange(c as int + 1, c + n) =~= disp
            + p.steps.subrange(c as int, c + n));
    }
}

/// Law: in Deterministic mode, when the single up-front plan has `k`
/// steps and every hook succeeds, the run yields exactly
/// `min(k, max_iterations)` outcomes, dispatches exactly the first
/// `min(k, max_iterations)` plan steps in order, thinks exactly once,
/// and reflects exactly once.
pub proof fn lemma_deterministic_run(maxit: nat, tr: RunTraceV, p: PlanV, k: nat)
    requires
        tr.init == HookV::Ok(()),
        tr.thinks[0] == ThinkV::Ok(p),
        p.steps.len() == k,
        min(k as int, maxit as int) <= tr.steps.len(),
        forall|j: int| 0 <= j < min(k as int, maxit as int) ==> #[trigger] tr.observes[j]
            == HookV::Ok(()),
        tr.reflects[0] == HookV::Ok(()),
    ensures
        ({
            let n = min(k as int, maxit as int);
            let m = run_model(ControlMode::Deterministic, maxit, tr);
            &&& m.result == Result::<Seq<OutcomeV>, AgentErrorV>::Ok(tr.steps.subrange(0, n))
            &&& m.dispatched == p.steps.subrange(0, n)
            &&& m.thinks_used == 1
            &&& m.steps_used == n
            &&& m.observes_used == n
            &&& m.reflects_used == 1
        }),
{
    lemma_planned_loop(
        ControlMode::Deterministic,
        maxit,
        tr,
        0,
        1,
        0,
        0,
        0,
        p,
        0,
        Seq::empty(),
        Seq::empty(),
    );
    let n = min(k as int, maxit as int);
    assert(Seq::<OutcomeV>::empty() + tr.steps.subrange(0, n) =~= tr.steps.subrange(0, n));
    assert(Seq::<StepV>::empty() + p.steps.subrange(0, n) =~= p.steps.subrange(0, n));
}

/// Law: in ReflectionEnabled mode, when the single up-front plan has `k`
/// steps and every hook succeeds, the run executes
/// `n = min(k, max_iterations)` steps and invokes reflect exactly
/// `n + 1` times: once after every step and once more after the loop.
/// With a one-step plan and one iteration that is exactly twice.
pub proof fn lemma_reflection_run(maxit: nat, tr: RunTraceV, p: PlanV, k: nat)
    requires
        tr.init == HookV::Ok(()),
        tr.thinks[0] == ThinkV::Ok(p),
        p.steps.len() == k,
        min(k as int, maxit as int) <= tr.steps.len(),
        forall|j: int| 0 <= j < min(k as int, maxit as int) ==> #[trigger] tr.observes[j]
            == HookV::Ok(()),
        forall|j: int| 0 <= j <= min(k as int, maxit as int) ==> #[trigger] tr.reflects[j]
            == HookV::Ok(()),
    ensures
        ({
            let n = min(k as int, maxit as int);
            let m = run_model(ControlMode::ReflectionEnabled, maxit, tr);
            &&& m.result == Result::<Seq<OutcomeV>, AgentErrorV>::Ok(tr.steps.subrange(0, n))
            &&& m.dispatched == p.steps.subrange(0, n)
            &&& m.thinks_used == 1
            &&& m.steps_used == n
            &&& m.observes_used == n
            &&& m.reflects_used == n + 1
        }),
{
    lemma_planned_loop(
        ControlMode::ReflectionEnabled,
        maxit,
        tr,
        0,
        1,
        0,
        0,
        0,
        p,
        0,
        Seq::empty(),
        Seq::empty(),
    );
    let n = min(k as int, maxit as int);
    assert(Seq::<OutcomeV>::empty() + tr.steps.subrange(0, n) =~= tr.steps.subrange(0, n));
    assert(Seq::<StepV>::empty() + p.steps.subrange(0, n) =~= p.steps.subrange(0, n));
}

/// Steps a reactive run forward: while every fresh plan is non-empty
/// and observe keeps succeeding, each iteration consumes exactly one
/// think result and dispatches that plan's first step.
proof fn lemma_reactive_loop(
    maxit: nat,
    tr: RunTraceV,
    i: nat,
    tc: nat,
    sc: nat,
    oc: nat,
    rc: nat,
    cur: (PlanV, int),
    outs: Seq<OutcomeV>,
    disp: Seq<StepV>,
)
    requires
        i <= maxit,
        sc + (maxit - i) <= tr.steps.len(),
        forall|j: int|
            tc <= j < tc + (maxit - i) ==> ((#[trigger] tr.thinks[j]) matches Ok(p)
                && p.steps.len() > 0),
        forall|j: int|
            oc <= j < oc + (maxit - i) ==> #[trigger] tr.observes[j] == HookV::Ok(()),
        tr.reflects[rc as int] == HookV::Ok(()),
    ensures
        ({
            let n = maxit - i;
            loop_model(ControlMode::Reactive, maxit, tr, i, tc, sc, oc, rc, cur, outs, disp)
                == RunV {
                result: Ok(outs + tr.steps.subrange(sc as int, sc + n)),
                dispatched: disp + Seq::new(n as nat, |j: int| tr.thinks[tc + j]->Ok_0.steps[0]),
                thinks_used: (tc + n) as nat,
                steps_used: (sc + n) as nat,
                observes_used: (oc + n) as nat,
                reflects_used: rc + 1,
            }
        }),
    decreases maxit - i,
{
    let n = maxit - i;
    if i == maxit {
        assert(outs + tr.steps.subrange(sc as int, sc as int) =~= outs);
        assert(disp + Seq::new(0, |j: int| tr.thinks[tc + j]->Ok_0.steps[0]) =~= disp);
    } else {
        assert((tr.thinks[tc as int] matches Ok(q) && q.steps.len() > 0));
        assert(tr.observes[oc as int] == HookV::Ok(()));
        lemma_reactive_loop(
            maxit,
            tr,
            i + 1,
            tc + 1,
            sc + 1,
            oc + 1,
            rc,
            cur,
            outs.push(tr.steps[sc as int]),
            disp.push(tr.thinks[tc as int]->Ok_0.steps[0]),
        );
        assert(outs.push(tr.steps[sc as int]) + tr.steps.subrange(sc as int + 1, sc + n) =~= outs
            + tr.steps.subrange(sc as int, sc + n));
        assert(disp.push(tr.thinks[tc as int]->Ok_0.steps[0]) + Seq::new(
            (n - 1) as nat,
            |j: int| tr.thinks[tc + 1 + j]->Ok_0.steps[0],
        ) =~= disp + Seq::new(n as nat, |j: int| tr.thinks[tc + j]->Ok_0.steps[0]));
    }
}

/// Law: in Reactive mode, when every think yields a non-empty plan and
/// every hook succeeds, the run consumes exactly one think result per
/// iteration — `max_iterations` in all — and the step dispatched at
/// iteration `j` is the first step of the plan produced at iteration
/// `j`.
pub proof fn lemma_reactive_run(maxit: nat, tr: RunTraceV)
    requires
        tr.init == HookV::Ok(()),
        maxit <= tr.steps.len(),
        forall|j: int|
            0 <= j < maxit ==> ((#[trigger] tr.thinks[j]) matches Ok(p) && p.steps.len() > 0),
        forall|j: int| 0 <= j < maxit ==> #[trigger] tr.observes[j] == HookV::Ok(()),
        tr.reflects[0] == HookV::Ok(()),
    ensures
        ({
            let m = run_model(ControlMode::Reactive, maxit, tr);
            &&& m.result == Result::<Seq<OutcomeV>, AgentErrorV>::Ok(tr.steps.subrange(0, maxit as int))
            &&& m.dispatched == Seq::new(maxit, |j: int| tr.thinks[j]->Ok_0.steps[0])
            &&& m.thinks_used == maxit
            &&& m.steps_used == maxit
            &&& m.observes_used == maxit
            &&& m.reflects_used == 1
        }),
{
    lemma_reactive_loop(
        maxit,
        tr,
        0,
        0,
        0,
        0,
        0,
        (empty_plan_v(), 0),
        Seq::empty(),
        Seq::empty(),
    );
    assert(Seq::<OutcomeV>::empty() + tr.steps.subrange(0, maxit as int) =~= tr.steps.subrange(
        0,
        maxit as int,
    ));
    assert(Seq::<StepV>::empty() + Seq::new(maxit, |j: int| tr.thinks[j]->Ok_0.steps[0])
        =~= Seq::new(maxit, |j: int| tr.thinks[0 + j]->Ok_0.steps[0]));
    assert(Seq::new(maxit, |j: int| tr.thinks[j]->Ok_0.steps[0]) =~= Seq::new(
        maxit,
        |j: int| tr.thinks[0 + j]->Ok_0.steps[0],
    ));
}

/// Drives an agent's whole lifecycle over a bounded number of
/// iterations, under one of four planning modes.
pub struct ControlLoop {
    pub max_iterations: usize,
    pub delay_ms: u64,
    pub mode: ControlMode,
}

impl Default for ControlLoop {
    fn default() -> (r: Self)
        ensures
            r.max_iterations == 0,
            r.delay_ms == 0,
            r.mode == ControlMode::Deterministic,
    {
        ControlLoop { max_iterations: 0, delay_ms: 0, mode: ControlMode::Deterministic }
    }
}

impl ControlLoop {
    /// Runs the agent to completion: initialize once; per iteration,
    /// obtain a step under the mode's planning rule, run it through the
    /// step executor, observe and record the outcome, and reflect after
    /// each step under ReflectionEnabled; one trailing reflect closes
    /// every run. The ghost trace records every collaborator result the
    /// loop consumed, the run's result is exactly what the control-loop
    /// model yields on that record, and the model's consumption counts
    /// equal the record's lengths.
    pub fn run<A: Agent>(&self, agent: &A, ctx: &mut AgentContext) -> (r: (
        Result<Vec<StepOutcome>, AgentError>,
        Ghost<RunTraceV>,
    ))
        ensures
            ({
                let m = run_model(self.mode, self.max_iterations as nat, r.1@);
                &&& run_result_matches(r.0, m)
                &&& m.thinks_used == r.1@.thinks.len()
                &&& m.steps_used == r.1@.steps.len()
                &&& m.observes_used == r.1@.observes.len()
                &&& m.reflects_used == r.1@.reflects.len()
            }),
    {
        let mode = self.mode;
        let maxit = self.max_iterations;
        let ghost g_ok: HookV = Ok(());
        match agent.initialize(ctx) {
            Err(e) => {
                let ghost t = mk_trace(
                    Err(e@),
                    Seq::empty(),
                    Seq::empty(),
                    Seq::empty(),
                    Seq::empty(),
                );
                return (Err(e), Ghost(t));
            },
            Ok(u) => {},
        }
        let ghost mut gthinks: Seq<ThinkV> = Seq::empty();
        let mut executable: ExecutablePlan = Plan {
            goal: String::new(),
            steps: Vec::new(),
            metadata: JsonValue::Null,
        }.executable();
        proof {
            assert(cur_view(executable).0 =~= empty_plan_v());
        }
        if matches!(mode, ControlMode::Deterministic | ControlMode::ReflectionEnabled) {
            match agent.think(ctx) {
                Err(e) => {
                    let ghost t = mk_trace(
                        g_ok,
                        seq![ThinkV::Err(e@)],
                        Seq::empty(),
                        Seq::empty(),
                        Seq::empty(),
                    );
                    proof {
                        assert(t.thinks[0] == ThinkV::Err(e@));
                    }
                    return (Err(e), Ghost(t));
                },
                Ok(plan) => {
                    proof {
                        gthinks = gthinks.push(Ok(plan@));
                    }
                    executable = plan.executable();
                },
            }
        }
        let mut results: Vec<StepOutcome> = Vec::new();
        let ghost mut gsteps: Seq<OutcomeV> = Seq::empty();
        let ghost mut gobs: Seq<HookV> = Seq::empty();
        let ghost mut grefl: Seq<HookV> = Seq::empty();
        let ghost mut gdisp: Seq<StepV> = Seq::empty();
        let mut iteration: usize = 0;
        proof {
            assert(outcomes_view(results@) =~= Seq::<OutcomeV>::empty());
            assert forall|ft: Seq<ThinkV>, fs: Seq<OutcomeV>, fo: Seq<HookV>, fr: Seq<HookV>|
                #[trigger] run_model(
                    mode,
                    maxit as nat,
                    mk_trace(g_ok, gthinks + ft, gsteps + fs, gobs + fo, grefl + fr),
                ) == loop_model(
                    mode,
                    maxit as nat,
                    mk_trace(g_ok, gthinks + ft, gsteps + fs, gobs + fo, grefl + fr),
                    iteration as nat,
                    gthinks.len(),
                    gsteps.len(),
                    gobs.len(),
                    grefl.len(),
                    cur_view(executable),
                    outcomes_view(results@),
                    gdisp,
                ) by {
                let tr = mk_trace(g_ok, gthinks + ft, gsteps + fs, gobs + fo, grefl + fr);
                if mode == ControlMode::Deterministic || mode == ControlMode::ReflectionEnabled {
                    assert(tr.thinks[0] == gthinks[0]);
                }
            }
        }
        while iteration < maxit
            invariant
                mode == self.mode,
                maxit == self.max_iterations,
                iteration <= maxit,
                forall|ft: Seq<ThinkV>, fs: Seq<OutcomeV>, fo: Seq<HookV>, fr: Seq<HookV>|
                    #[trigger] run_model(
                        mode,
                        maxit as nat,
                        mk_trace(g_ok, gthinks + ft, gsteps + fs, gobs + fo, grefl + fr),
                    ) == loop_model(
                        mode,
                        maxit as nat,
                        mk_trace(g_ok, gthinks + ft, gsteps + fs, gobs + fo, grefl + fr),
                        iteration as nat,
                        gthinks.len(),
                        gsteps.len(),
                        gobs.len(),
                        grefl.len(),
                        cur_view(executable),
                        outcomes_view(results@),
                        gdisp,
                    ),
            decreases maxit - iteration,
        {
            ctx.state.iteration = iteration;
            let ghost i0 = iteration as nat;
            let ghost gthinks0 = gthinks;
            let ghost cur0 = cur_view(executable);
            let ghost outs0 = outcomes_view(results@);
            let mut next_step: Option<Step> = None;
            match mode {
                ControlMode::Deterministic | ControlMode::ReflectionEnabled => {
                    next_step = executable.next();
                    proof {
                        assert(opt_step_view(next_step) == cursor_step(cur0).0);
                        assert(cur_view(executable) == cursor_step(cur0).1);
                    }
                },
                ControlMode::Reactive => {
                    match agent.think(ctx) {
                        Err(e) => {
                            let ghost t = mk_trace(
                                g_ok,
                                gthinks.push(Err(e@)),
                                gsteps,
                                gobs,
                                grefl,
                            );
                            proof {
                                let ftx = seq![ThinkV::Err(e@)];
                                let trx = mk_trace(
                                    g_ok,
                                    gthinks + ftx,
                                    gsteps + Seq::<OutcomeV>::empty(),
                                    gobs + Seq::<HookV>::empty(),
                                    grefl + Seq::<HookV>::empty(),
                                );
                                assert(run_model(mode, maxit as nat, trx) == loop_model(
                                    mode,
                                    maxit as nat,
                                    trx,
                                    i0,
                                    gthinks.len(),
                                    gsteps.len(),
                                    gobs.len(),
                                    grefl.len(),
                                    cur0,
                                    outs0,
                                    gdisp,
                                ));
                                assert(trx.thinks[gthinks.len() as int] == ThinkV::Err(e@));
                                assert(t =~~= trx);
                            }
                            return (Err(e), Ghost(t));
                        },
                        Ok(plan) => {
                            let ghost pv = plan@;
                            proof {
                                gthinks = gthinks.push(Ok(pv));
                            }
                            let mut pe = plan.executable();
                            next_step = pe.next();
                            proof {
                                if pv.steps.len() > 0 {
                                    assert(opt_step_view(next_step) == Some(pv.steps[0]));
                                } else {
                                    assert(opt_step_view(next_step) is None);
                                }
                            }
                        },
                    }
                },
                ControlMode::Procedural => {
                    next_step = executable.next();
                    proof {
                        assert(opt_step_view(next_step) == cursor_step(cur0).0);
                        assert(cur_view(executable) == cursor_step(cur0).1);
                    }
                    if next_step.is_none() {
                        match agent.think(ctx) {
                            Err(e) => {
                                let ghost t = mk_trace(
                                    g_ok,
                                    gthinks.push(Err(e@)),
                                    gsteps,
                                    gobs,
                                    grefl,
                                );
                                proof {
                                    let ftx = seq![ThinkV::Err(e@)];
                                    let trx = mk_trace(
                                        g_ok,
                                        gthinks + ftx,
                                        gsteps + Seq::<OutcomeV>::empty(),
                                        gobs + Seq::<HookV>::empty(),
                                        grefl + Seq::<HookV>::empty(),
                                    );
                                    assert(run_model(mode, maxit as nat, trx) == loop_model(
                                        mode,
                                        maxit as nat,
                                        trx,
                                        i0,
                                        gthinks.len(),
                                        gsteps.len(),
                                        gobs.len(),
                                        grefl.len(),
                                        cur0,
                                        outs0,
                                        gdisp,
                                    ));
                                    assert(trx.thinks[gthinks.len() as int] == ThinkV::Err(e@));
                                    assert(t =~~= trx);
                                }
                                return (Err(e), Ghost(t));
                            },
                            Ok(plan) => {
                                let ghost pv = plan@;
                                proof {
                                    gthinks = gthinks.push(Ok(pv));
                                }
                                executable = plan.executable();
                                let ghost curp = cur_view(executable);
                                next_step = executable.next();
                                proof {
                                    assert(curp == ((pv, 0int)));
                                    assert(opt_step_view(next_step) == cursor_step(curp).0);
                                    assert(cur_view(executable) == cursor_step(curp).1);
                                }
                            },
                        }
                    }
                },
            }
            // One fact covers every mode: the model, run on any
            // completion of the trace recorded so far, proceeds as
            // `after_model` from this iteration's midpoint.
            proof {
                let sv = opt_step_view(next_step);
                assert forall|ft: Seq<ThinkV>, fs: Seq<OutcomeV>, fo: Seq<HookV>, fr: Seq<
                    HookV,
                >|
                    #[trigger] run_model(
                        mode,
                        maxit as nat,
                        mk_trace(g_ok, gthinks + ft, gsteps + fs, gobs + fo, grefl + fr),
                    ) == after_model(
                        mode,
                        maxit as nat,
                        mk_trace(g_ok, gthinks + ft, gsteps + fs, gobs + fo, grefl + fr),
                        i0,
                        gthinks.len(),
                        gsteps.len(),
                        gobs.len(),
                        grefl.len(),
                        cur_view(executable),
                        outs0,
                        gdisp,
                        sv,
                    ) by {
                    match mode {
                        ControlMode::Deterministic | ControlMode::ReflectionEnabled => {
                            let trx = mk_trace(
                                g_ok,
                                gthinks + ft,
                                gsteps + fs,
                                gobs + fo,
                                grefl + fr,
                            );
                            assert(run_model(mode, maxit as nat, trx) == loop_model(
                                mode,
                                maxit as nat,
                                trx,
                                i0,
                                gthinks.len(),
                                gsteps.len(),
                                gobs.len(),
                                grefl.len(),
                                cur0,
                                outs0,
                                gdisp,
                            ));
                        },
                        ControlMode::Reactive => {
                            let ftx = seq![gthinks[gthinks.len() - 1]] + ft;
                            let trx = mk_trace(
                                g_ok,
                                gthinks0 + ftx,
                                gsteps + fs,
                                gobs + fo,
                                grefl + fr,
                            );
                            assert(run_model(mode, maxit as nat, trx) == loop_model(
                                mode,
                                maxit as nat,
                                trx,
                                i0,
                                gthinks0.len(),
                                gsteps.len(),
                                gobs.len(),
                                grefl.len(),
                                cur0,
                                outs0,
                                gdisp,
                            ));
                            assert(trx.thinks[gthinks0.len() as int] == gthinks[gthinks.len()
                                - 1]);
                            assert(gthinks + ft =~~= gthinks0 + ftx);
                        },
                        ControlMode::Procedural => {
                            if gthinks == gthinks0 {
                                let trx = mk_trace(
                                    g_ok,
                                    gthinks + ft,
                                    gsteps + fs,
                                    gobs + fo,
                                    grefl + fr,
                                );
                                assert(run_model(mode, maxit as nat, trx) == loop_model(
                                    mode,
                                    maxit as nat,
                                    trx,
                                    i0,
                                    gthinks.len(),
                                    gsteps.len(),
                                    gobs.len(),
                                    grefl.len(),
                                    cur0,
                                    outs0,
                                    gdisp,
                                ));
                            } else {
                                let ftx = seq![gthinks[gthinks.len() - 1]] + ft;
                                let trx = mk_trace(
                                    g_ok,
                                    gthinks0 + ftx,
                                    gsteps + fs,
                                    gobs + fo,
                                    grefl + fr,
                                );
                                assert(run_model(mode, maxit as nat, trx) == loop_model(
                                    mode,
                                    maxit as nat,
                                    trx,
                                    i0,
                                    gthinks0.len(),
                                    gsteps.len(),
                                    gobs.len(),
                                    grefl.len(),
                                    cur0,
                                    outs0,
                                    gdisp,
                                ));
                                assert(trx.thinks[gthinks0.len() as int] == gthinks[gthinks.len()
                                    - 1]);
                                assert(gthinks + ft =~~= gthinks0 + ftx);
                            }
                        },
                    }
                }
            }
            match next_step {
                None => {
                    match agent.reflect(ctx) {
                        Err(e) => {
                            let ghost t = mk_trace(g_ok, gthinks, gsteps, gobs, grefl.push(
                                Err(e@),
                            ));
                            proof {
                                let frx = seq![HookV::Err(e@)];
                                let trx = mk_trace(
                                    g_ok,
                                    gthinks + Seq::<ThinkV>::empty(),
                                    gsteps + Seq::<OutcomeV>::empty(),
                                    gobs + Seq::<HookV>::empty(),
                                    grefl + frx,
                                );
                                assert(run_model(mode, maxit as nat, trx) == after_model(
                                    mode,
                                    maxit as nat,
                                    trx,
                                    i0,
                                    gthinks.len(),
                                    gsteps.len(),
                                    gobs.len(),
                                    grefl.len(),
                                    cur_view(executable),
                                    outs0,
                                    gdisp,
                                    opt_step_view(next_step),
                                ));
                                assert(trx.reflects[grefl.len() as int] == HookV::Err(e@));
                                assert(t =~~= trx);
                            }
                            return (Err(e), Ghost(t));
                        },
                        Ok(u) => {
                            let ghost t = mk_trace(g_ok, gthinks, gsteps, gobs, grefl.push(g_ok));
                            proof {
                                let frx = seq![g_ok];
                                let trx = mk_trace(
                                    g_ok,
                                    gthinks + Seq::<ThinkV>::empty(),
                                    gsteps + Seq::<OutcomeV>::empty(),
                                    gobs + Seq::<HookV>::empty(),
                                    grefl + frx,
                                );
                                assert(run_model(mode, maxit as nat, trx) == after_model(
                                    mode,
                                    maxit as nat,
                                    trx,
                                    i0,
                                    gthinks.len(),
                                    gsteps.len(),
                                    gobs.len(),
                                    grefl.len(),
                                    cur_view(executable),
                                    outs0,
                                    gdisp,
                                    opt_step_view(next_step),
                                ));
                                assert(trx.reflects[grefl.len() as int] == g_ok);
                                assert(t =~~= trx);
                            }
                            return (Ok(results), Ghost(t));
                        },
                    }
                },
                Some(step) => {
                    let ghost sv = step@;
                    let (outcome, _acts) = StepExecutor::run_step(step, agent, ctx);
                    let ghost ov = outcome@;
                    match agent.observe(&outcome, ctx) {
                        Err(e) => {
                            let ghost t = mk_trace(
                                g_ok,
                                gthinks,
                                gsteps.push(ov),
                                gobs.push(Err(e@)),
                                grefl,
                            );
                            proof {
                                let fsx = seq![ov];
                                let fox = seq![HookV::Err(e@)];
                                let trx = mk_trace(
                                    g_ok,
                                    gthinks + Seq::<ThinkV>::empty(),
                                    gsteps + fsx,
                                    gobs + fox,
                                    grefl + Seq::<HookV>::empty(),
                                );
                                assert(run_model(mode, maxit as nat, trx) == after_model(
                                    mode,
                                    maxit as nat,
                                    trx,
                                    i0,
                                    gthinks.len(),
                                    gsteps.len(),
                                    gobs.len(),
                                    grefl.len(),
                                    cur_view(executable),
                                    outs0,
                                    gdisp,
                                    Some(sv),
                                ));
                                assert(trx.steps[gsteps.len() as int] == ov);
                                assert(trx.observes[gobs.len() as int] == HookV::Err(e@));
                                assert(t =~~= trx);
                            }
                            return (Err(e), Ghost(t));
                        },
                        Ok(u) => {
                            results.push(outcome);
                            if matches!(mode, ControlMode::ReflectionEnabled) {
                                match agent.reflect(ctx) {
                                    Err(e) => {
                                        let ghost t = mk_trace(
                                            g_ok,
                                            gthinks,
                                            gsteps.push(ov),
                                            gobs.push(g_ok),
                                            grefl.push(Err(e@)),
                                        );
                                        proof {
                                            let fsx = seq![ov];
                                            let fox = seq![g_ok];
                                            let frx = seq![HookV::Err(e@)];
                                            let trx = mk_trace(
                                                g_ok,
                                                gthinks + Seq::<ThinkV>::empty(),
                                                gsteps + fsx,
                                                gobs + fox,
                                                grefl + frx,
                                            );
                                            assert(run_model(mode, maxit as nat, trx)
                                                == after_model(
                                                mode,
                                                maxit as nat,
                                                trx,
                                                i0,
                                                gthinks.len(),
                                                gsteps.len(),
                                                gobs.len(),
                                                grefl.len(),
                                                cur_view(executable),
                                                outs0,
                                                gdisp,
                                                Some(sv),
                                            ));
                                            assert(trx.steps[gsteps.len() as int] == ov);
                                            assert(trx.observes[gobs.len() as int] == g_ok);
                                            assert(trx.reflects[grefl.len() as int]
                                                == HookV::Err(e@));
                                            assert(t =~~= trx);
                                        }
                                        return (Err(e), Ghost(t));
                                    },
                                    Ok(u2) => {},
                                }
                            }
                            proof {
                                let gsteps1 = gsteps.push(ov);
                                let gobs1 = gobs.push(g_ok);
                                let grefl1 = if mode == ControlMode::ReflectionEnabled {
                                    grefl.push(g_ok)
                                } else {
                                    grefl
                                };
                                assert(outcomes_view(results@) =~= outs0.push(ov));
                                assert forall|
                                    ft: Seq<ThinkV>,
                                    fs: Seq<OutcomeV>,
                                    fo: Seq<HookV>,
                                    fr: Seq<HookV>,
                                |
                                    #[trigger] run_model(
                                        mode,
                                        maxit as nat,
                                        mk_trace(
                                            g_ok,
                                            gthinks + ft,
                                            gsteps1 + fs,
                                            gobs1 + fo,
                                            grefl1 + fr,
                                        ),
                                    ) == loop_model(
                                        mode,
                                        maxit as nat,
                                        mk_trace(
                                            g_ok,
                                            gthinks + ft,
                                            gsteps1 + fs,
                                            gobs1 + fo,
                                            grefl1 + fr,
                                        ),
                                        i0 + 1,
                                        gthinks.len(),
                                        gsteps1.len(),
                                        gobs1.len(),
                                        grefl1.len(),
                                        cur_view(executable),
                                        outcomes_view(results@),
                                        gdisp.push(sv),
                                    ) by {
                                    let fsx = seq![ov] + fs;
                                    let fox = seq![g_ok] + fo;
                                    let frx = if mode == ControlMode::ReflectionEnabled {
                                        seq![g_ok] + fr
                                    } else {
                                        fr
                                    };
                                    let trx = mk_trace(
                                        g_ok,
                                        gthinks + ft,
                                        gsteps + fsx,
                                        gobs + fox,
                                        grefl + frx,
                                    );
                                    assert(run_model(mode, maxit as nat, trx) == after_model(
                                        mode,
                                        maxit as nat,
                                        trx,
                                        i0,
                                        gthinks.len(),
                                        gsteps.len(),
                                        gobs.len(),
                                        grefl.len(),
                                        cur_view(executable),
                                        outs0,
                                        gdisp,
                                        Some(sv),
                                    ));
                                    assert(trx.steps[gsteps.len() as int] == ov);
                                    assert(trx.observes[gobs.len() as int] == g_ok);
                                    if mode == ControlMode::ReflectionEnabled {
                                        assert(trx.reflects[grefl.len() as int] == g_ok);
                                    }
                                    assert(gsteps1 + fs =~~= gsteps + fsx);
                                    assert(gobs1 + fo =~~= gobs + fox);
                                    assert(grefl1 + fr =~~= grefl + frx);
                                }
                                gsteps = gsteps1;
                                gobs = gobs1;
                                grefl = grefl1;
                                gdisp = gdisp.push(sv);
                            }
                            iteration = iteration + 1;
                        },
                    }
                },
            }
        }
        match agent.reflect(ctx) {
            Err(e) => {
                let ghost t = mk_trace(g_ok, gthinks, gsteps, gobs, grefl.push(Err(e@)));
                proof {
                    let frx = seq![HookV::Err(e@)];
                    let trx = mk_trace(
                        g_ok,
                        gthinks + Seq::<ThinkV>::empty(),
                        gsteps + Seq::<OutcomeV>::empty(),
                        gobs + Seq::<HookV>::empty(),
                        grefl + frx,
                    );
                    assert(run_model(mode, maxit as nat, trx) == loop_model(
                        mode,
                        maxit as nat,
                        trx,
                        iteration as nat,
                        gthinks.len(),
                        gsteps.len(),
                        gobs.len(),
                        grefl.len(),
                        cur_view(executable),
                        outcomes_view(results@),
                        gdisp,
                    ));
                    assert(trx.reflects[grefl.len() as int] == HookV::Err(e@));
                    assert(t =~~= trx);
                }
                return (Err(e), Ghost(t));
            },
            Ok(u) => {
                let ghost t = mk_trace(g_ok, gthinks, gsteps, gobs, grefl.push(g_ok));
                proof {
                    let frx = seq![g_ok];
                    let trx = mk_trace(
                        g_ok,
                        gthinks + Seq::<ThinkV>::empty(),
                        gsteps + Seq::<OutcomeV>::empty(),
                        gobs + Seq::<HookV>::empty(),
                        grefl + frx,
                    );
                    assert(run_model(mode, maxit as nat, trx) == loop_model(
                        mode,
                        maxit as nat,
                        trx,
                        iteration as nat,
                        gthinks.len(),
                        gsteps.len(),
                        gobs.len(),
                        grefl.len(),
                        cur_view(executable),
                        outcomes_view(results@),
                        gdisp,
                    ));
                    assert(trx.reflects[grefl.len() as int] == g_ok);
                    assert(t =~~= trx);
                }
                return (Ok(results), Ghost(t));
            },
        }
    }
}

} // verus!
