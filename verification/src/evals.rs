use vstd::prelude::*;
use crate::json::{JsonValue, JsonV, jv_lookup};
use crate::text::{str_contains, strs_view, dup_strings, is_sub};
use crate::data::opt_str_view;
use vstd::utf8::encode_utf8;

verus! {

/// Why an evaluation could not be carried out.
#[derive(Debug)]
pub enum EvalError {
    Failed(String),
    InvalidInput(String),
}

/// The standardized result shape every evaluator produces. Scores are
/// thousandths, from 0 to 1000.
#[derive(Debug, PartialEq, Eq)]
pub struct EvaluationResult {
    pub passed: bool,
    pub score_milli: u32,
    pub reason: Option<String>,
    pub details: JsonValue,
}

#[verifier::ext_equal]
pub struct EvaluationResultV {
    pub passed: bool,
    pub score_milli: u32,
    pub reason: Option<Seq<char>>,
    pub details: JsonV,
}

impl View for EvaluationResult {
    type V = EvaluationResultV;

    open spec fn view(&self) -> EvaluationResultV {
        EvaluationResultV {
            passed: self.passed,
            score_milli: self.score_milli,
            reason: opt_str_view(self.reason),
            details: self.details@,
        }
    }
}

/// Anything that can stand for an optional rationale.
pub trait IntoReason: Sized {
    spec fn reason_view(&self) -> Option<Seq<char>>;

    fn into_reason(self) -> (r: Option<String>)
        ensures
            opt_str_view(r) == self.reason_view(),
    ;
}

impl IntoReason for Option<String> {
    open spec fn reason_view(&self) -> Option<Seq<char>> {
        opt_str_view(*self)
    }

    fn into_reason(self) -> (r: Option<String>) {
        self
    }
}

impl IntoReason for &str {
    open spec fn reason_view(&self) -> Option<Seq<char>> {
        Some(self@)
    }

    fn into_reason(self) -> (r: Option<String>) {
        Some(self.to_owned())
    }
}

impl IntoReason for String {
    open spec fn reason_view(&self) -> Option<Seq<char>> {
        Some(self@)
    }

    fn into_reason(self) -> (r: Option<String>) {
        Some(self)
    }
}

/// A score clamped into the unit range of thousandths.
pub open spec fn clamp_milli(s: u32) -> u32 {
    if s > 1000 {
        1000
    } else {
        s
    }
}

impl EvaluationResult {
    /// A passing result with the given score, clamped into range.
    pub fn pass<R: IntoReason>(score_milli: u32, reason: R) -> (r: Self)
        ensures
            r@ == (EvaluationResultV {
                passed: true,
                score_milli: clamp_milli(score_milli),
                reason: reason.reason_view(),
                details: JsonV::Null,
            }),
    {
        let s = if score_milli > 1000 {
            1000
        } else {
            score_milli
        };
        let r = EvaluationResult {
            passed: true,
            score_milli: s,
            reason: reason.into_reason(),
            details: JsonValue::Null,
        };
        proof {
            assert(r@ =~= (EvaluationResultV {
                passed: true,
                score_milli: clamp_milli(score_milli),
                reason: reason.reason_view(),
                details: JsonV::Null,
            }));
        }
        r
    }

    /// A failing result with a zero score.
    pub fn fail<R: IntoReason>(reason: R) -> (r: Self)
        ensures
            r@ == (EvaluationResultV {
                passed: false,
                score_milli: 0,
                reason: reason.reason_view(),
                details: JsonV::Null,
            }),
    {
        let r = EvaluationResult {
            passed: false,
            score_milli: 0,
            reason: reason.into_reason(),
            details: JsonValue::Null,
        };
        proof {
            assert(r@ =~= (EvaluationResultV {
                passed: false,
                score_milli: 0,
                reason: reason.reason_view(),
                details: JsonV::Null,
            }));
        }
        r
    }

    /// The same result carrying the given details.
    pub fn with_details(self, details: JsonValue) -> (r: Self)
        ensures
            r@ == (EvaluationResultV { details: details@, ..self@ }),
    {
        let r = EvaluationResult { details, ..self };
        proof {
            assert(r@ =~= (EvaluationResultV { details: r.details@, ..self@ }));
        }
        r
    }
}

/// A ranked ordering for a list of candidate plans: plan indices,
/// highest-ranked first, with an optional rationale per index.
#[derive(Debug, PartialEq, Eq)]
pub struct PlanRanking {
    pub order: Vec<usize>,
    pub rationales: Vec<Option<String>>,
}

impl PlanRanking {
    /// A ranking with no rationales attached yet.
    pub fn new(order: Vec<usize>) -> (r: Self)
        ensures
            r.order@ == order@,
            r.rationales@.len() == order@.len(),
            forall|i: int| 0 <= i < r.rationales@.len() ==> r.rationales@[i] is None,
    {
        let mut rationales: Vec<Option<String>> = Vec::new();
        let mut i: usize = 0;
        while i < order.len()
            invariant
                i <= order@.len(),
                rationales@.len() == i as int,
                forall|j: int| 0 <= j < i as int ==> rationales@[j] is None,
            decreases order.len() - i,
        {
            rationales.push(None);
            i = i + 1;
        }
        PlanRanking { order, rationales }
    }

    /// The same ranking with the given rationales.
    pub fn with_rationales(self, rationales: Vec<Option<String>>) -> (r: Self)
        ensures
            r.order@ == self.order@,
            r.rationales@ == rationales@,
    {
        PlanRanking { rationales, ..self }
    }
}

/// The step-evaluation capability: judge a single step output.
pub trait StepEvaluator {
    fn evaluate(&self, step_output: &JsonValue) -> Result<EvaluationResult, EvalError>;
}

/// The final-output evaluation capability.
pub trait OutputEvaluator {
    fn evaluate(&self, final_output: &JsonValue) -> Result<EvaluationResult, EvalError>;
}

/// The plan-ranking capability.
pub trait PlanEvaluator {
    fn rank(&self, plans: &Vec<JsonValue>) -> Result<PlanRanking, EvalError>;
}

/// The reward capability for reinforcement-style feedback.
pub trait RewardEvaluator {
    fn reward(&self, context: &JsonValue) -> Result<EvaluationResult, EvalError>;
}

/// The guardrail capability: validate a candidate output.
pub trait GuardrailEvaluator {
    fn validate(&self, candidate: &JsonValue) -> Result<EvaluationResult, EvalError>;
}

/// What a value is called when its shape is reported.
pub open spec fn type_tag(v: JsonV) -> Seq<char> {
    match v {
        JsonV::Null => "null"@,
        JsonV::Bool(b) => "boolean"@,
        JsonV::Int(i) => "number"@,
        JsonV::Str(s) => "string"@,
        JsonV::Arr(a) => "array"@,
        JsonV::Obj(o) => "object"@,
    }
}

/// Requires step outputs to be structured: an object or an array.
#[derive(Debug)]
pub struct JsonValidityEvaluator;

impl JsonValidityEvaluator {
    pub fn check(&self, step_output: &JsonValue) -> (r: Result<EvaluationResult, EvalError>)
        ensures
            r matches Ok(res) && res@ == (EvaluationResultV {
                passed: step_output@ is Obj || step_output@ is Arr,
                score_milli: if step_output@ is Obj || step_output@ is Arr {
                    1000
                } else {
                    0
                },
                reason: if step_output@ is Obj || step_output@ is Arr {
                    Some("output is valid JSON structure"@)
                } else {
                    Some("output must be an object or array"@)
                },
                details: JsonV::Obj(seq![("type"@, JsonV::Str(type_tag(step_output@)))]),
            }),
    {
        let passed = step_output.is_object() || step_output.is_array();
        let tag: &str = match step_output {
            JsonValue::Null => "null",
            JsonValue::Bool(_) => "boolean",
            JsonValue::Int(_) => "number",
            JsonValue::Str(_) => "string",
            JsonValue::Arr(_) => "array",
            JsonValue::Obj(_) => "object",
        };
        let base = if passed {
            EvaluationResult::pass(1000, "output is valid JSON structure")
        } else {
            EvaluationResult::fail("output must be an object or array")
        };
        let res = base.with_details(JsonValue::obj1("type", JsonValue::text(tag)));
        Ok(res)
    }
}

impl StepEvaluator for JsonValidityEvaluator {
    fn evaluate(&self, step_output: &JsonValue) -> Result<EvaluationResult, EvalError> {
        self.check(step_output)
    }
}

/// What the case-folding of a text denotes; the folding itself is the
/// standard library's.
pub uninterp spec fn lower_of(s: Seq<char>) -> Seq<char>;

/// Relies on `str::to_lowercase`: the folded text is a function of the
/// characters alone.
#[verifier::external_body]
fn lowercase(s: &str) -> (r: String)
    ensures
        r@ == lower_of(s@),
{
    s.to_lowercase()
}

/// The terms of `terms` that occur in `text`, in order, compared on
/// UTF-8 bytes.
pub open spec fn terms_found(terms: Seq<Seq<char>>, text: Seq<char>) -> Seq<Seq<char>>
    decreases terms.len(),
{
    if terms.len() == 0 {
        Seq::empty()
    } else {
        terms_found(terms.drop_last(), text) + (if is_sub(
            encode_utf8(terms.last()),
            encode_utf8(text),
        ) {
            seq![terms.last()]
        } else {
            Seq::empty()
        })
    }
}

/// Collects the terms that occur in `text`.
fn collect_found(terms: &Vec<String>, text: &str) -> (r: Vec<JsonValue>)
    ensures
        crate::json::jv_seq_view(r@) == found_as_json(terms_found(strs_view(terms@), text@)),
{
    let ghost gt = strs_view(terms@);
    let mut out: Vec<JsonValue> = Vec::new();
    let mut i: usize = 0;
    proof {
        crate::json::lemma_jv_seq_view(out@);
        assert(gt.take(0) =~= Seq::<Seq<char>>::empty());
        assert(crate::json::jv_seq_view(out@) =~= found_as_json(terms_found(gt.take(0), text@)));
    }
    while i < terms.len()
        invariant
            gt == strs_view(terms@),
            i <= terms@.len(),
            crate::json::jv_seq_view(out@) == found_as_json(terms_found(gt.take(i as int), text@)),
        decreases terms.len() - i,
    {
        proof {
            assert(gt[i as int] == terms@[i as int]@);
        }
        let ghost pre = out@;
        if str_contains(text, terms[i].as_str()) {
            out.push(JsonValue::Str(terms[i].clone()));
        }
        proof {
            assert(gt.take(i as int + 1).drop_last() =~= gt.take(i as int));
            assert(gt.take(i as int + 1).last() == gt[i as int]);
            crate::json::lemma_jv_seq_view(out@);
            crate::json::lemma_jv_seq_view(pre);
            lemma_found_as_json_snoc(terms_found(gt.take(i as int), text@), gt[i as int], text@);
            if is_sub(encode_utf8(gt[i as int]), encode_utf8(text@)) {
                assert(crate::json::jv_seq_view(out@) =~= crate::json::jv_seq_view(pre).push(
                    JsonV::Str(gt[i as int]),
                ));
            } else {
                assert(crate::json::jv_seq_view(out@) =~= crate::json::jv_seq_view(pre));
            }
            assert(crate::json::jv_seq_view(out@) =~= found_as_json(terms_found(
                gt.take(i as int + 1),
                text@,
            )));
        }
        i = i + 1;
    }
    proof {
        assert(gt.take(terms@.len() as int) =~= gt);
    }
    out
}

/// Each found term, as a string value.
pub open spec fn found_as_json(found: Seq<Seq<char>>) -> Seq<JsonV> {
    Seq::new(found.len(), |i: int| JsonV::Str(found[i]))
}

proof fn lemma_found_as_json_snoc(found: Seq<Seq<char>>, t: Seq<char>, text: Seq<char>)
    ensures
        found_as_json(found.push(t)) == found_as_json(found).push(JsonV::Str(t)),
        terms_found(found, text).len() <= found.len(),
{
    assert(found_as_json(found.push(t)) =~= found_as_json(found).push(JsonV::Str(t)));
    lemma_terms_found_len(found, text);
}

proof fn lemma_terms_found_len(terms: Seq<Seq<char>>, text: Seq<char>)
    ensures
        terms_found(terms, text).len() <= terms.len(),
    decreases terms.len(),
{
    if terms.len() > 0 {
        lemma_terms_found_len(terms.drop_last(), text);
    }
}

/// Flags text that contains any of a list of disallowed terms, compared
/// on the case-folded text.
#[derive(Debug)]
pub struct ToxicityEvaluator {
    disallowed_terms: Vec<String>,
}

impl ToxicityEvaluator {
    /// The terms this evaluator screens for.
    pub closed spec fn terms(&self) -> Seq<Seq<char>> {
        strs_view(self.disallowed_terms@)
    }

    /// Screens the candidate: a non-string is invalid input; otherwise
    /// the result fails exactly when a disallowed term occurs in the
    /// case-folded text, and the details name the offending terms.
    pub fn check(&self, candidate: &JsonValue) -> (r: Result<EvaluationResult, EvalError>)
        ensures
            match candidate@ {
                JsonV::Str(text) => {
                    let found = terms_found(self.terms(), lower_of(text));
                    &&& r matches Ok(res)
                    &&& res@.passed == (found.len() == 0)
                    &&& found.len() == 0 ==> res@ == (EvaluationResultV {
                        passed: true,
                        score_milli: 1000,
                        reason: Some("no toxic terms detected"@),
                        details: JsonV::Null,
                    })
                    &&& found.len() > 0 ==> res@ == (EvaluationResultV {
                        passed: false,
                        score_milli: 0,
                        reason: Some("toxic language detected"@),
                        details: JsonV::Obj(
                            seq![("offending_terms"@, JsonV::Arr(found_as_json(found)))],
                        ),
                    })
                },
                _ => r matches Err(EvalError::InvalidInput(m)) && m@
                    == "candidate must be a string"@,
            },
    {
        let text = match candidate.as_str() {
            Some(t) => t,
            None => {
                return Err(EvalError::InvalidInput("candidate must be a string".to_owned()));
            },
        };
        let lowered = lowercase(text);
        let offending = collect_found(&self.disallowed_terms, lowered.as_str());
        if offending.len() == 0 {
            proof {
                crate::json::lemma_jv_seq_view(offending@);
                assert(terms_found(self.terms(), lower_of(text@)).len() == 0);
            }
            Ok(EvaluationResult::pass(1000, "no toxic terms detected"))
        } else {
            proof {
                crate::json::lemma_jv_seq_view(offending@);
            }
            let details = JsonValue::obj1("offending_terms", JsonValue::Arr(offending));
            proof {
                assert(found_as_json(terms_found(self.terms(), lower_of(text@))).len() > 0);
            }
            Ok(EvaluationResult::fail("toxic language detected").with_details(details))
        }
    }
}

impl Default for ToxicityEvaluator {
    /// The stock screen: a small list of obviously hostile terms.
    fn default() -> (r: Self)
        ensures
            r.terms() == seq!["hate"@, "violence"@, "kill"@, "racist"@, "terror"@],
    {
        let terms: Vec<String> = vec![
            "hate".to_owned(),
            "violence".to_owned(),
            "kill".to_owned(),
            "racist".to_owned(),
            "terror".to_owned(),
        ];
        let r = ToxicityEvaluator { disallowed_terms: terms };
        proof {
            assert(r.terms() =~= seq!["hate"@, "violence"@, "kill"@, "racist"@, "terror"@]);
        }
        r
    }
}

impl GuardrailEvaluator for ToxicityEvaluator {
    fn validate(&self, candidate: &JsonValue) -> Result<EvaluationResult, EvalError> {
        self.check(candidate)
    }
}

/// Flags text that carries markers of ungrounded or speculative output.
#[derive(Debug)]
pub struct HallucinationEvaluator;

/// The markers this guardrail screens for.
pub open spec fn hallucination_signals() -> Seq<Seq<char>> {
    seq!["made up"@, "fictional"@, "not sure"@, "guessing"@, "probably"@]
}

impl HallucinationEvaluator {
    /// Screens the candidate: a non-string is invalid input; otherwise
    /// the result fails exactly when a marker occurs in the case-folded
    /// text, and the details name the markers found.
    pub fn check(&self, candidate: &JsonValue) -> (r: Result<EvaluationResult, EvalError>)
        ensures
            match candidate@ {
                JsonV::Str(text) => {
                    let found = terms_found(hallucination_signals(), lower_of(text));
                    &&& r matches Ok(res)
                    &&& res@.passed == (found.len() == 0)
                    &&& found.len() == 0 ==> res@ == (EvaluationResultV {
                        passed: true,
                        score_milli: 1000,
                        reason: Some("no hallucination markers detected"@),
                        details: JsonV::Null,
                    })
                    &&& found.len() > 0 ==> res@ == (EvaluationResultV {
                        passed: false,
                        score_milli: 0,
                        reason: Some("possible hallucination markers present"@),
                        details: JsonV::Obj(
                            seq![("markers"@, JsonV::Arr(found_as_json(found)))],
                        ),
                    })
                },
                _ => r matches Err(EvalError::InvalidInput(m)) && m@
                    == "candidate must be a string"@,
            },
    {
        let text = match candidate.as_str() {
            Some(t) => t,
            None => {
                return Err(EvalError::InvalidInput("candidate must be a string".to_owned()));
            },
        };
        let signals: Vec<String> = vec![
            "made up".to_owned(),
            "fictional".to_owned(),
            "not sure".to_owned(),
            "guessing".to_owned(),
            "probably".to_owned(),
        ];
        proof {
            assert(strs_view(signals@) =~= hallucination_signals());
        }
        let lowered = lowercase(text);
        let found = collect_found(&signals, lowered.as_str());
        if found.len() == 0 {
            proof {
                crate::json::lemma_jv_seq_view(found@);
                assert(terms_found(hallucination_signals(), lower_of(text@)).len() == 0);
            }
            Ok(EvaluationResult::pass(1000, "no hallucination markers detected"))
        } else {
            proof {
                crate::json::lemma_jv_seq_view(found@);
            }
            let details = JsonValue::obj1("markers", JsonValue::Arr(found));
            proof {
                assert(found_as_json(terms_found(hallucination_signals(), lower_of(text@))).len()
                    > 0);
            }
            Ok(EvaluationResult::fail("possible hallucination markers present").with_details(
                details,
            ))
        }
    }
}

impl GuardrailEvaluator for HallucinationEvaluator {
    fn validate(&self, candidate: &JsonValue) -> Result<EvaluationResult, EvalError> {
        self.check(candidate)
    }
}

/// Validates tool-call payloads: an object carrying a tool name and an
/// object of arguments.
#[derive(Debug)]
pub struct ToolCallCorrectnessEvaluator;

impl ToolCallCorrectnessEvaluator {
    pub fn check(&self, step_output: &JsonValue) -> (r: Result<EvaluationResult, EvalError>)
        ensures
            r matches Ok(res) && res@ == (if !(step_output@ is Obj) {
                EvaluationResultV {
                    passed: false,
                    score_milli: 0,
                    reason: Some("expected tool call object"@),
                    details: JsonV::Null,
                }
            } else if jv_lookup(step_output@, "tool"@) is None || jv_lookup(
                step_output@,
                "arguments"@,
            ) is None {
                EvaluationResultV {
                    passed: false,
                    score_milli: 0,
                    reason: Some("tool call must contain 'tool' and 'arguments' fields"@),
                    details: JsonV::Null,
                }
            } else if !(jv_lookup(step_output@, "arguments"@)->Some_0 is Obj) {
                EvaluationResultV {
                    passed: false,
                    score_milli: 0,
                    reason: Some("'arguments' must be a JSON object"@),
                    details: JsonV::Null,
                }
            } else {
                EvaluationResultV {
                    passed: true,
                    score_milli: 1000,
                    reason: Some("tool call structure is valid"@),
                    details: JsonV::Null,
                }
            }),
    {
        if !step_output.is_object() {
            return Ok(EvaluationResult::fail("expected tool call object"));
        }
        let tool = step_output.get("tool");
        let args = step_output.get("arguments");
        if tool.is_none() || args.is_none() {
            return Ok(
                EvaluationResult::fail("tool call must contain 'tool' and 'arguments' fields"),
            );
        }
        let args_val = match args {
            Some(a) => a,
            None => {
                return Ok(
                    EvaluationResult::fail("tool call must contain 'tool' and 'arguments' fields"),
                );
            },
        };
        if !args_val.is_object() {
            return Ok(EvaluationResult::fail("'arguments' must be a JSON object"));
        }
        Ok(EvaluationResult::pass(1000, "tool call structure is valid"))
    }
}

impl StepEvaluator for ToolCallCorrectnessEvaluator {
    fn evaluate(&self, step_output: &JsonValue) -> Result<EvaluationResult, EvalError> {
        self.check(step_output)
    }
}

/// Keeps hidden chain-of-thought out of user-facing answers.
#[derive(Debug)]
pub struct ChainOfThoughtGuardrail;

impl ChainOfThoughtGuardrail {
    pub fn check(&self, candidate: &JsonValue) -> (r: Result<EvaluationResult, EvalError>)
        ensures
            match candidate@ {
                JsonV::Str(text) => {
                    let leaked = is_sub(
                        encode_utf8("chain-of-thought"@),
                        encode_utf8(lower_of(text)),
                    ) || is_sub(encode_utf8("reasoning:"@), encode_utf8(lower_of(text)));
                    &&& r matches Ok(res)
                    &&& res@ == (EvaluationResultV {
                        passed: !leaked,
                        score_milli: if leaked {
                            0
                        } else {
                            1000
                        },
                        reason: if leaked {
                            Some("chain-of-thought markers should be hidden from the user"@)
                        } else {
                            Some("no chain-of-thought markers exposed to the user"@)
                        },
                        details: JsonV::Null,
                    })
                },
                _ => r matches Err(EvalError::InvalidInput(m)) && m@
                    == "candidate must be a string"@,
            },
    {
        let text = match candidate.as_str() {
            Some(t) => t,
            None => {
                return Err(EvalError::InvalidInput("candidate must be a string".to_owned()));
            },
        };
        let lowered = lowercase(text);
        if str_contains(lowered.as_str(), "chain-of-thought") || str_contains(
            lowered.as_str(),
            "reasoning:",
        ) {
            Ok(EvaluationResult::fail("chain-of-thought markers should be hidden from the user"))
        } else {
            Ok(EvaluationResult::pass(1000, "no chain-of-thought markers exposed to the user"))
        }
    }
}

impl GuardrailEvaluator for ChainOfThoughtGuardrail {
    fn validate(&self, candidate: &JsonValue) -> Result<EvaluationResult, EvalError> {
        self.check(candidate)
    }
}

/// A score taken out of a structured value, clamped into range.
pub open spec fn score_of(v: JsonV, key: Seq<char>) -> u32 {
    match jv_lookup(v, key) {
        Some(JsonV::Int(n)) => if n < 0 {
            0
        } else if n > 1000 {
            1000
        } else {
            n as u32
        },
        _ => 0,
    }
}

/// Reads a clamped score field out of a value.
fn read_score(v: &JsonValue, key: &str) -> (r: u32)
    ensures
        r == score_of(v@, key@),
{
    match v.get(key) {
        Some(f) => match f.as_int() {
            Some(n) => {
                if n < 0 {
                    0
                } else if n > 1000 {
                    1000
                } else {
                    n as u32
                }
            },
            None => 0,
        },
        None => 0,
    }
}

/// Lets a step supply its own scored reflection.
#[derive(Debug)]
pub struct SelfAssessmentEvaluator;

impl SelfAssessmentEvaluator {
    pub fn check(&self, step_output: &JsonValue) -> (r: Result<EvaluationResult, EvalError>)
        ensures
            match jv_lookup(step_output@, "self_assessment"@) {
                None => r matches Ok(res) && res@ == (EvaluationResultV {
                    passed: false,
                    score_milli: 0,
                    reason: Some("self_assessment field missing from step output"@),
                    details: JsonV::Null,
                }),
                Some(assessment) => {
                    &&& r matches Ok(res)
                    &&& res@ == (EvaluationResultV {
                        passed: true,
                        score_milli: score_of(assessment, "score"@),
                        reason: Some("step provided self-assessment"@),
                        details: JsonV::Obj(
                            seq![
                                (
                                    "notes"@,
                                    match jv_lookup(assessment, "notes"@) {
                                        Some(JsonV::Str(s)) => JsonV::Str(s),
                                        _ => JsonV::Null,
                                    },
                                ),
                            ],
                        ),
                    })
                },
            },
    {
        let assessment = match step_output.get("self_assessment") {
            Some(a) => a,
            None => {
                return Ok(EvaluationResult::fail("self_assessment field missing from step output"));
            },
        };
        let score = read_score(assessment, "score");
        let notes: JsonValue = match assessment.get("notes") {
            Some(n) => match n.as_str() {
                Some(s) => JsonValue::text(s),
                None => JsonValue::Null,
            },
            None => JsonValue::Null,
        };
        let res = EvaluationResult::pass(score, "step provided self-assessment").with_details(
            JsonValue::obj1("notes", notes),
        );
        Ok(res)
    }
}

impl StepEvaluator for SelfAssessmentEvaluator {
    fn evaluate(&self, step_output: &JsonValue) -> Result<EvaluationResult, EvalError> {
        self.check(step_output)
    }
}

/// Ranks plans deterministically in their original order.
#[derive(Debug)]
pub struct PassThroughPlanEvaluator;

impl PassThroughPlanEvaluator {
    pub fn order(&self, plans: &Vec<JsonValue>) -> (r: Result<PlanRanking, EvalError>)
        ensures
            r matches Ok(ranking) && ranking.order@.len() == plans@.len() && forall|i: int|
                0 <= i < plans@.len() ==> #[trigger] ranking.order@[i] == i,
    {
        let mut order: Vec<usize> = Vec::new();
        let mut i: usize = 0;
        while i < plans.len()
            invariant
                i <= plans@.len(),
                order@.len() == i as int,
                forall|j: int| 0 <= j < i as int ==> #[trigger] order@[j] == j,
            decreases plans.len() - i,
        {
            order.push(i);
            i = i + 1;
        }
        Ok(PlanRanking::new(order))
    }
}

impl PlanEvaluator for PassThroughPlanEvaluator {
    fn rank(&self, plans: &Vec<JsonValue>) -> Result<PlanRanking, EvalError> {
        self.order(plans)
    }
}

/// Turns a context's score field into a normalized reward.
#[derive(Debug)]
pub struct ScoreRewardEvaluator;

impl ScoreRewardEvaluator {
    pub fn score(&self, context: &JsonValue) -> (r: Result<EvaluationResult, EvalError>)
        ensures
            r matches Ok(res) && res@ == (EvaluationResultV {
                passed: true,
                score_milli: score_of(context@, "score"@),
                reason: match jv_lookup(context@, "reason"@) {
                    Some(JsonV::Str(s)) => Some(s),
                    _ => None,
                },
                details: JsonV::Null,
            }),
    {
        let score = read_score(context, "score");
        let reason: Option<String> = match context.get("reason") {
            Some(v) => match v.as_str() {
                Some(s) => Some(s.to_owned()),
                None => None,
            },
            None => None,
        };
        let res = EvaluationResult::pass(score, reason);
        proof {
            assert(clamp_milli(score_of(context@, "score"@)) == score_of(context@, "score"@));
        }
        Ok(res)
    }
}

impl RewardEvaluator for ScoreRewardEvaluator {
    fn reward(&self, context: &JsonValue) -> Result<EvaluationResult, EvalError> {
        self.score(context)
    }
}

} // verus!
