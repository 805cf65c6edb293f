use vstd::prelude::*;
use crate::json::{JsonValue, JsonV, jv_lookup};
use crate::registry::{Tool, ToolError};

verus! {

/// Relies on `chrono::Utc::now` and `DateTime::to_rfc3339`: the current
/// moment, rendered as an RFC 3339 timestamp. The result depends on the
/// clock, so nothing is promised of it.
#[verifier::external_body]
fn now_rfc3339() -> String {
    chrono::Utc::now().to_rfc3339()
}

/// A tool that reports the current time as an RFC 3339 text.
#[derive(Debug)]
pub struct TimeTool;

impl TimeTool {
    pub fn tool_name(&self) -> (r: String)
        ensures
            r@ == "time"@,
    {
        "time".to_owned()
    }

    pub fn input_schema(&self) -> (r: JsonValue)
        ensures
            r@ == JsonV::Obj(
                seq![
                    ("type"@, JsonV::Str("object"@)),
                    ("properties"@, JsonV::Obj(Seq::empty())),
                ],
            ),
    {
        let props = JsonValue::Obj(Vec::new());
        proof {
            assert(props@ =~= JsonV::Obj(Seq::empty()));
        }
        JsonValue::obj2("type", JsonValue::text("object"), "properties", props)
    }

    pub fn output_schema(&self) -> (r: JsonValue)
        ensures
            r@ == JsonV::Obj(
                seq![
                    ("type"@, JsonV::Str("string"@)),
                    ("description"@, JsonV::Str("ISO-8601 timestamp"@)),
                ],
            ),
    {
        JsonValue::obj2(
            "type",
            JsonValue::text("string"),
            "description",
            JsonValue::text("ISO-8601 timestamp"),
        )
    }

    /// Reads the clock; whatever moment it reports, the result is a
    /// string value.
    pub fn run(&self, args: JsonValue) -> (r: Result<JsonValue, ToolError>)
        ensures
            r matches Ok(v) && v@ is Str,
    {
        let now = now_rfc3339();
        Ok(JsonValue::Str(now))
    }
}

impl Tool for TimeTool {
    fn name(&self) -> String {
        self.tool_name()
    }

    fn input_schema(&self) -> JsonValue {
        self.input_schema()
    }

    fn output_schema(&self) -> JsonValue {
        self.output_schema()
    }

    fn execute(&self, args: JsonValue) -> Result<JsonValue, ToolError> {
        self.run(args)
    }
}

/// What evaluating an arithmetic expression yields: the decimal text of
/// its value on success, or the evaluator's error text. The result is a
/// function of the expression alone.
pub uninterp spec fn eval_outcome_of(expr: Seq<char>) -> Result<Seq<char>, Seq<char>>;

/// Relies on `meval::eval_str`: evaluates an expression with the
/// built-in constants and functions; the value and any error are
/// rendered as text.
#[verifier::external_body]
fn eval_expression(expr: &str) -> (r: Result<String, String>)
    ensures
        match r {
            Ok(t) => eval_outcome_of(expr@) matches Ok(tv) && t@ == tv,
            Err(e) => eval_outcome_of(expr@) matches Err(ev) && e@ == ev,
        },
{
    match meval::eval_str(expr) {
        Ok(v) => Ok(v.to_string()),
        Err(e) => Err(e.to_string()),
    }
}

/// A tool that evaluates an arithmetic expression; its output is the
/// value's decimal text.
#[derive(Debug)]
pub struct MathTool;

impl MathTool {
    pub fn tool_name(&self) -> (r: String)
        ensures
            r@ == "math"@,
    {
        "math".to_owned()
    }

    pub fn input_schema(&self) -> (r: JsonValue)
        ensures
            r@ == JsonV::Obj(
                seq![
                    ("type"@, JsonV::Str("object"@)),
                    (
                        "properties"@,
                        JsonV::Obj(
                            seq![
                                (
                                    "expression"@,
                                    JsonV::Obj(seq![("type"@, JsonV::Str("string"@))]),
                                ),
                            ],
                        ),
                    ),
                    ("required"@, JsonV::Arr(seq![JsonV::Str("expression"@)])),
                ],
            ),
    {
        let expr_schema = JsonValue::obj1("type", JsonValue::text("string"));
        let props = JsonValue::obj1("expression", expr_schema);
        let mut required_items: Vec<JsonValue> = Vec::new();
        required_items.push(JsonValue::text("expression"));
        let required = JsonValue::Arr(required_items);
        proof {
            crate::json::lemma_jv_seq_view(required->Arr_0@);
            assert(crate::json::jv_seq_view(required->Arr_0@) =~= seq![
                JsonV::Str("expression"@),
            ]);
        }
        let mut fields: Vec<(String, JsonValue)> = Vec::new();
        fields.push(("type".to_owned(), JsonValue::text("object")));
        fields.push(("properties".to_owned(), props));
        fields.push(("required".to_owned(), required));
        let r = JsonValue::Obj(fields);
        proof {
            crate::json::lemma_jv_obj_view(r->Obj_0@);
            assert(crate::json::jv_obj_view(r->Obj_0@) =~= seq![
                ("type"@, JsonV::Str("object"@)),
                (
                    "properties"@,
                    JsonV::Obj(
                        seq![
                            ("expression"@, JsonV::Obj(seq![("type"@, JsonV::Str("string"@))])),
                        ],
                    ),
                ),
                ("required"@, JsonV::Arr(seq![JsonV::Str("expression"@)])),
            ]);
        }
        r
    }

    pub fn output_schema(&self) -> (r: JsonValue)
        ensures
            r@ == JsonV::Obj(seq![("type"@, JsonV::Str("string"@))]),
    {
        JsonValue::obj1("type", JsonValue::text("string"))
    }

    /// Evaluates the `expression` argument: a missing or non-string
    /// expression is invalid; otherwise the evaluator decides, and its
    /// value's text comes back as a string value.
    pub fn run(&self, args: JsonValue) -> (r: Result<JsonValue, ToolError>)
        ensures
            match jv_lookup(args@, "expression"@) {
                Some(JsonV::Str(expr)) => {
                    match eval_outcome_of(expr) {
                        Ok(t) => r matches Ok(v) && v@ == JsonV::Str(t),
                        Err(e) => r matches Err(ToolError::Execution(m)) && m@ == e,
                    }
                },
                _ => r matches Err(ToolError::InvalidArgs(m)) && m@ == "expression missing"@,
            },
    {
        let expr = match args.get("expression") {
            Some(v) => match v.as_str() {
                Some(s) => s,
                None => {
                    return Err(ToolError::InvalidArgs("expression missing".to_owned()));
                },
            },
            None => {
                return Err(ToolError::InvalidArgs("expression missing".to_owned()));
            },
        };
        match eval_expression(expr) {
            Ok(text) => Ok(JsonValue::Str(text)),
            Err(e) => Err(ToolError::Execution(e)),
        }
    }
}

impl Tool for MathTool {
    fn name(&self) -> String {
        self.tool_name()
    }

    fn input_schema(&self) -> JsonValue {
        self.input_schema()
    }

    fn output_schema(&self) -> JsonValue {
        self.output_schema()
    }

    fn execute(&self, args: JsonValue) -> Result<JsonValue, ToolError> {
        self.run(args)
    }
}

/// A tool that acknowledges a message.
#[derive(Debug)]
pub struct LogTool;

impl LogTool {
    pub fn tool_name(&self) -> (r: String)
        ensures
            r@ == "log"@,
    {
        "log".to_owned()
    }

    pub fn input_schema(&self) -> (r: JsonValue)
        ensures
            r@ == JsonV::Obj(
                seq![
                    ("type"@, JsonV::Str("object"@)),
                    (
                        "properties"@,
                        JsonV::Obj(
                            seq![
                                ("message"@, JsonV::Obj(seq![("type"@, JsonV::Str("string"@))])),
                            ],
                        ),
                    ),
                    ("required"@, JsonV::Arr(seq![JsonV::Str("message"@)])),
                ],
            ),
    {
        let msg_schema = JsonValue::obj1("type", JsonValue::text("string"));
        let props = JsonValue::obj1("message", msg_schema);
        let mut required_items: Vec<JsonValue> = Vec::new();
        required_items.push(JsonValue::text("message"));
        let required = JsonValue::Arr(required_items);
        proof {
            crate::json::lemma_jv_seq_view(required->Arr_0@);
            assert(crate::json::jv_seq_view(required->Arr_0@) =~= seq![JsonV::Str("message"@)]);
        }
        let mut fields: Vec<(String, JsonValue)> = Vec::new();
        fields.push(("type".to_owned(), JsonValue::text("object")));
        fields.push(("properties".to_owned(), props));
        fields.push(("required".to_owned(), required));
        let r = JsonValue::Obj(fields);
        proof {
            crate::json::lemma_jv_obj_view(r->Obj_0@);
            assert(crate::json::jv_obj_view(r->Obj_0@) =~= seq![
                ("type"@, JsonV::Str("object"@)),
                (
                    "properties"@,
                    JsonV::Obj(
                        seq![("message"@, JsonV::Obj(seq![("type"@, JsonV::Str("string"@))]))],
                    ),
                ),
                ("required"@, JsonV::Arr(seq![JsonV::Str("message"@)])),
            ]);
        }
        r
    }

    pub fn output_schema(&self) -> (r: JsonValue)
        ensures
            r@ == JsonV::Obj(
                seq![
                    ("type"@, JsonV::Str("object"@)),
                    (
                        "properties"@,
                        JsonV::Obj(
                            seq![("ack"@, JsonV::Obj(seq![("type"@, JsonV::Str("boolean"@))]))],
                        ),
                    ),
                ],
            ),
    {
        let ack_schema = JsonValue::obj1("type", JsonValue::text("boolean"));
        let props = JsonValue::obj1("ack", ack_schema);
        JsonValue::obj2("type", JsonValue::text("object"), "properties", props)
    }

    /// Acknowledges a string `message` argument; anything else is
    /// invalid.
    pub fn run(&self, args: JsonValue) -> (r: Result<JsonValue, ToolError>)
        ensures
            match jv_lookup(args@, "message"@) {
                Some(JsonV::Str(m)) => r matches Ok(v) && v@ == JsonV::Obj(
                    seq![("ack"@, JsonV::Bool(true))],
                ),
                _ => r matches Err(ToolError::InvalidArgs(m)) && m@ == "message missing"@,
            },
    {
        match args.get("message") {
            Some(v) => match v.as_str() {
                Some(_m) => Ok(JsonValue::obj1("ack", JsonValue::Bool(true))),
                None => Err(ToolError::InvalidArgs("message missing".to_owned())),
            },
            None => Err(ToolError::InvalidArgs("message missing".to_owned())),
        }
    }
}

impl Tool for LogTool {
    fn name(&self) -> String {
        self.tool_name()
    }

    fn input_schema(&self) -> JsonValue {
        self.input_schema()
    }

    fn output_schema(&self) -> JsonValue {
        self.output_schema()
    }

    fn execute(&self, args: JsonValue) -> Result<JsonValue, ToolError> {
        self.run(args)
    }
}

/// One search hit.
#[derive(Debug, Clone, PartialEq, Eq)]
pub struct SearchResult {
    pub title: String,
    pub url: String,
    pub snippet: String,
}

#[verifier::ext_equal]
pub struct SearchResultV {
    pub title: Seq<char>,
    pub url: Seq<char>,
    pub snippet: Seq<char>,
}

impl View for SearchResult {
    type V = SearchResultV;

    open spec fn view(&self) -> SearchResultV {
        SearchResultV { title: self.title@, url: self.url@, snippet: self.snippet@ }
    }
}

/// The search capability a search tool consults; implementations come
/// from the embedding program.
pub trait SearchProvider {
    fn search(&self, query: &str, limit: usize) -> Result<Vec<SearchResult>, ToolError>;
}

/// One hit as a structured value.
pub open spec fn result_json(r: SearchResultV) -> JsonV {
    JsonV::Obj(
        seq![
            ("title"@, JsonV::Str(r.title)),
            ("url"@, JsonV::Str(r.url)),
            ("snippet"@, JsonV::Str(r.snippet)),
        ],
    )
}

pub open spec fn results_view(s: Seq<SearchResult>) -> Seq<SearchResultV> {
    Seq::new(s.len(), |i: int| s[i]@)
}

/// Renders search hits as an array of structured values, in order.
pub fn render_results(results: &Vec<SearchResult>) -> (r: JsonValue)
    ensures
        r@ == JsonV::Arr(Seq::new(results@.len(), |i: int| result_json(results@[i]@))),
{
    let mut items: Vec<JsonValue> = Vec::new();
    let mut i: usize = 0;
    while i < results.len()
        invariant
            i <= results@.len(),
            items@.len() == i as int,
            forall|j: int|
                0 <= j < i as int ==> crate::json::jv_view(#[trigger] items@[j]) == result_json(
                    results@[j]@,
                ),
        decreases results.len() - i,
    {
        let item = &results[i];
        let mut fields: Vec<(String, JsonValue)> = Vec::new();
        fields.push(("title".to_owned(), JsonValue::Str(item.title.clone())));
        fields.push(("url".to_owned(), JsonValue::Str(item.url.clone())));
        fields.push(("snippet".to_owned(), JsonValue::Str(item.snippet.clone())));
        let obj = JsonValue::Obj(fields);
        proof {
            crate::json::lemma_jv_obj_view(obj->Obj_0@);
            assert(crate::json::jv_obj_view(obj->Obj_0@) =~= seq![
                ("title"@, JsonV::Str(results@[i as int].title@)),
                ("url"@, JsonV::Str(results@[i as int].url@)),
                ("snippet"@, JsonV::Str(results@[i as int].snippet@)),
            ]);
        }
        items.push(obj);
        i = i + 1;
    }
    let r = JsonValue::Arr(items);
    proof {
        crate::json::lemma_jv_seq_view(r->Arr_0@);
        assert(crate::json::jv_seq_view(r->Arr_0@) =~= Seq::new(
            results@.len(),
            |i: int| result_json(results@[i]@),
        ));
    }
    r
}

/// The hit limit a search request settles on: an explicit non-negative
/// limit capped at fifty, else five.
pub open spec fn limit_of(args: JsonV) -> int {
    match jv_lookup(args, "limit"@) {
        Some(JsonV::Int(n)) => if n < 0 {
            5
        } else if n > 50 {
            50
        } else {
            n
        },
        _ => 5,
    }
}

/// A tool that consults a pluggable search provider and renders its
/// hits.
#[derive(Debug)]
pub struct SearchTool<P: SearchProvider> {
    provider: P,
}

impl<P: SearchProvider> SearchTool<P> {
    pub fn new(provider: P) -> (r: Self) {
        SearchTool { provider }
    }

    pub fn tool_name(&self) -> (r: String)
        ensures
            r@ == "search"@,
    {
        "search".to_owned()
    }

    /// Consults the provider: a missing or non-string query is invalid;
    /// otherwise the provider's hits come back rendered in order, or its
    /// error passes through.
    pub fn run(&self, args: JsonValue) -> (r: Result<JsonValue, ToolError>)
        ensures
            match jv_lookup(args@, "query"@) {
                Some(JsonV::Str(q)) => r matches Ok(v) ==> exists|hits: Seq<SearchResultV>|
                    v@ == JsonV::Arr(Seq::new(hits.len(), |i: int| result_json(hits[i]))),
                _ => r matches Err(ToolError::InvalidArgs(m)) && m@ == "query missing"@,
            },
    {
        let query = match args.get("query") {
            Some(v) => match v.as_str() {
                Some(s) => s,
                None => {
                    return Err(ToolError::InvalidArgs("query missing".to_owned()));
                },
            },
            None => {
                return Err(ToolError::InvalidArgs("query missing".to_owned()));
            },
        };
        let limit: usize = match args.get("limit") {
            Some(v) => match v.as_int() {
                Some(n) => {
                    if n < 0 {
                        5
                    } else if n > 50 {
                        50
                    } else {
                        n as usize
                    }
                },
                None => 5,
            },
            None => 5,
        };
        match self.provider.search(query, limit) {
            Ok(results) => {
                let rendered = render_results(&results);
                proof {
                    let hits = results_view(results@);
                    assert(rendered@ == JsonV::Arr(
                        Seq::new(hits.len(), |i: int| result_json(hits[i])),
                    )) by {
                        assert(Seq::new(results@.len(), |i: int| result_json(results@[i]@))
                            =~= Seq::new(
                            results_view(results@).len(),
                            |i: int| result_json(results_view(results@)[i]),
                        ));
                    }
                }
                Ok(rendered)
            },
            Err(e) => Err(e),
        }
    }
}

impl<P: SearchProvider> Tool for SearchTool<P> {
    fn name(&self) -> String {
        self.tool_name()
    }

    fn input_schema(&self) -> JsonValue {
        let query_schema = JsonValue::obj1("type", JsonValue::text("string"));
        let limit_schema = JsonValue::obj1("type", JsonValue::text("integer"));
        let mut props_fields: Vec<(String, JsonValue)> = Vec::new();
        props_fields.push(("query".to_owned(), query_schema));
        props_fields.push(("limit".to_owned(), limit_schema));
        let props = JsonValue::Obj(props_fields);
        let mut required_items: Vec<JsonValue> = Vec::new();
        required_items.push(JsonValue::text("query"));
        let required = JsonValue::Arr(required_items);
        let mut fields: Vec<(String, JsonValue)> = Vec::new();
        fields.push(("type".to_owned(), JsonValue::text("object")));
        fields.push(("properties".to_owned(), props));
        fields.push(("required".to_owned(), required));
        JsonValue::Obj(fields)
    }

    fn output_schema(&self) -> JsonValue {
        let item_schema = JsonValue::obj1("type", JsonValue::text("object"));
        JsonValue::obj2("type", JsonValue::text("array"), "items", item_schema)
    }

    fn execute(&self, args: JsonValue) -> Result<JsonValue, ToolError> {
        self.run(args)
    }
}

} // verus!
