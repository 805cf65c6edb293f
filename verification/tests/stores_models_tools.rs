use agentrt::{
    InMemoryStore, JsonValue, LLMModel, MathTool, MemoryError, LogTool, NullStore, MemoryStore,
    OpenAIChatModel, PostgresStore, SearchProvider, SearchResult, SearchTool, StubModel,
    ToolError, VectorBackend, VectorStore, build_usage, tokenize, Tool,
};

#[test]
fn in_memory_store_replaces_on_put() {
    let mut store = InMemoryStore::new();
    store.put("k", &JsonValue::Int(1)).unwrap();
    store.put("k", &JsonValue::Int(2)).unwrap();
    store.put("other", &JsonValue::text("x")).unwrap();

    assert_eq!(store.get("k").unwrap(), Some(JsonValue::Int(2)));
    assert_eq!(store.get("other").unwrap(), Some(JsonValue::text("x")));
    assert_eq!(store.get("missing").unwrap(), None);
}

#[test]
fn in_memory_store_searches_keys_and_rendered_values() {
    let mut store = InMemoryStore::new();
    store.put("alpha", &JsonValue::text("needle inside")).unwrap();
    store.put("beta", &JsonValue::Int(7)).unwrap();
    store.put("needle-key", &JsonValue::Int(8)).unwrap();

    let hits = store.search("needle").unwrap();
    assert_eq!(hits.len(), 2);
    assert_eq!(hits[0], JsonValue::text("needle inside"));
    assert_eq!(hits[1], JsonValue::Int(8));
}

#[test]
fn vector_store_appends_and_reads_oldest() {
    let mut store = VectorStore::new(VectorBackend::LocalHnsw);
    store.put("k", &JsonValue::Int(1)).unwrap();
    store.put("k", &JsonValue::Int(2)).unwrap();
    assert_eq!(store.get("k").unwrap(), Some(JsonValue::Int(1)));
}

#[test]
fn postgres_store_reports_unsupported_operations() {
    let store = PostgresStore::new("postgres://db".to_string());
    match store.put("k", &JsonValue::Null).unwrap_err() {
        MemoryError::Unsupported(m) => {
            assert_eq!(m, "write not implemented for Postgres store (postgres://db)");
        },
        other => panic!("expected Unsupported, got {:?}", other),
    }
    assert!(store.get("k").is_err());
    assert!(store.search("q").is_err());
}

#[test]
fn null_store_remembers_nothing() {
    let store = NullStore;
    store.put("k", &JsonValue::Int(5)).unwrap();
    assert_eq!(store.get("k").unwrap(), None);
    assert!(store.search("k").unwrap().is_empty());
}

#[test]
fn tokenizer_splits_on_blanks() {
    assert_eq!(tokenize("one two  three"), vec!["one", "two", "three"]);
    assert_eq!(tokenize("  padded \n lines\t"), vec!["padded", "lines"]);
    assert!(tokenize("   ").is_empty());

    let usage = build_usage("count these words", "two words");
    assert_eq!(usage.prompt_tokens, 3);
    assert_eq!(usage.completion_tokens, 2);
}

#[test]
fn stub_model_echoes_prompts() {
    let model = StubModel;
    let response = model.generate("hello there");
    assert_eq!(response.content, "echo: hello there");
    assert_eq!(response.usage.prompt_tokens, 11);
    assert_eq!(response.usage.completion_tokens, 2);
    assert!(response.tool_calls.is_empty());
    assert_eq!(response.metadata.provider, "stub");
    assert!(!model.supports_tools());
    assert_eq!(model.stream("hi"), vec!["echo", "hi"]);
}

#[test]
fn chat_model_tags_content_and_proposes_tools() {
    let model = OpenAIChatModel {
        model: "gpt-sim".to_string(),
        supports_tools: true,
        reasoning: false,
    };
    let response = model.generate("sum it");
    assert_eq!(response.content, "[chat:gpt-sim] sum it");
    assert_eq!(response.tool_calls.len(), 1);
    assert_eq!(response.tool_calls[0].name, "auto_tool");
    assert_eq!(response.usage.prompt_tokens, 2);

    let reasoning = OpenAIChatModel {
        model: "gpt-sim".to_string(),
        supports_tools: false,
        reasoning: true,
    };
    assert_eq!(reasoning.generate("why").content, "[reasoning:gpt-sim] why");
    assert!(reasoning.generate("why").tool_calls.is_empty());
}

#[test]
fn math_tool_evaluates_expressions() {
    let tool = MathTool;
    let ok = tool
        .run(JsonValue::obj1("expression", JsonValue::text("1+1")))
        .unwrap();
    assert_eq!(ok, JsonValue::text("2"));

    let missing = tool.run(JsonValue::Obj(vec![])).unwrap_err();
    match missing {
        ToolError::InvalidArgs(m) => assert_eq!(m, "expression missing"),
        other => panic!("expected InvalidArgs, got {:?}", other),
    }

    let broken = tool
        .run(JsonValue::obj1("expression", JsonValue::text("1+")))
        .unwrap_err();
    assert!(matches!(broken, ToolError::Execution(_)));
}

#[test]
fn log_tool_acknowledges_messages() {
    let tool = LogTool;
    let ok = tool
        .run(JsonValue::obj1("message", JsonValue::text("hello")))
        .unwrap();
    assert_eq!(ok, JsonValue::obj1("ack", JsonValue::Bool(true)));

    let missing = tool.run(JsonValue::Obj(vec![])).unwrap_err();
    assert!(matches!(missing, ToolError::InvalidArgs(_)));
}

#[derive(Debug)]
struct StaticSearchProvider {
    results: Vec<SearchResult>,
}

impl SearchProvider for StaticSearchProvider {
    fn search(&self, _query: &str, limit: usize) -> Result<Vec<SearchResult>, ToolError> {
        Ok(self.results.iter().take(limit).cloned().collect())
    }
}

#[test]
fn search_tool_returns_results() {
    let provider = StaticSearchProvider {
        results: vec![SearchResult {
            title: "Example".to_string(),
            url: "https://example.com".to_string(),
            snippet: "Example domain".to_string(),
        }],
    };

    let tool = SearchTool::new(provider);
    let output = tool
        .run(JsonValue::obj2(
            "query",
            JsonValue::text("example"),
            "limit",
            JsonValue::Int(3),
        ))
        .unwrap();

    match &output {
        JsonValue::Arr(items) => {
            assert_eq!(items.len(), 1);
            assert_eq!(items[0].get("title"), Some(&JsonValue::text("Example")));
        },
        other => panic!("expected an array, got {:?}", other),
    }
}

#[test]
fn search_tool_requires_a_query() {
    let tool = SearchTool::new(StaticSearchProvider { results: vec![] });
    let err = tool.run(JsonValue::Obj(vec![])).unwrap_err();
    assert!(matches!(err, ToolError::InvalidArgs(_)));
}

#[test]
fn time_tool_reports_a_string() {
    let tool = agentrt::TimeTool;
    let out = tool.run(JsonValue::Obj(vec![])).unwrap();
    assert!(matches!(out, JsonValue::Str(_)));
    assert_eq!(tool.tool_name(), "time");
}
