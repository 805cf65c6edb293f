use vstd::prelude::*;
use crate::json::{JsonValue, JsonV};
use crate::text::strs_view;
use crate::data::opt_str_view;
use vstd::string::StrSliceExecFns;
use vstd::string::StringSliceAdditionalSpecFns;

verus! {

/// Token counts for one model call.
#[derive(Debug, Clone, Copy, PartialEq, Eq, Structural)]
pub struct UsageMetrics {
    pub prompt_tokens: usize,
    pub completion_tokens: usize,
}

/// Which backend produced a response, and what it is capable of.
#[derive(Debug, Clone, PartialEq, Eq)]
pub struct ModelMetadata {
    pub provider: String,
    pub model: String,
    pub supports_tools: bool,
    pub is_reasoning: bool,
}

#[verifier::ext_equal]
pub struct ModelMetadataV {
    pub provider: Seq<char>,
    pub model: Seq<char>,
    pub supports_tools: bool,
    pub is_reasoning: bool,
}

impl View for ModelMetadata {
    type V = ModelMetadataV;

    open spec fn view(&self) -> ModelMetadataV {
        ModelMetadataV {
            provider: self.provider@,
            model: self.model@,
            supports_tools: self.supports_tools,
            is_reasoning: self.is_reasoning,
        }
    }
}

/// A tool call a model asks its caller to make.
#[derive(Debug, PartialEq, Eq)]
pub struct ToolCallInfo {
    pub name: String,
    pub arguments: JsonValue,
}

#[verifier::ext_equal]
pub struct ToolCallInfoV {
    pub name: Seq<char>,
    pub arguments: JsonV,
}

impl View for ToolCallInfo {
    type V = ToolCallInfoV;

    open spec fn view(&self) -> ToolCallInfoV {
        ToolCallInfoV { name: self.name@, arguments: self.arguments@ }
    }
}

/// One streamed token with its position.
#[derive(Debug, Clone, PartialEq, Eq)]
pub struct CompletionChunk {
    pub token: String,
    pub index: usize,
}

/// What one generate call returns.
#[derive(Debug, PartialEq, Eq)]
pub struct LLMResponse {
    pub content: String,
    pub usage: UsageMetrics,
    pub tool_calls: Vec<ToolCallInfo>,
    pub metadata: ModelMetadata,
}

pub open spec fn tool_calls_view(s: Seq<ToolCallInfo>) -> Seq<ToolCallInfoV> {
    Seq::new(s.len(), |i: int| s[i]@)
}

#[verifier::ext_equal]
pub struct LLMResponseV {
    pub content: Seq<char>,
    pub usage: UsageMetrics,
    pub tool_calls: Seq<ToolCallInfoV>,
    pub metadata: ModelMetadataV,
}

impl View for LLMResponse {
    type V = LLMResponseV;

    open spec fn view(&self) -> LLMResponseV {
        LLMResponseV {
            content: self.content@,
            usage: self.usage,
            tool_calls: tool_calls_view(self.tool_calls@),
            metadata: self.metadata@,
        }
    }
}

/// The model capability: produce a full response, or a finite sequence
/// of tokens.
pub trait LLMModel {
    fn generate(&self, prompt: &str) -> LLMResponse;

    fn stream(&self, prompt: &str) -> Vec<String>;

    fn supports_tools(&self) -> bool;
}

/// The blank characters that separate tokens.
pub open spec fn is_blank(c: char) -> bool {
    c == ' ' || c == '\t' || c == '\n' || c == '\r'
}

/// A left fold of the tokenizer: the finished tokens, and the token
/// still being read.
pub open spec fn token_fold(s: Seq<char>) -> (Seq<Seq<char>>, Seq<char>)
    decreases s.len(),
{
    if s.len() == 0 {
        (Seq::empty(), Seq::empty())
    } else {
        let prior = token_fold(s.drop_last());
        let c = s.last();
        if is_blank(c) {
            if prior.1.len() > 0 {
                (prior.0.push(prior.1), Seq::empty())
            } else {
                (prior.0, Seq::empty())
            }
        } else {
            (prior.0, prior.1.push(c))
        }
    }
}

/// The text split at blanks, empty pieces dropped.
pub open spec fn split_blanks(s: Seq<char>) -> Seq<Seq<char>> {
    let folded = token_fold(s);
    if folded.1.len() > 0 {
        folded.0.push(folded.1)
    } else {
        folded.0
    }
}

/// Splits a text into its blank-separated tokens.
pub fn tokenize(s: &str) -> (r: Vec<String>)
    ensures
        strs_view(r@) == split_blanks(s@),
{
    let n = s.unicode_len();
    let mut out: Vec<String> = Vec::new();
    let mut cur = String::new();
    let mut i: usize = 0;
    proof {
        assert(s@.take(0) =~= Seq::<char>::empty());
        assert(strs_view(out@) =~= token_fold(s@.take(0)).0);
    }
    while i < n
        invariant
            n as nat == s@.len(),
            i <= n,
            strs_view(out@) == token_fold(s@.take(i as int)).0,
            cur@ == token_fold(s@.take(i as int)).1,
        decreases n - i,
    {
        let c = s.get_char(i);
        proof {
            assert(s@.take(i as int + 1).drop_last() =~= s@.take(i as int));
            assert(s@.take(i as int + 1).last() == s@[i as int]);
        }
        if c == ' ' || c == '\t' || c == '\n' || c == '\r' {
            if !cur.as_str().is_empty() {
                proof {
                    assert(cur@.len() > 0);
                }
                out.push(cur);
                cur = String::new();
                proof {
                    assert(strs_view(out@) =~= token_fold(s@.take(i as int + 1)).0);
                }
            } else {
                proof {
                    assert(cur@.len() == 0);
                }
                cur = String::new();
            }
        } else {
            cur.push(c);
        }
        i = i + 1;
    }
    proof {
        assert(s@.take(n as int) =~= s@);
    }
    if !cur.as_str().is_empty() {
        proof {
            assert(cur@.len() > 0);
        }
        out.push(cur);
        proof {
            assert(strs_view(out@) =~= split_blanks(s@));
        }
        out
    } else {
        proof {
            assert(cur@.len() == 0);
            assert(strs_view(out@) =~= split_blanks(s@));
        }
        out
    }
}

/// Token counts for a prompt and a completion: their blank-separated
/// token counts.
pub fn build_usage(prompt: &str, completion: &str) -> (r: UsageMetrics)
    ensures
        r.prompt_tokens == split_blanks(prompt@).len(),
        r.completion_tokens == split_blanks(completion@).len(),
{
    let p = tokenize(prompt);
    let c = tokenize(completion);
    proof {
        assert(strs_view(p@).len() == p@.len());
        assert(strs_view(c@).len() == c@.len());
    }
    UsageMetrics { prompt_tokens: p.len(), completion_tokens: c.len() }
}

/// Joins fixed text around a model name and prompt:
/// `[PREFIX` + name + `] ` + prompt.
fn bracket_text(prefix: &str, name: &str, prompt: &str) -> (r: String)
    ensures
        r@ == prefix@ + name@ + "] "@ + prompt@,
{
    let mut s = String::new();
    s.push_str(prefix);
    s.push_str(name);
    s.push_str("] ");
    s.push_str(prompt);
    proof {
        assert(s@ =~= prefix@ + name@ + "] "@ + prompt@);
    }
    s
}

/// A chat backend stand-in: echoes the prompt under a bracketed tag and
/// proposes one automatic tool call when tools are supported.
#[derive(Debug)]
pub struct OpenAIChatModel {
    pub model: String,
    pub supports_tools: bool,
    pub reasoning: bool,
}

impl OpenAIChatModel {
    pub fn metadata(&self) -> (r: ModelMetadata)
        ensures
            r@ == (ModelMetadataV {
                provider: "openai"@,
                model: self.model@,
                supports_tools: self.supports_tools,
                is_reasoning: self.reasoning,
            }),
    {
        let r = ModelMetadata {
            provider: "openai".to_owned(),
            model: self.model.clone(),
            supports_tools: self.supports_tools,
            is_reasoning: self.reasoning,
        };
        proof {
            assert(r@ =~= (ModelMetadataV {
                provider: "openai"@,
                model: self.model@,
                supports_tools: self.supports_tools,
                is_reasoning: self.reasoning,
            }));
        }
        r
    }

    pub fn complete(&self, prompt: &str) -> (r: LLMResponse)
        ensures
            r@.content == (if self.reasoning {
                "[reasoning:"@
            } else {
                "[chat:"@
            }) + self.model@ + "] "@ + prompt@,
            r@.metadata.provider == "openai"@,
            r@.metadata.model == self.model@,
            self.supports_tools ==> r@.tool_calls == seq![
                ToolCallInfoV {
                    name: "auto_tool"@,
                    arguments: JsonV::Obj(seq![("prompt"@, JsonV::Str(prompt@))]),
                },
            ],
            !self.supports_tools ==> r@.tool_calls.len() == 0,
            r@.usage.prompt_tokens == split_blanks(prompt@).len(),
            r@.usage.completion_tokens == split_blanks(r@.content).len(),
    {
        let content = if self.reasoning {
            bracket_text("[reasoning:", self.model.as_str(), prompt)
        } else {
            bracket_text("[chat:", self.model.as_str(), prompt)
        };
        let mut tool_calls: Vec<ToolCallInfo> = Vec::new();
        if self.supports_tools {
            tool_calls.push(
                ToolCallInfo {
                    name: "auto_tool".to_owned(),
                    arguments: JsonValue::obj1("prompt", JsonValue::text(prompt)),
                },
            );
        }
        let usage = build_usage(prompt, content.as_str());
        let r = LLMResponse { content, usage, tool_calls, metadata: self.metadata() };
        proof {
            if self.supports_tools {
                assert(r@.tool_calls =~~= seq![
                    ToolCallInfoV {
                        name: "auto_tool"@,
                        arguments: JsonV::Obj(seq![("prompt"@, JsonV::Str(prompt@))]),
                    },
                ]);
            } else {
                assert(r@.tool_calls.len() == 0);
            }
        }
        r
    }

    pub fn tokens(&self, prompt: &str) -> (r: Vec<String>)
        ensures
            strs_view(r@) == split_blanks(
                (if self.reasoning {
                    "reasoning "@
                } else {
                    "chat "@
                }) + prompt@,
            ),
    {
        let mut content = String::new();
        if self.reasoning {
            content.push_str("reasoning ");
        } else {
            content.push_str("chat ");
        }
        content.push_str(prompt);
        proof {
            assert(content@ =~= (if self.reasoning {
                "reasoning "@
            } else {
                "chat "@
            }) + prompt@);
        }
        tokenize(content.as_str())
    }
}

impl LLMModel for OpenAIChatModel {
    fn generate(&self, prompt: &str) -> LLMResponse {
        self.complete(prompt)
    }

    fn stream(&self, prompt: &str) -> Vec<String> {
        self.tokens(prompt)
    }

    fn supports_tools(&self) -> bool {
        self.supports_tools
    }
}

/// A deployment-addressed chat backend stand-in.
#[derive(Debug)]
pub struct AzureOpenAIModel {
    pub deployment: String,
    pub supports_tools: bool,
    pub reasoning: bool,
}

impl AzureOpenAIModel {
    pub fn metadata(&self) -> (r: ModelMetadata)
        ensures
            r@ == (ModelMetadataV {
                provider: "azure_openai"@,
                model: self.deployment@,
                supports_tools: self.supports_tools,
                is_reasoning: self.reasoning,
            }),
    {
        let r = ModelMetadata {
            provider: "azure_openai".to_owned(),
            model: self.deployment.clone(),
            supports_tools: self.supports_tools,
            is_reasoning: self.reasoning,
        };
        proof {
            assert(r@ =~= (ModelMetadataV {
                provider: "azure_openai"@,
                model: self.deployment@,
                supports_tools: self.supports_tools,
                is_reasoning: self.reasoning,
            }));
        }
        r
    }

    pub fn complete(&self, prompt: &str) -> (r: LLMResponse)
        ensures
            r@.content == (if self.reasoning {
                "[azure-reasoning:"@
            } else {
                "[azure-chat:"@
            }) + self.deployment@ + "] "@ + prompt@,
            r@.metadata.provider == "azure_openai"@,
            self.supports_tools ==> r@.tool_calls == seq![
                ToolCallInfoV {
                    name: "azure_tool"@,
                    arguments: JsonV::Obj(seq![("input"@, JsonV::Str(prompt@))]),
                },
            ],
            !self.supports_tools ==> r@.tool_calls.len() == 0,
            r@.usage.prompt_tokens == split_blanks(prompt@).len(),
            r@.usage.completion_tokens == split_blanks(r@.content).len(),
    {
        let content = if self.reasoning {
            bracket_text("[azure-reasoning:", self.deployment.as_str(), prompt)
        } else {
            bracket_text("[azure-chat:", self.deployment.as_str(), prompt)
        };
        let mut tool_calls: Vec<ToolCallInfo> = Vec::new();
        if self.supports_tools {
            tool_calls.push(
                ToolCallInfo {
                    name: "azure_tool".to_owned(),
                    arguments: JsonValue::obj1("input", JsonValue::text(prompt)),
                },
            );
        }
        let usage = build_usage(prompt, content.as_str());
        let r = LLMResponse { content, usage, tool_calls, metadata: self.metadata() };
        proof {
            if self.supports_tools {
                assert(r@.tool_calls =~~= seq![
                    ToolCallInfoV {
                        name: "azure_tool"@,
                        arguments: JsonV::Obj(seq![("input"@, JsonV::Str(prompt@))]),
                    },
                ]);
            } else {
                assert(r@.tool_calls.len() == 0);
            }
        }
        r
    }

    pub fn tokens(&self, prompt: &str) -> (r: Vec<String>)
        ensures
            strs_view(r@) == split_blanks("azure "@ + prompt@),
    {
        let mut content = String::new();
        content.push_str("azure ");
        content.push_str(prompt);
        proof {
            assert(content@ =~= "azure "@ + prompt@);
        }
        tokenize(content.as_str())
    }
}

impl LLMModel for AzureOpenAIModel {
    fn generate(&self, prompt: &str) -> LLMResponse {
        self.complete(prompt)
    }

    fn stream(&self, prompt: &str) -> Vec<String> {
        self.tokens(prompt)
    }

    fn supports_tools(&self) -> bool {
        self.supports_tools
    }
}

/// A local-runtime backend stand-in; it never proposes tool calls.
#[derive(Debug)]
pub struct OllamaModel {
    pub model: String,
    pub supports_tools: bool,
}

impl OllamaModel {
    pub fn metadata(&self) -> (r: ModelMetadata)
        ensures
            r@ == (ModelMetadataV {
                provider: "ollama"@,
                model: self.model@,
                supports_tools: self.supports_tools,
                is_reasoning: false,
            }),
    {
        let r = ModelMetadata {
            provider: "ollama".to_owned(),
            model: self.model.clone(),
            supports_tools: self.supports_tools,
            is_reasoning: false,
        };
        proof {
            assert(r@ =~= (ModelMetadataV {
                provider: "ollama"@,
                model: self.model@,
                supports_tools: self.supports_tools,
                is_reasoning: false,
            }));
        }
        r
    }

    pub fn complete(&self, prompt: &str) -> (r: LLMResponse)
        ensures
            r@.content == "[ollama:"@ + self.model@ + "] "@ + prompt@,
            r@.metadata.provider == "ollama"@,
            r@.tool_calls.len() == 0,
            r@.usage.prompt_tokens == split_blanks(prompt@).len(),
            r@.usage.completion_tokens == split_blanks(r@.content).len(),
    {
        let content = bracket_text("[ollama:", self.model.as_str(), prompt);
        let usage = build_usage(prompt, content.as_str());
        let r = LLMResponse {
            content,
            usage,
            tool_calls: Vec::new(),
            metadata: self.metadata(),
        };
        proof {
            assert(r@.tool_calls =~= Seq::<ToolCallInfoV>::empty());
        }
        r
    }

    pub fn tokens(&self, prompt: &str) -> (r: Vec<String>)
        ensures
            strs_view(r@) == split_blanks(prompt@),
    {
        tokenize(prompt)
    }
}

impl LLMModel for OllamaModel {
    fn generate(&self, prompt: &str) -> LLMResponse {
        self.complete(prompt)
    }

    fn stream(&self, prompt: &str) -> Vec<String> {
        self.tokens(prompt)
    }

    fn supports_tools(&self) -> bool {
        self.supports_tools
    }
}

/// A remote-endpoint backend stand-in.
#[derive(Debug)]
pub struct RestModel {
    pub endpoint: String,
    pub model: String,
    pub supports_tools: bool,
}

impl RestModel {
    pub fn metadata(&self) -> (r: ModelMetadata)
        ensures
            r@ == (ModelMetadataV {
                provider: "rest"@,
                model: self.model@,
                supports_tools: self.supports_tools,
                is_reasoning: false,
            }),
    {
        let r = ModelMetadata {
            provider: "rest".to_owned(),
            model: self.model.clone(),
            supports_tools: self.supports_tools,
            is_reasoning: false,
        };
        proof {
            assert(r@ =~= (ModelMetadataV {
                provider: "rest"@,
                model: self.model@,
                supports_tools: self.supports_tools,
                is_reasoning: false,
            }));
        }
        r
    }

    pub fn complete(&self, prompt: &str) -> (r: LLMResponse)
        ensures
            r@.content == "[rest:"@ + self.model@ + "] "@ + self.endpoint@ + " => "@ + prompt@,
            r@.metadata.provider == "rest"@,
            r@.tool_calls.len() == 0,
            r@.usage.prompt_tokens == split_blanks(prompt@).len(),
            r@.usage.completion_tokens == split_blanks(r@.content).len(),
    {
        let mut content = String::new();
        content.push_str("[rest:");
        content.push_str(self.model.as_str());
        content.push_str("] ");
        content.push_str(self.endpoint.as_str());
        content.push_str(" => ");
        content.push_str(prompt);
        proof {
            assert(content@ =~= "[rest:"@ + self.model@ + "] "@ + self.endpoint@ + " => "@
                + prompt@);
        }
        let usage = build_usage(prompt, content.as_str());
        let r = LLMResponse {
            content,
            usage,
            tool_calls: Vec::new(),
            metadata: self.metadata(),
        };
        proof {
            assert(r@.tool_calls =~= Seq::<ToolCallInfoV>::empty());
        }
        r
    }

    pub fn tokens(&self, prompt: &str) -> (r: Vec<String>)
        ensures
            strs_view(r@) == split_blanks(self.model@ + " "@ + prompt@),
    {
        let mut content = String::new();
        content.push_str(self.model.as_str());
        content.push_str(" ");
        content.push_str(prompt);
        proof {
            assert(content@ =~= self.model@ + " "@ + prompt@);
        }
        tokenize(content.as_str())
    }
}

impl LLMModel for RestModel {
    fn generate(&self, prompt: &str) -> LLMResponse {
        self.complete(prompt)
    }

    fn stream(&self, prompt: &str) -> Vec<String> {
        self.tokens(prompt)
    }

    fn supports_tools(&self) -> bool {
        self.supports_tools
    }
}

/// An embedding backend stand-in; its content names the model rather
/// than echoing the prompt.
#[derive(Debug)]
pub struct EmbeddingModel {
    pub model: String,
}

impl EmbeddingModel {
    pub fn metadata(&self) -> (r: ModelMetadata)
        ensures
            r@ == (ModelMetadataV {
                provider: "embedding"@,
                model: self.model@,
                supports_tools: false,
                is_reasoning: false,
            }),
    {
        let r = ModelMetadata {
            provider: "embedding".to_owned(),
            model: self.model.clone(),
            supports_tools: false,
            is_reasoning: false,
        };
        proof {
            assert(r@ =~= (ModelMetadataV {
                provider: "embedding"@,
                model: self.model@,
                supports_tools: false,
                is_reasoning: false,
            }));
        }
        r
    }

    pub fn complete(&self, prompt: &str) -> (r: LLMResponse)
        ensures
            r@.content == "embedding:"@ + self.model@,
            r@.metadata.provider == "embedding"@,
            r@.tool_calls.len() == 0,
            r@.usage.prompt_tokens == split_blanks(prompt@).len(),
            r@.usage.completion_tokens == split_blanks(r@.content).len(),
    {
        let mut content = String::new();
        content.push_str("embedding:");
        content.push_str(self.model.as_str());
        proof {
            assert(content@ =~= "embedding:"@ + self.model@);
        }
        let usage = build_usage(prompt, content.as_str());
        let r = LLMResponse {
            content,
            usage,
            tool_calls: Vec::new(),
            metadata: self.metadata(),
        };
        proof {
            assert(r@.tool_calls =~= Seq::<ToolCallInfoV>::empty());
        }
        r
    }

    pub fn tokens(&self, prompt: &str) -> (r: Vec<String>)
        ensures
            strs_view(r@) == split_blanks("embedding "@ + prompt@),
    {
        let mut content = String::new();
        content.push_str("embedding ");
        content.push_str(prompt);
        proof {
            assert(content@ =~= "embedding "@ + prompt@);
        }
        tokenize(content.as_str())
    }
}

impl LLMModel for EmbeddingModel {
    fn generate(&self, prompt: &str) -> LLMResponse {
        self.complete(prompt)
    }

    fn stream(&self, prompt: &str) -> Vec<String> {
        self.tokens(prompt)
    }

    fn supports_tools(&self) -> bool {
        false
    }
}

/// The simplest model: echoes its prompt. Its prompt count is the
/// prompt's byte length, and its completion count a constant.
#[derive(Debug)]
pub struct StubModel;

impl StubModel {
    pub fn complete(&self, prompt: &str) -> (r: LLMResponse)
        ensures
            r@.content == "echo: "@ + prompt@,
            r@.usage.prompt_tokens == prompt.spec_bytes().len() as usize,
            r@.usage.completion_tokens == 2,
            r@.tool_calls.len() == 0,
            r@.metadata.provider == "stub"@,
            r@.metadata.model == "stub"@,
    {
        let mut content = String::new();
        content.push_str("echo: ");
        content.push_str(prompt);
        proof {
            assert(content@ =~= "echo: "@ + prompt@);
        }
        let r = LLMResponse {
            content,
            usage: UsageMetrics { prompt_tokens: prompt.len(), completion_tokens: 2 },
            tool_calls: Vec::new(),
            metadata: ModelMetadata {
                provider: "stub".to_owned(),
                model: "stub".to_owned(),
                supports_tools: false,
                is_reasoning: false,
            },
        };
        proof {
            assert(r@.tool_calls =~= Seq::<ToolCallInfoV>::empty());
        }
        r
    }

    pub fn tokens(&self, prompt: &str) -> (r: Vec<String>)
        ensures
            r@.len() == 2,
            r@[0]@ == "echo"@,
            r@[1]@ == prompt@,
    {
        let mut out: Vec<String> = Vec::new();
        out.push("echo".to_owned());
        out.push(prompt.to_owned());
        out
    }
}

impl LLMModel for StubModel {
    fn generate(&self, prompt: &str) -> LLMResponse {
        self.complete(prompt)
    }

    fn stream(&self, prompt: &str) -> Vec<String> {
        self.tokens(prompt)
    }

    fn supports_tools(&self) -> bool {
        false
    }
}

/// A model that sometimes proposes a tool call, on a one-in-five draw.
#[derive(Debug)]
pub struct RandomReasoner;

impl RandomReasoner {
    /// Whatever the draw, the content echoes the prompt under its tag,
    /// and any proposed call is the single stock math call.
    pub fn complete(&self, prompt: &str) -> (r: LLMResponse)
        ensures
            r@.content == "reasoned: "@ + prompt@,
            r@.usage.prompt_tokens == prompt.spec_bytes().len() as usize,
            r@.usage.completion_tokens == 3,
            r@.tool_calls.len() == 0 || r@.tool_calls == seq![
                ToolCallInfoV {
                    name: "math"@,
                    arguments: JsonV::Obj(seq![("expression"@, JsonV::Str("1+1"@))]),
                },
            ],
            r@.metadata.provider == "random"@,
            r@.metadata.model == "reasoner"@,
            r@.metadata.supports_tools,
            r@.metadata.is_reasoning,
    {
        let roll = crate::executor::draw_u64(4);
        let mut tool_calls: Vec<ToolCallInfo> = Vec::new();
        if roll == 0 {
            tool_calls.push(
                ToolCallInfo {
                    name: "math".to_owned(),
                    arguments: JsonValue::obj1("expression", JsonValue::text("1+1")),
                },
            );
        }
        let mut content = String::new();
        content.push_str("reasoned: ");
        content.push_str(prompt);
        proof {
            assert(content@ =~= "reasoned: "@ + prompt@);
        }
        let r = LLMResponse {
            content,
            usage: UsageMetrics { prompt_tokens: prompt.len(), completion_tokens: 3 },
            tool_calls,
            metadata: ModelMetadata {
                provider: "random".to_owned(),
                model: "reasoner".to_owned(),
                supports_tools: true,
                is_reasoning: true,
            },
        };
        proof {
            if roll == 0 {
                assert(r@.tool_calls =~~= seq![
                    ToolCallInfoV {
                        name: "math"@,
                        arguments: JsonV::Obj(seq![("expression"@, JsonV::Str("1+1"@))]),
                    },
                ]);
            } else {
                assert(r@.tool_calls.len() == 0);
            }
        }
        r
    }

    pub fn tokens(&self, prompt: &str) -> (r: Vec<String>)
        ensures
            r@.len() == 2,
            r@[0]@ == "reasoned"@,
            r@[1]@ == prompt@,
    {
        let mut out: Vec<String> = Vec::new();
        out.push("reasoned".to_owned());
        out.push(prompt.to_owned());
        out
    }
}

impl LLMModel for RandomReasoner {
    fn generate(&self, prompt: &str) -> LLMResponse {
        self.complete(prompt)
    }

    fn stream(&self, prompt: &str) -> Vec<String> {
        self.tokens(prompt)
    }

    fn supports_tools(&self) -> bool {
        true
    }
}

} // verus!
