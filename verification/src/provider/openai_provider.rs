//! The OpenAI-compatible provider: its configuration, the endpoint it posts
//! to and how a decoded API response becomes an [`LLMResponse`].

use std::collections::HashMap;

use vstd::prelude::*;

use crate::provider::llm_provider::{LLMResponse, ToolCallRequest};
use crate::text::{chars_of, push_str, spec_decimal, spec_trim_end_char, string_of, trim_end_char};

verus! {

/// A function call as the API reports it; `arguments` is JSON text.
pub struct ApiFunction {
    pub name: String,
    pub arguments: String,
}

pub struct ApiToolCall {
    pub id: String,
    pub function: ApiFunction,
}

pub struct ApiMessage {
    pub content: Option<String>,
    pub tool_calls: Vec<ApiToolCall>,
}

pub struct ApiChoice {
    pub message: ApiMessage,
    pub finish_reason: Option<String>,
}

pub struct ApiUsage {
    pub prompt_tokens: u32,
    pub completion_tokens: u32,
    pub total_tokens: u32,
}

/// A decoded chat completion response.
pub struct ApiResponse {
    pub choice: Vec<ApiChoice>,
    pub usage: Option<ApiUsage>,
}

/// What `serde_json::from_str` reads from `text` as a JSON object: its
/// members by name, or `None` where `text` is not one.
pub uninterp spec fn spec_json_object(text: Seq<char>) -> Option<Map<String, serde_json::Value>>;

/// `text` parses as a JSON object.
pub open spec fn spec_json_object_parses(text: Seq<char>) -> bool {
    spec_json_object(text) is Some
}

/// Calls `serde_json::from_str` to read `text` as a JSON object. The map it
/// gives back is the named result for `text`, member for member; the
/// members' values stay opaque `serde_json::Value`s.
#[verifier::external_body]
fn parse_json_object(text: &str) -> (res: Option<HashMap<String, serde_json::Value>>)
    ensures
        res is Some <==> spec_json_object(text@) is Some,
        res matches Some(m) ==> spec_json_object(text@) == Some(m@),
{
    serde_json::from_str(text).ok()
}

/// The reason phrase of an HTTP status code as `reqwest::StatusCode`
/// displays it: its canonical reason, or `<unknown status code>`.
pub uninterp spec fn spec_status_reason(status: u16) -> Seq<char>;

/// Calls `reqwest::StatusCode::from_u16` and displays the status code: the
/// number in decimal, a space and the reason phrase. `from_u16` refuses a
/// number outside 100..=999, and then the result is `None`.
#[verifier::external_body]
fn status_text(status: u16) -> (res: Option<String>)
    ensures
        res is Some <==> 100 <= status <= 999,
        res matches Some(t) ==> t@ == spec_decimal(status as nat) + seq![' '] + spec_status_reason(
            status,
        ),
{
    match reqwest::StatusCode::from_u16(status) {
        Ok(code) => Some(code.to_string()),
        Err(_) => None,
    }
}

/// The OpenAI-compatible provider's configuration.
pub struct OpenAIProvider {
    pub api_key: String,
    pub api_base: String,
    pub default_model: String,
}

/// The usage entries a response reports: the three token counts, or none.
pub open spec fn usage_entries(usage: Option<ApiUsage>) -> Seq<(Seq<char>, u32)> {
    match usage {
        Some(u) => seq![
            ("prompt_tokens"@, u.prompt_tokens),
            ("completion_tokens"@, u.completion_tokens),
            ("total_tokens"@, u.total_tokens),
        ],
        None => Seq::empty(),
    }
}

impl OpenAIProvider {
    /// A provider for `api_key`; the base URL defaults to
    /// `https://api.openai.com` and the model to `gpt-4o`.
    pub fn new(api_key: String, api_base: Option<String>, default_model: Option<String>) -> (res:
        Self)
        ensures
            res.api_key == api_key,
            res.api_base@ == match api_base {
                Some(b) => b@,
                None => "https://api.openai.com"@,
            },
            res.default_model@ == match default_model {
                Some(m) => m@,
                None => "gpt-4o"@,
            },
    {
        OpenAIProvider {
            api_key,
            api_base: match api_base {
                Some(b) => b,
                None => String::from_str("https://api.openai.com"),
            },
            default_model: match default_model {
                Some(m) => m,
                None => String::from_str("gpt-4o"),
            },
        }
    }

    pub fn get_default_model(&self) -> (res: String)
        ensures
            res@ == self.default_model@,
    {
        self.default_model.clone()
    }

    /// The model a request uses: the requested one, else the default.
    pub fn model_for(&self, requested: Option<String>) -> (res: String)
        ensures
            res@ == match requested {
                Some(m) => m@,
                None => self.default_model@,
            },
    {
        match requested {
            Some(m) => m,
            None => self.default_model.clone(),
        }
    }

    /// The chat completions endpoint: the base URL without trailing slashes,
    /// then `/v1/chat/completions`.
    pub fn completions_url(&self) -> (res: String)
        ensures
            res@ == spec_trim_end_char(self.api_base@, '/') + "/v1/chat/completions"@,
    {
        proof {
            reveal_strlit("/v1/chat/completions");
        }
        let mut out = trim_end_char(&chars_of(self.api_base.as_str()), '/');
        push_str(&mut out, "/v1/chat/completions");
        string_of(&out)
    }
}

impl OpenAIProvider {
    /// The API took the request: the status is a success, 200 to 299 (as
    /// `reqwest::StatusCode::is_success` has it).
    pub fn status_ok(status: u16) -> (res: bool)
        ensures
            res == (200 <= status && status < 300),
    {
        200 <= status && status < 300
    }

    /// The error a chat request ends in for a displayed status and the
    /// reply's body: `API error <status>: <body>`.
    pub fn api_error_message(status_text: &str, body: &str) -> (res: String)
        ensures
            res@ == "API error "@ + status_text@ + ": "@ + body@,
    {
        let mut out: Vec<char> = Vec::new();
        push_str(&mut out, "API error ");
        push_str(&mut out, status_text);
        push_str(&mut out, ": ");
        push_str(&mut out, body);
        string_of(&out)
    }

    /// The error a chat request ends in when the API answers `status` with
    /// `body`; `None` for a number that is no status code (outside
    /// 100..=999).
    pub fn api_error(status: u16, body: &str) -> (res: Option<String>)
        ensures
            res is Some <==> 100 <= status <= 999,
            res matches Some(m) ==> m@ == "API error "@ + spec_decimal(status as nat) + seq![' ']
                + spec_status_reason(status) + ": "@ + body@,
    {
        match status_text(status) {
            Some(t) => Some(Self::api_error_message(t.as_str(), body)),
            None => None,
        }
    }
}

/// The tool call at `i` of `calls` is the first whose arguments do not parse.
pub open spec fn first_bad_call(calls: Seq<ApiToolCall>, i: int) -> bool {
    &&& 0 <= i < calls.len()
    &&& !spec_json_object_parses(calls[i].function.arguments@)
    &&& forall|j: int| 0 <= j < i ==> spec_json_object_parses(#[trigger] calls[j].function.arguments@)
}

/// The error text for tool call arguments that do not parse.
pub open spec fn bad_arguments_message(call: ApiToolCall) -> Seq<char> {
    "failed to parse tool argument for '"@ + call.function.name@ + "': "@ + call.function.arguments@
}

/// Every tool call's arguments parse.
pub open spec fn all_args_parse(calls: Seq<ApiToolCall>) -> bool {
    forall|i: int| 0 <= i < calls.len() ==> spec_json_object_parses(#[trigger] calls[i].function.arguments@)
}

/// `r` is what the first choice of `resp` makes.
pub open spec fn response_from(resp: ApiResponse, r: LLMResponse) -> bool {
    &&& r.spec_content() == resp.choice@[0].message.content
    &&& r.spec_tool_call().len() == resp.choice@[0].message.tool_calls@.len()
    &&& forall|i: int|
        0 <= i < r.spec_tool_call().len() ==> (#[trigger] r.spec_tool_call()[i]).spec_id()
            == resp.choice@[0].message.tool_calls@[i].id@ && r.spec_tool_call()[i].spec_name()
            == resp.choice@[0].message.tool_calls@[i].function.name@
            && spec_json_object(resp.choice@[0].message.tool_calls@[i].function.arguments@)
            == Some(r.spec_tool_call()[i].spec_args()@)
    &&& r.spec_finish_reason() == match resp.choice@[0].finish_reason {
        Some(f) => f@,
        None => "stop"@,
    }
    &&& r.spec_usage().map_values(|e: (String, u32)| (e.0@, e.1)) == usage_entries(resp.usage)
}

impl OpenAIProvider {
    /// Turns a decoded API response into an [`LLMResponse`]: the first
    /// choice's message, its tool calls with parsed arguments, its finish
    /// reason (`stop` by default) and the token usage.
    pub fn parse_response(&self, resp: ApiResponse) -> (res: Result<LLMResponse, String>)
        ensures
            resp.choice@.len() == 0 ==> (res matches Err(m) && m@ == "empty choice in API response"@),
            resp.choice@.len() > 0 ==> (all_args_parse(resp.choice@[0].message.tool_calls@) <==> res is Ok),
            resp.choice@.len() > 0 ==> (res matches Err(m) ==> exists|i: int|
                #[trigger] first_bad_call(resp.choice@[0].message.tool_calls@, i) && m@
                    == bad_arguments_message(resp.choice@[0].message.tool_calls@[i])),
            resp.choice@.len() > 0 ==> (res matches Ok(r) ==> response_from(resp, r)),
    {
        proof {
            reveal_strlit("empty choice in API response");
            reveal_strlit("failed to parse tool argument for '");
            reveal_strlit("': ");
            reveal_strlit("stop");
            reveal_strlit("prompt_tokens");
            reveal_strlit("completion_tokens");
            reveal_strlit("total_tokens");
        }
        let ghost orig = resp.choice@;
        let ApiResponse { choice, usage } = resp;
        let mut choice = choice;
        if choice.len() == 0 {
            return Err(String::from_str("empty choice in API response"));
        }
        let first = choice.swap_remove(0);
        assert(first == orig[0]);
        let ApiChoice { message, finish_reason } = first;
        let ApiMessage { content, tool_calls } = message;
        let mut calls: Vec<ToolCallRequest> = Vec::new();
        let mut i: usize = 0;
        while i < tool_calls.len()
            invariant
                i <= tool_calls@.len(),
                orig.len() > 0,
                resp.choice@ == orig,
                tool_calls@ == orig[0].message.tool_calls@,
                calls@.len() == i,
                forall|j: int| 0 <= j < i ==> spec_json_object_parses(
                    #[trigger] tool_calls@[j].function.arguments@,
                ),
                forall|j: int|
                    0 <= j < i ==> (#[trigger] calls@[j]).spec_id() == tool_calls@[j].id@
                        && calls@[j].spec_name() == tool_calls@[j].function.name@
                        && spec_json_object(tool_calls@[j].function.arguments@) == Some(
                        calls@[j].spec_args()@,
                    ),
            decreases tool_calls@.len() - i,
        {
            let tc = &tool_calls[i];
            match parse_json_object(tc.function.arguments.as_str()) {
                Some(args) => {
                    calls.push(
                        ToolCallRequest::new(tc.id.clone(), tc.function.name.clone(), args),
                    );
                },
                None => {
                    let mut m: Vec<char> = Vec::new();
                    push_str(&mut m, "failed to parse tool argument for '");
                    push_str(&mut m, tc.function.name.as_str());
                    push_str(&mut m, "': ");
                    push_str(&mut m, tc.function.arguments.as_str());
                    assert(first_bad_call(tool_calls@, i as int));
                    return Err(string_of(&m));
                },
            }
            i = i + 1;
        }
        let mut entries: Vec<(String, u32)> = Vec::new();
        if let Some(u) = &usage {
            entries.push((String::from_str("prompt_tokens"), u.prompt_tokens));
            entries.push((String::from_str("completion_tokens"), u.completion_tokens));
            entries.push((String::from_str("total_tokens"), u.total_tokens));
        }
        assert(entries@.map_values(|e: (String, u32)| (e.0@, e.1)) =~= usage_entries(usage));
        let reason = match finish_reason {
            Some(f) => f,
            None => String::from_str("stop"),
        };
        Ok(LLMResponse::new(content, calls, reason, entries))
    }
}

} // verus!
