//! The provider-independent response of a model.

use std::collections::HashMap;

use vstd::prelude::*;

verus! {

/// A JSON value (`serde_json::Value`), carried through unread.
#[verifier::external_type_specification]
#[verifier::external_body]
pub struct ExJsonValue(serde_json::Value);

/// A tool call request from the LLM
pub struct ToolCallRequest {
    id: String,
    name: String,
    args: HashMap<String, serde_json::Value>,
}

impl ToolCallRequest {
    pub closed spec fn spec_id(&self) -> Seq<char> {
        self.id@
    }

    pub closed spec fn spec_name(&self) -> Seq<char> {
        self.name@
    }

    pub closed spec fn spec_args(&self) -> HashMap<String, serde_json::Value> {
        self.args
    }

    pub fn new(id: String, name: String, args: HashMap<String, serde_json::Value>) -> (res: Self)
        ensures
            res.spec_id() == id@,
            res.spec_name() == name@,
            res.spec_args() == args,
    {
        ToolCallRequest { id, name, args }
    }

    pub fn id(&self) -> (res: &str)
        ensures
            res@ == self.spec_id(),
    {
        self.id.as_str()
    }

    pub fn name(&self) -> (res: &str)
        ensures
            res@ == self.spec_name(),
    {
        self.name.as_str()
    }

    pub fn args(&self) -> (res: &HashMap<String, serde_json::Value>)
        ensures
            *res == self.spec_args(),
    {
        &self.args
    }
}

/// Response from an LLM provider
pub struct LLMResponse {
    content: Option<String>,
    tool_call: Vec<ToolCallRequest>,
    finish_reason: String,
    /// Token counts by name, in the order they were reported.
    usage: Vec<(String, u32)>,
}

impl LLMResponse {
    pub closed spec fn spec_content(&self) -> Option<String> {
        self.content
    }

    pub closed spec fn spec_tool_call(&self) -> Seq<ToolCallRequest> {
        self.tool_call@
    }

    pub closed spec fn spec_finish_reason(&self) -> Seq<char> {
        self.finish_reason@
    }

    pub closed spec fn spec_usage(&self) -> Seq<(String, u32)> {
        self.usage@
    }

    pub fn new(
        content: Option<String>,
        tool_call: Vec<ToolCallRequest>,
        finish_reason: String,
        usage: Vec<(String, u32)>,
    ) -> (res: Self)
        ensures
            res.spec_content() == content,
            res.spec_tool_call() == tool_call@,
            res.spec_finish_reason() == finish_reason@,
            res.spec_usage() == usage@,
    {
        LLMResponse { content, tool_call, finish_reason, usage }
    }

    pub fn content(&self) -> (res: Option<&str>)
        ensures
            res.is_some() == self.spec_content().is_some(),
            res matches Some(c) ==> c@ == self.spec_content().unwrap()@,
    {
        match &self.content {
            Some(c) => Some(c.as_str()),
            None => None,
        }
    }

    pub fn tool_call(&self) -> (res: &Vec<ToolCallRequest>)
        ensures
            res@ == self.spec_tool_call(),
    {
        &self.tool_call
    }

    pub fn finish_reason(&self) -> (res: &str)
        ensures
            res@ == self.spec_finish_reason(),
    {
        self.finish_reason.as_str()
    }

    pub fn usage(&self) -> (res: &Vec<(String, u32)>)
        ensures
            res@ == self.spec_usage(),
    {
        &self.usage
    }

    pub fn has_tool_call(&self) -> (res: bool)
        ensures
            res == (self.spec_tool_call().len() > 0),
    {
        self.tool_call.len() > 0
    }
}

} // verus!
