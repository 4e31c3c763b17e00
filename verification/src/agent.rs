//! The agent: conversation state and the tool-calling loop.
//!
//! The loop alternates model calls and tool runs, both of which are outside
//! work. [`Agent`] holds the state and decides each next step; the caller
//! performs the step and hands back what came of it:
//!
//! 1. `chat` appends the user message and asks for a model call;
//! 2. `on_model_reply` takes the model's reply: tool calls are run one at a
//!    time (`AgentStep::RunTool`), a text reply ends the turn;
//! 3. `on_tool_result` records a tool's result and moves on;
//! 4. after `tool_max_iterations` model calls the turn fails.

pub mod config;
pub mod message_window;
pub mod tools;

use vstd::prelude::*;

use crate::agent::config::AgentConfig;
use crate::agent::message_window::{
    law_prune_keeps_history_shape, opens_with_user, results_paired, spec_prune, spec_system_len,
    ChatMessage, MessageWindow, ToolCall,
};
use crate::agent::tools::ToolError;

verus! {

/// Errors that can occur during agent execution.
#[derive(Debug, Clone, PartialEq, Eq)]
pub enum AgentError {
    /// Model API call failed
    Api(String),
    /// Tool execution failed
    Tool(String),
    /// Tool-call loop exceeded max iterations
    MaxIterations,
}

/// One tool call of a model reply.
#[derive(Debug, Clone, PartialEq, Eq)]
pub enum ToolRequest {
    /// A function call, which the registry can run.
    Function(ToolCall),
    /// A custom tool call (carries the tool's name), which is not supported.
    Custom(String),
}

/// The message of the first choice of a model reply.
#[derive(Debug, Clone, PartialEq, Eq)]
pub struct ModelReply {
    pub content: Option<String>,
    pub tool_calls: Option<Vec<ToolRequest>>,
}

/// What the caller has to do next.
#[derive(Debug, PartialEq, Eq)]
pub enum AgentStep {
    /// Send `Agent::messages` (with the registry's tools) to the model.
    CallModel,
    /// Run this tool call and hand its result to `Agent::on_tool_result`.
    RunTool(ToolCall),
    /// The turn is over.
    Done(Result<String, AgentError>),
}

/// Where the agent is within a turn.
pub enum Phase {
    Idle,
    AwaitingModel,
    /// Running the tool calls of a reply; `next` is the one being run.
    RunningTools { calls: Vec<ToolRequest>, next: usize },
}

/// The agent's state as the contracts see it.
pub struct AgentState {
    pub config: AgentConfig,
    pub history: Seq<ChatMessage>,
    /// Model calls made in the current turn, the pending one included.
    pub iteration: nat,
    /// The tool calls being run and the index of the one being run.
    pub pending: Option<(Seq<ToolRequest>, nat)>,
    /// A model call has been asked for and its reply is outstanding.
    pub awaiting_model: bool,
}

/// A model reply is expected (and the iteration budget allows it).
pub open spec fn awaits_model(s: AgentState) -> bool {
    &&& s.awaiting_model
    &&& s.pending is None
    &&& s.iteration < s.config.tool_max_iterations
}

/// A tool result is expected: the pending call is a function call.
pub open spec fn awaits_tool(s: AgentState) -> bool {
    &&& !s.awaiting_model
    &&& s.pending matches Some((calls, next))
    &&& next < calls.len()
    &&& calls[next as int] is Function
    &&& s.iteration < s.config.tool_max_iterations
}

/// The main agent: conversation history plus the loop's position.
pub struct Agent {
    config: AgentConfig,
    messages: Vec<ChatMessage>,
    iteration: usize,
    phase: Phase,
}

impl View for Agent {
    type V = AgentState;

    closed spec fn view(&self) -> AgentState {
        AgentState {
            config: self.config,
            history: self.messages@,
            iteration: self.iteration as nat,
            pending: match self.phase {
                Phase::RunningTools { calls, next } => Some((calls@, next as nat)),
                _ => None,
            },
            awaiting_model: self.phase is AwaitingModel,
        }
    }
}

/// The text a tool's outcome is reported to the model as.
pub open spec fn tool_result_text(result: Result<String, ToolError>) -> Seq<char> {
    match result {
        Ok(r) => r@,
        Err(e) => "工具执行失败: "@ + e.spec_message(),
    }
}

/// `m` records the outcome `text` of `call`.
pub open spec fn is_tool_result_for(m: ChatMessage, call: ToolCall, text: Seq<char>) -> bool {
    m matches ChatMessage::Tool { tool_call_id, content } && tool_call_id == call.id && content@
        == text
}

/// The outcome of asking for the next model call: a call while the iteration
/// budget lasts (after pruning the history), else the turn fails.
pub open spec fn advanced(pre: AgentState, post: AgentState, step: AgentStep) -> bool {
    &&& post.config == pre.config
    &&& post.iteration == pre.iteration
    &&& post.pending is None
    &&& if pre.iteration < pre.config.tool_max_iterations {
        &&& post.history == spec_prune(pre.history, pre.config.max_messages as nat)
        &&& step == AgentStep::CallModel
        &&& post.awaiting_model
    } else {
        &&& post.history == pre.history
        &&& step == AgentStep::Done(Err(AgentError::MaxIterations))
        &&& !post.awaiting_model
    }
}

/// The outcome of moving to tool call `next` of `calls`: run it if it is a
/// function call, fail on a custom one, and after the last one start the next
/// iteration.
pub open spec fn tool_stepped(
    pre: AgentState,
    calls: Seq<ToolRequest>,
    next: nat,
    post: AgentState,
    step: AgentStep,
) -> bool {
    if next < calls.len() {
        match calls[next as int] {
            ToolRequest::Function(call) => {
                &&& post == AgentState { pending: Some((calls, next)), awaiting_model: false, ..pre }
                &&& step == AgentStep::RunTool(call)
            },
            ToolRequest::Custom(name) => {
                &&& post == AgentState { pending: None, awaiting_model: false, ..pre }
                &&& step matches AgentStep::Done(Err(AgentError::Tool(msg)))
                &&& msg@ == "Custom tool calls not supported: "@ + name@
            },
        }
    } else {
        advanced(
            AgentState { iteration: pre.iteration + 1, pending: None, awaiting_model: false, ..pre },
            post,
            step,
        )
    }
}

/// What sending `input` in state `pre` leads to: the user message is
/// appended, the turn's count starts at zero, then the next model call is
/// asked for (or the turn fails at once when the budget is zero).
pub open spec fn chat_started(pre: AgentState, input: Seq<char>, post: AgentState, step: AgentStep) -> bool {
    exists|mid: AgentState|
        {
            &&& mid.config == pre.config
            &&& mid.iteration == 0
            &&& mid.pending is None
            &&& !mid.awaiting_model
            &&& mid.history.len() == pre.history.len() + 1
            &&& mid.history.drop_last() == pre.history
            &&& mid.history.last() matches ChatMessage::User(u) && u@ == input
            &&& #[trigger] advanced(mid, post, step)
        }
}

/// What the model's `reply` in state `pre` leads to: an API error or a reply
/// without choice or content fails the turn, tool calls are run first, a
/// text reply is appended to the history and ends the turn.
pub open spec fn model_replied(
    pre: AgentState,
    reply: Result<Option<ModelReply>, String>,
    post: AgentState,
    step: AgentStep,
) -> bool {
    let idle = AgentState { awaiting_model: false, ..pre };
    match reply {
        Err(e) => post == idle && step == AgentStep::Done(Err(AgentError::Api(e))),
        Ok(None) => post == idle && (step matches AgentStep::Done(Err(AgentError::Api(m))) && m@
            == "No choice in response"@),
        Ok(Some(r)) => match r.tool_calls {
            Some(calls) => tool_stepped(idle, calls@, 0, post, step),
            None => match r.content {
                Some(c) => {
                    &&& post == AgentState {
                        history: pre.history.push(ChatMessage::Assistant(c)),
                        ..idle
                    }
                    &&& step == AgentStep::Done(Ok(c))
                },
                None => post == idle && (step matches AgentStep::Done(Err(AgentError::Api(m)))
                    && m@ == "Empty response"@),
            },
        },
    }
}

/// What the `result` of the pending tool call in state `pre` leads to: an
/// assistant message with that single call and the result are appended,
/// then the next call of the reply is moved to.
pub open spec fn tool_result_recorded(
    pre: AgentState,
    result: Result<String, ToolError>,
    post: AgentState,
    step: AgentStep,
) -> bool {
    let (calls, next) = pre.pending.unwrap();
    let call = calls[next as int]->Function_0;
    let n = pre.history.len();
    exists|mid: AgentState|
        {
            &&& mid.config == pre.config
            &&& mid.iteration == pre.iteration
            &&& mid.pending is None
            &&& !mid.awaiting_model
            &&& mid.history.len() == n + 2
            &&& mid.history.subrange(0, n as int) == pre.history
            &&& mid.history[n as int] matches ChatMessage::AssistantToolCalls(v) && v@ == seq![call]
            &&& is_tool_result_for(mid.history[n + 1int], call, tool_result_text(result))
            &&& #[trigger] tool_stepped(mid, calls, next + 1, post, step)
        }
}

impl Agent {
    /// Create a new agent with the given config and an empty history.
    pub fn new(config: AgentConfig) -> (res: Self)
        ensures
            res@.config == config,
            res@.history == Seq::<ChatMessage>::empty(),
            res@.iteration == 0,
            res@.pending is None,
            !res@.awaiting_model,
    {
        Agent { config, messages: Vec::new(), iteration: 0, phase: Phase::Idle }
    }

    /// Add a system prompt to the conversation.
    pub fn with_system_prompt(self, prompt: &str) -> (res: Self)
        ensures
            res@.config == self@.config,
            res@.iteration == self@.iteration,
            res@.pending == self@.pending,
            res@.awaiting_model == self@.awaiting_model,
            res@.history.len() == self@.history.len() + 1,
            res@.history.drop_last() == self@.history,
            res@.history.last() matches ChatMessage::System(p) && p@ == prompt@,
    {
        let mut agent = self;
        agent.messages.push(ChatMessage::System(prompt.to_string()));
        agent
    }
}

impl Agent {
    /// The conversation history, to be sent to the model.
    pub fn messages(&self) -> (res: &Vec<ChatMessage>)
        ensures
            res@ == self@.history,
    {
        &self.messages
    }

    /// The configuration the agent runs with.
    pub fn config(&self) -> (res: AgentConfig)
        ensures
            res == self@.config,
    {
        self.config
    }

    /// Whether a tool result is expected (`on_tool_result` may be called).
    pub fn awaiting_tool(&self) -> (res: bool)
        ensures
            res == awaits_tool(self@),
    {
        match &self.phase {
            Phase::RunningTools { calls, next } => *next < calls.len() && matches!(
                calls[*next],
                ToolRequest::Function(_)
            ) && self.iteration < self.config.tool_max_iterations,
            _ => false,
        }
    }

    /// Whether a model reply is expected (`on_model_reply` may be called).
    pub fn awaiting_model(&self) -> (res: bool)
        ensures
            res == awaits_model(self@),
    {
        matches!(self.phase, Phase::AwaitingModel) && self.iteration
            < self.config.tool_max_iterations
    }

    /// Asks for the next model call while the iteration budget lasts.
    fn advance(&mut self) -> (step: AgentStep)
        ensures
            advanced(old(self)@, final(self)@, step),
    {
        if self.iteration < self.config.tool_max_iterations {
            MessageWindow::prune(&mut self.messages, self.config.max_messages);
            self.phase = Phase::AwaitingModel;
            AgentStep::CallModel
        } else {
            self.phase = Phase::Idle;
            AgentStep::Done(Err(AgentError::MaxIterations))
        }
    }

    /// Moves to tool call `next` of `calls`.
    fn step_tools(&mut self, calls: Vec<ToolRequest>, next: usize) -> (step: AgentStep)
        requires
            next <= calls@.len(),
            old(self)@.iteration < old(self)@.config.tool_max_iterations,
        ensures
            tool_stepped(old(self)@, calls@, next as nat, final(self)@, step),
    {
        if next < calls.len() {
            match &calls[next] {
                ToolRequest::Function(call) => {
                    let call = call.duplicate();
                    self.phase = Phase::RunningTools { calls, next };
                    AgentStep::RunTool(call)
                },
                ToolRequest::Custom(name) => {
                    let mut msg = String::from_str("Custom tool calls not supported: ");
                    msg.append(name.as_str());
                    self.phase = Phase::Idle;
                    AgentStep::Done(Err(AgentError::Tool(msg)))
                },
            }
        } else {
            self.iteration = self.iteration + 1;
            self.phase = Phase::Idle;
            self.advance()
        }
    }

    /// Send a user message: appends it to the history and starts the
    /// tool-calling loop.
    pub fn chat(&mut self, input: &str) -> (step: AgentStep)
        ensures
            chat_started(old(self)@, input@, final(self)@, step),
    {
        self.messages.push(ChatMessage::User(input.to_string()));
        self.iteration = 0;
        self.phase = Phase::Idle;
        let ghost mid = self@;
        assert(mid.history.drop_last() =~= old(self)@.history);
        let step = self.advance();
        assert(advanced(mid, self@, step));
        assert(chat_started(old(self)@, input@, self@, step));
        step
    }
}

impl Agent {
    /// Takes the model's reply to the pending call: `Err` carries the API
    /// error, `Ok(None)` a reply without choices, `Ok(Some(m))` the message of
    /// the first choice. Tool calls are run before anything else; a text reply
    /// is appended to the history and ends the turn.
    pub fn on_model_reply(&mut self, reply: Result<Option<ModelReply>, String>) -> (step: AgentStep)
        requires
            awaits_model(old(self)@),
        ensures
            model_replied(old(self)@, reply, final(self)@, step),
    {
        self.phase = Phase::Idle;
        match reply {
            Err(e) => AgentStep::Done(Err(AgentError::Api(e))),
            Ok(None) => AgentStep::Done(
                Err(AgentError::Api(String::from_str("No choice in response"))),
            ),
            Ok(Some(r)) => match r.tool_calls {
                Some(calls) => self.step_tools(calls, 0),
                None => match r.content {
                    Some(c) => {
                        self.messages.push(ChatMessage::Assistant(c.clone()));
                        AgentStep::Done(Ok(c))
                    },
                    None => AgentStep::Done(Err(AgentError::Api(String::from_str("Empty response")))),
                },
            },
        }
    }

    /// Records the result of the pending tool call (an assistant message with
    /// that single call, then the tool's result) and moves to the next call.
    pub fn on_tool_result(&mut self, result: Result<String, ToolError>) -> (step: AgentStep)
        requires
            awaits_tool(old(self)@),
        ensures
            tool_result_recorded(old(self)@, result, final(self)@, step),
    {
        let ghost pre = self@;
        let mut phase = Phase::Idle;
        std::mem::swap(&mut phase, &mut self.phase);
        match phase {
            Phase::RunningTools { calls, next } => {
                assert(pre.pending == Some((calls@, next as nat)));
                assert(next < calls@.len());
                let ncalls = calls.len();
                assert(next + 1 <= ncalls);
                let call = match &calls[next] {
                    ToolRequest::Function(c) => c.duplicate(),
                    ToolRequest::Custom(_) => {
                        assert(false);
                        return AgentStep::CallModel;
                    },
                };
                let text = match &result {
                    Ok(r) => r.clone(),
                    Err(e) => {
                        let mut t = String::from_str("工具执行失败: ");
                        let m = e.message();
                        t.append(m.as_str());
                        t
                    },
                };
                let id = call.id.clone();
                let mut one = Vec::new();
                one.push(call);
                self.messages.push(ChatMessage::AssistantToolCalls(one));
                self.messages.push(ChatMessage::Tool { tool_call_id: id, content: text });
                let ghost mid = self@;
                assert(mid.history.subrange(0, pre.history.len() as int) == pre.history);
                let step = self.step_tools(calls, next + 1);
                assert(tool_stepped(mid, pre.pending.unwrap().0, pre.pending.unwrap().1 + 1, self@, step));
                step
            },
            _ => {
                assert(false);
                AgentStep::CallModel
            },
        }
    }
}

/// Every model call the agent asks for stays within the iteration budget, is
/// made on the pruned history, and leaves the agent expecting the reply.
pub proof fn law_model_call_within_budget(pre: AgentState, post: AgentState)
    requires
        advanced(pre, post, AgentStep::CallModel),
    ensures
        post.iteration < post.config.tool_max_iterations,
        post.history == spec_prune(pre.history, pre.config.max_messages as nat),
        awaits_model(post),
{
}

/// Moving through a reply's tool calls either asks for a function call (and
/// then expects its result), or ends the turn, or, after the last call, counts
/// one more iteration before the next model call.
pub proof fn law_tool_steps(
    pre: AgentState,
    calls: Seq<ToolRequest>,
    next: nat,
    post: AgentState,
    step: AgentStep,
)
    requires
        tool_stepped(pre, calls, next, post, step),
        pre.iteration < pre.config.tool_max_iterations,
        next <= calls.len(),
    ensures
        step matches AgentStep::RunTool(call) ==> awaits_tool(post) && post.pending == Some((
            calls,
            next,
        )) && calls[next as int] == ToolRequest::Function(call),
        step == AgentStep::CallModel ==> post.iteration == pre.iteration + 1 && awaits_model(post),
        step is CallModel || step is RunTool || step is Done,
{
}

/// A history the agent can work on: every tool result follows the call it
/// answers, and a user turn comes first after the system message.
pub open spec fn history_ok(h: Seq<ChatMessage>) -> bool {
    results_paired(h) && opens_with_user(h)
}

/// A history within a turn: well formed, with a conversation beyond the
/// system message.
pub open spec fn turn_history_ok(h: Seq<ChatMessage>) -> bool {
    history_ok(h) && h.len() > spec_system_len(h)
}

proof fn lemma_advanced_keeps_shape(pre: AgentState, post: AgentState, step: AgentStep)
    requires
        turn_history_ok(pre.history),
        advanced(pre, post, step),
    ensures
        turn_history_ok(post.history),
{
    law_prune_keeps_history_shape(pre.history, pre.config.max_messages as nat);
}

proof fn lemma_tool_stepped_keeps_shape(
    pre: AgentState,
    calls: Seq<ToolRequest>,
    next: nat,
    post: AgentState,
    step: AgentStep,
)
    requires
        turn_history_ok(pre.history),
        tool_stepped(pre, calls, next, post, step),
    ensures
        turn_history_ok(post.history),
{
    if next >= calls.len() {
        lemma_advanced_keeps_shape(
            AgentState { iteration: pre.iteration + 1, pending: None, awaiting_model: false, ..pre },
            post,
            step,
        );
    }
}

/// A new agent's history, empty or holding one system prompt, is well formed.
pub proof fn law_new_history_is_well_formed(prompt: ChatMessage)
    requires
        prompt is System,
    ensures
        history_ok(Seq::<ChatMessage>::empty()),
        history_ok(seq![prompt]),
{
}

/// Sending a message to an agent with a well-formed history starts a turn
/// on a well-formed history.
pub proof fn law_chat_keeps_history_shape(
    pre: AgentState,
    input: Seq<char>,
    post: AgentState,
    step: AgentStep,
)
    requires
        history_ok(pre.history),
        chat_started(pre, input, post, step),
    ensures
        turn_history_ok(post.history),
{
    let mid = choose|mid: AgentState|
        {
            &&& mid.config == pre.config
            &&& mid.iteration == 0
            &&& mid.pending is None
            &&& !mid.awaiting_model
            &&& mid.history.len() == pre.history.len() + 1
            &&& mid.history.drop_last() == pre.history
            &&& mid.history.last() matches ChatMessage::User(u) && u@ == input
            &&& #[trigger] advanced(mid, post, step)
        };
    let h = mid.history;
    let n = pre.history.len();
    assert forall|i: int| 0 <= i < n implies h[i] == pre.history[i] by {
        assert(h.drop_last()[i] == h[i]);
    }
    if n > 0 {
        assert(h[0] == pre.history[0]);
    }
    assert(spec_system_len(h) == spec_system_len(pre.history) || n == 0);
    assert(results_paired(h)) by {
        assert forall|i: int| 0 <= i < h.len() && (#[trigger] h[i]) is Tool implies i > 0
            && crate::agent::message_window::pairs_with(h[i - 1], h[i]) by {
            assert(i < n);
            assert(pre.history[i] is Tool);
        }
    }
    lemma_advanced_keeps_shape(mid, post, step);
}

/// Whatever the model replies, a turn on a well-formed history goes on (or
/// ends) on a well-formed history.
pub proof fn law_model_reply_keeps_history_shape(
    pre: AgentState,
    reply: Result<Option<ModelReply>, String>,
    post: AgentState,
    step: AgentStep,
)
    requires
        turn_history_ok(pre.history),
        model_replied(pre, reply, post, step),
    ensures
        turn_history_ok(post.history),
{
    let idle = AgentState { awaiting_model: false, ..pre };
    match reply {
        Ok(Some(r)) => match r.tool_calls {
            Some(calls) => lemma_tool_stepped_keeps_shape(idle, calls@, 0, post, step),
            None => match r.content {
                Some(c) => {
                    let h = post.history;
                    let n = pre.history.len();
                    assert(h[0] == pre.history[0]);
                    assert(h[spec_system_len(pre.history)] == pre.history[spec_system_len(pre.history)]);
                    assert forall|i: int| 0 <= i < h.len() && (#[trigger] h[i]) is Tool implies i > 0
                        && crate::agent::message_window::pairs_with(h[i - 1], h[i]) by {
                        assert(i < n);
                        assert(h[i] == pre.history[i]);
                        assert(pre.history[i] is Tool);
                        assert(h[i - 1] == pre.history[i - 1]);
                    }
                },
                None => {},
            },
        },
        _ => {},
    }
}

/// Recording a tool's result on a well-formed history keeps it well formed:
/// the result directly follows the assistant turn with its call.
pub proof fn law_tool_result_keeps_history_shape(
    pre: AgentState,
    result: Result<String, ToolError>,
    post: AgentState,
    step: AgentStep,
)
    requires
        turn_history_ok(pre.history),
        awaits_tool(pre),
        tool_result_recorded(pre, result, post, step),
    ensures
        turn_history_ok(post.history),
{
    let (calls, next) = pre.pending.unwrap();
    let call = calls[next as int]->Function_0;
    let n = pre.history.len();
    let mid = choose|mid: AgentState|
        {
            &&& mid.config == pre.config
            &&& mid.iteration == pre.iteration
            &&& mid.pending is None
            &&& !mid.awaiting_model
            &&& mid.history.len() == n + 2
            &&& mid.history.subrange(0, n as int) == pre.history
            &&& mid.history[n as int] matches ChatMessage::AssistantToolCalls(v) && v@ == seq![call]
            &&& is_tool_result_for(mid.history[n + 1int], call, tool_result_text(result))
            &&& #[trigger] tool_stepped(mid, calls, next + 1, post, step)
        };
    let h = mid.history;
    assert forall|i: int| 0 <= i < n implies h[i] == pre.history[i] by {
        assert(h.subrange(0, n as int)[i] == h[i]);
    }
    assert(h[0] == pre.history[0]);
    assert(h[spec_system_len(pre.history)] == pre.history[spec_system_len(pre.history)]);
    assert forall|i: int| 0 <= i < h.len() && (#[trigger] h[i]) is Tool implies i > 0
        && crate::agent::message_window::pairs_with(h[i - 1], h[i]) by {
        if i < n {
            assert(pre.history[i] is Tool);
            assert(h[i - 1] == pre.history[i - 1]);
        } else if i == n {
            assert(!(h[i] is Tool));
        } else {
            assert(i == n + 1);
        }
    }
    lemma_tool_stepped_keeps_shape(mid, calls, next + 1, post, step);
}

} // verus!
