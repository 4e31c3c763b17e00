use atombot::agent::config::AgentConfig;
use atombot::agent::message_window::{ChatMessage, MessageWindow, ToolCall};
use atombot::agent::tools::{IoErrorKind, ToolError};
use atombot::agent::{Agent, AgentError, AgentStep, ModelReply, ToolRequest};

fn sys(s: &str) -> ChatMessage {
    ChatMessage::System(s.to_string())
}
fn user(s: &str) -> ChatMessage {
    ChatMessage::User(s.to_string())
}
fn asst(s: &str) -> ChatMessage {
    ChatMessage::Assistant(s.to_string())
}
fn tool(id: &str, s: &str) -> ChatMessage {
    ChatMessage::Tool { tool_call_id: id.to_string(), content: s.to_string() }
}
fn call(id: &str, name: &str) -> ToolCall {
    ToolCall { id: id.to_string(), name: name.to_string(), arguments: "{}".to_string() }
}

#[test]
fn config_defaults_and_builders() {
    let c = AgentConfig::default();
    assert_eq!((c.tool_max_iterations, c.max_messages), (10, 40));
    let c = c.with_tool_max_iterations(3).with_max_messages(7);
    assert_eq!((c.tool_max_iterations, c.max_messages), (3, 7));
}

#[test]
fn prune_within_limit_keeps_everything() {
    let mut m = vec![sys("s"), user("u"), asst("a")];
    MessageWindow::prune(&mut m, 3);
    assert_eq!(m, vec![sys("s"), user("u"), asst("a")]);
}

#[test]
fn prune_cuts_at_the_nearest_user_turn() {
    let mut m = vec![
        sys("s"),
        user("u1"),
        asst("a1"),
        tool("t", "r"),
        user("u2"),
        asst("a2"),
        tool("t2", "r2"),
    ];
    MessageWindow::prune(&mut m, 3);
    assert_eq!(m, vec![sys("s"), user("u2"), asst("a2"), tool("t2", "r2")]);
}

#[test]
fn prune_search_includes_the_prune_start() {
    let mut m = vec![sys("sys"), user("u1"), asst("a1"), user("u2"), asst("a2")];
    MessageWindow::prune(&mut m, 3);
    assert_eq!(m, vec![sys("sys"), user("u2"), asst("a2")]);
}

#[test]
fn prune_keeps_history_when_the_only_user_turn_is_first() {
    let mut m = vec![sys("s"), user("u"), asst("a"), asst("b"), asst("c")];
    MessageWindow::prune(&mut m, 3);
    assert_eq!(m.len(), 5);
}

#[test]
fn prune_without_user_turn_keeps_everything() {
    let mut m = vec![sys("s"), asst("a"), tool("t", "x"), tool("t", "y")];
    MessageWindow::prune(&mut m, 2);
    assert_eq!(m, vec![sys("s"), asst("a"), tool("t", "x"), tool("t", "y")]);
}

#[test]
fn pruning_twice_removes_nothing_more() {
    let mut m = vec![sys("s"), user("u1"), asst("a1"), user("u2"), asst("a2"), asst("a3"), user("u3"), asst("a4")];
    MessageWindow::prune(&mut m, 4);
    let once = m.clone();
    MessageWindow::prune(&mut m, 4);
    assert_eq!(m, once);
}

#[test]
fn prune_without_system_message() {
    let mut m = vec![user("u"), asst("a"), user("v"), asst("b"), user("w")];
    MessageWindow::prune(&mut m, 2);
    assert_eq!(m, vec![user("v"), asst("b"), user("w")]);
}

#[test]
fn text_reply_ends_the_turn() {
    let mut agent = Agent::new(AgentConfig::default()).with_system_prompt("be nice");
    assert_eq!(agent.chat("hi"), AgentStep::CallModel);
    assert!(agent.awaiting_model());
    let step = agent.on_model_reply(Ok(Some(ModelReply { content: Some("hello".to_string()), tool_calls: None })));
    assert_eq!(step, AgentStep::Done(Ok("hello".to_string())));
    assert_eq!(agent.messages(), &vec![sys("be nice"), user("hi"), asst("hello")]);
    assert!(!agent.awaiting_model());
}

#[test]
fn tool_calls_are_recorded_one_by_one() {
    let mut agent = Agent::new(AgentConfig::default());
    agent.chat("read it");
    let calls = vec![ToolRequest::Function(call("c1", "read_file")), ToolRequest::Function(call("c2", "exec"))];
    let step = agent.on_model_reply(Ok(Some(ModelReply { content: None, tool_calls: Some(calls) })));
    assert_eq!(step, AgentStep::RunTool(call("c1", "read_file")));
    assert!(agent.awaiting_tool());
    let step = agent.on_tool_result(Ok("contents".to_string()));
    assert_eq!(step, AgentStep::RunTool(call("c2", "exec")));
    let step = agent.on_tool_result(Err(ToolError::NotFound("exec".to_string())));
    assert_eq!(step, AgentStep::CallModel);
    assert_eq!(
        agent.messages(),
        &vec![
            user("read it"),
            ChatMessage::AssistantToolCalls(vec![call("c1", "read_file")]),
            tool("c1", "contents"),
            ChatMessage::AssistantToolCalls(vec![call("c2", "exec")]),
            tool("c2", "工具执行失败: Tool not found: exec"),
        ]
    );
}

#[test]
fn custom_tool_calls_fail_the_turn() {
    let mut agent = Agent::new(AgentConfig::default());
    agent.chat("x");
    let calls = vec![ToolRequest::Custom("magic".to_string())];
    let step = agent.on_model_reply(Ok(Some(ModelReply { content: None, tool_calls: Some(calls) })));
    assert_eq!(step, AgentStep::Done(Err(AgentError::Tool("Custom tool calls not supported: magic".to_string()))));
}

#[test]
fn reply_errors() {
    let mut agent = Agent::new(AgentConfig::default());
    agent.chat("x");
    assert_eq!(agent.on_model_reply(Err("boom".to_string())), AgentStep::Done(Err(AgentError::Api("boom".to_string()))));
    agent.chat("x");
    assert_eq!(agent.on_model_reply(Ok(None)), AgentStep::Done(Err(AgentError::Api("No choice in response".to_string()))));
    agent.chat("x");
    let empty = ModelReply { content: None, tool_calls: None };
    assert_eq!(agent.on_model_reply(Ok(Some(empty))), AgentStep::Done(Err(AgentError::Api("Empty response".to_string()))));
}

#[test]
fn iteration_budget_is_enforced() {
    let mut agent = Agent::new(AgentConfig::default().with_tool_max_iterations(0));
    assert_eq!(agent.chat("x"), AgentStep::Done(Err(AgentError::MaxIterations)));
    let mut agent = Agent::new(AgentConfig::default().with_tool_max_iterations(1));
    assert_eq!(agent.chat("x"), AgentStep::CallModel);
    let calls = vec![ToolRequest::Function(call("c", "exec"))];
    agent.on_model_reply(Ok(Some(ModelReply { content: None, tool_calls: Some(calls) })));
    assert_eq!(agent.on_tool_result(Ok("ok".to_string())), AgentStep::Done(Err(AgentError::MaxIterations)));
}

#[test]
fn history_is_pruned_before_each_model_call() {
    let mut agent = Agent::new(AgentConfig::default().with_max_messages(2)).with_system_prompt("s");
    agent.chat("a");
    agent.on_model_reply(Ok(Some(ModelReply { content: Some("b".to_string()), tool_calls: None })));
    agent.chat("c");
    // the prune start is the user turn "c" itself
    assert_eq!(agent.messages(), &vec![sys("s"), user("c")]);
    agent.on_model_reply(Ok(Some(ModelReply { content: Some("d".to_string()), tool_calls: None })));
    agent.chat("e");
    assert_eq!(agent.messages(), &vec![sys("s"), user("e")]);
}

#[test]
fn tool_error_messages() {
    assert_eq!(ToolError::InvalidArgs("x".to_string()).message(), "Invalid arguments: x");
    assert_eq!(ToolError::Execution("x".to_string()).message(), "Execution failed: x");
    assert_eq!(ToolError::Io(IoErrorKind::Other, "x".to_string()).message(), "IO error: x");
    assert_eq!(ToolError::NotFound("x".to_string()).message(), "Tool not found: x");
}

#[test]
fn pruning_keeps_tool_results_with_their_calls() {
    let mut agent = Agent::new(AgentConfig::default().with_max_messages(4)).with_system_prompt("s");
    agent.chat("a");
    agent.on_model_reply(Ok(Some(ModelReply { content: Some("b".to_string()), tool_calls: None })));
    agent.chat("c");
    let calls = vec![ToolRequest::Function(call("c1", "exec")), ToolRequest::Function(call("c2", "exec"))];
    agent.on_model_reply(Ok(Some(ModelReply { content: None, tool_calls: Some(calls) })));
    agent.on_tool_result(Ok("one".to_string()));
    assert_eq!(agent.on_tool_result(Ok("two".to_string())), AgentStep::CallModel);
    // the cut falls on the user turn "c", so both results keep their calls
    assert_eq!(
        agent.messages(),
        &vec![
            sys("s"),
            user("c"),
            ChatMessage::AssistantToolCalls(vec![call("c1", "exec")]),
            tool("c1", "one"),
            ChatMessage::AssistantToolCalls(vec![call("c2", "exec")]),
            tool("c2", "two"),
        ]
    );
}
