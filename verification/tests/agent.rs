use ai::agent::{
    build_effective_message, AgentEvent, AgentInput, AgentLoop, AgentPhase, AgentRequest, Effect,
    ModelReply, NewSessionMessage, ToolResult, MAX_TOOL_ITERATIONS,
};
use ai::graph::{GraphSchema, TypeSchema};
use ai::messages::{
    build_message_history, FunctionCall, Message, SessionMessage, SessionMessageRole, ToolCall,
};
use ai::prompt::build_system_prompt;

fn call(id: &str, name: &str, args: &str) -> ToolCall {
    ToolCall {
        id: id.to_string(),
        type_: "function".to_string(),
        function: FunctionCall { name: name.to_string(), arguments: args.to_string() },
    }
}

fn reply(content: Option<&str>, calls: Vec<ToolCall>) -> AgentInput {
    let json = if calls.is_empty() { None } else { Some("[calls]".to_string()) };
    AgentInput::Reply(ModelReply { content: content.map(String::from), tool_calls: calls, tool_calls_json: json })
}

fn tool_done(content: &str, schema_changed: bool, is_done: bool) -> AgentInput {
    AgentInput::ToolDone(ToolResult { content: content.to_string(), schema_changed, is_done })
}

fn sent(e: &Effect) -> Option<&AgentEvent> {
    match e {
        Effect::Send(ev) => Some(ev),
        Effect::Persist(_) => None,
    }
}

fn stored(e: &Effect) -> Option<&Vec<NewSessionMessage>> {
    match e {
        Effect::Persist(v) => Some(v),
        Effect::Send(_) => None,
    }
}

fn model_messages(r: &AgentRequest) -> (&Vec<Message>, bool) {
    match r {
        AgentRequest::CallModel { messages, with_tools } => (messages, *with_tools),
        other => panic!("expected a model call, got {other:?}"),
    }
}

#[test]
fn single_message_with_one_tool_round() {
    let (s, effects, req) =
        AgentLoop::start("hi".to_string(), None, vec![Message::system("SYS")], vec!["hi".to_string()]);
    assert_eq!(effects.len(), 1);
    let batch = stored(&effects[0]).unwrap();
    assert_eq!(batch.len(), 1);
    assert_eq!(batch[0].role, SessionMessageRole::User);
    assert_eq!(batch[0].content, "hi");
    assert_eq!(batch[0].chunk_index, None);
    let (ms, with_tools) = model_messages(&req);
    assert!(with_tools);
    assert_eq!(ms.len(), 2);
    assert_eq!(ms[1].content.as_deref(), Some("hi"));

    let (s, effects, req) = s.step(reply(Some("Let me look"), vec![call("c1", "search_nodes", "{}")]));
    assert_eq!(effects.len(), 2);
    assert!(matches!(sent(&effects[0]), Some(AgentEvent::Text { content }) if content == "Let me look"));
    assert!(matches!(sent(&effects[1]), Some(AgentEvent::ToolCall { tool_call_id, name, .. }) if tool_call_id == "c1" && name == "search_nodes"));
    assert!(matches!(&req, AgentRequest::RunTool { call } if call.id == "c1"));
    assert_eq!(s.phase(), AgentPhase::AwaitTool);

    let (s, effects, req) = s.step(tool_done("found", false, false));
    assert_eq!(effects.len(), 1);
    assert!(matches!(sent(&effects[0]), Some(AgentEvent::ToolResult { tool_call_id, content }) if tool_call_id == "c1" && content == "found"));
    let (ms, _) = model_messages(&req);
    assert_eq!(ms.len(), 4);
    assert_eq!(ms[3].role, "tool");
    assert_eq!(ms[3].tool_call_id.as_deref(), Some("c1"));
    assert_eq!(s.iteration(), 1);

    let (s, effects, req) = s.step(reply(Some("Answer"), vec![]));
    assert!(matches!(req, AgentRequest::Finish));
    assert_eq!(s.phase(), AgentPhase::Finished);
    assert_eq!(effects.len(), 3);
    assert!(matches!(sent(&effects[0]), Some(AgentEvent::Text { content }) if content == "Answer"));
    assert!(matches!(sent(&effects[1]), Some(AgentEvent::Done { summary }) if summary == "Answer"));
    let batch = stored(&effects[2]).unwrap();
    let roles: Vec<SessionMessageRole> = batch.iter().map(|m| m.role).collect();
    assert_eq!(roles, vec![SessionMessageRole::Assistant, SessionMessageRole::Tool, SessionMessageRole::Assistant]);
    assert_eq!(batch[0].tool_calls.as_deref(), Some("[calls]"));
    assert_eq!(batch[1].tool_call_id.as_deref(), Some("c1"));
    assert_eq!(batch[2].content, "Answer");

    // a finished agent stays finished
    let (s, effects, req) = s.step(reply(Some("late"), vec![]));
    assert!(effects.is_empty());
    assert!(matches!(req, AgentRequest::Finish));
    assert_eq!(s.phase(), AgentPhase::Finished);
}

#[test]
fn silent_answer_ends_with_default_summary() {
    let (s, _, _) = AgentLoop::start("q".to_string(), None, vec![], vec!["q".to_string()]);
    let (_, effects, _) = s.step(reply(None, vec![]));
    assert!(matches!(sent(&effects[0]), Some(AgentEvent::Done { summary }) if summary == "Task completed."));
    let batch = stored(&effects[1]).unwrap();
    assert_eq!(batch[0].content, "");
}

#[test]
fn done_tool_ends_the_turn() {
    let (s, _, _) = AgentLoop::start("q".to_string(), None, vec![], vec!["q".to_string()]);
    let (s, _, _) = s.step(reply(None, vec![call("a", "done", "{}"), call("b", "get_node", "{}")]));
    let (s, effects, req) = s.step(tool_done("All stored.", false, true));
    assert!(matches!(req, AgentRequest::Finish));
    assert_eq!(s.phase(), AgentPhase::Finished);
    assert_eq!(effects.len(), 3);
    let batch = stored(&effects[1]).unwrap();
    assert_eq!(batch.len(), 2);
    assert_eq!(batch[1].content, "All stored.");
    assert!(matches!(sent(&effects[2]), Some(AgentEvent::Done { summary }) if summary == "All stored."));
}

#[test]
fn calls_run_in_order_and_schema_is_reloaded() {
    let (s, _, _) = AgentLoop::start("q".to_string(), None, vec![Message::system("OLD")], vec!["q".to_string()]);
    let (s, _, req) = s.step(reply(None, vec![call("a", "create_schema", "{}"), call("b", "get_node", "{}")]));
    assert!(matches!(&req, AgentRequest::RunTool { call } if call.id == "a"));
    let (s, effects, req) = s.step(tool_done("made", true, false));
    assert!(matches!(&req, AgentRequest::RunTool { call } if call.id == "b"));
    assert!(matches!(sent(&effects[1]), Some(AgentEvent::ToolCall { tool_call_id, .. }) if tool_call_id == "b"));
    let (s, _, req) = s.step(tool_done("node", false, false));
    assert!(matches!(req, AgentRequest::ReloadSchema));
    assert_eq!(s.phase(), AgentPhase::AwaitSchema);
    let schema = GraphSchema {
        nodes: vec![TypeSchema { key: "k1".into(), label: "Person".into(), description: "People".into(), properties: vec![] }],
        edges: vec![],
    };
    let expected = build_system_prompt(&schema);
    let (s, effects, req) = s.step(AgentInput::SchemaReloaded(schema));
    assert!(effects.is_empty());
    let (ms, with_tools) = model_messages(&req);
    assert!(with_tools);
    assert_eq!(ms[0].role, "system");
    assert_eq!(ms[0].content.as_deref(), Some(expected.as_str()));
    assert_eq!(s.iteration(), 1);
}

#[test]
fn iteration_limit_stops_the_loop() {
    let (mut s, _, _) = AgentLoop::start("q".to_string(), None, vec![], vec!["q".to_string()]);
    for i in 0..MAX_TOOL_ITERATIONS {
        let (s1, _, _) = s.step(reply(None, vec![call(&format!("c{i}"), "get_node", "{}")]));
        let (s2, effects, req) = s1.step(tool_done("x", false, false));
        s = s2;
        if i + 1 < MAX_TOOL_ITERATIONS {
            assert!(matches!(req, AgentRequest::CallModel { .. }));
        } else {
            assert!(matches!(req, AgentRequest::Finish));
            assert!(matches!(sent(&effects[1]), Some(AgentEvent::Error { message }) if message == "Maximum tool call limit reached."));
            let batch = stored(&effects[2]).unwrap();
            assert_eq!(batch.len(), 2 * MAX_TOOL_ITERATIONS);
        }
    }
    assert_eq!(s.phase(), AgentPhase::Finished);
    assert_eq!(s.iteration(), MAX_TOOL_ITERATIONS);
}

#[test]
fn multi_part_document_is_worked_through_and_summarised() {
    let chunks = vec!["part one".to_string(), "part two".to_string()];
    let (s, effects, req) = AgentLoop::start("Please".to_string(), Some("doc1".to_string()), vec![], chunks);
    assert_eq!(effects.len(), 3);
    assert!(matches!(sent(&effects[0]), Some(AgentEvent::Progress { content }) if content == "Document split into 2 parts \u{2014} extracting part 1\u{2026}"));
    let first = stored(&effects[1]).unwrap();
    assert_eq!(first[0].content, "Please");
    assert_eq!(first[0].document_id.as_deref(), Some("doc1"));
    assert_eq!(first[0].chunk_index, None);
    let part = stored(&effects[2]).unwrap();
    assert_eq!(part[0].content, "part one");
    assert_eq!(part[0].chunk_index, Some(1));
    assert!(matches!(req, AgentRequest::CallModel { with_tools: true, .. }));

    // no text is streamed for the parts
    let (s, effects, _) = s.step(reply(Some("noted one"), vec![]));
    assert_eq!(effects.len(), 3);
    assert_eq!(stored(&effects[0]).unwrap()[0].content, "noted one");
    assert!(matches!(sent(&effects[1]), Some(AgentEvent::Progress { content }) if content.ends_with("extracting part 2\u{2026}")));
    assert_eq!(stored(&effects[2]).unwrap()[0].chunk_index, Some(2));

    let (s, effects, req) = s.step(reply(Some("noted two"), vec![]));
    assert_eq!(effects.len(), 2);
    assert!(matches!(sent(&effects[1]), Some(AgentEvent::Progress { content }) if content == "Finalising \u{2014} preparing summary\u{2026}"));
    let (ms, with_tools) = model_messages(&req);
    assert!(!with_tools);
    assert!(ms.last().unwrap().content.as_deref().unwrap().starts_with("All parts of the document have been processed."));
    assert_eq!(s.phase(), AgentPhase::AwaitSummary);

    let (s, effects, req) = s.step(reply(None, vec![]));
    assert!(matches!(req, AgentRequest::Finish));
    assert_eq!(s.phase(), AgentPhase::Finished);
    assert!(matches!(sent(&effects[0]), Some(AgentEvent::Text { content }) if content == "Document processing complete."));
    assert!(matches!(sent(&effects[1]), Some(AgentEvent::Done { summary }) if summary == "Document processing complete."));
    assert_eq!(stored(&effects[2]).unwrap()[0].content, "Document processing complete.");
}

#[test]
fn effective_message_combines_document_and_words() {
    assert_eq!(build_effective_message("hi", None), "hi");
    assert_eq!(build_effective_message("", Some("DOC")), "[Document content]\nDOC");
    assert_eq!(
        build_effective_message("Go", Some("DOC")),
        "[Document content]\nDOC\n\n[User message]\nGo"
    );
}

#[test]
fn history_compresses_parts_and_documents() {
    let schema = GraphSchema { nodes: vec![], edges: vec![] };
    let stored = vec![
        SessionMessage {
            role: SessionMessageRole::User,
            content: "see doc".into(),
            tool_calls: None,
            tool_call_id: None,
            document_id: Some("d9".into()),
            chunk_index: None,
        },
        SessionMessage {
            role: SessionMessageRole::User,
            content: "long part".into(),
            tool_calls: None,
            tool_call_id: None,
            document_id: Some("d9".into()),
            chunk_index: Some(2),
        },
        SessionMessage {
            role: SessionMessageRole::Tool,
            content: "r".into(),
            tool_calls: None,
            tool_call_id: None,
            document_id: None,
            chunk_index: None,
        },
    ];
    let ms = build_message_history(&schema, &stored);
    assert_eq!(ms.len(), 4);
    assert_eq!(ms[0].content.as_deref(), Some(build_system_prompt(&schema).as_str()));
    assert_eq!(
        ms[1].content.as_deref(),
        Some("[Document attached: id=d9. Use read_document tool to access its content.]\nsee doc")
    );
    assert_eq!(
        ms[2].content.as_deref(),
        Some("[Chunk 2 \u{2014} already processed. Use read_document to access content.]")
    );
    assert_eq!(ms[3].tool_call_id.as_deref(), Some(""));
}
