use arkavo_protocol::chat_stream::{
    chat_step, no_model_delta, stream_failed_delta, ChatDelta, ChatDeltaContent, ChatStep, ChatStreamEvent,
};

#[test]
fn text_and_tool_calls_become_deltas() {
    let step = chat_step(Some("s1"), "m1", &ChatStreamEvent::Text("hi".to_string()));
    assert_eq!(
        step,
        ChatStep::Emit(ChatDelta {
            session_id: "s1".to_string(),
            message_id: "m1".to_string(),
            sequence: 0,
            content: ChatDeltaContent::Text("hi".to_string()),
        })
    );
    let call = ChatStreamEvent::ToolCall { id: "c1".to_string(), name: "search".to_string(), arguments: None };
    match chat_step(None, "m1", &call) {
        ChatStep::Emit(d) => {
            assert_eq!(d.session_id, "");
            assert_eq!(
                d.content,
                ChatDeltaContent::ToolCall {
                    tool_call_id: "c1".to_string(),
                    name: "search".to_string(),
                    args_json_fragment: "{}".to_string(),
                    done: false,
                }
            );
        }
        other => panic!("unexpected {other:?}"),
    }
}

#[test]
fn errors_are_skipped_and_the_end_stops() {
    assert_eq!(chat_step(None, "m", &ChatStreamEvent::Error), ChatStep::Skip);
    assert_eq!(chat_step(None, "m", &ChatStreamEvent::End), ChatStep::Stop);
    assert_eq!(chat_step(None, "m", &ChatStreamEvent::Failed), ChatStep::Stop);
}

#[test]
fn failure_deltas_explain_themselves() {
    let d = stream_failed_delta(Some("s"), "m", "timeout");
    assert_eq!(d.content, ChatDeltaContent::Text("Error: Failed to start LLM stream - timeout".to_string()));
    let d = no_model_delta(None, "m", "planner", "gemma");
    assert_eq!(d.content, ChatDeltaContent::Text("Error: No LLM configured for agent 'planner'. Model: 'gemma'".to_string()));
}
