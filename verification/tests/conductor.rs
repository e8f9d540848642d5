use arkavo_protocol::conductor::{augmented_content, conversation, final_reply, tool_result_entry, Speaker};

#[test]
fn few_shot_examples_go_before_the_task() {
    assert_eq!(augmented_content("", "do it"), "do it");
    assert_eq!(augmented_content("EXAMPLES", "do it"), "EXAMPLES\n\ndo it");
}

#[test]
fn the_context_prompt_leads_the_conversation() {
    assert_eq!(
        conversation(Some("ctx"), "hi".to_string()),
        vec![(Speaker::System, "ctx".to_string()), (Speaker::User, "hi".to_string())]
    );
    assert_eq!(conversation(None, "hi".to_string()), vec![(Speaker::User, "hi".to_string())]);
}

#[test]
fn tool_entries_mark_errors() {
    assert_eq!(tool_result_entry("read", &Ok("{\n  \"a\": 1\n}".to_string())), "## Tool: read\n{\n  \"a\": 1\n}");
    assert_eq!(tool_result_entry("read", &Err("denied".to_string())), "## Tool: read (Error)\ndenied");
}

#[test]
fn tool_results_follow_the_reply() {
    assert_eq!(final_reply("answer", &vec![]), "answer");
    let entries = vec!["## Tool: a\n1".to_string(), "## Tool: b (Error)\nx".to_string()];
    assert_eq!(
        final_reply("answer", &entries),
        "answer\n\n## Tool Execution Results\n## Tool: a\n1\n\n## Tool: b (Error)\nx"
    );
}
