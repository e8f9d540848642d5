use arkavo_protocol::notifications::{
    goals_section, notification_is_noise, notification_prompt, planning_step, should_plan,
};

#[test]
fn empty_results_errors_and_empty_content_are_noise() {
    assert!(notification_is_noise(r#"{"result":{}}"#));
    assert!(notification_is_noise(r#"{"content":[],"x":1}"#));
    assert!(notification_is_noise(r#"{"isError":true}"#));
    assert!(!notification_is_noise(r#"{"isError":false,"content":[{"text":"hi"}]}"#));
    assert!(!notification_is_noise(r#"{"result": {}}"#));
    assert!(!notification_is_noise(""));
}

#[test]
fn planning_runs_once_with_a_prompt_and_tools() {
    assert!(should_plan(false, "You are an agent", 3));
    assert!(!should_plan(true, "You are an agent", 3));
    assert!(!should_plan(false, "", 3));
    assert!(!should_plan(false, "You are an agent", 0));
}

#[test]
fn goals_are_numbered_from_one() {
    assert_eq!(goals_section(&[]), "");
    let goals = vec![
        ("Watch the inbox".to_string(), "Active".to_string()),
        ("File reports".to_string(), "Pending".to_string()),
    ];
    assert_eq!(
        goals_section(&goals),
        "\n\n## Active Goals\n1. Watch the inbox (Active)\n2. File reports (Pending)"
    );
}

#[test]
fn the_prompt_names_the_server_and_the_event() {
    let goals = vec![("Watch".to_string(), "Active".to_string())];
    let prompt = notification_prompt("SYS", &goals, "\n\nMEM", "mail", "{\"n\":1}");
    assert_eq!(
        prompt,
        "SYS\n\n## Active Goals\n1. Watch (Active)\n\nMEM\n\n## Event\nServer: mail\nData: {\"n\":1}\n\n## Instructions\nConsider your active goals and recent actions when responding. Use tools to take action."
    );
    let bare = notification_prompt("", &[], "", "s", "{}");
    assert!(bare.starts_with("\n\n## Event\nServer: s\nData: {}"));
}

#[test]
fn planning_happens_once_across_notifications() {
    let mut done = false;
    let mut runs = 0;
    for tools in [0usize, 2, 3, 1] {
        let (now, after) = planning_step(done, "You are an agent", tools);
        if now {
            runs += 1;
        }
        done = after;
    }
    assert_eq!(runs, 1);
    assert!(done);
    assert_eq!(planning_step(false, "", 5), (false, false));
}
