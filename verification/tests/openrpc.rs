use arkavo_protocol::openrpc::{openrpc_methods, OpenRpcError};

#[test]
fn the_method_table_lists_every_method_in_order() {
    let methods = openrpc_methods();
    let names: Vec<&str> = methods.iter().map(|m| m.name.as_str()).collect();
    assert_eq!(
        names,
        vec![
            "rpc.discover",
            "task_request",
            "task_declare",
            "agent_discover",
            "message/send",
            "tasks/get",
            "tasks/cancel",
            "chat_open",
            "chat_send",
            "chat_close"
        ]
    );
    for name in ["task_request", "task_declare", "agent_discover", "chat_open", "chat_send", "chat_close"] {
        assert!(names.contains(&name));
    }
}

#[test]
fn methods_carry_params_results_and_errors() {
    let methods = openrpc_methods();
    let task = &methods[1];
    assert_eq!(task.summary.as_deref(), Some("Task request"));
    assert_eq!(task.params.len(), 3);
    assert_eq!(task.params[2].name, "payload");
    assert_eq!(task.params[2].required, Some(false));
    assert_eq!(task.result.name, "task_response");
    assert_eq!(
        task.errors,
        Some(vec![
            OpenRpcError { code: -32601, message: "Method not found".to_string() },
            OpenRpcError { code: -32602, message: "Invalid params".to_string() },
        ])
    );
    assert!(methods[0].params.is_empty());
    assert!(methods[0].errors.is_none());
    let chat_send = &methods[8];
    assert_eq!(chat_send.errors.as_ref().map(|e| e.len()), Some(3));
    assert_eq!(chat_send.params[1].description.as_deref(), Some("User message with content and optional attachments"));
}

#[test]
fn the_document_names_two_servers() {
    let servers = arkavo_protocol::openrpc::openrpc_servers();
    assert_eq!(servers.len(), 2);
    assert_eq!(servers[0].url, "http://localhost:8765");
    assert_eq!(servers[1].name, "Production");
}
