use arandu_core::chat::ChatManager;
use arandu_core::chat::chat_markdown_path;
use arandu_core::chat::chats_index_path;
use arandu_core::chat::get_settings_path;
use arandu_core::chat::sanitize_chat_title;
use arandu_core::models::McpServerConfig;
use arandu_core::models::McpTransport;
use arandu_core::models::ModelConfig;
use arandu_core::models::default_background_color;
use arandu_core::models::default_network_server_host;
use arandu_core::models::default_theme_is_synced;
use arandu_core::models::mcp_accept_header;
use arandu_core::params::ModelLoadParams;
use arandu_core::params::ParameterController;

#[test]
fn chat_titles_collapse_whitespace() {
    assert_eq!(sanitize_chat_title("  hello \n  world \r"), "hello world");
    assert_eq!(sanitize_chat_title(" \n \r "), "Untitled Chat");
    let long = "x".repeat(100);
    assert_eq!(sanitize_chat_title(&long).len(), 80);
}

#[test]
fn chat_paths_live_under_the_app_directory() {
    if let Ok(p) = chats_index_path() {
        assert!(p.ends_with("/.Arandu/chats/index.json"));
    }
    if let Ok(p) = chat_markdown_path("chat-77") {
        assert!(p.ends_with("/chat-77.md"));
        assert!(p.contains("/.Arandu/chats"));
    }
    if let Ok(p) = get_settings_path() {
        assert!(p.ends_with("/.Arandu/launcher_settings.json"));
    }
    if let Ok(m) = ChatManager::new() {
        let p = m.get_chat_file_path("abc");
        assert!(p.ends_with("/abc.json"));
        assert!(p.contains("/.Arandu/chats"));
    }
}

#[test]
fn model_config_starts_on_loopback() {
    let c = ModelConfig::new("/models/m.gguf".to_string());
    assert_eq!(c.server_host, "127.0.0.1");
    assert_eq!(c.server_port, 8080);
    assert_eq!(c.model_path, "/models/m.gguf");
    assert!(c.custom_args.is_empty());
    assert!(c.hf_metadata.is_none());
}

#[test]
fn blank_mcp_connection_has_sane_defaults() {
    let c = McpServerConfig::new_blank("My Server".to_string());
    assert_eq!(c.name, "My Server");
    assert!(c.enabled);
    assert_eq!(c.timeout_seconds, 10);
    assert!(matches!(c.transport, McpTransport::Sse));
    assert!(c.tools.is_empty());
}

#[test]
fn accept_header_depends_on_transport() {
    assert_eq!(mcp_accept_header(&McpTransport::Json), "application/json");
    assert_eq!(
        mcp_accept_header(&McpTransport::Sse),
        "application/json, text/event-stream"
    );
}

#[test]
fn theme_defaults_match_the_ui() {
    assert_eq!(default_background_color(), "dark-gray");
    assert!(default_theme_is_synced());
    assert_eq!(default_network_server_host(), "127.0.0.1");
}

#[test]
fn test_model_load_params_default() {
    let params = ModelLoadParams::default();
    assert_eq!(params.context_length, 4096);
    assert_eq!(params.n_gpu_layers, -1);
}

#[test]
fn test_get_model_load_args() {
    let controller = ParameterController::new("http://localhost:8080".to_string());
    let args = controller.get_model_load_args();

    assert!(args.contains(&"-c".to_string()));
    assert!(args.contains(&"4096".to_string()));
}

#[test]
fn test_pending_changes() {
    let mut controller = ParameterController::new("http://localhost:8080".to_string());

    // Initially no pending changes
    let pending = controller.get_pending_changes();
    assert!(pending.is_empty());

    // Simulate pending changes
    controller.pending_context_length = Some(8192);
    controller.pending_n_gpu_layers = Some(35);

    let pending = controller.get_pending_changes();
    assert!(pending.contains(&("context_length".to_string(), 8192)));
    assert!(pending.contains(&("n_gpu_layers".to_string(), 35)));

    // Clear pending changes
    controller.clear_pending_changes();
    let pending = controller.get_pending_changes();
    assert!(pending.is_empty());
}

#[test]
fn context_length_changes_park_while_a_model_is_loaded() {
    let mut c = ParameterController::new("http://localhost:8080".to_string());
    assert_eq!(c.set_context_length(8192, true), Ok(false));
    assert_eq!(c.current_model_load_params.context_length, 4096);
    assert_eq!(c.pending_context_length, Some(8192));
    c.apply_pending_changes();
    assert_eq!(c.current_model_load_params.context_length, 8192);
    assert_eq!(c.pending_context_length, None);
    assert_eq!(c.set_context_length(16384, false), Ok(true));
    assert_eq!(c.current_model_load_params.context_length, 16384);
    let err = c.set_context_length(100, false).unwrap_err();
    assert_eq!(err, "Context length must be at least 512, got 100");
    let err = c.set_context_length(200000, false).unwrap_err();
    assert_eq!(err, "Context length cannot exceed 131072, got 200000");
    let err = c.set_n_gpu_layers(-2, false).unwrap_err();
    assert_eq!(err, "n_gpu_layers must be -1 or greater, got -2");
    assert_eq!(c.set_n_gpu_layers(35, false), Ok(true));
    let args = c.get_model_load_args();
    assert_eq!(
        args,
        vec![
            "-c".to_string(),
            "16384".to_string(),
            "-ngl".to_string(),
            "35".to_string()
        ]
    );
}

#[test]
fn test_message_context_building() {
    let controller = ParameterController::new("http://localhost:8080".to_string());

    let messages = vec![
        arandu_core::openai::ChatMessage {
            role: "user".to_string(),
            content: "Hello".to_string(),
        },
        arandu_core::openai::ChatMessage {
            role: "assistant".to_string(),
            content: "Hi there!".to_string(),
        },
    ];

    let context = controller.build_message_context(
        &messages,
        Some("You are a helpful assistant."),
        2048,
    );

    assert!(!context.messages.is_empty());
    assert!(context.estimated_tokens > 0);
}

#[test]
fn message_context_drops_the_oldest_when_over_budget() {
    let mut controller = ParameterController::new("http://localhost:8080".to_string());
    assert_eq!(controller.set_context_length(512, false), Ok(true));
    let messages = vec![
        arandu_core::openai::ChatMessage {
            role: "user".to_string(),
            content: "x".repeat(4000),
        },
        arandu_core::openai::ChatMessage {
            role: "assistant".to_string(),
            content: "short".to_string(),
        },
    ];
    // budget: 512 - 256 = 256 tokens; the old 1001-token message cannot fit
    let context = controller.build_message_context(&messages, None, 256);
    assert!(context.truncated);
    assert_eq!(context.messages.len(), 1);
    assert_eq!(context.messages[0].content, "short");
}
