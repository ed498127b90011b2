use arandu_core::process::MAX_OUTPUT_LINES;
use arandu_core::process::ProcessHandle;
use arandu_core::process::ProcessInfo;
use arandu_core::process::ProcessStatus;
use arandu_core::process::ProcessTable;
use arandu_core::process::append_half_context_arg;
use arandu_core::process::build_server_args;
use arandu_core::process::filter_port_args;
use arandu_core::process::find_available_port;
use arandu_core::process::parse_custom_args;
use arandu_core::process::parse_port_from_args;
use arandu_core::process::resolve_aux_paths;

fn test_info(id: &str) -> ProcessInfo {
    ProcessInfo {
        id: id.to_string(),
        model_path: "/models/m.gguf".to_string(),
        model_name: "m".to_string(),
        host: "127.0.0.1".to_string(),
        port: 8080,
        command: vec!["llama-server".to_string()],
        status: ProcessStatus::Starting,
        output: Vec::new(),
        created_at: 1000,
        last_sent_line: Some(0),
    }
}

fn no_child_handle(id: &str) -> ProcessHandle {
    ProcessHandle { child: None, process_id: id.to_string() }
}

#[test]
fn port_probe_moves_off_a_busy_preferred_port() {
    // preferred port busy, 8083 free: the probe lands there within 10 tries
    let mut busy = vec![true, true, true, false, true, true, true, true, true, true, true];
    assert_eq!(find_available_port(8080, &busy), 8083);
    // preferred port free: it is kept
    busy[0] = false;
    assert_eq!(find_available_port(8080, &busy), 8080);
    // whole window busy: fall back to the preferred port
    let all_busy = vec![true; 11];
    assert_eq!(find_available_port(8080, &all_busy), 8080);
}

#[test]
fn port_probe_never_leaves_the_port_range() {
    let busy = vec![true; 11];
    assert_eq!(find_available_port(65530, &busy), 65530);
    let mut mostly = vec![true; 11];
    mostly[10] = false;
    // 65530 + 10 would pass 65535, so the probe falls back
    assert_eq!(find_available_port(65530, &mostly), 65530);
    mostly[3] = false;
    assert_eq!(find_available_port(65530, &mostly), 65533);
}

#[test]
fn reading_output_twice_returns_empty_the_second_time() {
    let mut table = ProcessTable::new();
    let mut info = test_info("p1");
    info.output = vec!["[OUT] one".to_string(), "[OUT] two".to_string()];
    info.last_sent_line = None;
    table.insert_process(info, no_child_handle("p1"));
    let first = table.read_new_output("p1").unwrap();
    assert_eq!(first.output, vec!["[OUT] one".to_string(), "[OUT] two".to_string()]);
    let second = table.read_new_output("p1").unwrap();
    assert!(second.output.is_empty());
    // new lines appear only once, in order, with none replayed
    table.add_output_line("p1", "[INFO] three".to_string());
    let third = table.read_new_output("p1").unwrap();
    assert_eq!(third.output, vec!["[INFO] three".to_string()]);
    assert_eq!(
        table.read_new_output("ghost").unwrap_err(),
        "Process not found"
    );
}

#[test]
fn terminating_an_exited_process_is_a_no_op() {
    let mut table = ProcessTable::new();
    table.insert_process(test_info("p1"), no_child_handle("p1"));
    // first termination takes the (already empty) handle slot away
    let child = table.take_handle_child("p1");
    assert!(child.is_none());
    assert!(table.remove_process_record("p1"));
    // a second termination finds nothing and is not an error
    assert!(table.take_handle_child("p1").is_none());
    assert!(!table.remove_process_record("p1"));
}

#[test]
fn handle_slot_is_emptied_exactly_once() {
    let mut handle = ProcessHandle { child: None, process_id: "p".to_string() };
    assert!(handle.take_child().is_none());
    assert!(handle.get_child_id().is_none());
}

#[test]
fn output_log_is_bounded_and_drops_the_oldest() {
    let mut table = ProcessTable::new();
    table.insert_process(test_info("p1"), no_child_handle("p1"));
    let mut i = 0usize;
    while i < MAX_OUTPUT_LINES + 5 {
        table.add_output_line("p1", format!("line{}", i));
        i += 1;
    }
    let out = table.read_new_output("p1").unwrap();
    assert_eq!(out.output.len(), MAX_OUTPUT_LINES);
    assert_eq!(out.output[0], "line5");
}

#[test]
fn process_exit_is_logged_and_stopped() {
    let mut table = ProcessTable::new();
    table.insert_process(test_info("p1"), no_child_handle("p1"));
    table.set_running("p1");
    assert!(table.record_exit("p1", -1));
    let out = table.read_new_output("p1").unwrap();
    assert_eq!(out.output.last().unwrap(), "Process exited with code: -1");
    assert!(!out.is_running);
}

#[test]
fn bulk_shutdown_drains_every_handle() {
    let mut table = ProcessTable::new();
    table.insert_process(test_info("a"), no_child_handle("a"));
    table.insert_process(test_info("b"), no_child_handle("b"));
    let drained = table.drain_handles();
    assert_eq!(drained.len(), 2);
    assert!(table.take_handle_child("a").is_none());
    table.clear_infos();
    assert!(!table.remove_process_record("a"));
}

#[test]
fn port_flag_is_read_in_both_forms() {
    assert_eq!(parse_port_from_args("--port 9090", 8080), 9090);
    assert_eq!(parse_port_from_args("--port=7070 -x", 8080), 7070);
    assert_eq!(parse_port_from_args("-a -b", 8080), 8080);
    assert_eq!(parse_port_from_args("--port junk", 8080), 8080);
    assert_eq!(parse_port_from_args("--port 70000", 8080), 8080);
}

#[test]
fn user_port_flags_are_stripped() {
    let mut args = vec![
        "--port".to_string(),
        "1234".to_string(),
        "-x".to_string(),
        "--port=9".to_string(),
        "-y".to_string(),
    ];
    filter_port_args(&mut args);
    assert_eq!(args, vec!["-x".to_string(), "-y".to_string()]);
    let mut dangling = vec!["-a".to_string(), "--port".to_string()];
    filter_port_args(&mut dangling);
    assert_eq!(dangling, vec!["-a".to_string()]);
}

#[test]
fn custom_args_split_respects_quotes() {
    assert_eq!(
        parse_custom_args("-a \"b c\" d"),
        vec!["-a".to_string(), "b c".to_string(), "d".to_string()]
    );
    assert_eq!(
        parse_custom_args("  x   y "),
        vec!["x".to_string(), "y".to_string()]
    );
    assert_eq!(parse_custom_args("'one two'"), vec!["one two".to_string()]);
    assert!(parse_custom_args("").is_empty());
}

#[test]
fn relative_aux_paths_resolve_against_the_model_root() {
    let mut args = vec!["--mmproj".to_string(), "proj.gguf".to_string(), "-v".to_string()];
    resolve_aux_paths(&mut args, "/models");
    assert_eq!(
        args,
        vec!["--mmproj".to_string(), "/models/proj.gguf".to_string(), "-v".to_string()]
    );
    let mut absolute = vec!["-md".to_string(), "/abs/d.gguf".to_string()];
    resolve_aux_paths(&mut absolute, "/models");
    assert_eq!(absolute, vec!["-md".to_string(), "/abs/d.gguf".to_string()]);
}

#[test]
fn server_args_carry_the_negotiated_port_only() {
    let args = build_server_args(
        "/models/m.gguf",
        "127.0.0.1",
        8083,
        "--port 9999 --mmproj p.gguf",
        "/models",
    );
    assert_eq!(
        args,
        vec![
            "-m".to_string(),
            "/models/m.gguf".to_string(),
            "--host".to_string(),
            "127.0.0.1".to_string(),
            "--port".to_string(),
            "8083".to_string(),
            "--mmproj".to_string(),
            "/models/p.gguf".to_string(),
        ]
    );
    let plain = build_server_args("/m.gguf", "0.0.0.0", 1, "   ", "/models");
    assert_eq!(plain.len(), 6);
}

#[test]
fn context_shift_flag_is_appended_once() {
    assert_eq!(append_half_context_arg(""), "--context-shift");
    assert_eq!(append_half_context_arg("-a -b"), "-a -b --context-shift");
    assert_eq!(
        append_half_context_arg(" --context-shift -a "),
        "--context-shift -a"
    );
}
