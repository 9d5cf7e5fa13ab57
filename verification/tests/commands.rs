use redox_core::commands::{
    echo_text, help_text, hex_dump, path_arg, send_plan, send_usage, sleep_request, wget_complaint,
    wget_plan, SendPlan,
    WgetPlan,
};

fn strings(v: &[&str]) -> Vec<String> {
    v.iter().map(|s| s.to_string()).collect()
}

#[test]
fn echo_joins_and_trims() {
    assert_eq!(echo_text(&strings(&["echo", "hello", "world"])), "hello world");
    assert_eq!(echo_text(&strings(&["echo"])), "");
    assert_eq!(echo_text(&strings(&["echo", "a  b", "\t"])), "a  b");
}

#[test]
fn send_needs_three_arguments() {
    assert!(matches!(send_plan(&strings(&["send", "tcp://h"])), SendPlan::Usage));
    assert!(matches!(send_plan(&strings(&["send"])), SendPlan::Usage));
}

#[test]
fn send_builds_payload() {
    match send_plan(&strings(&["send", "http://host/", "GET", "/"])) {
        SendPlan::Send { path, payload } => {
            assert_eq!(path, "http://host/");
            assert_eq!(payload, "GET /\r\n\r\n");
        }
        SendPlan::Usage => panic!("three arguments are enough"),
    }
}

#[test]
fn sleep_reads_numbers() {
    assert_eq!(sleep_request(&strings(&["sleep", "2", "500"])), (2, 500));
    assert_eq!(sleep_request(&strings(&["sleep", "3"])), (3, 0));
    assert_eq!(sleep_request(&strings(&["sleep"])), (0, 0));
    assert_eq!(sleep_request(&strings(&["sleep", "x", "7z"])), (0, 7));
    assert_eq!(sleep_request(&strings(&["sleep", "1", "4294967297"])), (1, 1));
}

#[test]
fn path_defaults_to_empty() {
    assert_eq!(path_arg(&strings(&["url", "file:///a"])), "file:///a");
    assert_eq!(path_arg(&strings(&["url"])), "");
}

#[test]
fn hex_dump_formats_bytes() {
    assert_eq!(hex_dump(&[]), "HEX:");
    assert_eq!(hex_dump(&[0, 10, 255, 16]), "HEX: 0 A FF 10");
}

#[test]
fn wget_checks_its_arguments() {
    assert!(matches!(wget_plan(&strings(&["wget"])), WgetPlan::NoUrl));
    assert!(matches!(wget_plan(&strings(&["wget", "host"])), WgetPlan::NoRequest));
    match wget_plan(&strings(&["wget", "example.com:80", "/index.html"])) {
        WgetPlan::Fetch { connection, request, save_to } => {
            assert_eq!(connection, "tcp://example.com:80");
            assert_eq!(request, "GET /index.html HTTP/1.1");
            assert_eq!(save_to, "/index.html");
        }
        _ => panic!("host and request given"),
    }
}

#[test]
fn help_prefixes_the_list() {
    assert_eq!(help_text(&" echo exit".to_string()), "Commands: echo exit");
}

#[test]
fn usage_and_complaints() {

    let (a, b) = send_usage();
    assert_eq!(a, "Error: incorrect arguments");
    assert_eq!(b, "Usage: send [url] [data]");
    assert_eq!(wget_complaint(&WgetPlan::NoUrl).as_deref(), Some("No url given"));
    assert_eq!(wget_complaint(&WgetPlan::NoRequest).as_deref(), Some("No request given"));
    assert!(wget_complaint(&wget_plan(&strings(&["wget", "h", "/"]))).is_none());
}
