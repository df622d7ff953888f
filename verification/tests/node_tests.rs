use gameserver_rs::deploy::{build_step, BuildAction, BuildEvent};
use gameserver_rs::gameserver::{
    buffer_overflows, json_line_step, node_message_action, provider_needs_config,
    strip_end_markers, LineStep, NodeMessageAction, MAX_BUFFER_SIZE,
};
use gameserver_rs::properties::enable_rcon_properties;
use gameserver_rs::scan::{line_selected, quoted_line, span_result, LineFilter, SpanReading};
use gameserver_rs::providers::ProviderType;

#[test]
fn build_errors_end_the_build_before_any_push() {
    match build_step(BuildEvent::Update { stream: Some("Step 1/4".to_string()), error: None }, Some("reg")) {
        BuildAction::Continue { output } => assert_eq!(output.as_deref(), Some("Step 1/4")),
        _ => panic!(),
    }
    match build_step(BuildEvent::Update { stream: Some("x".to_string()), error: Some("no space".to_string()) }, Some("reg")) {
        BuildAction::Fail { output, error } => {
            assert_eq!(output.as_deref(), Some("x"));
            assert_eq!(error.describe(), "Docker build error: no space");
        }
        _ => panic!(),
    }
    match build_step(BuildEvent::ApiError("socket closed".to_string()), None) {
        BuildAction::Fail { output, error } => {
            assert!(output.is_none());
            assert_eq!(error.message, "Docker API error: socket closed");
        }
        _ => panic!(),
    }
    match build_step(BuildEvent::Finished, Some("localhost:5000")) {
        BuildAction::TagAndPush { source, repository, tag } => {
            assert_eq!(source, "localhost:5000/gameserver:latest");
            assert_eq!(repository, "localhost:5000/gameserver");
            assert_eq!(tag, "latest");
        }
        _ => panic!(),
    }
    assert!(matches!(build_step(BuildEvent::Finished, None), BuildAction::Done));
}

#[test]
fn node_messages_are_files_or_commands() {
    assert!(matches!(node_message_action("start_file", "a.txt"), NodeMessageAction::StartFile(p) if p == "server/a.txt"));
    assert!(matches!(node_message_action("end_file", "a.txt"), NodeMessageAction::EndFile));
    assert!(matches!(node_message_action("clean_file", "a.txt"), NodeMessageAction::CleanFile(p) if p == "server/a.txt"));
    assert!(matches!(node_message_action("command", "start_server"), NodeMessageAction::Command));
}

#[test]
fn stream_lines_are_skipped_parsed_or_waited_on() {
    assert_eq!(json_line_step(""), LineStep::Skip);
    assert_eq!(json_line_step("  <|END_OF_FILE|> "), LineStep::EndMarker);
    assert_eq!(json_line_step(" {\"type\":\"command\"} "), LineStep::Parse);
    assert_eq!(json_line_step("{\"partial\":"), LineStep::Stop);
    assert_eq!(json_line_step("   "), LineStep::Stop);
}

#[test]
fn the_buffer_is_capped() {
    assert_eq!(MAX_BUFFER_SIZE, 50 * 1024 * 1024);
    assert!(!buffer_overflows(MAX_BUFFER_SIZE));
    assert!(buffer_overflows(MAX_BUFFER_SIZE + 1));
}

#[test]
fn end_markers_are_cleaned_out_of_files() {
    let m = b"<|END_OF_FILE|>";
    let content = b"abc<|END_OF_FILE|>def<|END_OF_FILE|>".to_vec();
    assert_eq!(strip_end_markers(&content, m), b"abcdef".to_vec());
    assert_eq!(strip_end_markers(&b"<|END_OF_F".to_vec(), m), b"<|END_OF_F".to_vec());
    assert_eq!(strip_end_markers(&b"xy".to_vec(), b""), b"xy".to_vec());
}

#[test]
fn only_custom_providers_read_a_configuration() {
    assert!(provider_needs_config("custom"));
    assert!(!provider_needs_config("minecraft"));
}

#[test]
fn enabling_rcon_twice_changes_nothing_more() {
    let original = "motd=A server\nenable-rcon=false\nrcon.password=\n";
    let once = enable_rcon_properties(original);
    assert_eq!(once, "motd=A server\nenable-rcon=true\nrcon.password=changeme\nrcon.password=changeme\nrcon.port=25575\n");
    assert_eq!(enable_rcon_properties(&once), once);
    let empty_once = enable_rcon_properties("");
    assert_eq!(enable_rcon_properties(&empty_once), empty_once);
}

#[test]
fn configuration_reads_the_last_write() {
    let p = ProviderType::new("custom".to_string());
    assert!(p.get_config("start").is_none());
    let p = p.with_config("start".to_string(), "one".to_string()).with_config("install".to_string(), "i".to_string());
    let p = p.with_config("start".to_string(), "two".to_string());
    assert_eq!(p.get_config("start").map(|s| s.as_str()), Some("two"));
    assert_eq!(p.get_config("install").map(|s| s.as_str()), Some("i"));
}

#[test]
fn rewritten_lines_may_end_with_a_carriage_return() {
    let once = enable_rcon_properties("enable-rcon=false\r");
    assert_eq!(once, "enable-rcon=true\nrcon.password=changeme\nrcon.port=25575\n");
    assert_eq!(enable_rcon_properties(&once), once);
    let kept = enable_rcon_properties("baz\r");
    assert_ne!(enable_rcon_properties(&kept), kept);
}

#[test]
fn spans_give_their_readings() {
    assert_eq!(span_result::<u8, &str>(SpanReading::NotJson("bad")), Some(Err("bad")));
    assert_eq!(span_result::<u8, &str>(SpanReading::ConsoleInner(Some(3))), Some(Ok(3)));
    assert_eq!(span_result::<u8, &str>(SpanReading::ConsoleData(None)), None);
    assert_eq!(span_result::<u8, &str>(SpanReading::Other(Err("wrong shape"))), Some(Err("wrong shape")));
}

#[test]
fn lines_are_selected_by_filter() {
    assert!(line_selected("{\"list\":[]}", LineFilter::Lists));
    assert!(!line_selected("{\"list\":[]}", LineFilter::NotLists));
    assert!(!line_selected("", LineFilter::NotLists));
    assert!(line_selected("{\"src\":1}", LineFilter::Transfers));
    assert!(line_selected("{\"message\":\"pong\"}", LineFilter::Messages));
    assert!(!line_selected("{\"type\":1}", LineFilter::Kinds));
    assert_eq!(quoted_line("plain text"), "\"plain text\"");
}
