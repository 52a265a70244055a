use logtail::fault::{authentication_ok, describe, exit_code, is_fatal, ErrorKind};
use logtail::render::{clean_block, Decorated, LogEntry, Pretty, Raw, RenderStyle};

/// Decode one cleaned record block the way the sink does: structured-data
/// document, payload under `json_payload` or its alias `jsonPayload`.
fn decode_entry(block: &[u8]) -> Option<LogEntry> {
    let cleaned = clean_block(&block.to_vec());
    let text = String::from_utf8(cleaned).ok()?;
    let value: serde_yaml::Value = serde_yaml::from_str(&text).ok()?;
    let payload = value.get("json_payload").or_else(|| value.get("jsonPayload"))?;
    let message = payload.get("message")?.as_str()?.to_string();
    let time = payload.get("time")?.as_str()?.to_string();
    let instance_id = value
        .get("resource")?
        .get("labels")?
        .get("instance_id")?
        .as_str()?
        .to_string();
    Some(LogEntry {
        message: message.into_bytes(),
        time: time.into_bytes(),
        instance_id: instance_id.into_bytes(),
    })
}

fn scenario_block() -> Vec<u8> {
    let mut block = Vec::new();
    block.extend_from_slice(
        b"json_payload: {message: \"Test message\", time: \"2023-01-01T12:00:00Z\"}\n",
    );
    block.extend_from_slice(b"resource: {labels: {instance_id: \"test-instance\"}}\n");
    block
}

#[test]
fn raw_style_prints_message_only() {
    let entry = decode_entry(&scenario_block()).unwrap();
    let out = Raw.render(&entry);
    assert_eq!(String::from_utf8(out).unwrap(), "Test message");
}

#[test]
fn pretty_style_pads_id_and_timestamp() {
    let entry = decode_entry(&scenario_block()).unwrap();
    let out = Pretty.render(&entry);
    assert_eq!(
        String::from_utf8(out).unwrap(),
        "[test-instance      ] 2023-01-01T12:00:00Z           | Test message"
    );
}

#[test]
fn decorated_style_colors_id_and_timestamp() {
    let entry = decode_entry(&scenario_block()).unwrap();
    let out = Decorated.render(&entry);
    assert_eq!(
        String::from_utf8(out).unwrap(),
        "[\u{1b}[32mtest-instance      \u{1b}[39m] \u{1b}[32m2023-01-01T12:00:00Z          \u{1b}[39m | Test message"
    );
}

#[test]
fn same_instance_keeps_its_color_across_entries() {
    let first = decode_entry(&scenario_block()).unwrap();
    let second = LogEntry {
        message: b"Another message".to_vec(),
        time: b"2023-01-01T12:00:05Z".to_vec(),
        instance_id: b"test-instance".to_vec(),
    };
    let first_out = Decorated.render(&first);
    let second_out = Decorated.render(&second);
    assert_eq!(&first_out[..20], &second_out[..20]);
}

#[test]
fn malformed_block_yields_no_output_and_stream_goes_on() {
    let mut malformed = Vec::new();
    malformed.extend_from_slice(
        b"json_payload: {message: \"Test message\", time: \"2023-01-01T12:00:00Z\"}\n",
    );
    assert!(decode_entry(&malformed).is_none());

    let mut rendered = Vec::new();
    for block in [&malformed, &scenario_block()] {
        if let Some(entry) = decode_entry(block) {
            rendered.push(Raw.render(&entry));
        }
    }
    assert_eq!(rendered, vec![b"Test message".to_vec()]);
}

#[test]
fn repeated_rendering_is_byte_identical() {
    let block = scenario_block();
    let first = Pretty.render(&decode_entry(&block).unwrap());
    let second = Pretty.render(&decode_entry(&block).unwrap());
    assert_eq!(first, second);
    let third = Decorated.render(&decode_entry(&block).unwrap());
    let fourth = Decorated.render(&decode_entry(&block).unwrap());
    assert_eq!(third, fourth);
}

#[test]
fn clean_block_strips_terminal_escapes() {
    let colored = b"\x1b[31mTest\x1b[39m message".to_vec();
    assert_eq!(clean_block(&colored), b"Test message".to_vec());
    let plain = b"already plain".to_vec();
    assert_eq!(clean_block(&plain), b"already plain".to_vec());
}

#[test]
fn colored_source_block_still_decodes() {
    let mut block = Vec::new();
    block.extend_from_slice(
        b"json_payload: {message: \"\x1b[33mTest message\x1b[39m\", time: \"2023-01-01T12:00:00Z\"}\n",
    );
    block.extend_from_slice(b"resource: {labels: {instance_id: \"test-instance\"}}\n");
    let entry = decode_entry(&block).unwrap();
    assert_eq!(Raw.render(&entry), b"Test message".to_vec());
}

#[test]
fn test_transpose() {
    let log_data = "---\njson_payload:\n  message: \"Test message\"\n  time: \"2023-01-01T12:00:00Z\"\nresource:\n  labels:\n    instance_id: \"test-instance\"\n---\n";
    let lines: Vec<Vec<u8>> = log_data.lines().map(|l| l.as_bytes().to_vec()).collect();
    let blocks = logtail::reassembler::reassemble_all(&lines);
    let mut result = Vec::new();
    for block in &blocks {
        if let Some(entry) = decode_entry(block) {
            result.extend_from_slice(&Raw.render(&entry));
        }
    }
    assert_eq!(String::from_utf8(result).unwrap(), "Test message");
}

#[test]
fn test_process_slice_output() {
    let log_data = r#"
            ---
            json_payload:
              message: "Test message"
              time: "2023-01-01T12:00:00Z"
            resource:
              labels:
                instance_id: "test-instance"
            ---
        "#;
    let lines: Vec<Vec<u8>> = log_data.lines().map(|l| l.as_bytes().to_vec()).collect();
    let blocks = logtail::reassembler::reassemble_all(&lines);
    for block in &blocks {
        if let Some(entry) = decode_entry(block) {
            let _ = Pretty.render(&entry);
        }
    }
}

#[test]
fn test_print_log_entry() {
    let yaml_data = r#"
            json_payload:
              message: "Test message"
              time: "2023-01-01T12:00:00Z"
            resource:
              labels:
                instance_id: "test-instance"
        "#;
    if let Some(entry) = decode_entry(yaml_data.as_bytes()) {
        let _ = Pretty.render(&entry);
    }
}

#[test]
fn error_kinds_map_to_exit_codes() {
    assert!(!is_fatal(&ErrorKind::Decode));
    assert_eq!(exit_code(&ErrorKind::Decode), 0);
    for kind in [
        ErrorKind::Resolution,
        ErrorKind::Source,
        ErrorKind::ProcessCleanup,
        ErrorKind::Authentication,
    ] {
        assert!(is_fatal(&kind));
        assert_eq!(exit_code(&kind), 1);
    }
    assert_eq!(describe(&ErrorKind::Resolution), "inventory lookup failed");
}

#[test]
fn authentication_needs_a_successful_exit() {
    assert!(authentication_ok(true, true));
    assert!(!authentication_ok(true, false));
    assert!(!authentication_ok(false, false));
}
