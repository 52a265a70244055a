use logtail::resolver::{build_filter_expression, build_slice_filter};
use logtail::watch::{PollDecision, Teardown, WatchController};

fn expression_for(raw: &str) -> String {
    let expression = build_filter_expression(&raw.as_bytes().to_vec());
    String::from_utf8(expression).unwrap()
}

#[test]
fn empty_inventory_resolves_to_empty_expression() {
    assert_eq!(expression_for(""), "");
    assert_eq!(expression_for("\n"), "");
    assert_eq!(expression_for("\n\n\n"), "");
}

#[test]
fn single_instance_has_no_separator() {
    assert_eq!(expression_for("1234\n"), "resource.labels.instance_id=1234");
}

#[test]
fn expression_joins_ids_with_or() {
    assert_eq!(
        expression_for("1234\n5678\n"),
        "resource.labels.instance_id=1234 OR resource.labels.instance_id=5678"
    );
}

#[test]
fn blank_inventory_lines_are_skipped() {
    assert_eq!(
        expression_for("\n1234\n\n5678\n\n"),
        "resource.labels.instance_id=1234 OR resource.labels.instance_id=5678"
    );
}

#[test]
fn empty_expression_is_not_an_error_for_the_controller() {
    let mut controller = WatchController::new(Vec::new());
    controller.mark_stream_started();
    let decision = controller.decide_poll(&Vec::new());
    assert!(matches!(decision, PollDecision::KeepStream));
}

#[test]
fn reordered_ids_count_as_drift() {
    let first = build_filter_expression(&b"1234\n5678\n".to_vec());
    let second = build_filter_expression(&b"5678\n1234\n".to_vec());
    assert_ne!(first, second);

    let mut controller = WatchController::new(first);
    controller.mark_stream_started();
    let decision = controller.decide_poll(&second);
    assert!(matches!(decision, PollDecision::RestartStream));
}

#[test]
fn unchanged_expression_keeps_the_stream() {
    let first = build_filter_expression(&b"1234\n5678\n".to_vec());
    let again = build_filter_expression(&b"1234\n5678\n".to_vec());
    let mut controller = WatchController::new(first);
    controller.mark_stream_started();
    assert!(matches!(controller.decide_poll(&again), PollDecision::KeepStream));
}

#[test]
fn restart_order_is_stop_adopt_start() {
    let mut controller = WatchController::new(b"old".to_vec());
    controller.mark_stream_started();
    assert!(controller.streaming_now());

    let mut teardown = Teardown::begin();
    teardown.mark_process_killed();
    teardown.mark_process_exited();
    teardown.mark_task_cancelled();
    teardown.mark_task_joined();
    controller.mark_stream_stopped(&teardown);
    assert!(!controller.streaming_now());

    controller.adopt_expression(b"new".to_vec());
    assert_eq!(controller.expression_bytes().as_slice(), b"new");
    controller.mark_stream_started();
    assert!(controller.streaming_now());
}

#[test]
fn slice_filter_wraps_expression_and_range() {
    let expression = b"resource.labels.instance_id=1234".to_vec();
    let filter_text = build_slice_filter(
        &expression,
        &b"2023-01-01T00:00:00+00:00".to_vec(),
        &b"2023-01-02T00:00:00+00:00".to_vec(),
    );
    assert_eq!(
        String::from_utf8(filter_text).unwrap(),
        "(resource.labels.instance_id=1234) AND timestamp<=\"2023-01-02T00:00:00+00:00\" AND timestamp>=\"2023-01-01T00:00:00+00:00\""
    );
}

#[test]
fn trim_strips_surrounding_whitespace() {
    let trimmed = logtail::bytes::trim_bytes(&b"  my-project\n".to_vec());
    assert_eq!(trimmed, b"my-project".to_vec());
    assert_eq!(logtail::bytes::trim_bytes(&b" \t \n".to_vec()), Vec::<u8>::new());
    assert_eq!(logtail::bytes::trim_bytes(&b"solid".to_vec()), b"solid".to_vec());
}
