use cwl_worker::state::{AppState, WorkerError};
use cwl_worker::worker::{extract_names, PollResponse, QueryStatus};
use cwl_worker::rows::{render_row, render_rows};

fn page(names: &[Option<&str>]) -> Vec<Option<String>> {
    names.iter().map(|n| n.map(|s| s.to_string())).collect()
}

fn strings(names: &[&str]) -> Vec<String> {
    names.iter().map(|s| s.to_string()).collect()
}

fn rows(rows: &[&[&str]]) -> Vec<Vec<String>> {
    rows.iter().map(|r| strings(r)).collect()
}

fn running(batch: Option<Vec<Vec<String>>>) -> PollResponse {
    PollResponse { status: QueryStatus::Running, rows: batch }
}

fn complete(batch: Option<Vec<Vec<String>>>) -> PollResponse {
    PollResponse { status: QueryStatus::Complete, rows: batch }
}

#[test]
fn listing_two_pages_in_order() {
    let mut state = AppState::new();
    let pages = vec![page(&[Some("a"), Some("b")]), page(&[Some("c")])];
    state.run_list_request(&pages);
    assert_eq!(state.log_groups, strings(&["a", "b", "c"]));
    assert!(state.error.is_none());
}

#[test]
fn listing_search_index_finds_each_name_at_its_position() {
    let mut state = AppState::new();
    let pages = vec![page(&[Some("alpha"), Some("beta")]), page(&[Some("gamma")])];
    state.run_list_request(&pages);
    assert_eq!(state.log_group_search_index.search(&"alpha".to_string()), vec![0]);
    assert_eq!(state.log_group_search_index.search(&"beta".to_string()), vec![1]);
    assert_eq!(state.log_group_search_index.search(&"gamma".to_string()), vec![2]);
}

#[test]
fn listing_refresh_replaces_list_and_index() {
    let mut state = AppState::new();
    state.run_list_request(&vec![page(&[Some("alpha"), Some("beta")])]);
    state.run_list_request(&vec![page(&[Some("gamma")])]);
    assert_eq!(state.log_groups, strings(&["gamma"]));
    assert_eq!(state.log_group_search_index.search(&"gamma".to_string()), vec![0]);
    assert!(state.log_group_search_index.search(&"alpha".to_string()).is_empty());
}

#[test]
fn listing_skips_entries_without_a_name() {
    let mut state = AppState::new();
    let pages = vec![page(&[Some("a"), None, Some("b")]), page(&[None])];
    state.run_list_request(&pages);
    assert_eq!(state.log_groups, strings(&["a", "b"]));
}

#[test]
fn listing_survives_a_page_with_zero_names() {
    let mut state = AppState::new();
    let pages = vec![page(&[Some("a")]), page(&[]), page(&[Some("b")])];
    state.run_list_request(&pages);
    assert_eq!(state.log_groups, strings(&["a", "b"]));
}

#[test]
fn extract_names_keeps_order_and_drops_missing() {
    let names = extract_names(&page(&[None, Some("x"), None, Some("y")]));
    assert_eq!(names, strings(&["x", "y"]));
}

#[test]
fn polling_publishes_partial_then_final_rows() {
    let mut state = AppState::new();
    let polls = vec![
        running(Some(rows(&[&["1"]]))),
        running(Some(rows(&[&["1"], &["2"]]))),
        complete(Some(rows(&[&["1"], &["2"], &["3"]]))),
    ];
    let stopped = state.run_polls(&polls);
    assert_eq!(stopped, 2);
    assert_eq!(state.results, strings(&["1", "2", "3"]));
}

#[test]
fn polling_stops_at_first_terminal_status() {
    let mut state = AppState::new();
    let polls = vec![
        running(None),
        PollResponse { status: QueryStatus::Failed, rows: Some(rows(&[&["boom"]])) },
        complete(Some(rows(&[&["late"]]))),
    ];
    let stopped = state.run_polls(&polls);
    assert_eq!(stopped, 1);
    assert_eq!(state.results, strings(&["boom"]));
}

#[test]
fn polling_without_rows_keeps_previous_results() {
    let mut state = AppState::new();
    state.results = strings(&["kept"]);
    let stopped = state.run_polls(&vec![complete(None)]);
    assert_eq!(stopped, 0);
    assert_eq!(state.results, strings(&["kept"]));
}

#[test]
fn query_submission_error_is_visible_and_worker_goes_on() {
    let mut state = AppState::new();
    state.results = strings(&["old"]);
    state.run_query_request(Err("denied".to_string()), &Vec::new());
    assert_eq!(state.error, Some(WorkerError::Submission("denied".to_string())));
    assert_eq!(state.results, strings(&["old"]));
    state.run_list_request(&vec![page(&[Some("after")])]);
    assert_eq!(state.log_groups, strings(&["after"]));
}

#[test]
fn query_response_without_job_id_is_malformed() {
    let mut state = AppState::new();
    let job_gone: Result<Option<String>, String> = Ok(None);
    state.run_query_request(job_gone, &Vec::new());
    assert_eq!(state.error, Some(WorkerError::MalformedResponse));
}

#[test]
fn query_run_snapshots_inputs_and_publishes_results() {
    let mut state = AppState::new();
    state.selected_log_groups = strings(&["g1", "g2"]);
    state.query = "fields @message".to_string();
    let polls = vec![running(Some(rows(&[&["1"]]))), complete(Some(rows(&[&["1"], &["2"]])))];
    let snap = state.run_query_request(Ok(Some("job-1".to_string())), &polls);
    assert_eq!(snap.0, strings(&["g1", "g2"]));
    assert_eq!(snap.1, "fields @message");
    assert!(state.error.is_none());
    assert_eq!(state.results, strings(&["1", "2"]));
}

#[test]
fn snapshot_is_isolated_from_later_edits() {
    let mut state = AppState::new();
    state.selected_log_groups = strings(&["g1"]);
    state.query = "before".to_string();
    let snap = state.snapshot_query_inputs();
    state.selected_log_groups = strings(&["other"]);
    state.query = "after".to_string();
    assert_eq!(snap.0, strings(&["g1"]));
    assert_eq!(snap.1, "before");
}

#[test]
fn empty_selection_and_query_pass_through_unchanged() {
    let state = AppState::new();
    let snap = state.snapshot_query_inputs();
    assert!(snap.0.is_empty());
    assert_eq!(snap.1, "");
}

#[test]
fn remote_failure_is_recorded_not_fatal() {
    let mut state = AppState::new();
    state.record_remote_error("timeout".to_string());
    assert_eq!(state.error, Some(WorkerError::TransientNetwork("timeout".to_string())));
    state.run_list_request(&vec![page(&[Some("next")])]);
    assert_eq!(state.log_groups, strings(&["next"]));
}

#[test]
fn render_row_joins_fields_with_comma_and_space() {
    assert_eq!(render_row(&strings(&["a", "b", "c"])), "a, b, c");
    assert_eq!(render_row(&strings(&["only"])), "only");
    assert_eq!(render_row(&strings(&[])), "");
}

#[test]
fn render_rows_renders_each_row() {
    let out = render_rows(&rows(&[&["ts", "msg"], &["x"]]));
    assert_eq!(out, strings(&["ts, msg", "x"]));
}

#[test]
fn channel_loss_is_surfaced_as_fatal() {
    let mut state = AppState::new();
    state.results = strings(&["kept"]);
    state.record_channel_closed();
    assert_eq!(state.error, Some(WorkerError::ChannelClosed));
    assert_eq!(state.results, strings(&["kept"]));
}

#[test]
fn index_rebuild_then_append_keeps_positions() {
    let mut idx = cwl_worker::index::LogGroupIndex::rebuild(&strings(&["one"]));
    idx.append(&strings(&["two"]), 1);
    assert_eq!(idx.search(&"one".to_string()), vec![0]);
    assert_eq!(idx.search(&"two".to_string()), vec![1]);
}
