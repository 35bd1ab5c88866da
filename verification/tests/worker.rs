use push_gateway::gateway::worker::{is_interrupted, WorkerState};

#[test]
fn a_completed_row_is_forgotten() {
    let mut state = WorkerState {
        current_row: None,
        retained_rows: vec![4, 7],
        pending: vec![4, 7, 9],
    };
    state.begin_row(7);
    assert_eq!(state.current_row, Some(7));
    assert_eq!(state.retained_rows, vec![4]);
    assert_eq!(state.pending, vec![4, 7, 9]);
    state.finish_row(7, true);
    assert_eq!(state.current_row, None);
    assert_eq!(state.retained_rows, vec![4]);
    assert_eq!(state.pending, vec![4, 9]);
}

#[test]
fn an_open_row_is_retained_once() {
    let mut state = WorkerState {
        current_row: None,
        retained_rows: vec![7],
        pending: vec![7],
    };
    state.finish_row(7, false);
    state.finish_row(7, false);
    assert_eq!(state.retained_rows, vec![7]);
    assert_eq!(state.pending, vec![7]);
}

#[test]
fn a_stop_is_for_one_row() {
    assert!(is_interrupted(7, 7));
    assert!(!is_interrupted(0, 7));
}
