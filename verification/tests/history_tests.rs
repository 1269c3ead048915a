use servo_sim::history::{PlotHistory, MAX_HISTORY};
use servo_sim::protocol::SimulationState;

fn state(t: f64) -> SimulationState<f64> {
    SimulationState {
        time: t,
        master_pos: t * 2.0,
        master_vel: t * 3.0,
        master_acc: -1.0,
        slave_pos: t * 4.0,
        slave_vel: t * 5.0,
        slave_acc: -2.0,
        target_pos: -3.0,
        error: t * 6.0,
    }
}

#[test]
fn new_history_is_empty() {
    let h: PlotHistory<f64> = PlotHistory::new();
    assert_eq!(h.len(), 0);
    assert!(h.time_series().is_empty());
    assert!(h.error_series().is_empty());
}

#[test]
fn record_takes_the_plotted_fields() {
    let mut h = PlotHistory::new();
    h.record(&state(1.0));
    h.record(&state(2.0));
    assert_eq!(h.len(), 2);
    let t: Vec<f64> = h.time_series().iter().copied().collect();
    assert_eq!(t, vec![1.0, 2.0]);
    let mp: Vec<f64> = h.master_pos_series().iter().copied().collect();
    assert_eq!(mp, vec![2.0, 4.0]);
    let sp: Vec<f64> = h.slave_pos_series().iter().copied().collect();
    assert_eq!(sp, vec![4.0, 8.0]);
    let mv: Vec<f64> = h.master_vel_series().iter().copied().collect();
    assert_eq!(mv, vec![3.0, 6.0]);
    let sv: Vec<f64> = h.slave_vel_series().iter().copied().collect();
    assert_eq!(sv, vec![5.0, 10.0]);
    let e: Vec<f64> = h.error_series().iter().copied().collect();
    assert_eq!(e, vec![6.0, 12.0]);
}

#[test]
fn history_fills_up_to_the_limit() {
    let mut h = PlotHistory::new();
    for i in 0..MAX_HISTORY {
        h.record(&state(i as f64));
    }
    assert_eq!(h.len(), 500);
    assert_eq!(*h.time_series().front().unwrap(), 0.0);
    assert_eq!(*h.time_series().back().unwrap(), 499.0);
}

#[test]
fn full_history_drops_the_oldest_sample() {
    let mut h = PlotHistory::new();
    for i in 0..(MAX_HISTORY + 1) {
        h.record(&state(i as f64));
    }
    assert_eq!(h.len(), MAX_HISTORY);
    assert_eq!(*h.time_series().front().unwrap(), 1.0);
    assert_eq!(*h.time_series().back().unwrap(), 500.0);
    assert_eq!(*h.error_series().front().unwrap(), 6.0);
}

#[test]
fn history_keeps_the_latest_samples() {
    let mut h = PlotHistory::new();
    let n = 1234;
    for i in 0..n {
        h.record(&state(i as f64));
    }
    let t: Vec<f64> = h.time_series().iter().copied().collect();
    let expected: Vec<f64> = ((n - MAX_HISTORY)..n).map(|i| i as f64).collect();
    assert_eq!(t, expected);
    let sv: Vec<f64> = h.slave_vel_series().iter().copied().collect();
    let expected_sv: Vec<f64> = ((n - MAX_HISTORY)..n).map(|i| i as f64 * 5.0).collect();
    assert_eq!(sv, expected_sv);
}
