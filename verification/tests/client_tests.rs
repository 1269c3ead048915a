use servo_sim::client::{ClientModel, UiEvent};
use servo_sim::protocol::{Command, Message, ServoParams, SimulationState};

fn params(kp: f64) -> ServoParams<f64> {
    ServoParams {
        mass: 1.0,
        friction: 0.1,
        kp,
        ki: 0.5,
        kd: 5.0,
        gear_ratio: 1.0,
        motor_inertia: 0.1,
        motor_torque_const: 1.5,
        drive_max_current: 20.0,
    }
}

fn state(t: f64) -> SimulationState<f64> {
    SimulationState {
        time: t,
        master_pos: t + 1.0,
        master_vel: t + 2.0,
        master_acc: t + 3.0,
        slave_pos: t + 4.0,
        slave_vel: t + 5.0,
        slave_acc: t + 6.0,
        target_pos: t + 7.0,
        error: t + 8.0,
    }
}

fn fresh() -> ClientModel<f64> {
    ClientModel::new(params(50.0), state(0.0), 0.0)
}

#[test]
fn new_client_has_heard_nothing() {
    let m = fresh();
    assert!(!m.is_connected);
    assert!(!m.pos_mode);
    assert_eq!(m.history.len(), 0);
    assert_eq!(m.latest_state, state(0.0));
    assert_eq!(m.target_vel, 0.0);
}

#[test]
fn last_status_report_decides_the_link() {
    let mut m = fresh();
    m.process_messages(&vec![true, false, true], &Vec::new());
    assert!(m.is_connected);
    m.process_messages(&vec![false], &Vec::new());
    assert!(!m.is_connected);
    m.process_messages(&Vec::new(), &Vec::new());
    assert!(!m.is_connected);
}

#[test]
fn telemetry_and_acknowledgements_are_taken_in() {
    let mut m = fresh();
    let msgs = vec![
        Message::Telemetry(state(1.0)),
        Message::ParamsAck(params(70.0)),
        Message::Telemetry(state(2.0)),
        Message::ParamsAck(params(80.0)),
    ];
    m.process_messages(&vec![true], &msgs);
    assert_eq!(m.latest_state, state(2.0));
    assert_eq!(m.params, params(80.0));
    let t: Vec<f64> = m.history.time_series().iter().copied().collect();
    assert_eq!(t, vec![1.0, 2.0]);
    let e: Vec<f64> = m.history.error_series().iter().copied().collect();
    assert_eq!(e, vec![9.0, 10.0]);
}

#[test]
fn acknowledgement_alone_keeps_the_telemetry() {
    let mut m = fresh();
    m.process_messages(&Vec::new(), &vec![Message::ParamsAck(params(1.0))]);
    assert_eq!(m.params, params(1.0));
    assert_eq!(m.latest_state, state(0.0));
    assert_eq!(m.history.len(), 0);
}

#[test]
fn batches_compose() {
    let msgs: Vec<Message<f64>> = (0..700)
        .map(|i| if i % 7 == 3 { Message::ParamsAck(params(i as f64)) } else { Message::Telemetry(state(i as f64)) })
        .collect();
    let mut at_once = fresh();
    at_once.process_messages(&Vec::new(), &msgs);
    let mut in_parts = fresh();
    in_parts.process_messages(&Vec::new(), &msgs[..250].to_vec());
    in_parts.process_messages(&Vec::new(), &msgs[250..].to_vec());
    assert_eq!(at_once.params, in_parts.params);
    assert_eq!(at_once.latest_state, in_parts.latest_state);
    let a: Vec<f64> = at_once.history.slave_pos_series().iter().copied().collect();
    let b: Vec<f64> = in_parts.history.slave_pos_series().iter().copied().collect();
    assert_eq!(a, b);
    assert_eq!(a.len(), 500);
    assert_eq!(at_once.params, params(696.0));
    assert_eq!(at_once.latest_state, state(699.0));
}

#[test]
fn events_give_their_commands() {
    let mut m = fresh();
    m.target_vel = 33.0;
    m.target_pos = -4.0;
    assert_eq!(m.command_for(UiEvent::ParamsEdited), Some(Command::UpdateParams(params(50.0))));
    assert_eq!(m.command_for(UiEvent::MasterVelChanged), Some(Command::SetMasterTargetVel(33.0)));
    assert_eq!(m.command_for(UiEvent::ResetPressed), Some(Command::Reset));
    assert_eq!(m.command_for(UiEvent::SlavePosChanged), None);
    assert_eq!(m.command_for(UiEvent::SyncWithMaster), Some(Command::SetSlaveTargetPos(None)));
    m.pos_mode = true;
    assert_eq!(m.command_for(UiEvent::SlavePosChanged), Some(Command::SetSlaveTargetPos(Some(-4.0))));
    assert_eq!(m.command_for(UiEvent::SyncWithMaster), None);
}
