use servo_sim::controller::{ControlInputs, Reaction};
use servo_sim::protocol::{Command, Message, ServoParams};

fn params(kp: f64) -> ServoParams<f64> {
    ServoParams {
        mass: 1.0,
        friction: 0.1,
        kp,
        ki: 0.5,
        kd: 5.0,
        gear_ratio: 1.0,
        motor_inertia: 0.1,
        motor_torque_const: 1.5,
        drive_max_current: 20.0,
    }
}

#[test]
fn fresh_inputs_rest() {
    let c = ControlInputs::new(params(50.0), 0.0);
    assert_eq!(c.master_target_vel, 0.0);
    assert_eq!(c.slave_target_pos, None);
    assert_eq!(c.params, params(50.0));
}

#[test]
fn update_params_is_acknowledged() {
    let mut c = ControlInputs::new(params(50.0), 0.0);
    let r = c.apply(Command::UpdateParams(params(80.0)));
    assert_eq!(r, Reaction::Broadcast(Message::ParamsAck(params(80.0))));
    assert_eq!(c.params, params(80.0));
    assert_eq!(c.master_target_vel, 0.0);
}

#[test]
fn setpoint_commands_need_nothing_more() {
    let mut c = ControlInputs::new(params(50.0), 0.0);
    assert_eq!(c.apply(Command::SetMasterTargetVel(12.5)), Reaction::Nothing);
    assert_eq!(c.master_target_vel, 12.5);
    assert_eq!(c.apply(Command::SetSlaveTargetPos(Some(3.0))), Reaction::Nothing);
    assert_eq!(c.slave_target_pos, Some(3.0));
    assert_eq!(c.apply(Command::SetSlaveTargetPos(None)), Reaction::Nothing);
    assert_eq!(c.slave_target_pos, None);
    assert_eq!(c.params, params(50.0));
}

#[test]
fn reset_restores_the_setpoints_and_keeps_the_params() {
    let mut c = ControlInputs::new(params(50.0), 0.0);
    c.apply(Command::UpdateParams(params(7.0)));
    c.apply(Command::SetMasterTargetVel(-40.0));
    c.apply(Command::SetSlaveTargetPos(Some(9.0)));
    let r = c.apply(Command::Reset);
    assert_eq!(r, Reaction::ResetSimulation);
    assert_eq!(c.master_target_vel, 0.0);
    assert_eq!(c.slave_target_pos, None);
    assert_eq!(c.params, params(7.0));
}

#[test]
fn last_command_of_each_kind_wins() {
    let mut c = ControlInputs::new(params(50.0), 0.0);
    let cmds = vec![
        Command::SetMasterTargetVel(5.0),
        Command::UpdateParams(params(60.0)),
        Command::SetSlaveTargetPos(Some(2.0)),
        Command::SetMasterTargetVel(6.0),
        Command::UpdateParams(params(70.0)),
        Command::SetSlaveTargetPos(Some(3.0)),
    ];
    for cmd in &cmds {
        c.apply(*cmd);
    }
    assert_eq!(c.params, params(70.0));
    assert_eq!(c.master_target_vel, 6.0);
    assert_eq!(c.slave_target_pos, Some(3.0));

    // A reset overrides the set-points sent before it, not those after it.
    c.apply(Command::SetMasterTargetVel(9.0));
    c.apply(Command::Reset);
    c.apply(Command::SetSlaveTargetPos(Some(-1.0)));
    assert_eq!(c.master_target_vel, 0.0);
    assert_eq!(c.slave_target_pos, Some(-1.0));
    assert_eq!(c.params, params(70.0));
}
