//! The values that travel between the controller and its clients.
//!
//! Every type here is generic over the scalar `F` in which physical
//! quantities are written; the programs instantiate it with their own
//! number type and serialise the values themselves.
use vstd::prelude::*;

verus! {

/// Tunable parameters of the servo drive and of the load it moves.
#[derive(Clone, Copy, Debug, PartialEq)]
pub struct ServoParams<F> {
    pub mass: F,
    pub friction: F,
    pub kp: F,
    pub ki: F,
    pub kd: F,
    pub gear_ratio: F,
    pub motor_inertia: F,
    pub motor_torque_const: F,
    pub drive_max_current: F,
}

/// One snapshot of the simulated master and slave axes.
#[derive(Clone, Copy, Debug, PartialEq)]
pub struct SimulationState<F> {
    pub time: F,
    pub master_pos: F,
    pub master_vel: F,
    pub master_acc: F,
    pub slave_pos: F,
    pub slave_vel: F,
    pub slave_acc: F,
    pub target_pos: F,
    pub error: F,
}

/// A request sent by a client to the controller.
#[derive(Clone, Copy, Debug, PartialEq)]
pub enum Command<F> {
    UpdateParams(ServoParams<F>),
    SetMasterTargetVel(F),
    SetSlaveTargetPos(Option<F>),
    Reset,
}

/// A notice sent by the controller to every connected client.
#[derive(Clone, Copy, Debug, PartialEq)]
pub enum Message<F> {
    Telemetry(SimulationState<F>),
    ParamsAck(ServoParams<F>),
}

} // verus!
