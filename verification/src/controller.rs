//! The controller's handling of the commands its clients send.
use vstd::prelude::*;

use crate::protocol::{Command, Message, ServoParams};

verus! {

/// What the simulation loop has to do after a command was taken in.
#[derive(Clone, Copy, Debug, PartialEq)]
pub enum Reaction<F> {
    /// Send this message to every connected client.
    Broadcast(Message<F>),
    /// Bring the simulated axes back to rest.
    ResetSimulation,
    /// Nothing beyond the change of set-points.
    Nothing,
}

/// The inputs of the simulation that clients control: the drive
/// parameters and the set-points of both axes.
#[derive(Clone, Copy, Debug, PartialEq)]
pub struct ControlInputs<F> {
    pub params: ServoParams<F>,
    /// Velocity the master axis is driven at.
    pub master_target_vel: F,
    /// Absolute position the slave axis is held at; `None` while it
    /// follows the master through the gear ratio.
    pub slave_target_pos: Option<F>,
    /// Master velocity that a reset restores.
    pub rest_vel: F,
}

/// The inputs after `cmd`.
pub open spec fn next_inputs<F>(c: ControlInputs<F>, cmd: Command<F>) -> ControlInputs<F> {
    match cmd {
        Command::UpdateParams(p) => ControlInputs { params: p, ..c },
        Command::SetMasterTargetVel(v) => ControlInputs { master_target_vel: v, ..c },
        Command::SetSlaveTargetPos(p) => ControlInputs { slave_target_pos: p, ..c },
        Command::Reset => ControlInputs {
            master_target_vel: c.rest_vel,
            slave_target_pos: None,
            ..c
        },
    }
}

/// What the loop does after `cmd`.
pub open spec fn reaction_to<F>(cmd: Command<F>) -> Reaction<F> {
    match cmd {
        Command::UpdateParams(p) => Reaction::Broadcast(Message::ParamsAck(p)),
        Command::SetMasterTargetVel(_) => Reaction::Nothing,
        Command::SetSlaveTargetPos(_) => Reaction::Nothing,
        Command::Reset => Reaction::ResetSimulation,
    }
}

/// The inputs after each of `cmds` in turn.
pub open spec fn inputs_after<F>(c: ControlInputs<F>, cmds: Seq<Command<F>>) -> ControlInputs<F>
    decreases cmds.len(),
{
    if cmds.len() == 0 {
        c
    } else {
        next_inputs(inputs_after(c, cmds.drop_last()), cmds.last())
    }
}

impl<F: Copy> ControlInputs<F> {
    /// Inputs with the given parameters, the master at `rest_vel` and the
    /// slave following the master.
    pub fn new(params: ServoParams<F>, rest_vel: F) -> (c: Self)
        ensures
            c.params == params,
            c.master_target_vel == rest_vel,
            c.slave_target_pos == None::<F>,
            c.rest_vel == rest_vel,
    {
        ControlInputs { params, master_target_vel: rest_vel, slave_target_pos: None, rest_vel }
    }

    /// Takes in one command from a client and says what the simulation loop
    /// has to do about it: a parameter update is acknowledged to every
    /// client, a reset brings the axes back to rest together with the
    /// set-points, and the set-point commands need nothing more.
    pub fn apply(&mut self, cmd: Command<F>) -> (r: Reaction<F>)
        ensures
            *final(self) == next_inputs(*old(self), cmd),
            r == reaction_to(cmd),
            final(self).rest_vel == old(self).rest_vel,
            cmd matches Command::UpdateParams(p) ==> {
                &&& final(self).params == p
                &&& final(self).master_target_vel == old(self).master_target_vel
                &&& final(self).slave_target_pos == old(self).slave_target_pos
                &&& r == Reaction::Broadcast(Message::ParamsAck(p))
            },
            cmd matches Command::SetMasterTargetVel(v) ==> {
                &&& final(self).params == old(self).params
                &&& final(self).master_target_vel == v
                &&& final(self).slave_target_pos == old(self).slave_target_pos
                &&& r == Reaction::<F>::Nothing
            },
            cmd matches Command::SetSlaveTargetPos(q) ==> {
                &&& final(self).params == old(self).params
                &&& final(self).master_target_vel == old(self).master_target_vel
                &&& final(self).slave_target_pos == q
                &&& r == Reaction::<F>::Nothing
            },
            cmd is Reset ==> {
                &&& final(self).params == old(self).params
                &&& final(self).master_target_vel == old(self).rest_vel
                &&& final(self).slave_target_pos == None::<F>
                &&& r == Reaction::<F>::ResetSimulation
            },
    {
        match cmd {
            Command::UpdateParams(p) => {
                self.params = p;
                Reaction::Broadcast(Message::ParamsAck(p))
            },
            Command::SetMasterTargetVel(v) => {
                self.master_target_vel = v;
                Reaction::Nothing
            },
            Command::SetSlaveTargetPos(p) => {
                self.slave_target_pos = p;
                Reaction::Nothing
            },
            Command::Reset => {
                self.master_target_vel = self.rest_vel;
                self.slave_target_pos = None;
                Reaction::ResetSimulation
            },
        }
    }
}

/// The parameters of the last `UpdateParams` among `cmds`, or `p` when
/// there is none.
pub open spec fn last_params<F>(p: ServoParams<F>, cmds: Seq<Command<F>>) -> ServoParams<F>
    decreases cmds.len(),
{
    if cmds.len() == 0 {
        p
    } else {
        match cmds.last() {
            Command::UpdateParams(q) => q,
            _ => last_params(p, cmds.drop_last()),
        }
    }
}

/// The master velocity decided by `cmds`: that of the last
/// `SetMasterTargetVel` unless a `Reset` comes after it, in which case the
/// rest velocity `rest`; `v` when neither occurs.
pub open spec fn last_master_vel<F>(v: F, rest: F, cmds: Seq<Command<F>>) -> F
    decreases cmds.len(),
{
    if cmds.len() == 0 {
        v
    } else {
        match cmds.last() {
            Command::SetMasterTargetVel(w) => w,
            Command::Reset => rest,
            _ => last_master_vel(v, rest, cmds.drop_last()),
        }
    }
}

/// The slave position decided by `cmds`: that of the last
/// `SetSlaveTargetPos` unless a `Reset` comes after it, in which case
/// `None`; `p` when neither occurs.
pub open spec fn last_slave_pos<F>(p: Option<F>, cmds: Seq<Command<F>>) -> Option<F>
    decreases cmds.len(),
{
    if cmds.len() == 0 {
        p
    } else {
        match cmds.last() {
            Command::SetSlaveTargetPos(q) => q,
            Command::Reset => None,
            _ => last_slave_pos(p, cmds.drop_last()),
        }
    }
}

/// Over a batch of commands taken in one after another, the last command of
/// each kind wins: the parameters are those of the last `UpdateParams`; the
/// master velocity is that of the last `SetMasterTargetVel`, or the rest
/// velocity when a `Reset` comes after it; the slave position is that of
/// the last `SetSlaveTargetPos`, or `None` when a `Reset` comes after it.
/// Where no command of a kind occurs, the value from before stays.
pub proof fn lemma_last_command_wins<F>(c: ControlInputs<F>, cmds: Seq<Command<F>>)
    ensures
        inputs_after(c, cmds).params == last_params(c.params, cmds),
        inputs_after(c, cmds).master_target_vel == last_master_vel(
            c.master_target_vel,
            c.rest_vel,
            cmds,
        ),
        inputs_after(c, cmds).slave_target_pos == last_slave_pos(c.slave_target_pos, cmds),
        inputs_after(c, cmds).rest_vel == c.rest_vel,
    decreases cmds.len(),
{
    if cmds.len() > 0 {
        lemma_last_command_wins(c, cmds.drop_last());
    }
}

/// The same law told by kind: picking out of a batch the parameters of each
/// `UpdateParams`, the velocity of each `SetMasterTargetVel` (a `Reset`
/// counting as the rest velocity) and the position of each
/// `SetSlaveTargetPos` (a `Reset` counting as no position), the inputs after
/// the batch hold the last value picked of each kind, or the value from
/// before where none was picked.
pub proof fn lemma_batch_by_kind<F>(c: ControlInputs<F>, cmds: Seq<Command<F>>)
    ensures
        ({
            let ps = cmds.filter_map(
                |m: Command<F>|
                    match m {
                        Command::UpdateParams(p) => Some(p),
                        _ => None,
                    },
            );
            inputs_after(c, cmds).params == if ps.len() == 0 {
                c.params
            } else {
                ps[ps.len() - 1]
            }
        }),
        ({
            let vs = cmds.filter_map(
                |m: Command<F>|
                    match m {
                        Command::SetMasterTargetVel(v) => Some(v),
                        Command::Reset => Some(c.rest_vel),
                        _ => None,
                    },
            );
            inputs_after(c, cmds).master_target_vel == if vs.len() == 0 {
                c.master_target_vel
            } else {
                vs[vs.len() - 1]
            }
        }),
        ({
            let qs = cmds.filter_map(
                |m: Command<F>|
                    match m {
                        Command::SetSlaveTargetPos(q) => Some(q),
                        Command::Reset => Some(None),
                        _ => None,
                    },
            );
            inputs_after(c, cmds).slave_target_pos == if qs.len() == 0 {
                c.slave_target_pos
            } else {
                qs[qs.len() - 1]
            }
        }),
        inputs_after(c, cmds).rest_vel == c.rest_vel,
    decreases cmds.len(),
{
    if cmds.len() > 0 {
        lemma_batch_by_kind(c, cmds.drop_last());
        lemma_rest_is_kept(c, cmds.drop_last());
    }
}

/// A reset returns the set-points to those of fresh inputs, whatever came
/// before it, and keeps the parameters.
pub proof fn lemma_reset_restores_rest<F>(c: ControlInputs<F>, cmds: Seq<Command<F>>)
    ensures
        inputs_after(c, cmds.push(Command::Reset)).master_target_vel == c.rest_vel,
        inputs_after(c, cmds.push(Command::Reset)).slave_target_pos == None::<F>,
        inputs_after(c, cmds.push(Command::Reset)).params == inputs_after(c, cmds).params,
{
    assert(cmds.push(Command::Reset).drop_last() =~= cmds);
    lemma_rest_is_kept(c, cmds);
}

/// No command changes the velocity a reset restores.
pub proof fn lemma_rest_is_kept<F>(c: ControlInputs<F>, cmds: Seq<Command<F>>)
    ensures
        inputs_after(c, cmds).rest_vel == c.rest_vel,
    decreases cmds.len(),
{
    if cmds.len() > 0 {
        lemma_rest_is_kept(c, cmds.drop_last());
    }
}

} // verus!
