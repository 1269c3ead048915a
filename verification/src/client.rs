//! The monitoring client: what it knows of the controller and what it asks
//! of it.
use vstd::prelude::*;

use crate::history::{
    MAX_HISTORY, sample_of, slide_all, PlotHistory, PlotSample, lemma_slide_all_append,
    lemma_history_keeps_latest,
};
use crate::protocol::{Command, Message, ServoParams, SimulationState};

verus! {

/// A control of the client's window that the operator used.
#[derive(Clone, Copy, Debug, PartialEq)]
pub enum UiEvent {
    /// One of the drive or load parameters was edited.
    ParamsEdited,
    /// The master velocity was edited.
    MasterVelChanged,
    /// The absolute slave position was edited.
    SlavePosChanged,
    /// The operator asked the slave to follow the master again.
    SyncWithMaster,
    /// The operator asked for the simulation to start over.
    ResetPressed,
}

/// The client's state apart from its connection and its windows.
pub struct ClientModel<F> {
    /// Parameters as last acknowledged by the controller, or as edited since.
    pub params: ServoParams<F>,
    /// The most recent telemetry.
    pub latest_state: SimulationState<F>,
    /// Recent telemetry, for the plots.
    pub history: PlotHistory<F>,
    /// Master velocity chosen by the operator.
    pub target_vel: F,
    /// Absolute slave position chosen by the operator.
    pub target_pos: F,
    /// Whether the slave is held at `target_pos` rather than following the master.
    pub pos_mode: bool,
    /// Whether the link to the controller is up.
    pub is_connected: bool,
}

/// The parameters after the messages `msgs`: those of the last
/// acknowledgement among them, or `p` when there is none.
pub open spec fn params_after<F>(p: ServoParams<F>, msgs: Seq<Message<F>>) -> ServoParams<F>
    decreases msgs.len(),
{
    if msgs.len() == 0 {
        p
    } else {
        match msgs.last() {
            Message::ParamsAck(q) => q,
            Message::Telemetry(_) => params_after(p, msgs.drop_last()),
        }
    }
}

/// The latest telemetry after the messages `msgs`: that of the last
/// telemetry message among them, or `s` when there is none.
pub open spec fn state_after<F>(s: SimulationState<F>, msgs: Seq<Message<F>>) -> SimulationState<F>
    decreases msgs.len(),
{
    if msgs.len() == 0 {
        s
    } else {
        match msgs.last() {
            Message::Telemetry(t) => t,
            Message::ParamsAck(_) => state_after(s, msgs.drop_last()),
        }
    }
}

/// The plotted samples of the telemetry messages among `msgs`, in order.
pub open spec fn telemetry_samples<F>(msgs: Seq<Message<F>>) -> Seq<PlotSample<F>>
    decreases msgs.len(),
{
    if msgs.len() == 0 {
        Seq::empty()
    } else {
        let before = telemetry_samples(msgs.drop_last());
        match msgs.last() {
            Message::Telemetry(t) => before.push(sample_of(t)),
            Message::ParamsAck(_) => before,
        }
    }
}

/// The link status after the reports `statuses`: the last of them, or
/// `connected` when there is none.
pub open spec fn status_after(connected: bool, statuses: Seq<bool>) -> bool {
    if statuses.len() == 0 {
        connected
    } else {
        statuses.last()
    }
}

/// The command that `event` sends to the controller, if any.
pub open spec fn command_for_event<F>(m: &ClientModel<F>, event: UiEvent) -> Option<Command<F>> {
    match event {
        UiEvent::ParamsEdited => Some(Command::UpdateParams(m.params)),
        UiEvent::MasterVelChanged => Some(Command::SetMasterTargetVel(m.target_vel)),
        UiEvent::SlavePosChanged => if m.pos_mode {
            Some(Command::SetSlaveTargetPos(Some(m.target_pos)))
        } else {
            None
        },
        UiEvent::SyncWithMaster => if m.pos_mode {
            None
        } else {
            Some(Command::SetSlaveTargetPos(None))
        },
        UiEvent::ResetPressed => Some(Command::Reset),
    }
}

impl<F: Copy> ClientModel<F> {
    /// The history is well formed.
    pub open spec fn wf(&self) -> bool {
        self.history.wf()
    }

    /// A client that has heard nothing yet: an empty history, no link, and
    /// the slave following the master.
    pub fn new(params: ServoParams<F>, initial: SimulationState<F>, zero: F) -> (m: Self)
        ensures
            m.wf(),
            m.params == params,
            m.latest_state == initial,
            m.history@ == Seq::<PlotSample<F>>::empty(),
            m.target_vel == zero,
            m.target_pos == zero,
            !m.pos_mode,
            !m.is_connected,
    {
        ClientModel {
            params,
            latest_state: initial,
            history: PlotHistory::new(),
            target_vel: zero,
            target_pos: zero,
            pos_mode: false,
            is_connected: false,
        }
    }

    /// Takes in what arrived from the link since the last frame: the link
    /// reports `statuses` and then the controller's messages `msgs`, each
    /// in the order received. The last report decides whether the link is
    /// up; telemetry replaces the latest state and enters the history; an
    /// acknowledgement replaces the parameters.
    pub fn process_messages(&mut self, statuses: &Vec<bool>, msgs: &Vec<Message<F>>)
        requires
            old(self).wf(),
        ensures
            final(self).wf(),
            final(self).is_connected == status_after(old(self).is_connected, statuses@),
            final(self).params == params_after(old(self).params, msgs@),
            final(self).latest_state == state_after(old(self).latest_state, msgs@),
            final(self).history@ == slide_all(old(self).history@, telemetry_samples(msgs@)),
            final(self).history@.len() <= MAX_HISTORY,
            statuses@.len() > 0 ==> final(self).is_connected == statuses@[statuses@.len() - 1],
            statuses@.len() == 0 ==> final(self).is_connected == old(self).is_connected,
            ({
                let acks = msgs@.filter_map(
                    |m: Message<F>|
                        match m {
                            Message::ParamsAck(q) => Some(q),
                            Message::Telemetry(_) => None,
                        },
                );
                final(self).params == if acks.len() == 0 {
                    old(self).params
                } else {
                    acks[acks.len() - 1]
                }
            }),
            ({
                let states = msgs@.filter_map(
                    |m: Message<F>|
                        match m {
                            Message::Telemetry(t) => Some(t),
                            Message::ParamsAck(_) => None,
                        },
                );
                final(self).latest_state == if states.len() == 0 {
                    old(self).latest_state
                } else {
                    states[states.len() - 1]
                }
            }),
            ({
                let all = old(self).history@ + msgs@.filter_map(
                    |m: Message<F>|
                        match m {
                            Message::Telemetry(t) => Some(
                                PlotSample {
                                    time: t.time,
                                    master_pos: t.master_pos,
                                    slave_pos: t.slave_pos,
                                    master_vel: t.master_vel,
                                    slave_vel: t.slave_vel,
                                    error: t.error,
                                },
                            ),
                            Message::ParamsAck(_) => None,
                        },
                );
                final(self).history@ == if all.len() > MAX_HISTORY {
                    all.skip(all.len() - MAX_HISTORY)
                } else {
                    all
                }
            }),
            final(self).target_vel == old(self).target_vel,
            final(self).target_pos == old(self).target_pos,
            final(self).pos_mode == old(self).pos_mode,
    {
        let ns = statuses.len();
        if ns > 0 {
            self.is_connected = statuses[ns - 1];
        }
        let n = msgs.len();
        let mut i: usize = 0;
        let ghost p0 = self.params;
        let ghost s0 = self.latest_state;
        let ghost h0 = self.history@;
        let ghost c1 = self.is_connected;
        let ghost v0 = self.target_vel;
        let ghost t0 = self.target_pos;
        let ghost m0 = self.pos_mode;
        assert(msgs@.take(0) =~= Seq::<Message<F>>::empty());
        while i < n
            invariant
                i <= n,
                n == msgs.len(),
                self.wf(),
                self.params == params_after(p0, msgs@.take(i as int)),
                self.latest_state == state_after(s0, msgs@.take(i as int)),
                self.history@ == slide_all(h0, telemetry_samples(msgs@.take(i as int))),
                self.is_connected == c1,
                self.target_vel == v0,
                self.target_pos == t0,
                self.pos_mode == m0,
            decreases n - i,
        {
            let ghost before = msgs@.take(i as int);
            assert(msgs@.take(i + 1).drop_last() =~= before);
            assert(msgs@.take(i + 1).last() == msgs@[i as int]);
            let msg = msgs[i];
            match msg {
                Message::Telemetry(state) => {
                    self.latest_state = state;
                    self.history.record(&state);
                    assert(telemetry_samples(msgs@.take(i + 1)) == telemetry_samples(before).push(
                        sample_of(state),
                    ));
                    assert(telemetry_samples(before).push(sample_of(state)).drop_last()
                        =~= telemetry_samples(before));
                },
                Message::ParamsAck(params) => {
                    self.params = params;
                },
            }
            i = i + 1;
        }
        assert(msgs@.take(n as int) =~= msgs@);
        proof {
            self.history.lemma_bounded();
            old(self).history.lemma_bounded();
            lemma_last_report_wins(old(self).is_connected, statuses@);
            lemma_params_from_last_ack(old(self).params, msgs@);
            lemma_state_from_last_telemetry(old(self).latest_state, msgs@);
            lemma_samples_of_telemetry(msgs@);
            lemma_history_keeps_latest(h0, telemetry_samples(msgs@));
        }
    }

    /// The command that the operator's `event` sends to the controller: the
    /// edited parameters, the chosen master velocity, the chosen slave
    /// position (only while the slave is held at a position), a return to
    /// following the master (only while it is not), or a reset.
    pub fn command_for(&self, event: UiEvent) -> (c: Option<Command<F>>)
        ensures
            c == command_for_event(self, event),
            event == UiEvent::ParamsEdited ==> c == Some(Command::UpdateParams(self.params)),
            event == UiEvent::MasterVelChanged ==> c == Some(
                Command::SetMasterTargetVel(self.target_vel),
            ),
            event == UiEvent::SlavePosChanged ==> c == (if self.pos_mode {
                Some(Command::SetSlaveTargetPos(Some(self.target_pos)))
            } else {
                None
            }),
            event == UiEvent::SyncWithMaster ==> c == (if self.pos_mode {
                None
            } else {
                Some(Command::<F>::SetSlaveTargetPos(None))
            }),
            event == UiEvent::ResetPressed ==> c == Some(Command::<F>::Reset),
    {
        match event {
            UiEvent::ParamsEdited => Some(Command::UpdateParams(self.params)),
            UiEvent::MasterVelChanged => Some(Command::SetMasterTargetVel(self.target_vel)),
            UiEvent::SlavePosChanged => {
                if self.pos_mode {
                    Some(Command::SetSlaveTargetPos(Some(self.target_pos)))
                } else {
                    None
                }
            },
            UiEvent::SyncWithMaster => {
                if self.pos_mode {
                    None
                } else {
                    Some(Command::SetSlaveTargetPos(None))
                }
            },
            UiEvent::ResetPressed => Some(Command::Reset),
        }
    }
}

/// What each control sends, whatever the mode: edited parameters are sent
/// whole, the master velocity is sent in both modes, a slave position only
/// while the slave is held at one, a return to following the master only
/// while it is not, and a reset always.
pub proof fn lemma_commands_of_controls<F>(m: &ClientModel<F>)
    ensures
        command_for_event(m, UiEvent::ParamsEdited) == Some(Command::UpdateParams(m.params)),
        command_for_event(m, UiEvent::MasterVelChanged) == Some(
            Command::SetMasterTargetVel(m.target_vel),
        ),
        m.pos_mode ==> command_for_event(m, UiEvent::SlavePosChanged) == Some(
            Command::SetSlaveTargetPos(Some(m.target_pos)),
        ),
        !m.pos_mode ==> command_for_event(m, UiEvent::SlavePosChanged) == None::<Command<F>>,
        m.pos_mode ==> command_for_event(m, UiEvent::SyncWithMaster) == None::<Command<F>>,
        !m.pos_mode ==> command_for_event(m, UiEvent::SyncWithMaster) == Some(
            Command::<F>::SetSlaveTargetPos(None),
        ),
        command_for_event(m, UiEvent::ResetPressed) == Some(Command::<F>::Reset),
{
}

/// The link is up after a batch of reports exactly when the last report
/// says so; with no report it stays as it was.
pub proof fn lemma_last_report_wins(connected: bool, statuses: Seq<bool>)
    ensures
        statuses.len() > 0 ==> status_after(connected, statuses) == statuses[statuses.len() - 1],
        statuses.len() == 0 ==> status_after(connected, statuses) == connected,
        forall|b: bool| #[trigger] status_after(connected, statuses.push(b)) == b,
{
}

/// After a batch of messages the parameters are, in every field, those of
/// the last acknowledgement among them, and stay as they were when there is
/// none.
pub proof fn lemma_params_from_last_ack<F>(p: ServoParams<F>, msgs: Seq<Message<F>>)
    ensures
        ({
            let acks = msgs.filter_map(
                |m: Message<F>|
                    match m {
                        Message::ParamsAck(q) => Some(q),
                        Message::Telemetry(_) => None,
                    },
            );
            params_after(p, msgs) == if acks.len() == 0 {
                p
            } else {
                acks[acks.len() - 1]
            }
        }),
    decreases msgs.len(),
{
    if msgs.len() > 0 {
        lemma_params_from_last_ack(p, msgs.drop_last());
    }
}

/// After a batch of messages the latest state is that of the last telemetry
/// among them, and stays as it was when there is none.
pub proof fn lemma_state_from_last_telemetry<F>(s: SimulationState<F>, msgs: Seq<Message<F>>)
    ensures
        ({
            let states = msgs.filter_map(
                |m: Message<F>|
                    match m {
                        Message::Telemetry(t) => Some(t),
                        Message::ParamsAck(_) => None,
                    },
            );
            state_after(s, msgs) == if states.len() == 0 {
                s
            } else {
                states[states.len() - 1]
            }
        }),
    decreases msgs.len(),
{
    if msgs.len() > 0 {
        lemma_state_from_last_telemetry(s, msgs.drop_last());
    }
}

/// The samples a batch adds to the history are, one for each telemetry
/// message and in their order, that message's time, master position, slave
/// position, master velocity, slave velocity and error.
pub proof fn lemma_samples_of_telemetry<F>(msgs: Seq<Message<F>>)
    ensures
        telemetry_samples(msgs) == msgs.filter_map(
            |m: Message<F>|
                match m {
                    Message::Telemetry(t) => Some(
                        PlotSample {
                            time: t.time,
                            master_pos: t.master_pos,
                            slave_pos: t.slave_pos,
                            master_vel: t.master_vel,
                            slave_vel: t.slave_vel,
                            error: t.error,
                        },
                    ),
                    Message::ParamsAck(_) => None,
                },
        ),
    decreases msgs.len(),
{
    if msgs.len() > 0 {
        lemma_samples_of_telemetry(msgs.drop_last());
    }
}

/// Taking in the messages `a` and then `b` leaves the client where taking
/// in `a + b` at once does: parameters, latest telemetry and history alike.
pub proof fn lemma_batches_compose<F>(
    p: ServoParams<F>,
    s: SimulationState<F>,
    h: Seq<PlotSample<F>>,
    a: Seq<Message<F>>,
    b: Seq<Message<F>>,
)
    ensures
        params_after(params_after(p, a), b) == params_after(p, a + b),
        state_after(state_after(s, a), b) == state_after(s, a + b),
        slide_all(slide_all(h, telemetry_samples(a)), telemetry_samples(b)) == slide_all(
            h,
            telemetry_samples(a + b),
        ),
    decreases b.len(),
{
    if b.len() == 0 {
        assert(a + b =~= a);
        assert(telemetry_samples(a) + telemetry_samples(b) =~= telemetry_samples(a));
    } else {
        lemma_batches_compose(p, s, h, a, b.drop_last());
        assert((a + b).drop_last() =~= a + b.drop_last());
        assert((a + b).last() == b.last());
    }
    lemma_samples_append(a, b);
    lemma_slide_all_append(h, telemetry_samples(a), telemetry_samples(b));
}

/// The telemetry samples of `a + b` are those of `a` followed by those of `b`.
pub proof fn lemma_samples_append<F>(a: Seq<Message<F>>, b: Seq<Message<F>>)
    ensures
        telemetry_samples(a + b) == telemetry_samples(a) + telemetry_samples(b),
    decreases b.len(),
{
    if b.len() == 0 {
        assert(a + b =~= a);
        assert(telemetry_samples(a) + telemetry_samples(b) =~= telemetry_samples(a));
    } else {
        lemma_samples_append(a, b.drop_last());
        assert((a + b).drop_last() =~= a + b.drop_last());
        assert((a + b).last() == b.last());
        match b.last() {
            Message::Telemetry(t) => {
                assert(telemetry_samples(a) + telemetry_samples(b) =~= (telemetry_samples(a)
                    + telemetry_samples(b.drop_last())).push(sample_of(t)));
            },
            Message::ParamsAck(_) => {
            },
        }
    }
}

} // verus!
