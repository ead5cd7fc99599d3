//! The wake-driven control loop as a state machine: each event that the
//! surrounding loop observes gives the next state and the next action.

use vstd::prelude::*;
use crate::catalog::{led_frame, Color, LedConfig, LightPattern};
use crate::reply::{accept, ReplyBuffer, ReplyModel, REPLY_CAPACITY};

verus! {

/// Logic level of the wake line.
#[derive(Clone, Copy, Debug, PartialEq, Eq, Structural)]
pub enum Level {
    Low,
    High,
}

/// Which commands the controller sends. The level `in_progress_level`
/// selects `in_progress` and a follow-up `acknowledge`; the other level
/// selects `idle` alone.
#[derive(Clone, Copy, Debug, PartialEq, Eq, Structural)]
pub struct Profile {
    pub in_progress_level: Level,
    pub in_progress: LedConfig,
    pub idle: LedConfig,
    pub acknowledge: LedConfig,
}

impl Profile {
    /// A low wake line means a finger rests on the sensor: breathe cyan,
    /// then turn green once the reply is in. A high line breathes blue.
    pub fn finger_scan() -> (r: Profile)
        ensures
            r == (Profile {
                in_progress_level: Level::Low,
                in_progress: LedConfig {
                    pattern: LightPattern::Breathing,
                    speed: 0xFF,
                    color: Color::Cyan,
                    cycles: 0,
                },
                idle: LedConfig {
                    pattern: LightPattern::Breathing,
                    speed: 0xFF,
                    color: Color::Blue,
                    cycles: 0,
                },
                acknowledge: LedConfig {
                    pattern: LightPattern::AlwaysOn,
                    speed: 0,
                    color: Color::Green,
                    cycles: 0,
                },
            }),
    {
        Profile {
            in_progress_level: Level::Low,
            in_progress: LedConfig::new(LightPattern::Breathing, 0xFF, Color::Cyan, 0),
            idle: LedConfig::new(LightPattern::Breathing, 0xFF, Color::Blue, 0),
            acknowledge: LedConfig::new(LightPattern::AlwaysOn, 0, Color::Green, 0),
        }
    }
}

/// The command that an edge to level `l` selects.
pub open spec fn primary_config(p: Profile, l: Level) -> LedConfig {
    if l == p.in_progress_level {
        p.in_progress
    } else {
        p.idle
    }
}

/// Where the controller stands.
#[derive(Clone, Copy, Debug, PartialEq, Eq, Structural)]
pub enum Phase {
    WaitingForEdge,
    SendingPrimary { follow_up: bool },
    Draining { follow_up: bool },
    SendingFollowUp,
}

/// What the surrounding loop observed.
#[derive(Clone, Copy, Debug, PartialEq, Eq, Structural)]
pub enum Event {
    /// The wake line changed; its level right after the change.
    Edge(Level),
    /// The last transmission was written.
    WriteDone,
    /// The last transmission failed to write.
    WriteFailed,
    /// One reply byte arrived within the per-byte window.
    ByteRead(u8),
    /// No reply byte arrived within the per-byte window.
    ReadTimeout,
}

/// What the surrounding loop is to do next.
pub enum Action {
    /// Write these frame bytes to the transport.
    Transmit([u8; 16]),
    /// Read one byte within the per-byte window.
    ReadByte,
    /// Wait for the next change of the wake line.
    AwaitEdge,
    /// The event does not apply in this phase; keep waiting as before.
    Ignored,
}

pub enum ActionModel {
    Transmit(Seq<u8>),
    ReadByte,
    AwaitEdge,
    Ignored,
}

impl View for Action {
    type V = ActionModel;

    open spec fn view(&self) -> ActionModel {
        match self {
            Action::Transmit(f) => ActionModel::Transmit(f@),
            Action::ReadByte => ActionModel::ReadByte,
            Action::AwaitEdge => ActionModel::AwaitEdge,
            Action::Ignored => ActionModel::Ignored,
        }
    }
}

/// The controller's state as a value.
pub struct ControlState {
    pub phase: Phase,
    pub reply: ReplyModel,
    pub write_failures: u64,
}

/// A failure count one higher, held at the largest value.
pub open spec fn bump(n: u64) -> u64 {
    if n < u64::MAX {
        (n + 1) as u64
    } else {
        n
    }
}

/// The state in which the controller starts.
pub open spec fn initial_state() -> ControlState {
    ControlState {
        phase: Phase::WaitingForEdge,
        reply: ReplyModel { bytes: Seq::empty(), overrun: false },
        write_failures: 0,
    }
}

/// The state after `e` arrives in state `s`.
pub open spec fn next_state(p: Profile, s: ControlState, e: Event) -> ControlState {
    match (s.phase, e) {
        (Phase::WaitingForEdge, Event::Edge(l)) => ControlState {
            phase: Phase::SendingPrimary { follow_up: l == p.in_progress_level },
            ..s
        },
        (Phase::SendingPrimary { follow_up }, Event::WriteDone) => ControlState {
            phase: Phase::Draining { follow_up },
            reply: ReplyModel { bytes: Seq::empty(), overrun: false },
            ..s
        },
        (Phase::SendingPrimary { follow_up }, Event::WriteFailed) => ControlState {
            phase: Phase::Draining { follow_up },
            reply: ReplyModel { bytes: Seq::empty(), overrun: false },
            write_failures: bump(s.write_failures),
        },
        (Phase::Draining { .. }, Event::ByteRead(b)) => ControlState {
            reply: accept(s.reply, b),
            ..s
        },
        (Phase::Draining { follow_up }, Event::ReadTimeout) => ControlState {
            phase: if follow_up {
                Phase::SendingFollowUp
            } else {
                Phase::WaitingForEdge
            },
            ..s
        },
        (Phase::SendingFollowUp, Event::WriteDone) => ControlState {
            phase: Phase::WaitingForEdge,
            ..s
        },
        (Phase::SendingFollowUp, Event::WriteFailed) => ControlState {
            phase: Phase::WaitingForEdge,
            write_failures: bump(s.write_failures),
            ..s
        },
        _ => s,
    }
}

/// The action that follows `e` in state `s`.
pub open spec fn next_action(p: Profile, s: ControlState, e: Event) -> ActionModel {
    match (s.phase, e) {
        (Phase::WaitingForEdge, Event::Edge(l)) => ActionModel::Transmit(
            led_frame(primary_config(p, l)),
        ),
        (Phase::SendingPrimary { .. }, Event::WriteDone) => ActionModel::ReadByte,
        (Phase::SendingPrimary { .. }, Event::WriteFailed) => ActionModel::ReadByte,
        (Phase::Draining { .. }, Event::ByteRead(_)) => ActionModel::ReadByte,
        (Phase::Draining { follow_up }, Event::ReadTimeout) => if follow_up {
            ActionModel::Transmit(led_frame(p.acknowledge))
        } else {
            ActionModel::AwaitEdge
        },
        (Phase::SendingFollowUp, Event::WriteDone) => ActionModel::AwaitEdge,
        (Phase::SendingFollowUp, Event::WriteFailed) => ActionModel::AwaitEdge,
        _ => ActionModel::Ignored,
    }
}

/// The state after the events `es`, one after another, starting in `s`.
pub open spec fn run(p: Profile, s: ControlState, es: Seq<Event>) -> ControlState
    decreases es.len(),
{
    if es.len() == 0 {
        s
    } else {
        run(p, next_state(p, s, es[0]), es.drop_first())
    }
}

/// The actions returned for the events `es`, starting in `s`.
pub open spec fn actions(p: Profile, s: ControlState, es: Seq<Event>) -> Seq<ActionModel>
    decreases es.len(),
{
    if es.len() == 0 {
        Seq::empty()
    } else {
        seq![next_action(p, s, es[0])] + actions(p, next_state(p, s, es[0]), es.drop_first())
    }
}

/// The frames that the actions `acts` transmit, in order.
pub open spec fn transmissions(acts: Seq<ActionModel>) -> Seq<Seq<u8>>
    decreases acts.len(),
{
    if acts.len() == 0 {
        Seq::empty()
    } else {
        match acts[0] {
            ActionModel::Transmit(f) => seq![f] + transmissions(acts.drop_first()),
            _ => transmissions(acts.drop_first()),
        }
    }
}

/// One event for each byte of `bytes` that arrives in time.
pub open spec fn reads(bytes: Seq<u8>) -> Seq<Event> {
    bytes.map_values(|b: u8| Event::ByteRead(b))
}

/// The first `REPLY_CAPACITY` bytes of `s`, or all of them if fewer.
pub open spec fn capped(s: Seq<u8>) -> Seq<u8> {
    if s.len() <= REPLY_CAPACITY {
        s
    } else {
        s.take(REPLY_CAPACITY as int)
    }
}

proof fn lemma_run_append(p: Profile, s: ControlState, a: Seq<Event>, b: Seq<Event>)
    ensures
        run(p, s, a + b) == run(p, run(p, s, a), b),
        actions(p, s, a + b) == actions(p, s, a) + actions(p, run(p, s, a), b),
    decreases a.len(),
{
    if a.len() == 0 {
        assert(a + b =~= b);
    } else {
        assert((a + b).drop_first() =~= a.drop_first() + b);
        lemma_run_append(p, next_state(p, s, a[0]), a.drop_first(), b);
        assert(actions(p, s, a + b) =~= actions(p, s, a) + actions(p, run(p, s, a), b));
    }
}

proof fn lemma_reads(p: Profile, s: ControlState, bytes: Seq<u8>)
    requires
        s.phase is Draining,
        s.reply.bytes.len() <= REPLY_CAPACITY,
    ensures
        run(p, s, reads(bytes)) == (ControlState {
            reply: ReplyModel {
                bytes: capped(s.reply.bytes + bytes),
                overrun: s.reply.overrun || s.reply.bytes.len() + bytes.len() > REPLY_CAPACITY,
            },
            ..s
        }),
        actions(p, s, reads(bytes)) == Seq::new(bytes.len(), |i: int| ActionModel::ReadByte),
    decreases bytes.len(),
{
    let r = s.reply.bytes;
    if bytes.len() == 0 {
        assert(r + bytes =~= r);
        assert(actions(p, s, reads(bytes)) =~= Seq::new(bytes.len(), |i: int| ActionModel::ReadByte));
    } else {
        let es = reads(bytes);
        assert(es[0] == Event::ByteRead(bytes[0]));
        assert(es.drop_first() =~= reads(bytes.drop_first()));
        let s1 = next_state(p, s, es[0]);
        lemma_reads(p, s1, bytes.drop_first());
        if r.len() < REPLY_CAPACITY {
            assert(r.push(bytes[0]) + bytes.drop_first() =~= r + bytes);
        } else {
            assert((r + bytes.drop_first()).take(REPLY_CAPACITY as int) =~= r);
            assert((r + bytes).take(REPLY_CAPACITY as int) =~= r);
        }
        assert(actions(p, s, es) =~= Seq::new(bytes.len(), |i: int| ActionModel::ReadByte));
    }
}

/// A drain that receives `bytes` and then a timeout keeps exactly the bytes
/// that fit, reports an overrun exactly when more arrived than fit, asks for
/// one more byte after each byte, and ends at the timeout.
pub proof fn lemma_drain(p: Profile, s: ControlState, bytes: Seq<u8>)
    requires
        s.phase is Draining,
        s.reply.bytes == Seq::<u8>::empty(),
        !s.reply.overrun,
    ensures
        ({
            let es = reads(bytes).push(Event::ReadTimeout);
            let fin = run(p, s, es);
            let acts = actions(p, s, es);
            &&& fin.reply.bytes == capped(bytes)
            &&& fin.reply.overrun == (bytes.len() > REPLY_CAPACITY)
            &&& !(fin.phase is Draining)
            &&& acts.len() == bytes.len() + 1
            &&& forall|i: int| 0 <= i < bytes.len() ==> acts[i] == ActionModel::ReadByte
            &&& acts[bytes.len() as int] != ActionModel::ReadByte
        }),
{
    let es = reads(bytes).push(Event::ReadTimeout);
    assert(es =~= reads(bytes) + seq![Event::ReadTimeout]);
    lemma_reads(p, s, bytes);
    lemma_run_append(p, s, reads(bytes), seq![Event::ReadTimeout]);
    assert(Seq::<u8>::empty() + bytes =~= bytes);
    let mid = run(p, s, reads(bytes));
    lemma_one(p, mid, Event::ReadTimeout);
}

/// After an edge to level `l`, with the writes done or failed, any reply
/// and a timeout, exactly one command for `l` is sent, and then the
/// acknowledgement exactly when `l` is the in-progress level; the loop is
/// then back to waiting for an edge.
pub proof fn lemma_edge_dispatch(
    p: Profile,
    s: ControlState,
    l: Level,
    first: Event,
    bytes: Seq<u8>,
    second: Event,
)
    requires
        s.phase == Phase::WaitingForEdge,
        s.reply.bytes.len() <= REPLY_CAPACITY,
        first == Event::WriteDone || first == Event::WriteFailed,
        second == Event::WriteDone || second == Event::WriteFailed,
    ensures
        ({
            let es = seq![Event::Edge(l), first] + reads(bytes) + seq![Event::ReadTimeout, second];
            &&& transmissions(actions(p, s, es)) == if l == p.in_progress_level {
                seq![led_frame(p.in_progress), led_frame(p.acknowledge)]
            } else {
                seq![led_frame(p.idle)]
            }
            &&& run(p, s, es).phase == Phase::WaitingForEdge
        }),
{
    let head = seq![Event::Edge(l), first];
    let tail = seq![Event::ReadTimeout, second];
    lemma_two(p, s, Event::Edge(l), first);
    let s2 = run(p, s, head);
    lemma_reads(p, s2, bytes);
    lemma_run_append(p, s, head, reads(bytes));
    lemma_run_append(p, s, head + reads(bytes), tail);
    let s3 = run(p, s2, reads(bytes));
    lemma_two(p, s3, Event::ReadTimeout, second);
    let a1 = actions(p, s, head);
    let a2 = actions(p, s2, reads(bytes));
    let a3 = actions(p, s3, tail);
    lemma_transmissions_append(a1, a2);
    lemma_transmissions_append(a1 + a2, a3);
    lemma_no_transmissions(bytes.len());
    lemma_transmissions_two(a1[0], a1[1]);
    lemma_transmissions_two(a3[0], a3[1]);
    assert(a1 =~= seq![a1[0], a1[1]]);
    assert(a3 =~= seq![a3[0], a3[1]]);
    if l == p.in_progress_level {
        assert(transmissions(a1) + Seq::<Seq<u8>>::empty() + transmissions(a3) =~= seq![
            led_frame(p.in_progress),
            led_frame(p.acknowledge),
        ]);
    } else {
        assert(transmissions(a1) + Seq::<Seq<u8>>::empty() + transmissions(a3) =~= seq![
            led_frame(p.idle),
        ]);
    }
}

/// The frames that one action transmits.
pub open spec fn sent(a: ActionModel) -> Seq<Seq<u8>> {
    match a {
        ActionModel::Transmit(f) => seq![f],
        _ => Seq::empty(),
    }
}

proof fn lemma_one(p: Profile, s: ControlState, e: Event)
    ensures
        run(p, s, seq![e]) == next_state(p, s, e),
        actions(p, s, seq![e]) == seq![next_action(p, s, e)],
{
    let s1 = next_state(p, s, e);
    assert(seq![e].drop_first() =~= Seq::<Event>::empty());
    assert(run(p, s1, Seq::<Event>::empty()) == s1);
    assert(actions(p, s1, Seq::<Event>::empty()) == Seq::<ActionModel>::empty());
    assert(seq![next_action(p, s, e)] + Seq::<ActionModel>::empty() =~= seq![next_action(p, s, e)]);
}

proof fn lemma_two(p: Profile, s: ControlState, e0: Event, e1: Event)
    ensures
        run(p, s, seq![e0, e1]) == next_state(p, next_state(p, s, e0), e1),
        actions(p, s, seq![e0, e1]) == seq![
            next_action(p, s, e0),
            next_action(p, next_state(p, s, e0), e1),
        ],
{
    assert(seq![e0, e1].drop_first() =~= seq![e1]);
    lemma_one(p, next_state(p, s, e0), e1);
    assert(seq![next_action(p, s, e0)] + seq![next_action(p, next_state(p, s, e0), e1)] =~= seq![
        next_action(p, s, e0),
        next_action(p, next_state(p, s, e0), e1),
    ]);
}

proof fn lemma_transmissions_two(a0: ActionModel, a1: ActionModel)
    ensures
        transmissions(seq![a0, a1]) == sent(a0) + sent(a1),
{
    let t = seq![a0, a1];
    assert(t.drop_first() =~= seq![a1]);
    assert(seq![a1].drop_first() =~= Seq::<ActionModel>::empty());
    assert(transmissions(Seq::<ActionModel>::empty()) == Seq::<Seq<u8>>::empty());
    assert(transmissions(seq![a1]) =~= sent(a1));
    assert(transmissions(t) =~= sent(a0) + sent(a1));
}

proof fn lemma_transmissions_append(a: Seq<ActionModel>, b: Seq<ActionModel>)
    ensures
        transmissions(a + b) == transmissions(a) + transmissions(b),
    decreases a.len(),
{
    if a.len() == 0 {
        assert(a + b =~= b);
        assert(transmissions(a) + transmissions(b) =~= transmissions(b));
    } else {
        assert((a + b).drop_first() =~= a.drop_first() + b);
        lemma_transmissions_append(a.drop_first(), b);
        match a[0] {
            ActionModel::Transmit(f) => {
                assert(seq![f] + (transmissions(a.drop_first()) + transmissions(b)) =~= (seq![f]
                    + transmissions(a.drop_first())) + transmissions(b));
            },
            _ => {},
        }
    }
}

proof fn lemma_no_transmissions(n: nat)
    ensures
        transmissions(Seq::new(n, |i: int| ActionModel::ReadByte)) == Seq::<Seq<u8>>::empty(),
    decreases n,
{
    if n > 0 {
        assert(Seq::new(n, |i: int| ActionModel::ReadByte).drop_first() =~= Seq::new(
            (n - 1) as nat,
            |i: int| ActionModel::ReadByte,
        ));
        lemma_no_transmissions((n - 1) as nat);
    }
}

/// The decisions of the control loop. The loop that owns the transport and
/// the wake line hands each observation to `step` and performs the action
/// it returns.
pub struct Controller {
    profile: Profile,
    phase: Phase,
    reply: ReplyBuffer,
    write_failures: u64,
}

impl Controller {
    pub closed spec fn state(&self) -> ControlState {
        ControlState { phase: self.phase, reply: self.reply@, write_failures: self.write_failures }
    }

    pub closed spec fn profile_spec(&self) -> Profile {
        self.profile
    }

    pub closed spec fn wf(&self) -> bool {
        self.reply.wf()
    }

    pub fn new(profile: Profile) -> (r: Controller)
        ensures
            r.wf(),
            r.profile_spec() == profile,
            r.state() == initial_state(),
    {
        Controller { profile, phase: Phase::WaitingForEdge, reply: ReplyBuffer::new(), write_failures: 0 }
    }

    fn count_failure(&mut self)
        ensures
            final(self).write_failures == bump(old(self).write_failures),
            final(self).profile == old(self).profile,
            final(self).phase == old(self).phase,
            final(self).reply == old(self).reply,
    {
        if self.write_failures < u64::MAX {
            self.write_failures = self.write_failures + 1;
        }
    }

    /// Takes one observation and returns what to do next.
    pub fn step(&mut self, e: Event) -> (a: Action)
        requires
            old(self).wf(),
        ensures
            final(self).wf(),
            final(self).profile_spec() == old(self).profile_spec(),
            final(self).state() == next_state(old(self).profile_spec(), old(self).state(), e),
            a@ == next_action(old(self).profile_spec(), old(self).state(), e),
    {
        match self.phase {
            Phase::WaitingForEdge => match e {
                Event::Edge(l) => {
                    let follow_up = l == self.profile.in_progress_level;
                    let config = if follow_up {
                        self.profile.in_progress
                    } else {
                        self.profile.idle
                    };
                    self.phase = Phase::SendingPrimary { follow_up };
                    Action::Transmit(config.frame())
                },
                _ => Action::Ignored,
            },
            Phase::SendingPrimary { follow_up } => match e {
                Event::WriteDone => {
                    self.reply.clear();
                    self.phase = Phase::Draining { follow_up };
                    Action::ReadByte
                },
                Event::WriteFailed => {
                    self.count_failure();
                    self.reply.clear();
                    self.phase = Phase::Draining { follow_up };
                    Action::ReadByte
                },
                _ => Action::Ignored,
            },
            Phase::Draining { follow_up } => match e {
                Event::ByteRead(b) => {
                    self.reply.push(b);
                    Action::ReadByte
                },
                Event::ReadTimeout => {
                    if follow_up {
                        self.phase = Phase::SendingFollowUp;
                        Action::Transmit(self.profile.acknowledge.frame())
                    } else {
                        self.phase = Phase::WaitingForEdge;
                        Action::AwaitEdge
                    }
                },
                _ => Action::Ignored,
            },
            Phase::SendingFollowUp => match e {
                Event::WriteDone => {
                    self.phase = Phase::WaitingForEdge;
                    Action::AwaitEdge
                },
                Event::WriteFailed => {
                    self.count_failure();
                    self.phase = Phase::WaitingForEdge;
                    Action::AwaitEdge
                },
                _ => Action::Ignored,
            },
        }
    }

    pub fn phase(&self) -> (r: Phase)
        ensures
            r == self.state().phase,
    {
        self.phase
    }

    /// Bytes kept from the latest reply.
    pub fn reply(&self) -> (r: &[u8])
        ensures
            r@ == self.state().reply.bytes,
    {
        self.reply.as_slice()
    }

    /// Whether the latest reply brought more bytes than the buffer holds.
    pub fn reply_overrun(&self) -> (r: bool)
        ensures
            r == self.state().reply.overrun,
    {
        self.reply.overrun()
    }

    /// How many writes have failed, held at the largest value.
    pub fn write_failures(&self) -> (r: u64)
        ensures
            r == self.state().write_failures,
    {
        self.write_failures
    }

    pub fn profile(&self) -> (r: Profile)
        ensures
            r == self.profile_spec(),
    {
        self.profile
    }
}

} // verus!
