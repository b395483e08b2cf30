//! The session loop as a state machine.
//!
//! A session drives one connection. The caller waits on its event sources
//! (the clipboard-poll timer, the ping timer, the inbound line source),
//! hands each event that fires to [`Session::step`] together with the
//! current time, and carries out the action that comes back: send a
//! message (within the send timeout), write the local clipboard, or stop.
//! The outcome of a send or a clipboard write is handed back as an event in
//! turn. Because one caller feeds events one at a time and performs each
//! action before the next event, outbound messages leave in the order their
//! triggering events were handled.
use vstd::prelude::*;
use crate::codec::{decode, decoded, DecodeError, Message, MessageModel};

verus! {

/// Which end of the tunnel a session runs on.
#[derive(Debug, Clone, Copy, PartialEq, Eq, Structural)]
pub enum Role {
    /// The client: it pings, and ends the session when pongs stop coming.
    Initiator,
    /// The server: it answers pings and acknowledges clipboard updates.
    Responder,
}

/// Why a session ended.
#[derive(Debug, Clone, Copy, PartialEq, Eq, Structural)]
pub enum EndReason {
    /// The inbound stream reached its end or could not be read.
    ConnectionClosed,
    /// An inbound line was not a message.
    ProtocolError,
    /// A send did not complete within the send timeout.
    SendTimeout,
    /// No pong came within the pong timeout.
    LivenessTimeout,
    /// The local clipboard could not be written.
    ProviderFailure,
}

/// Whether a session still runs.
#[derive(Debug, Clone, Copy, PartialEq, Eq, Structural)]
pub enum SessionState {
    Active,
    Ended(EndReason),
}

/// The intervals and timeouts of a session and of reconnection, in
/// milliseconds.
#[derive(Debug, Clone, Copy, PartialEq, Eq, Structural)]
pub struct Timing {
    /// How often the local clipboard is read.
    pub poll_interval_ms: u64,
    /// How often the initiator sends a ping.
    pub ping_interval_ms: u64,
    /// How long the initiator waits for a pong before it gives up.
    pub pong_timeout_ms: u64,
    /// How long one send may take.
    pub send_timeout_ms: u64,
    /// How long the client waits before it connects again.
    pub backoff_ms: u64,
}

impl Timing {
    /// The standard timing.
    pub open spec fn standard_model() -> Timing {
        Timing {
            poll_interval_ms: 500,
            ping_interval_ms: 3000,
            pong_timeout_ms: 10000,
            send_timeout_ms: 5000,
            backoff_ms: 1000,
        }
    }

    /// Polls every 500 ms, pings every 3 s, gives up after 10 s without a
    /// pong or 5 s on a send, and reconnects after 1 s.
    pub fn standard() -> (r: Timing)
        ensures
            r == Timing::standard_model(),
    {
        Timing {
            poll_interval_ms: 500,
            ping_interval_ms: 3000,
            pong_timeout_ms: 10000,
            send_timeout_ms: 5000,
            backoff_ms: 1000,
        }
    }
}

/// Something that happened on one of the session's event sources.
#[derive(Debug, Clone)]
pub enum Event {
    /// The poll timer fired and the clipboard was read: its content, or
    /// `None` where the read failed.
    ClipboardRead(Option<String>),
    /// The ping timer fired.
    PingTick,
    /// A line arrived on the inbound stream (with or without its separator).
    Line(String),
    /// The inbound stream ended or could not be read.
    InboundClosed,
    /// The clipboard write asked for by the last action finished: whether it
    /// succeeded.
    ClipboardWritten(bool),
    /// The send asked for by the last action finished: whether it completed
    /// within the send timeout.
    SendCompleted(bool),
    /// Time passed with nothing else to report.
    Tick,
}

/// The mathematical value of an [`Event`].
pub enum EventModel {
    ClipboardRead(Option<Seq<char>>),
    PingTick,
    Line(Seq<char>),
    InboundClosed,
    ClipboardWritten(bool),
    SendCompleted(bool),
    Tick,
}

impl View for Event {
    type V = EventModel;

    open spec fn view(&self) -> EventModel {
        match self {
            Event::ClipboardRead(Some(c)) => EventModel::ClipboardRead(Some(c@)),
            Event::ClipboardRead(None) => EventModel::ClipboardRead(None),
            Event::PingTick => EventModel::PingTick,
            Event::Line(l) => EventModel::Line(l@),
            Event::InboundClosed => EventModel::InboundClosed,
            Event::ClipboardWritten(ok) => EventModel::ClipboardWritten(*ok),
            Event::SendCompleted(ok) => EventModel::SendCompleted(*ok),
            Event::Tick => EventModel::Tick,
        }
    }
}

/// What the caller does next.
#[derive(Debug, Clone)]
pub enum Action {
    /// Nothing.
    Idle,
    /// Send this message, within the send timeout.
    Send(Message),
    /// Write this text to the local clipboard.
    WriteClipboard(String),
    /// Stop: the session has ended.
    End(EndReason),
}

/// The mathematical value of an [`Action`].
pub enum ActionModel {
    Idle,
    Send(MessageModel),
    WriteClipboard(Seq<char>),
    End(EndReason),
}

impl View for Action {
    type V = ActionModel;

    open spec fn view(&self) -> ActionModel {
        match self {
            Action::Idle => ActionModel::Idle,
            Action::Send(m) => ActionModel::Send(m@),
            Action::WriteClipboard(c) => ActionModel::WriteClipboard(c@),
            Action::End(r) => ActionModel::End(*r),
        }
    }
}

/// The state of one connection's protocol run.
pub struct Session {
    role: Role,
    acknowledge: bool,
    timing: Timing,
    last_clipboard: String,
    last_liveness_at: u64,
    state: SessionState,
}

/// The mathematical value of a [`Session`].
pub struct SessionModel {
    pub role: Role,
    /// Whether a responder answers a clipboard update with `Ack`.
    pub acknowledge: bool,
    pub timing: Timing,
    /// The clipboard content last sent or applied.
    pub last_clipboard: Seq<char>,
    /// When the last pong was accepted, or when the session started.
    pub last_liveness_at: u64,
    pub state: SessionState,
}

impl View for Session {
    type V = SessionModel;

    closed spec fn view(&self) -> SessionModel {
        SessionModel {
            role: self.role,
            acknowledge: self.acknowledge,
            timing: self.timing,
            last_clipboard: self.last_clipboard@,
            last_liveness_at: self.last_liveness_at,
            state: self.state,
        }
    }
}

/// A session that starts at time `now`: nothing observed yet.
pub open spec fn fresh(role: Role, acknowledge: bool, timing: Timing, now: u64) -> SessionModel {
    SessionModel {
        role,
        acknowledge,
        timing,
        last_clipboard: Seq::empty(),
        last_liveness_at: now,
        state: SessionState::Active,
    }
}

/// Whether the liveness deadline of `s` has passed at time `now`.
pub open spec fn liveness_expired(s: SessionModel, now: u64) -> bool {
    s.role == Role::Initiator && now >= s.last_liveness_at + s.timing.pong_timeout_ms
}

/// `s`, ended for `reason`.
pub open spec fn ended(s: SessionModel, reason: EndReason) -> SessionModel {
    SessionModel { state: SessionState::Ended(reason), ..s }
}

/// What a session does with a message that arrived.
pub open spec fn on_message(s: SessionModel, now: u64, m: MessageModel) -> (SessionModel, ActionModel) {
    match m {
        MessageModel::Clip(c) => (SessionModel { last_clipboard: c, ..s }, ActionModel::WriteClipboard(c)),
        MessageModel::Ping => (s, ActionModel::Send(MessageModel::Pong)),
        MessageModel::Pong => if s.role == Role::Initiator {
            (SessionModel { last_liveness_at: now, ..s }, ActionModel::Idle)
        } else {
            (s, ActionModel::Idle)
        },
        MessageModel::Ack => (s, ActionModel::Idle),
    }
}

/// One step of the session: the state after event `e` at time `now`, and
/// the action to carry out.
pub open spec fn step_model(s: SessionModel, now: u64, e: EventModel) -> (SessionModel, ActionModel) {
    if let SessionState::Ended(reason) = s.state {
        (s, ActionModel::End(reason))
    } else if liveness_expired(s, now) {
        (ended(s, EndReason::LivenessTimeout), ActionModel::End(EndReason::LivenessTimeout))
    } else {
        match e {
            EventModel::ClipboardRead(Some(c)) => if c != s.last_clipboard {
                (SessionModel { last_clipboard: c, ..s }, ActionModel::Send(MessageModel::Clip(c)))
            } else {
                (s, ActionModel::Idle)
            },
            EventModel::ClipboardRead(None) => (s, ActionModel::Idle),
            EventModel::PingTick => if s.role == Role::Initiator {
                (s, ActionModel::Send(MessageModel::Ping))
            } else {
                (s, ActionModel::Idle)
            },
            EventModel::Line(l) => match decoded(l) {
                Ok(m) => on_message(s, now, m),
                Err(_) => (ended(s, EndReason::ProtocolError), ActionModel::End(EndReason::ProtocolError)),
            },
            EventModel::InboundClosed => (
                ended(s, EndReason::ConnectionClosed),
                ActionModel::End(EndReason::ConnectionClosed),
            ),
            EventModel::ClipboardWritten(ok) => if !ok {
                (ended(s, EndReason::ProviderFailure), ActionModel::End(EndReason::ProviderFailure))
            } else if s.role == Role::Responder && s.acknowledge {
                (s, ActionModel::Send(MessageModel::Ack))
            } else {
                (s, ActionModel::Idle)
            },
            EventModel::SendCompleted(ok) => if !ok {
                (ended(s, EndReason::SendTimeout), ActionModel::End(EndReason::SendTimeout))
            } else {
                (s, ActionModel::Idle)
            },
            EventModel::Tick => (s, ActionModel::Idle),
        }
    }
}

/// An event with the time, in milliseconds, at which it happened.
#[derive(Debug, Clone)]
pub struct TimedEvent {
    pub at: u64,
    pub event: Event,
}

impl View for TimedEvent {
    type V = (u64, EventModel);

    open spec fn view(&self) -> (u64, EventModel) {
        (self.at, self.event@)
    }
}

/// Running a session over events in order: the state after the last one,
/// and the action taken for each.
pub open spec fn run(s: SessionModel, evs: Seq<(u64, EventModel)>) -> (SessionModel, Seq<ActionModel>)
    decreases evs.len(),
{
    if evs.len() == 0 {
        (s, Seq::empty())
    } else {
        let before = run(s, evs.drop_last());
        let next = step_model(before.0, evs.last().0, evs.last().1);
        (next.0, before.1.push(next.1))
    }
}

/// The messages that actions send, in order.
pub open spec fn outbound(acts: Seq<ActionModel>) -> Seq<MessageModel>
    decreases acts.len(),
{
    if acts.len() == 0 {
        Seq::empty()
    } else {
        let rest = outbound(acts.drop_last());
        match acts.last() {
            ActionModel::Send(m) => rest.push(m),
            _ => rest,
        }
    }
}

impl Session {
    /// A session that starts at time `now`, with nothing observed yet.
    pub fn new(role: Role, acknowledge: bool, timing: Timing, now: u64) -> (r: Session)
        ensures
            r@ == fresh(role, acknowledge, timing, now),
    {
        Session {
            role,
            acknowledge,
            timing,
            last_clipboard: String::new(),
            last_liveness_at: now,
            state: SessionState::Active,
        }
    }

    /// Handles `event`, which happened at time `now`, and says what to do.
    pub fn step(&mut self, now: u64, event: &Event) -> (r: Action)
        ensures
            (final(self)@, r@) == step_model(old(self)@, now, event@),
    {
        if let SessionState::Ended(reason) = self.state {
            return Action::End(reason);
        }
        if self.role == Role::Initiator && now >= self.last_liveness_at && now
            - self.last_liveness_at >= self.timing.pong_timeout_ms {
            return self.end(EndReason::LivenessTimeout);
        }
        match event {
            Event::ClipboardRead(Some(c)) => {
                if *c != self.last_clipboard {
                    self.last_clipboard = c.clone();
                    Action::Send(Message::Clip { clip: c.clone() })
                } else {
                    Action::Idle
                }
            },
            Event::ClipboardRead(None) => Action::Idle,
            Event::PingTick => {
                if self.role == Role::Initiator {
                    Action::Send(Message::Ping)
                } else {
                    Action::Idle
                }
            },
            Event::Line(l) => match decode(l.as_str()) {
                Ok(Message::Clip { clip }) => {
                    self.last_clipboard = clip.clone();
                    Action::WriteClipboard(clip)
                },
                Ok(Message::Ping) => Action::Send(Message::Pong),
                Ok(Message::Pong) => {
                    if self.role == Role::Initiator {
                        self.last_liveness_at = now;
                    }
                    Action::Idle
                },
                Ok(Message::Ack) => Action::Idle,
                Err(_) => self.end(EndReason::ProtocolError),
            },
            Event::InboundClosed => self.end(EndReason::ConnectionClosed),
            Event::ClipboardWritten(ok) => {
                if !*ok {
                    self.end(EndReason::ProviderFailure)
                } else if self.role == Role::Responder && self.acknowledge {
                    Action::Send(Message::Ack)
                } else {
                    Action::Idle
                }
            },
            Event::SendCompleted(ok) => {
                if !*ok {
                    self.end(EndReason::SendTimeout)
                } else {
                    Action::Idle
                }
            },
            Event::Tick => Action::Idle,
        }
    }

    /// Handles `events` in order and gives the action for each, in the same
    /// order.
    pub fn handle_all(&mut self, events: &Vec<TimedEvent>) -> (r: Vec<Action>)
        ensures
            (final(self)@, r@.map_values(|a: Action| a@)) == run(
                old(self)@,
                events@.map_values(|t: TimedEvent| t@),
            ),
    {
        let ghost evs = events@.map_values(|t: TimedEvent| t@);
        let mut acts: Vec<Action> = Vec::new();
        let mut i: usize = 0;
        while i < events.len()
            invariant
                i <= events.len(),
                evs == events@.map_values(|t: TimedEvent| t@),
                (self@, acts@.map_values(|a: Action| a@)) == run(old(self)@, evs.take(i as int)),
            decreases events.len() - i,
        {
            let a = self.step(events[i].at, &events[i].event);
            proof {
                assert(evs.take(i + 1).drop_last() =~= evs.take(i as int));
                assert(acts@.push(a).map_values(|a: Action| a@) =~= acts@.map_values(|a: Action| a@).push(a@));
            }
            acts.push(a);
            i = i + 1;
        }
        assert(evs.take(i as int) =~= evs);
        acts
    }

    /// The role of this session.
    pub fn role(&self) -> (r: Role)
        ensures
            r == self@.role,
    {
        self.role
    }

    /// The intervals and timeouts of this session.
    pub fn timing(&self) -> (r: Timing)
        ensures
            r == self@.timing,
    {
        self.timing
    }

    /// Whether the session still runs, or why it ended.
    pub fn state(&self) -> (r: SessionState)
        ensures
            r == self@.state,
    {
        self.state
    }

    /// The clipboard content last sent or applied.
    pub fn last_clipboard(&self) -> (r: String)
        ensures
            r@ == self@.last_clipboard,
    {
        self.last_clipboard.clone()
    }

    /// When the last pong was accepted, or when the session started.
    pub fn last_liveness_at(&self) -> (r: u64)
        ensures
            r == self@.last_liveness_at,
    {
        self.last_liveness_at
    }

    fn end(&mut self, reason: EndReason) -> (r: Action)
        ensures
            final(self)@ == ended(old(self)@, reason),
            r@ == ActionModel::End(reason),
    {
        self.state = SessionState::Ended(reason);
        Action::End(reason)
    }
}


/// Running over `a` and then `b` is running over `a + b`.
pub proof fn lemma_run_split(s: SessionModel, a: Seq<(u64, EventModel)>, b: Seq<(u64, EventModel)>)
    ensures
        run(s, a + b).0 == run(run(s, a).0, b).0,
        run(s, a + b).1 == run(s, a).1 + run(run(s, a).0, b).1,
    decreases b.len(),
{
    if b.len() == 0 {
        assert(a + b =~= a);
        assert(run(s, a).1 + run(run(s, a).0, b).1 =~= run(s, a).1);
    } else {
        assert((a + b).drop_last() =~= a + b.drop_last());
        assert((a + b).last() == b.last());
        lemma_run_split(s, a, b.drop_last());
        let mid = run(run(s, a).0, b.drop_last());
        let next = step_model(mid.0, b.last().0, b.last().1);
        assert(run(s, a).1 + mid.1.push(next.1) =~= (run(s, a).1 + mid.1).push(next.1));
    }
}

proof fn lemma_outbound_concat(x: Seq<ActionModel>, y: Seq<ActionModel>)
    ensures
        outbound(x + y) == outbound(x) + outbound(y),
    decreases y.len(),
{
    if y.len() == 0 {
        assert(x + y =~= x);
        assert(outbound(x) + outbound(y) =~= outbound(x));
    } else {
        assert((x + y).drop_last() =~= x + y.drop_last());
        assert((x + y).last() == y.last());
        lemma_outbound_concat(x, y.drop_last());
        match y.last() {
            ActionModel::Send(m) => {
                assert(outbound(x) + outbound(y.drop_last()).push(m) =~= (outbound(x) + outbound(
                    y.drop_last(),
                )).push(m));
            },
            _ => {},
        }
    }
}

/// Outbound messages keep the order of the events that caused them: the
/// messages sent while handling `a` and then `b` are those of `a` followed
/// by those of `b`.
pub proof fn lemma_outbound_order(s: SessionModel, a: Seq<(u64, EventModel)>, b: Seq<(u64, EventModel)>)
    ensures
        outbound(run(s, a + b).1) == outbound(run(s, a).1) + outbound(run(run(s, a).0, b).1),
{
    lemma_run_split(s, a, b);
    lemma_outbound_concat(run(s, a).1, run(run(s, a).0, b).1);
}

/// The `i`-th action of a run answers the `i`-th event, in the state that
/// the events before it left.
pub proof fn lemma_action_answers_event(s: SessionModel, evs: Seq<(u64, EventModel)>, i: int)
    requires
        0 <= i < evs.len(),
    ensures
        run(s, evs).1.len() == evs.len(),
        run(s, evs).1[i] == step_model(run(s, evs.take(i)).0, evs[i].0, evs[i].1).1,
    decreases evs.len(),
{
    lemma_run_len(s, evs);
    if i < evs.len() - 1 {
        assert(evs.drop_last().take(i) =~= evs.take(i));
        lemma_action_answers_event(s, evs.drop_last(), i);
    } else {
        assert(evs.take(i) =~= evs.drop_last());
    }
}

proof fn lemma_run_len(s: SessionModel, evs: Seq<(u64, EventModel)>)
    ensures
        run(s, evs).1.len() == evs.len(),
    decreases evs.len(),
{
    if evs.len() > 0 {
        lemma_run_len(s, evs.drop_last());
    }
}

/// The text of a successful clipboard read.
pub open spec fn read_text(e: EventModel) -> Seq<char> {
    match e {
        EventModel::ClipboardRead(Some(c)) => c,
        _ => Seq::empty(),
    }
}

/// The content observed before the `i`-th of a run of clipboard reads.
pub open spec fn observed_before(s: SessionModel, evs: Seq<(u64, EventModel)>, i: int) -> Seq<char> {
    if i == 0 {
        s.last_clipboard
    } else {
        read_text(evs[i - 1].1)
    }
}

/// Over any run of successful clipboard reads on a live session, a read
/// sends a `Clip` of its content exactly when that content differs from the
/// one observed last, and otherwise nothing is sent.
pub proof fn lemma_dedup(s: SessionModel, evs: Seq<(u64, EventModel)>)
    requires
        s.state == SessionState::Active,
        forall|i: int| 0 <= i < evs.len() ==> #[trigger] evs[i].1 matches EventModel::ClipboardRead(Some(_)),
        forall|i: int| 0 <= i < evs.len() ==> !liveness_expired(s, #[trigger] evs[i].0),
    ensures
        run(s, evs).1.len() == evs.len(),
        forall|i: int|
            0 <= i < evs.len() ==> #[trigger] run(s, evs).1[i] == if read_text(evs[i].1) != observed_before(s, evs, i) {
                ActionModel::Send(MessageModel::Clip(read_text(evs[i].1)))
            } else {
                ActionModel::Idle
            },
        run(s, evs).0 == (SessionModel { last_clipboard: observed_before(s, evs, evs.len() as int), ..s }),
    decreases evs.len(),
{
    if evs.len() == 0 {
        assert(run(s, evs).0 == (SessionModel { last_clipboard: s.last_clipboard, ..s }));
    } else {
        let p = evs.drop_last();
        assert forall|i: int| 0 <= i < p.len() implies #[trigger] p[i].1 matches EventModel::ClipboardRead(Some(_)) by {
            assert(p[i] == evs[i]);
        }
        assert forall|i: int| 0 <= i < p.len() implies !liveness_expired(s, #[trigger] p[i].0) by {
            assert(p[i] == evs[i]);
        }
        lemma_dedup(s, p);
        let n = evs.len() - 1;
        assert(evs[n].1 matches EventModel::ClipboardRead(Some(_)));
        assert(!liveness_expired(s, evs[n].0));
        assert forall|i: int| 0 <= i < n implies observed_before(s, p, i) == observed_before(s, evs, i) by {
            if i > 0 {
                assert(p[i - 1] == evs[i - 1]);
            }
        }
        assert(observed_before(s, p, n) == observed_before(s, evs, n)) by {
            if n > 0 {
                assert(p[n - 1] == evs[n - 1]);
            }
        }
        assert forall|i: int| 0 <= i < evs.len() implies #[trigger] run(s, evs).1[i] == if read_text(evs[i].1) != observed_before(s, evs, i) {
            ActionModel::Send(MessageModel::Clip(read_text(evs[i].1)))
        } else {
            ActionModel::Idle
        } by {
            if i < n {
                assert(run(s, evs).1[i] == run(s, p).1[i]);
                assert(p[i] == evs[i]);
            }
        }
    }
}

/// Whether an event is the arrival of a `Pong`.
pub open spec fn is_pong(e: EventModel) -> bool {
    match e {
        EventModel::Line(l) => decoded(l) == Ok::<MessageModel, DecodeError>(MessageModel::Pong),
        _ => false,
    }
}

proof fn lemma_run_without_pong(s: SessionModel, evs: Seq<(u64, EventModel)>)
    requires
        forall|i: int| 0 <= i < evs.len() ==> !is_pong(#[trigger] evs[i].1),
    ensures
        run(s, evs).0.role == s.role,
        run(s, evs).0.timing == s.timing,
        run(s, evs).0.last_liveness_at == s.last_liveness_at,
    decreases evs.len(),
{
    if evs.len() > 0 {
        let p = evs.drop_last();
        assert forall|i: int| 0 <= i < p.len() implies !is_pong(#[trigger] p[i].1) by {
            assert(p[i] == evs[i]);
        }
        lemma_run_without_pong(s, p);
        assert(!is_pong(evs[evs.len() - 1].1));
    }
}

/// Without a `Pong`, an initiator's session cannot outlive the pong timeout:
/// whatever other events came, the first event handled at or after the
/// deadline ends it, for `LivenessTimeout` unless it had already ended.
pub proof fn lemma_liveness(s: SessionModel, evs: Seq<(u64, EventModel)>, now: u64, e: EventModel)
    requires
        s.role == Role::Initiator,
        forall|i: int| 0 <= i < evs.len() ==> !is_pong(#[trigger] evs[i].1),
        now >= s.last_liveness_at + s.timing.pong_timeout_ms,
    ensures
        step_model(run(s, evs).0, now, e).0.state is Ended,
        run(s, evs).0.state == SessionState::Active ==> step_model(run(s, evs).0, now, e).1
            == ActionModel::End(EndReason::LivenessTimeout),
{
    lemma_run_without_pong(s, evs);
}

} // verus!
