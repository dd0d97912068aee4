//! A worker's life as a state machine: its connection, and its duty to
//! paint one pixel after another.
//!
//! The machine decides; its driver acts. The driver performs each
//! [`Action`] it is given and hands back what came of it as an [`Event`]:
//! the outcome of a handshake, of a pull from the pixel source or of a
//! send, the end of a wait, or what arrived on the connection while the
//! worker waited.

use crate::pixel::PixelInfo;
use crate::pixel::PixelProvider;
use vstd::prelude::*;

verus! {

/// How often at most the command for one pixel is sent.
pub const MAX_ATTEMPTS: u8 = 5;

/// Seconds that a worker waits after a failed send.
pub const RETRY_SECS: u64 = 5;

/// Where a worker stands with its connection.
#[derive(Clone, Copy, Debug, PartialEq, Eq, Structural)]
pub enum Phase {
    /// The first handshake is under way.
    Connecting,
    /// The connection is up.
    Active,
    /// The connection was closed, and the one new handshake is under way.
    Reconnecting,
    /// The worker has stopped for good.
    Terminated,
}

/// Where a worker stands with its painting.
#[derive(Clone, Copy, Debug, PartialEq, Eq)]
pub enum Duty {
    /// The next pixel is being pulled from the source.
    Pull,
    /// The command for `pixel` is being sent, for the `attempt`-th time.
    Send { pixel: PixelInfo, attempt: u8 },
    /// The `attempt`-th send for `pixel` failed, and the worker waits.
    Retry { pixel: PixelInfo, attempt: u8 },
    /// The worker pauses before the next pull.
    Pace,
}

/// Why a worker stopped.
#[derive(Clone, Copy, Debug, PartialEq, Eq, Structural)]
pub enum Exit {
    /// The pixel source had nothing left: the work is done.
    Exhausted,
    /// The first handshake failed.
    HandshakeFailed,
    /// The handshake after a closed connection failed.
    ReconnectFailed,
    /// The transport reported an error other than a closed connection.
    TransportFault,
    /// The connection yielded its last frame.
    StreamEnded,
}

/// What arrived on the connection.
#[derive(Clone, Copy, Debug, PartialEq, Eq, Structural)]
pub enum Inbound {
    /// A frame that is no close signal.
    Frame,
    /// The peer's close signal.
    Close,
    /// The transport reports that the connection is closed.
    ConnectionClosed,
    /// The transport reports that the connection was closed before.
    AlreadyClosed,
    /// Any other transport error.
    Fault,
    /// Nothing more will arrive.
    End,
}

impl Inbound {
    /// The connection is gone and a new one is to be made: on a close
    /// signal, and where the transport reports the connection closed.
    pub open spec fn closes(self) -> bool {
        self is Close || self is ConnectionClosed || self is AlreadyClosed
    }
}

/// What the driver reports back.
#[derive(Clone, Copy, Debug, PartialEq, Eq)]
pub enum Event {
    /// The handshake succeeded, and the new connection is in place.
    Connected,
    /// The handshake failed.
    ConnectFailed,
    /// This arrived on the connection.
    Inbound(Inbound),
    /// The wait is over.
    Elapsed,
    /// The pixel source gave this record, or had none left.
    Pulled(Option<PixelInfo>),
    /// The send succeeded.
    Sent,
    /// The send failed.
    SendFailed,
}

/// What the driver is to do next.
#[derive(Debug, PartialEq, Eq)]
pub enum Action {
    /// Make one handshake with the worker's endpoint.
    Connect,
    /// Pull the next record from the pixel source.
    Pull,
    /// Send these bytes as one message over the connection.
    Send(Vec<u8>),
    /// Start a wait of `RETRY_SECS` seconds, and receive meanwhile.
    Retry,
    /// Start a pause of human length, and receive meanwhile.
    Pace,
    /// Go on with the wait that is running, and receive meanwhile.
    Continue,
    /// Stop: the worker is terminated.
    Stop,
}

/// An action as plain values.
pub enum Command {
    Connect,
    Pull,
    Send(Seq<u8>),
    Retry,
    Pace,
    Continue,
    Stop,
}

impl View for Action {
    type V = Command;

    open spec fn view(&self) -> Command {
        match self {
            Action::Connect => Command::Connect,
            Action::Pull => Command::Pull,
            Action::Send(bytes) => Command::Send(bytes@),
            Action::Retry => Command::Retry,
            Action::Pace => Command::Pace,
            Action::Continue => Command::Continue,
            Action::Stop => Command::Stop,
        }
    }
}

/// A worker as plain values.
pub struct BotState {
    pub id: i32,
    pub phase: Phase,
    pub duty: Duty,
    pub exit: Option<Exit>,
}

impl BotState {
    /// The worker `id` before its first handshake.
    pub open spec fn initial(id: i32) -> BotState {
        BotState { id, phase: Phase::Connecting, duty: Duty::Pull, exit: None }
    }

    /// A send is an attempt between the first and the fifth; a worker has
    /// a reason to have stopped exactly when it has stopped; and before
    /// its first connection it has not begun to paint.
    pub open spec fn wf(self) -> bool {
        &&& match self.duty {
            Duty::Send { attempt, .. } => 1 <= attempt <= MAX_ATTEMPTS,
            Duty::Retry { attempt, .. } => 1 <= attempt <= MAX_ATTEMPTS,
            _ => true,
        }
        &&& self.phase is Terminated <==> self.exit is Some
        &&& self.phase is Connecting ==> self.duty is Pull
    }

    /// This worker, stopped for the given reason.
    pub open spec fn stopped(self, exit: Exit) -> BotState {
        BotState { phase: Phase::Terminated, exit: Some(exit), ..self }
    }

    /// What arrives on the connection of an active worker: a frame
    /// changes nothing; a closed connection starts the one new handshake,
    /// and leaves the painting where it stands; any other error, and the
    /// end of the stream, stop the worker.
    pub open spec fn receive(self, inbound: Inbound) -> (BotState, Command) {
        match inbound {
            Inbound::Frame => (self, Command::Continue),
            Inbound::Close | Inbound::ConnectionClosed | Inbound::AlreadyClosed => (
                BotState { phase: Phase::Reconnecting, ..self },
                Command::Connect,
            ),
            Inbound::Fault => (self.stopped(Exit::TransportFault), Command::Stop),
            Inbound::End => (self.stopped(Exit::StreamEnded), Command::Stop),
        }
    }

    /// The painting of an active worker: a pulled record is sent at once,
    /// and no record left stops the worker; a send that succeeded starts
    /// the pause; one that failed starts the wait, after which the record
    /// is sent again if that was not the fifth attempt, and else the pause
    /// starts; after the pause the next record is pulled. An event that
    /// the painting does not wait for changes nothing.
    pub open spec fn paint(self, event: Event) -> (BotState, Command) {
        match (self.duty, event) {
            (Duty::Pull, Event::Pulled(Some(pixel))) => (
                BotState { duty: Duty::Send { pixel, attempt: 1 }, ..self },
                Command::Send(pixel@.encoded()),
            ),
            (Duty::Pull, Event::Pulled(None)) => (self.stopped(Exit::Exhausted), Command::Stop),
            (Duty::Send { .. }, Event::Sent) => (BotState { duty: Duty::Pace, ..self }, Command::Pace),
            (Duty::Send { pixel, attempt }, Event::SendFailed) => (
                BotState { duty: Duty::Retry { pixel, attempt }, ..self },
                Command::Retry,
            ),
            (Duty::Retry { pixel, attempt }, Event::Elapsed) => if attempt < MAX_ATTEMPTS {
                (
                    BotState { duty: Duty::Send { pixel, attempt: (attempt + 1) as u8 }, ..self },
                    Command::Send(pixel@.encoded()),
                )
            } else {
                (BotState { duty: Duty::Pace, ..self }, Command::Pace)
            },
            (Duty::Pace, Event::Elapsed) => (BotState { duty: Duty::Pull, ..self }, Command::Pull),
            _ => (self, Command::Continue),
        }
    }

    /// The worker after `event`, and what its driver is to do next.
    ///
    /// A stopped worker stays stopped. While a handshake is under way only
    /// its outcome counts: success makes the worker active, and it then
    /// begins to paint, or goes on where it stood; failure stops it. An
    /// active worker receives and paints.
    pub open spec fn step(self, event: Event) -> (BotState, Command) {
        match self.phase {
            Phase::Terminated => (self, Command::Stop),
            Phase::Connecting => match event {
                Event::Connected => (BotState { phase: Phase::Active, ..self }, Command::Pull),
                Event::ConnectFailed => (self.stopped(Exit::HandshakeFailed), Command::Stop),
                _ => (self, Command::Continue),
            },
            Phase::Reconnecting => match event {
                Event::Connected => (BotState { phase: Phase::Active, ..self }, Command::Continue),
                Event::ConnectFailed => (self.stopped(Exit::ReconnectFailed), Command::Stop),
                _ => (self, Command::Continue),
            },
            Phase::Active => match event {
                Event::Inbound(inbound) => self.receive(inbound),
                _ => self.paint(event),
            },
        }
    }

    /// The worker after all of `events`, in their order.
    pub open spec fn run(self, events: Seq<Event>) -> BotState
        decreases events.len(),
    {
        if events.len() == 0 {
            self
        } else {
            self.step(events[0]).0.run(events.drop_first())
        }
    }

    /// Number of sends that the driver is told to make in the course of
    /// `events`, up to the next pull.
    pub open spec fn sends(self, events: Seq<Event>) -> nat
        decreases events.len(),
    {
        if events.len() == 0 {
            0
        } else {
            let (next, command) = self.step(events[0]);
            if command is Pull {
                0
            } else if command is Send {
                1 + next.sends(events.drop_first())
            } else {
                next.sends(events.drop_first())
            }
        }
    }

    /// Number of handshakes that the driver is told to make in the course
    /// of `events`.
    pub open spec fn connects(self, events: Seq<Event>) -> nat
        decreases events.len(),
    {
        if events.len() == 0 {
            0
        } else {
            let (next, command) = self.step(events[0]);
            if command is Connect {
                1 + next.connects(events.drop_first())
            } else {
                next.connects(events.drop_first())
            }
        }
    }

    /// Number of sends that the worker may still be told to make before
    /// it pulls the next pixel.
    pub open spec fn attempts_left(self) -> nat {
        if self.phase is Terminated {
            0
        } else {
            match self.duty {
                Duty::Pull => MAX_ATTEMPTS as nat,
                Duty::Send { attempt, .. } => (MAX_ATTEMPTS - attempt) as nat,
                Duty::Retry { attempt, .. } => (MAX_ATTEMPTS - attempt) as nat,
                Duty::Pace => 0,
            }
        }
    }

    /// A step keeps a worker well formed and keeps its identity.
    pub proof fn lemma_step_wf(self, event: Event)
        requires
            self.wf(),
        ensures
            self.step(event).0.wf(),
            self.step(event).0.id == self.id,
    {
    }

    /// A worker stops only when its source is exhausted, a handshake
    /// fails, the transport reports an error other than a closed
    /// connection, or the stream ends; and no event cancels it.
    pub proof fn lemma_stops_only_for_cause(self, event: Event)
        requires
            self.wf(),
            !(self.phase is Terminated),
            self.step(event).0.phase is Terminated,
        ensures
            (event == Event::Pulled(None) && self.duty is Pull && self.phase is Active)
                || event is ConnectFailed || event == Event::Inbound(Inbound::Fault) || event
                == Event::Inbound(Inbound::End),
    {
    }

    /// A stopped worker stays stopped whatever happens, for the same
    /// reason, and its driver is told nothing but to stop.
    pub proof fn lemma_terminated_is_final(self, events: Seq<Event>)
        requires
            self.phase is Terminated,
        ensures
            self.run(events) == self,
            self.sends(events) == 0,
            self.connects(events) == 0,
            forall|event: Event| self.step(event) == (self, Command::Stop),
        decreases events.len(),
    {
        if events.len() > 0 {
            self.lemma_terminated_is_final(events.drop_first());
        }
    }

    /// An active worker that learns that its connection is closed makes
    /// exactly one new handshake: it is told to connect, and then, whatever
    /// happens, not again before the handshake has come out. If it
    /// succeeds, the worker is active again and its painting stands where
    /// it stood: the same pixel, the same attempt, nothing sent meanwhile.
    /// If it fails, the worker has stopped, and never connects again.
    pub proof fn lemma_reconnects_once(self, inbound: Inbound, event: Event, later: Seq<Event>)
        requires
            self.wf(),
            self.phase is Active,
            inbound.closes(),
        ensures
            ({
                let (closed, command) = self.step(Event::Inbound(inbound));
                let (after, next) = closed.step(event);
                &&& command == Command::Connect
                &&& closed == (BotState { phase: Phase::Reconnecting, ..self })
                &&& !(next is Connect) && !(next is Send) && !(next is Pull)
                &&& after.duty == self.duty
                &&& event is Connected ==> after == self && next == Command::Continue
                &&& event is ConnectFailed ==> after == self.stopped(Exit::ReconnectFailed) && next
                    == Command::Stop && after.connects(later) == 0 && after.run(later) == after
                &&& !(event is Connected) && !(event is ConnectFailed) ==> after == closed
            }),
    {
        let closed = self.step(Event::Inbound(inbound)).0;
        let after = closed.step(event).0;
        if event is ConnectFailed {
            after.lemma_terminated_is_final(later);
        }
    }

    /// Between two pulls a worker is told to send at most five times:
    /// however the events fall, the sends up to the next pull are no more
    /// than the attempts that are left, and those are five for a pixel
    /// that is yet to be pulled.
    pub proof fn lemma_sends_are_bounded(self, events: Seq<Event>)
        requires
            self.wf(),
        ensures
            self.sends(events) <= self.attempts_left(),
            self.attempts_left() <= MAX_ATTEMPTS,
        decreases events.len(),
    {
        if events.len() > 0 {
            let next = self.step(events[0]).0;
            self.lemma_step_wf(events[0]);
            next.lemma_sends_are_bounded(events.drop_first());
        }
    }

    /// Each send that the worker is told to make carries the command of
    /// the pixel in flight, whole and alone, and is the first attempt for
    /// a pixel just pulled or the next attempt after a failed one.
    pub proof fn lemma_send_is_next_attempt(self, event: Event)
        requires
            self.wf(),
            self.step(event).1 is Send,
        ensures
            ({
                let (next, command) = self.step(event);
                &&& self.phase is Active
                &&& next.phase is Active
                &&& next.duty matches Duty::Send { pixel, attempt }
                &&& command == Command::Send(pixel@.encoded())
                &&& (event == Event::Pulled(Some(pixel)) && self.duty is Pull && attempt == 1)
                    || (event is Elapsed && self.duty == (Duty::Retry {
                    pixel,
                    attempt: (attempt - 1) as u8,
                }))
            }),
    {
    }
}

/// A worker: one agent that holds one connection to the canvas service
/// and paints pixels over it.
pub struct Bot {
    id: i32,
    phase: Phase,
    duty: Duty,
    exit: Option<Exit>,
}

impl View for Bot {
    type V = BotState;

    closed spec fn view(&self) -> BotState {
        BotState { id: self.id, phase: self.phase, duty: self.duty, exit: self.exit }
    }
}

impl Bot {
    #[verifier::type_invariant]
    spec fn inv(&self) -> bool {
        self@.wf()
    }

    /// The worker `id`, about to make its first handshake: its driver is
    /// to connect, and to report the outcome.
    pub fn new(id: i32) -> (bot: Bot)
        ensures
            bot@ == BotState::initial(id),
            bot@.wf(),
    {
        Bot { id, phase: Phase::Connecting, duty: Duty::Pull, exit: None }
    }

    /// The worker's number.
    pub fn id(&self) -> (id: i32)
        ensures
            id == self@.id,
    {
        self.id
    }

    /// Where the worker stands with its connection.
    pub fn phase(&self) -> (phase: Phase)
        ensures
            phase == self@.phase,
    {
        self.phase
    }

    /// Why the worker stopped, if it has.
    pub fn exit(&self) -> (exit: Option<Exit>)
        ensures
            exit == self@.exit,
            exit is Some <==> self@.phase is Terminated,
    {
        proof {
            use_type_invariant(self);
        }
        self.exit
    }

    fn stop(&mut self, exit: Exit) -> (action: Action)
        ensures
            final(self)@ == old(self)@.stopped(exit),
            action@ == Command::Stop,
    {
        proof {
            use_type_invariant(&*self);
        }
        *self = Bot { id: self.id, phase: Phase::Terminated, duty: self.duty, exit: Some(exit) };
        Action::Stop
    }

    fn turn(&mut self, phase: Phase)
        requires
            phase is Active || phase is Reconnecting,
            !(old(self)@.phase is Terminated),
        ensures
            final(self)@ == (BotState { phase, ..old(self)@ }),
    {
        proof {
            use_type_invariant(&*self);
        }
        self.phase = phase;
    }

    fn receive(&mut self, inbound: Inbound) -> (action: Action)
        requires
            old(self)@.phase is Active,
        ensures
            (final(self)@, action@) == old(self)@.receive(inbound),
    {
        match inbound {
            Inbound::Frame => Action::Continue,
            Inbound::Close | Inbound::ConnectionClosed | Inbound::AlreadyClosed => {
                self.turn(Phase::Reconnecting);
                Action::Connect
            },
            Inbound::Fault => self.stop(Exit::TransportFault),
            Inbound::End => self.stop(Exit::StreamEnded),
        }
    }

    fn paint(&mut self, event: Event) -> (action: Action)
        requires
            old(self)@.phase is Active,
        ensures
            (final(self)@, action@) == old(self)@.paint(event),
    {
        proof {
            use_type_invariant(&*self);
        }
        match (self.duty, event) {
            (Duty::Pull, Event::Pulled(Some(pixel))) => {
                self.duty = Duty::Send { pixel, attempt: 1 };
                Action::Send(PixelProvider::pack(pixel))
            },
            (Duty::Pull, Event::Pulled(None)) => self.stop(Exit::Exhausted),
            (Duty::Send { .. }, Event::Sent) => {
                self.duty = Duty::Pace;
                Action::Pace
            },
            (Duty::Send { pixel, attempt }, Event::SendFailed) => {
                self.duty = Duty::Retry { pixel, attempt };
                Action::Retry
            },
            (Duty::Retry { pixel, attempt }, Event::Elapsed) => {
                if attempt < MAX_ATTEMPTS {
                    self.duty = Duty::Send { pixel, attempt: attempt + 1 };
                    Action::Send(PixelProvider::pack(pixel))
                } else {
                    self.duty = Duty::Pace;
                    Action::Pace
                }
            },
            (Duty::Pace, Event::Elapsed) => {
                self.duty = Duty::Pull;
                Action::Pull
            },
            _ => Action::Continue,
        }
    }

    /// Takes in what the driver reports, and tells it what to do next.
    pub fn step(&mut self, event: Event) -> (action: Action)
        ensures
            old(self)@.wf(),
            final(self)@.wf(),
            (final(self)@, action@) == old(self)@.step(event),
    {
        proof {
            use_type_invariant(&*self);
            self@.lemma_step_wf(event);
        }
        match self.phase {
            Phase::Terminated => Action::Stop,
            Phase::Connecting => match event {
                Event::Connected => {
                    self.turn(Phase::Active);
                    Action::Pull
                },
                Event::ConnectFailed => self.stop(Exit::HandshakeFailed),
                _ => Action::Continue,
            },
            Phase::Reconnecting => match event {
                Event::Connected => {
                    self.turn(Phase::Active);
                    Action::Continue
                },
                Event::ConnectFailed => self.stop(Exit::ReconnectFailed),
                _ => Action::Continue,
            },
            Phase::Active => match event {
                Event::Inbound(inbound) => self.receive(inbound),
                _ => self.paint(event),
            },
        }
    }
}

} // verus!
