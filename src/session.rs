use vstd::prelude::*;
use crate::decoder::{decode, decoded_of, Command, Decoded, DecodedView};

verus! {

/// Interval between two heartbeat ticks, in milliseconds.
pub const HEARTBEAT_INTERVAL_MS: u64 = 5000;

/// Silence after which a client is dropped, in milliseconds.
pub const CLIENT_TIMEOUT_MS: u64 = 10000;

/// A frame received on a connection.
pub enum Frame {
    Ping,
    Pong,
    Text(String),
    Binary,
    Close,
    Continuation,
    Nop,
    /// The transport could not read a frame.
    ProtocolError,
}

/// What the connection is to do after a frame.
pub enum Reply {
    /// Answer the ping.
    Pong,
    /// Hand the command to the coordinator.
    Forward(Command),
    /// A text frame of the retired flat protocol, with its discriminant.
    Deprecated(String),
    /// A text frame that is not JSON, or no command.
    Dropped,
    /// A binary frame, which carries nothing here.
    UnexpectedBinary,
    /// Nothing to do.
    Nothing,
    /// End the session.
    Stop,
}

/// What the connection is to do on a heartbeat tick.
#[derive(PartialEq, Eq, Structural, Clone, Copy, Debug)]
pub enum Tick {
    /// Send a ping to the client.
    Ping,
    /// The client is silent for too long: tell the coordinator and end the session.
    TimedOut,
    /// The session has already ended.
    Idle,
}

pub struct SessionState {
    pub id: u64,
    pub last_seen: u64,
    pub active: bool,
    pub notified: bool,
}

/// One client connection, from the connection's side: Active until it ends,
/// Terminated for good, and the coordinator is told of the end exactly once.
pub struct Session {
    id: u64,
    last_seen: u64,
    active: bool,
    notified: bool,
}

impl View for Session {
    type V = SessionState;

    closed spec fn view(&self) -> SessionState {
        SessionState { id: self.id, last_seen: self.last_seen, active: self.active, notified: self.notified }
    }
}

/// Whether a client last seen at `last_seen` is silent for too long at `now`.
pub open spec fn timed_out(last_seen: u64, now: u64) -> bool {
    now > last_seen && now - last_seen > CLIENT_TIMEOUT_MS
}

/// The state after a heartbeat tick at `now`, and what the tick asks for.
pub open spec fn tick_step(s: SessionState, now: u64) -> (SessionState, Tick) {
    if !s.active {
        (s, Tick::Idle)
    } else if timed_out(s.last_seen, now) {
        (SessionState { active: false, notified: true, ..s }, Tick::TimedOut)
    } else {
        (s, Tick::Ping)
    }
}

/// The state after the session stops, and whether the coordinator is to be told now.
pub open spec fn stop_step(s: SessionState) -> (SessionState, bool) {
    (SessionState { active: false, notified: true, ..s }, !s.notified)
}

impl Session {
    /// Once the coordinator has been told, the session has ended.
    pub open spec fn wf(&self) -> bool {
        self@.notified ==> !self@.active
    }

    /// A session that has just connected at `now`.
    pub fn new(id: u64, now: u64) -> (s: Session)
        ensures
            s.wf(),
            s@ == (SessionState { id, last_seen: now, active: true, notified: false }),
    {
        Session { id, last_seen: now, active: true, notified: false }
    }

    pub fn id(&self) -> (r: u64)
        ensures
            r == self@.id,
    {
        self.id
    }

    pub fn is_active(&self) -> (r: bool)
        ensures
            r == self@.active,
    {
        self.active
    }

    /// Takes the id the coordinator issued for this session.
    pub fn set_id(&mut self, id: u64)
        requires
            old(self).wf(),
        ensures
            final(self).wf(),
            final(self)@ == (SessionState { id, ..old(self)@ }),
    {
        self.id = id;
    }

    /// Handles one inbound frame received at `now`. Pings and pongs refresh the
    /// heartbeat; a text frame is decoded and never ends the session; close,
    /// continuation and unreadable frames end it. An ended session ignores frames.
    pub fn on_frame(&mut self, frame: Frame, now: u64) -> (r: Reply)
        requires
            old(self).wf(),
        ensures
            final(self).wf(),
            !old(self)@.active ==> final(self)@ == old(self)@ && r is Nothing,
            old(self)@.active ==> match frame {
                Frame::Ping => final(self)@ == (SessionState { last_seen: now, ..old(self)@ }) && r is Pong,
                Frame::Pong => final(self)@ == (SessionState { last_seen: now, ..old(self)@ }) && r is Nothing,
                Frame::Text(t) => final(self)@ == old(self)@ && match decoded_of(t@) {
                    DecodedView::Command(c) => r is Forward && r->Forward_0@ == c,
                    DecodedView::Deprecated(k) => r is Deprecated && r->Deprecated_0@ == k,
                    _ => r is Dropped,
                },
                Frame::Binary => final(self)@ == old(self)@ && r is UnexpectedBinary,
                Frame::Nop => final(self)@ == old(self)@ && r is Nothing,
                _ => final(self)@ == (SessionState { active: false, ..old(self)@ }) && r is Stop,
            },
            r is Forward ==> frame is Text,
    {
        if !self.active {
            return Reply::Nothing;
        }
        match frame {
            Frame::Ping => {
                self.last_seen = now;
                Reply::Pong
            },
            Frame::Pong => {
                self.last_seen = now;
                Reply::Nothing
            },
            Frame::Text(text) => match decode(text.as_str()) {
                Decoded::Command(c) => Reply::Forward(c),
                Decoded::Deprecated(kind) => Reply::Deprecated(kind),
                Decoded::Unrecognized => Reply::Dropped,
                Decoded::Malformed => Reply::Dropped,
            },
            Frame::Binary => Reply::UnexpectedBinary,
            Frame::Nop => Reply::Nothing,
            _ => {
                self.active = false;
                Reply::Stop
            },
        }
    }

    /// A heartbeat tick at `now`: pings a live client; ends a silent one and
    /// tells the coordinator, instead of pinging it.
    pub fn on_tick(&mut self, now: u64) -> (r: Tick)
        requires
            old(self).wf(),
        ensures
            final(self).wf(),
            (final(self)@, r) == tick_step(old(self)@, now),
    {
        if !self.active {
            return Tick::Idle;
        }
        if now > self.last_seen && now - self.last_seen > CLIENT_TIMEOUT_MS {
            self.active = false;
            self.notified = true;
            return Tick::TimedOut;
        }
        Tick::Ping
    }

    /// The session ends, for whatever cause; returns whether the coordinator is
    /// to be told now, which is true the first time only.
    pub fn stop(&mut self) -> (notify: bool)
        requires
            old(self).wf(),
        ensures
            final(self).wf(),
            (final(self)@, notify) == stop_step(old(self)@),
    {
        let notify = !self.notified;
        self.active = false;
        self.notified = true;
        notify
    }
}

/// A session silent for longer than the timeout is ended at the next tick and
/// the coordinator is told then; however often the session is stopped or ticked
/// afterwards, it is not told again.
pub proof fn lemma_timeout_notifies_once(s: SessionState, now: u64, later: u64)
    requires
        s.notified ==> !s.active,
        s.active,
        timed_out(s.last_seen, now),
    ensures
        tick_step(s, now).1 == Tick::TimedOut,
        !tick_step(s, now).0.active,
        !stop_step(tick_step(s, now).0).1,
        tick_step(tick_step(s, now).0, later).1 == Tick::Idle,
        !stop_step(tick_step(tick_step(s, now).0, later).0).1,
{
}

/// Every way a session ends tells the coordinator exactly once: the first stop
/// of a session not yet told does, a second stop does not.
pub proof fn lemma_stop_notifies_once(s: SessionState)
    requires
        !s.notified,
    ensures
        stop_step(s).1,
        !stop_step(stop_step(s).0).1,
{
}

} // verus!
