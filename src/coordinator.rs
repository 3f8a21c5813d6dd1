use vstd::prelude::*;
use crate::decoder::{Command, CommandView};
use crate::event::{summary_of, Broadcast, Event, EventView, PollChange, Signal};
use crate::poll::{cast, voters_unique, Poll, PollView};

verus! {

/// A registered session: its id, its room and its display name.
pub struct SessionInfo {
    pub id: u64,
    pub room: String,
    pub name: String,
}

pub struct SessionView {
    pub id: u64,
    pub room: Seq<char>,
    pub name: Seq<char>,
}

impl View for SessionInfo {
    type V = SessionView;

    open spec fn view(&self) -> SessionView {
        SessionView { id: self.id, room: self.room@, name: self.name@ }
    }
}

/// The ids of the sessions registered in `room`, in registration order.
pub open spec fn room_members(sessions: Seq<SessionView>, room: Seq<char>) -> Seq<u64>
    decreases sessions.len(),
{
    if sessions.len() == 0 {
        Seq::empty()
    } else {
        let rest = room_members(sessions.drop_last(), room);
        if sessions.last().room == room {
            rest.push(sessions.last().id)
        } else {
            rest
        }
    }
}

/// Whether a session with this id is registered.
pub open spec fn registered(sessions: Seq<SessionView>, id: u64) -> bool {
    exists|i: int| 0 <= i < sessions.len() && sessions[i].id == id
}

/// Whether session `id` is a member of `room`.
pub open spec fn is_member(sessions: Seq<SessionView>, id: u64, room: Seq<char>) -> bool {
    exists|i: int| 0 <= i < sessions.len() && sessions[i].id == id && sessions[i].room == room
}

/// Position of the poll titled `title` in `room`, if there is one.
pub open spec fn poll_index(polls: Seq<PollView>, room: Seq<char>, title: Seq<char>) -> Option<int> {
    if exists|i: int| 0 <= i < polls.len() && polls[i].room == room && polls[i].title == title {
        Some(choose|i: int| 0 <= i < polls.len() && polls[i].room == room && polls[i].title == title)
    } else {
        None
    }
}

pub struct CoordinatorView {
    pub next_id: u64,
    pub sessions: Seq<SessionView>,
    pub polls: Seq<PollView>,
}

/// The single owner of sessions, rooms and polls. A room's members are the
/// sessions registered under its name; its polls are those carrying its name.
pub struct Coordinator {
    next_id: u64,
    sessions: Vec<SessionInfo>,
    polls: Vec<Poll>,
}

impl View for Coordinator {
    type V = CoordinatorView;

    closed spec fn view(&self) -> CoordinatorView {
        CoordinatorView {
            next_id: self.next_id,
            sessions: self.sessions@.map_values(|s: SessionInfo| s@),
            polls: self.polls@.map_values(|p: Poll| p@),
        }
    }
}

/// The coordinator state after an ignored command, together with its result.
pub open spec fn unchanged_none(before: CoordinatorView, after: CoordinatorView, r: Option<Broadcast>) -> bool {
    after == before && r.is_none()
}

/// `r` is a broadcast of `e` to the members of `room`.
pub open spec fn announces(r: Option<Broadcast>, sessions: Seq<SessionView>, room: Seq<char>, e: EventView) -> bool {
    &&& r.is_some()
    &&& r.unwrap().recipients@ == room_members(sessions, room)
    &&& r.unwrap().event@ == e
}

/// A freshly opened poll: no options, no votes.
pub open spec fn fresh_poll(room: Seq<char>, title: Seq<char>, owner_id: u64, owner_name: Seq<char>) -> PollView {
    PollView { title, owner_id, owner_name, room, options: Seq::empty(), ballots: Seq::empty(), closed: false }
}

/// Position of the named poll while it is Open.
pub open spec fn open_poll_index(c: CoordinatorView, room: Seq<char>, title: Seq<char>) -> Option<int> {
    match poll_index(c.polls, room, title) {
        Some(i) => if !c.polls[i].closed {
            Some(i)
        } else {
            None
        },
        None => None,
    }
}

/// Replaces the poll at `i`.
pub open spec fn with_poll(c: CoordinatorView, i: int, p: PollView) -> CoordinatorView {
    CoordinatorView { polls: c.polls.update(i, p), ..c }
}

/// The coordinator state after `sender`, a member of `room`, issued `cmd`, and
/// the event the room is then told of, if any.
pub open spec fn command_step(
    c: CoordinatorView,
    room: Seq<char>,
    sender_id: u64,
    sender_name: Seq<char>,
    cmd: CommandView,
) -> (CoordinatorView, Option<EventView>) {
    match cmd {
        CommandView::CreatePoll { title } => if poll_index(c.polls, room, title).is_some() {
            (c, None)
        } else {
            let p = fresh_poll(room, title, sender_id, sender_name);
            (
                CoordinatorView { polls: c.polls.push(p), ..c },
                Some(EventView::Poll { change: PollChange::Created, poll: summary_of(p) }),
            )
        },
        CommandView::AddOption { poll_title, option } => match open_poll_index(c, room, poll_title) {
            Some(i) => {
                let p = PollView { options: c.polls[i].options.push(option), ..c.polls[i] };
                (with_poll(c, i, p), Some(EventView::Poll { change: PollChange::OptionAdded, poll: summary_of(p) }))
            },
            None => (c, None),
        },
        CommandView::Vote { poll_title, option } => match open_poll_index(c, room, poll_title) {
            Some(i) => if c.polls[i].options.contains(option) {
                let p = PollView { ballots: cast(c.polls[i].ballots, sender_id, option), ..c.polls[i] };
                (with_poll(c, i, p), Some(EventView::Poll { change: PollChange::Voted, poll: summary_of(p) }))
            } else {
                (c, None)
            },
            None => (c, None),
        },
        CommandView::ClosePoll { poll_title } => match open_poll_index(c, room, poll_title) {
            Some(i) => {
                let p = PollView { closed: true, ..c.polls[i] };
                (with_poll(c, i, p), Some(EventView::Poll { change: PollChange::Closed, poll: summary_of(p) }))
            },
            None => (c, None),
        },
        CommandView::Adjust { up, amount } => (c, Some(EventView::Adjust { up, owner_id: sender_id, amount })),
        CommandView::Signal { signal, payload } => (
            c,
            Some(EventView::Signal { signal, owner_id: sender_id, owner_name: sender_name, payload }),
        ),
    }
}

/// The event a broadcast carries, if there is one.
pub open spec fn event_of(r: Option<Broadcast>) -> Option<EventView> {
    match r {
        Some(b) => Some(b.event@),
        None => None,
    }
}

impl CoordinatorView {
    /// Session ids are unique and below the next id to issue; a poll title is
    /// unique within its room; every poll is well formed.
    pub open spec fn wf(self) -> bool {
        &&& forall|i: int, j: int|
            0 <= i < self.sessions.len() && 0 <= j < self.sessions.len() && i != j
                ==> self.sessions[i].id != self.sessions[j].id
        &&& forall|i: int| 0 <= i < self.sessions.len() ==> self.sessions[i].id < self.next_id
        &&& forall|i: int, j: int|
            0 <= i < self.polls.len() && 0 <= j < self.polls.len() && i != j
                ==> !(self.polls[i].room == self.polls[j].room && self.polls[i].title == self.polls[j].title)
        &&& forall|i: int| 0 <= i < self.polls.len() ==> voters_unique(#[trigger] self.polls[i].ballots)
    }
}

impl Coordinator {
    pub open spec fn wf(&self) -> bool {
        self@.wf()
    }

    /// An empty coordinator; ids are issued from 1.
    pub fn new() -> (c: Coordinator)
        ensures
            c.wf(),
            c@.next_id == 1,
            c@.sessions.len() == 0,
            c@.polls.len() == 0,
    {
        let c = Coordinator { next_id: 1, sessions: Vec::new(), polls: Vec::new() };
        assert(c@.sessions =~= Seq::<SessionView>::empty());
        assert(c@.polls =~= Seq::<PollView>::empty());
        c
    }

    /// Issues a fresh session id, or `None` once ids are exhausted.
    pub fn issue_id(&mut self) -> (r: Option<u64>)
        requires
            old(self).wf(),
        ensures
            final(self).wf(),
            old(self)@.next_id < u64::MAX ==> r == Some(old(self)@.next_id) && final(self)@ == (
            CoordinatorView { next_id: (old(self)@.next_id + 1) as u64, ..old(self)@ }),
            old(self)@.next_id == u64::MAX ==> r.is_none() && final(self)@ == old(self)@,
    {
        if self.next_id == u64::MAX {
            return None;
        }
        let id = self.next_id;
        self.next_id = self.next_id + 1;
        assert(self@.sessions == old(self)@.sessions);
        assert(self@.polls == old(self)@.polls);
        Some(id)
    }

    fn session_index(&self, id: u64) -> (r: Option<usize>)
        ensures
            match r {
                Some(i) => i < self@.sessions.len() && self@.sessions[i as int].id == id,
                None => !registered(self@.sessions, id),
            },
    {
        let mut i: usize = 0;
        while i < self.sessions.len()
            invariant
                0 <= i <= self.sessions.len(),
                forall|k: int| 0 <= k < i ==> self@.sessions[k].id != id,
            decreases self.sessions.len() - i,
        {
            if self.sessions[i].id == id {
                return Some(i);
            }
            i = i + 1;
        }
        None
    }

    /// Registers session `id` in `room` under `name`. A join whose id is already
    /// registered, or was never issued, is refused and changes nothing.
    pub fn join(&mut self, id: u64, room: String, name: String) -> (ok: bool)
        requires
            old(self).wf(),
        ensures
            final(self).wf(),
            ok == (!registered(old(self)@.sessions, id) && id < old(self)@.next_id),
            ok ==> final(self)@ == (CoordinatorView {
                sessions: old(self)@.sessions.push(SessionView { id, room: room@, name: name@ }),
                ..old(self)@
            }),
            !ok ==> final(self)@ == old(self)@,
    {
        if id >= self.next_id {
            return false;
        }
        match self.session_index(id) {
            Some(_) => false,
            None => {
                let s = SessionInfo { id, room, name };
                let ghost sv = s@;
                self.sessions.push(s);
                assert(self@.sessions =~= old(self)@.sessions.push(sv));
                true
            },
        }
    }

    /// Removes session `id` from the registry, and so from its room. Polls,
    /// and the votes the session cast, stay as they are.
    pub fn disconnect(&mut self, id: u64) -> (removed: bool)
        requires
            old(self).wf(),
        ensures
            final(self).wf(),
            removed == registered(old(self)@.sessions, id),
            final(self)@.next_id == old(self)@.next_id,
            final(self)@.polls == old(self)@.polls,
            !registered(final(self)@.sessions, id),
            forall|k: u64, room: Seq<char>|
                k != id ==> (is_member(final(self)@.sessions, k, room) == is_member(old(self)@.sessions, k, room)),
            !removed ==> final(self)@ == old(self)@,
    {
        match self.session_index(id) {
            None => false,
            Some(i) => {
                let _ = self.sessions.remove(i);
                let ghost before = old(self)@.sessions;
                assert(self@.sessions =~= before.remove(i as int));
                assert(self@.polls == old(self)@.polls);
                assert forall|a: int, b: int|
                    0 <= a < self@.sessions.len() && 0 <= b < self@.sessions.len() && a != b
                        implies self@.sessions[a].id != self@.sessions[b].id by {
                    let a2 = if a < i { a } else { a + 1 };
                    let b2 = if b < i { b } else { b + 1 };
                    assert(self@.sessions[a] == before[a2]);
                    assert(self@.sessions[b] == before[b2]);
                }
                assert forall|a: int| 0 <= a < self@.sessions.len() implies self@.sessions[a].id < self@.next_id by {
                    let a2 = if a < i { a } else { a + 1 };
                    assert(self@.sessions[a] == before[a2]);
                }
                assert forall|k: u64, room: Seq<char>|
                    k != id implies (is_member(self@.sessions, k, room) == is_member(before, k, room)) by {
                    if is_member(before, k, room) {
                        let j = choose|j: int| 0 <= j < before.len() && before[j].id == k && before[j].room == room;
                        let j2 = if j < i { j } else { j - 1 };
                        assert(self@.sessions[j2].id == k);
                    }
                }
                true
            },
        }
    }

    /// The ids of the sessions registered in `room`.
    pub fn members(&self, room: &String) -> (r: Vec<u64>)
        ensures
            r@ == room_members(self@.sessions, room@),
    {
        let mut out: Vec<u64> = Vec::new();
        let mut i: usize = 0;
        while i < self.sessions.len()
            invariant
                0 <= i <= self.sessions.len(),
                out@ == room_members(self@.sessions.subrange(0, i as int), room@),
            decreases self.sessions.len() - i,
        {
            assert(self@.sessions.subrange(0, i as int + 1).drop_last() =~= self@.sessions.subrange(0, i as int));
            if self.sessions[i].room == *room {
                out.push(self.sessions[i].id);
            }
            i = i + 1;
        }
        assert(self@.sessions.subrange(0, i as int) =~= self@.sessions);
        out
    }

    fn find_poll(&self, room: &String, title: &String) -> (r: Option<usize>)
        requires
            self.wf(),
        ensures
            match r {
                Some(i) => poll_index(self@.polls, room@, title@) == Some(i as int),
                None => poll_index(self@.polls, room@, title@).is_none(),
            },
    {
        let mut i: usize = 0;
        while i < self.polls.len()
            invariant
                0 <= i <= self.polls.len(),
                self.wf(),
                forall|k: int| 0 <= k < i ==> !(self@.polls[k].room == room@ && self@.polls[k].title == title@),
            decreases self.polls.len() - i,
        {
            assert(self@.polls[i as int] == self.polls@[i as int]@);
            if *self.polls[i].room() == *room && *self.polls[i].title() == *title {
                proof {
                    let j = choose|j: int|
                        0 <= j < self@.polls.len() && self@.polls[j].room == room@ && self@.polls[j].title == title@;
                    if j != i as int {
                        assert(!(self@.polls[j].room == self@.polls[i as int].room
                            && self@.polls[j].title == self@.polls[i as int].title));
                    }
                }
                return Some(i);
            }
            i = i + 1;
        }
        None
    }

    /// The poll titled `title` in `room`, if there is one.
    pub fn poll(&self, room: &String, title: &String) -> (r: Option<&Poll>)
        requires
            self.wf(),
        ensures
            match poll_index(self@.polls, room@, title@) {
                Some(i) => r.is_some() && r.unwrap()@ == self@.polls[i],
                None => r.is_none(),
            },
    {
        match self.find_poll(room, title) {
            Some(i) => Some(&self.polls[i]),
            None => None,
        }
    }

    /// Opens a new poll in `room` and announces it. A title already used by a
    /// poll of the room is refused: nothing changes and nothing is sent.
    pub fn create_poll(&mut self, room: String, title: String, owner_id: u64, owner_name: String) -> (r: Option<Broadcast>)
        requires
            old(self).wf(),
        ensures
            final(self).wf(),
            poll_index(old(self)@.polls, room@, title@).is_some() ==> unchanged_none(old(self)@, final(self)@, r),
            poll_index(old(self)@.polls, room@, title@).is_none() ==> {
                let p = PollView {
                    title: title@,
                    owner_id,
                    owner_name: owner_name@,
                    room: room@,
                    options: Seq::empty(),
                    ballots: Seq::empty(),
                    closed: false,
                };
                &&& final(self)@ == (CoordinatorView { polls: old(self)@.polls.push(p), ..old(self)@ })
                &&& announces(r, old(self)@.sessions, room@, EventView::Poll { change: PollChange::Created, poll: summary_of(p) })
            },
    {
        if self.find_poll(&room, &title).is_some() {
            return None;
        }
        let recipients = self.members(&room);
        let p = Poll::new(title, owner_id, owner_name, room);
        let summary = p.summary();
        let ghost pv = p@;
        self.polls.push(p);
        assert(self@.polls =~= old(self)@.polls.push(pv));
        assert(self@.polls[self@.polls.len() - 1] == pv);
        Some(Broadcast { recipients, event: Event::Poll { change: PollChange::Created, poll: summary } })
    }

    /// Puts back the poll taken out at position `i`, in its place.
    fn put_back(&mut self, i: usize, p: Poll, Ghost(before): Ghost<CoordinatorView>)
        requires
            before.wf(),
            0 <= i < before.polls.len(),
            old(self)@ == (CoordinatorView { polls: before.polls.remove(i as int), ..before }),
            p@.room == before.polls[i as int].room,
            p@.title == before.polls[i as int].title,
            voters_unique(p@.ballots),
        ensures
            final(self).wf(),
            final(self)@ == (CoordinatorView { polls: before.polls.update(i as int, p@), ..before }),
    {
        let ghost pv = p@;
        let ghost mid = self.polls@;
        assert(mid.len() == old(self)@.polls.len());
        self.polls.insert(i, p);
        assert(self.polls@ == mid.insert(i as int, p));
        assert forall|k: int| 0 <= k < before.polls.len() implies #[trigger] self@.polls[k]
            == before.polls.update(i as int, pv)[k] by {
            if k < i {
                assert(self.polls@[k] == mid[k]);
                assert(old(self)@.polls[k] == mid[k]@);
            } else if k > i {
                assert(self.polls@[k] == mid[k - 1]);
                assert(old(self)@.polls[k - 1] == mid[k - 1]@);
            }
        }
        assert(self@.polls =~= before.polls.update(i as int, pv));
        assert(self@.sessions == before.sessions);
        let ghost after = self@;
        assert forall|a: int, b: int|
            0 <= a < after.polls.len() && 0 <= b < after.polls.len() && a != b
                implies !(after.polls[a].room == after.polls[b].room && after.polls[a].title == after.polls[b].title) by {
            assert(after.polls[a].room == before.polls[a].room && after.polls[a].title == before.polls[a].title);
            assert(after.polls[b].room == before.polls[b].room && after.polls[b].title == before.polls[b].title);
        }
        assert forall|a: int| 0 <= a < after.polls.len() implies voters_unique(#[trigger] after.polls[a].ballots) by {
            if a != i as int {
                assert(after.polls[a] == before.polls[a]);
            }
        }
    }

    /// Appends `option` to the named poll while it is Open and announces the new
    /// options; a missing or closed poll is left as it is and nothing is sent.
    pub fn add_option(&mut self, room: String, poll_title: String, option: String) -> (r: Option<Broadcast>)
        requires
            old(self).wf(),
        ensures
            final(self).wf(),
            ({
                let idx = poll_index(old(self)@.polls, room@, poll_title@);
                if idx.is_some() && !old(self)@.polls[idx.unwrap()].closed {
                    let i = idx.unwrap();
                    let p = PollView { options: old(self)@.polls[i].options.push(option@), ..old(self)@.polls[i] };
                    &&& final(self)@ == (CoordinatorView { polls: old(self)@.polls.update(i, p), ..old(self)@ })
                    &&& announces(r, old(self)@.sessions, room@, EventView::Poll { change: PollChange::OptionAdded, poll: summary_of(p) })
                } else {
                    unchanged_none(old(self)@, final(self)@, r)
                }
            }),
    {
        let i = match self.find_poll(&room, &poll_title) {
            None => return None,
            Some(i) => i,
        };
        if self.polls[i].is_closed() {
            return None;
        }
        let ghost before = self@;
        let recipients = self.members(&room);
        let mut p = self.polls.remove(i);
        assert(self@.polls =~= before.polls.remove(i as int));
        assert(p@ == before.polls[i as int]);
        let _ = p.add_option(option);
        let summary = p.summary();
        self.put_back(i, p, Ghost(before));
        Some(Broadcast { recipients, event: Event::Poll { change: PollChange::OptionAdded, poll: summary } })
    }

    /// Records `voter`'s choice in the named poll while it is Open and `option` is
    /// one of its options, and announces the counts; otherwise nothing changes
    /// and nothing is sent.
    pub fn vote(&mut self, room: String, poll_title: String, option: String, voter: u64) -> (r: Option<Broadcast>)
        requires
            old(self).wf(),
        ensures
            final(self).wf(),
            ({
                let idx = poll_index(old(self)@.polls, room@, poll_title@);
                if idx.is_some() && !old(self)@.polls[idx.unwrap()].closed
                    && old(self)@.polls[idx.unwrap()].options.contains(option@) {
                    let i = idx.unwrap();
                    let p = PollView { ballots: cast(old(self)@.polls[i].ballots, voter, option@), ..old(self)@.polls[i] };
                    &&& final(self)@ == (CoordinatorView { polls: old(self)@.polls.update(i, p), ..old(self)@ })
                    &&& announces(r, old(self)@.sessions, room@, EventView::Poll { change: PollChange::Voted, poll: summary_of(p) })
                } else {
                    unchanged_none(old(self)@, final(self)@, r)
                }
            }),
    {
        let i = match self.find_poll(&room, &poll_title) {
            None => return None,
            Some(i) => i,
        };
        if self.polls[i].is_closed() || !self.polls[i].has_option(&option) {
            return None;
        }
        let ghost before = self@;
        let recipients = self.members(&room);
        let mut p = self.polls.remove(i);
        assert(self@.polls =~= before.polls.remove(i as int));
        assert(p@ == before.polls[i as int]);
        let _ = p.vote(voter, option);
        let summary = p.summary();
        self.put_back(i, p, Ghost(before));
        Some(Broadcast { recipients, event: Event::Poll { change: PollChange::Voted, poll: summary } })
    }

    /// Closes the named poll if it is Open and announces its final counts; a
    /// missing or already closed poll is left as it is and nothing is sent. Any
    /// member may close a poll.
    pub fn close_poll(&mut self, room: String, poll_title: String) -> (r: Option<Broadcast>)
        requires
            old(self).wf(),
        ensures
            final(self).wf(),
            ({
                let idx = poll_index(old(self)@.polls, room@, poll_title@);
                if idx.is_some() && !old(self)@.polls[idx.unwrap()].closed {
                    let i = idx.unwrap();
                    let p = PollView { closed: true, ..old(self)@.polls[i] };
                    &&& final(self)@ == (CoordinatorView { polls: old(self)@.polls.update(i, p), ..old(self)@ })
                    &&& announces(r, old(self)@.sessions, room@, EventView::Poll { change: PollChange::Closed, poll: summary_of(p) })
                } else {
                    unchanged_none(old(self)@, final(self)@, r)
                }
            }),
    {
        let i = match self.find_poll(&room, &poll_title) {
            None => return None,
            Some(i) => i,
        };
        if self.polls[i].is_closed() {
            return None;
        }
        let ghost before = self@;
        let recipients = self.members(&room);
        let mut p = self.polls.remove(i);
        assert(self@.polls =~= before.polls.remove(i as int));
        assert(p@ == before.polls[i as int]);
        let _ = p.close();
        let summary = p.summary();
        self.put_back(i, p, Ghost(before));
        Some(Broadcast { recipients, event: Event::Poll { change: PollChange::Closed, poll: summary } })
    }

    /// Announces a numeric adjustment for `owner_id` to `room`: raised when `up`,
    /// lowered otherwise. No state is kept.
    pub fn adjust(&self, room: String, owner_id: u64, up: bool, amount: u64) -> (r: Broadcast)
        ensures
            announces(Some(r), self@.sessions, room@, EventView::Adjust { up, owner_id, amount }),
    {
        let recipients = self.members(&room);
        Broadcast { recipients, event: Event::Adjust { up, owner_id, amount } }
    }

    /// Relays an ephemeral signal with its payload to `room`. No state is kept.
    pub fn relay(&self, room: String, signal: Signal, owner_id: u64, owner_name: String, payload: String) -> (r: Broadcast)
        ensures
            announces(Some(r), self@.sessions, room@, EventView::Signal {
                signal,
                owner_id,
                owner_name: owner_name@,
                payload: payload@,
            }),
    {
        let recipients = self.members(&room);
        Broadcast { recipients, event: Event::Signal { signal, owner_id, owner_name, payload } }
    }

    /// Carries out a command that `sender_id`, named `sender_name`, issued in
    /// `room`, and returns what the room is to be told, addressed to its members.
    pub fn apply(&mut self, room: String, sender_id: u64, sender_name: String, cmd: Command) -> (r: Option<Broadcast>)
        requires
            old(self).wf(),
        ensures
            final(self).wf(),
            (final(self)@, event_of(r)) == command_step(old(self)@, room@, sender_id, sender_name@, cmd@),
            r.is_some() ==> r.unwrap().recipients@ == room_members(old(self)@.sessions, room@),
    {
        match cmd {
            Command::CreatePoll { title } => self.create_poll(room, title, sender_id, sender_name),
            Command::AddOption { poll_title, option } => self.add_option(room, poll_title, option),
            Command::Vote { poll_title, option } => self.vote(room, poll_title, option, sender_id),
            Command::ClosePoll { poll_title } => self.close_poll(room, poll_title),
            Command::Adjust { up, amount } => Some(self.adjust(room, sender_id, up, amount)),
            Command::Signal { signal, payload } => Some(self.relay(room, signal, sender_id, sender_name, payload)),
        }
    }
}

/// A session is a member of one room at most.
pub proof fn lemma_member_of_one_room(c: CoordinatorView, id: u64, r1: Seq<char>, r2: Seq<char>)
    requires
        c.wf(),
        is_member(c.sessions, id, r1),
        is_member(c.sessions, id, r2),
    ensures
        r1 == r2,
{
    let i = choose|i: int| 0 <= i < c.sessions.len() && c.sessions[i].id == id && c.sessions[i].room == r1;
    let j = choose|j: int| 0 <= j < c.sessions.len() && c.sessions[j].id == id && c.sessions[j].room == r2;
    if i != j {
        assert(c.sessions[i].id != c.sessions[j].id);
    }
}

/// A session that joins `room` is a member of it, and of no other room; every
/// other session keeps the rooms it had.
pub proof fn lemma_join_makes_member(c: CoordinatorView, id: u64, room: Seq<char>, name: Seq<char>, other: Seq<char>, k: u64)
    requires
        c.wf(),
        !registered(c.sessions, id),
        id < c.next_id,
    ensures
        ({
            let after = CoordinatorView { sessions: c.sessions.push(SessionView { id, room, name }), ..c };
            &&& after.wf()
            &&& is_member(after.sessions, id, room)
            &&& other != room ==> !is_member(after.sessions, id, other)
            &&& k != id ==> is_member(after.sessions, k, other) == is_member(c.sessions, k, other)
        }),
{
    let after = CoordinatorView { sessions: c.sessions.push(SessionView { id, room, name }), ..c };
    let n = c.sessions.len() as int;
    assert(after.sessions[n].id == id);
    if other != room && is_member(after.sessions, id, other) {
        let j = choose|j: int| 0 <= j < after.sessions.len() && after.sessions[j].id == id && after.sessions[j].room == other;
        assert(j < n);
        assert(c.sessions[j].id == id);
    }
    if k != id && is_member(after.sessions, k, other) {
        let j = choose|j: int| 0 <= j < after.sessions.len() && after.sessions[j].id == k && after.sessions[j].room == other;
        assert(c.sessions[j] == after.sessions[j]);
    }
    if k != id && is_member(c.sessions, k, other) {
        let j = choose|j: int| 0 <= j < c.sessions.len() && c.sessions[j].id == k && c.sessions[j].room == other;
        assert(c.sessions[j] == after.sessions[j]);
    }
}

/// Commands never change who is in which room.
pub proof fn lemma_commands_keep_members(c: CoordinatorView, room: Seq<char>, sender_id: u64, sender_name: Seq<char>, cmd: CommandView)
    ensures
        command_step(c, room, sender_id, sender_name, cmd).0.sessions == c.sessions,
        command_step(c, room, sender_id, sender_name, cmd).0.next_id == c.next_id,
{
}

/// A room's broadcast reaches exactly its members.
pub proof fn lemma_recipients_are_members(sessions: Seq<SessionView>, room: Seq<char>, id: u64)
    ensures
        room_members(sessions, room).contains(id) == is_member(sessions, id, room),
    decreases sessions.len(),
{
    if sessions.len() > 0 {
        let rest = sessions.drop_last();
        lemma_recipients_are_members(rest, room, id);
        let n = sessions.len() - 1;
        let m = room_members(sessions, room);
        let mr = room_members(rest, room);
        if is_member(sessions, id, room) {
            let j = choose|j: int| 0 <= j < sessions.len() && sessions[j].id == id && sessions[j].room == room;
            if j < n {
                assert(rest[j] == sessions[j]);
                assert(is_member(rest, id, room));
                let t = choose|t: int| 0 <= t < mr.len() && mr[t] == id;
                if sessions.last().room == room {
                    assert(m[t] == id);
                } else {
                    assert(m[t] == id);
                }
            } else {
                assert(m[m.len() - 1] == id);
            }
        }
        if room_members(sessions, room).contains(id) {
            if sessions.last().room == room && sessions.last().id == id {
                assert(sessions[n].id == id);
            } else {
                let m = room_members(sessions, room);
                let t = choose|t: int| 0 <= t < m.len() && m[t] == id;
                if sessions.last().room == room {
                    assert(m == room_members(rest, room).push(sessions.last().id));
                    assert(room_members(rest, room)[t] == id);
                }
                assert(room_members(rest, room).contains(id));
                let j = choose|j: int| 0 <= j < rest.len() && rest[j].id == id && rest[j].room == room;
                assert(sessions[j] == rest[j]);
            }
        }
    }
}

/// A created poll is Open with no options and no votes; an option added to it
/// then stands in it exactly once, as its only option.
pub proof fn lemma_create_then_add(
    c: CoordinatorView,
    room: Seq<char>,
    title: Seq<char>,
    owner_id: u64,
    owner_name: Seq<char>,
    sender_id: u64,
    sender_name: Seq<char>,
    option: Seq<char>,
)
    requires
        poll_index(c.polls, room, title).is_none(),
    ensures
        ({
            let (c1, e1) = command_step(c, room, owner_id, owner_name, CommandView::CreatePoll { title });
            let (c2, e2) = command_step(c1, room, sender_id, sender_name, CommandView::AddOption { poll_title: title, option });
            let i = c.polls.len() as int;
            &&& poll_index(c1.polls, room, title) == Some(i)
            &&& c1.polls[i] == fresh_poll(room, title, owner_id, owner_name)
            &&& e1.is_some()
            &&& c2.polls[i].options == seq![option]
            &&& c2.polls[i].ballots.len() == 0
            &&& !c2.polls[i].closed
            &&& e2.is_some()
        }),
{
    let c1 = command_step(c, room, owner_id, owner_name, CommandView::CreatePoll { title }).0;
    let i = c.polls.len() as int;
    assert(c1.polls[i].room == room && c1.polls[i].title == title);
    let j = choose|j: int| 0 <= j < c1.polls.len() && c1.polls[j].room == room && c1.polls[j].title == title;
    if j < i {
        assert(c.polls[j] == c1.polls[j]);
    }
    assert(seq![].push(option) =~= seq![option]);
}

/// A vote for an option the poll lacks, and any change asked of a closed or
/// missing poll, leaves everything as it was and is announced to nobody.
pub proof fn lemma_rejected_changes_nothing(
    c: CoordinatorView,
    room: Seq<char>,
    title: Seq<char>,
    sender_id: u64,
    sender_name: Seq<char>,
    option: Seq<char>,
)
    ensures
        open_poll_index(c, room, title).is_none() ==> {
            &&& command_step(c, room, sender_id, sender_name, CommandView::AddOption { poll_title: title, option }) == (c, None::<EventView>)
            &&& command_step(c, room, sender_id, sender_name, CommandView::Vote { poll_title: title, option }) == (c, None::<EventView>)
            &&& command_step(c, room, sender_id, sender_name, CommandView::ClosePoll { poll_title: title }) == (c, None::<EventView>)
        },
        (open_poll_index(c, room, title).is_some() && !c.polls[open_poll_index(c, room, title).unwrap()].options.contains(option))
            ==> command_step(c, room, sender_id, sender_name, CommandView::Vote { poll_title: title, option }) == (c, None::<EventView>),
{
}

/// Closing marks a poll closed; a closed poll stays closed whatever command
/// comes next, and adding, voting and closing on it change nothing.
pub proof fn lemma_closed_is_final(
    c: CoordinatorView,
    room: Seq<char>,
    sender_id: u64,
    sender_name: Seq<char>,
    cmd: CommandView,
    i: int,
)
    requires
        c.wf(),
        0 <= i < c.polls.len(),
        c.polls[i].closed,
    ensures
        command_step(c, room, sender_id, sender_name, cmd).0.polls[i].closed,
        command_step(c, room, sender_id, sender_name, cmd).0.polls.len() >= c.polls.len(),
        cmd is AddOption && cmd->AddOption_poll_title == c.polls[i].title && room == c.polls[i].room
            ==> command_step(c, room, sender_id, sender_name, cmd) == (c, None::<EventView>),
        cmd is Vote && cmd->Vote_poll_title == c.polls[i].title && room == c.polls[i].room
            ==> command_step(c, room, sender_id, sender_name, cmd) == (c, None::<EventView>),
        cmd is ClosePoll && cmd->ClosePoll_poll_title == c.polls[i].title && room == c.polls[i].room
            ==> command_step(c, room, sender_id, sender_name, cmd) == (c, None::<EventView>),
{
    let t = c.polls[i].title;
    if room == c.polls[i].room {
        assert(0 <= i < c.polls.len() && c.polls[i].room == room && c.polls[i].title == t);
        let j = choose|j: int| 0 <= j < c.polls.len() && c.polls[j].room == room && c.polls[j].title == t;
        if j != i {
            assert(!(c.polls[j].room == c.polls[i].room && c.polls[j].title == c.polls[i].title));
        }
        assert(poll_index(c.polls, room, t) == Some(i));
    }
}

/// The coordinator state after a sequence of commands, each given with its
/// room, sender id and sender name.
pub open spec fn run(c: CoordinatorView, steps: Seq<(Seq<char>, u64, Seq<char>, CommandView)>) -> CoordinatorView
    decreases steps.len(),
{
    if steps.len() == 0 {
        c
    } else {
        let s = steps[0];
        run(command_step(c, s.0, s.1, s.2, s.3).0, steps.drop_first())
    }
}

/// However many commands follow, room membership is what it was: a session
/// stays in its room until it disconnects.
pub proof fn lemma_run_keeps_members(c: CoordinatorView, steps: Seq<(Seq<char>, u64, Seq<char>, CommandView)>)
    ensures
        run(c, steps).sessions == c.sessions,
    decreases steps.len(),
{
    if steps.len() > 0 {
        let s = steps[0];
        lemma_run_keeps_members(command_step(c, s.0, s.1, s.2, s.3).0, steps.drop_first());
    }
}

/// However many commands follow, a closed poll keeps its place, stays closed,
/// and keeps the options and votes it had when it was closed.
pub proof fn lemma_run_keeps_closed_poll(
    c: CoordinatorView,
    steps: Seq<(Seq<char>, u64, Seq<char>, CommandView)>,
    i: int,
)
    requires
        0 <= i < c.polls.len(),
        c.polls[i].closed,
    ensures
        i < run(c, steps).polls.len(),
        run(c, steps).polls[i] == c.polls[i],
    decreases steps.len(),
{
    if steps.len() > 0 {
        let s = steps[0];
        let next = command_step(c, s.0, s.1, s.2, s.3).0;
        assert(i < next.polls.len() && next.polls[i] == c.polls[i]);
        lemma_run_keeps_closed_poll(next, steps.drop_first(), i);
    }
}

} // verus!
