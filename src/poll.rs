use vstd::prelude::*;

verus! {

/// A ballot as the contracts see it: the voter's session id and the chosen option.
pub type BallotView = (u64, Seq<char>);

/// The option a voter currently holds in `ballots`, if any.
pub open spec fn vote_of(ballots: Seq<BallotView>, voter: u64) -> Option<Seq<char>> {
    if exists|i: int| 0 <= i < ballots.len() && ballots[i].0 == voter {
        let i = choose|i: int| 0 <= i < ballots.len() && ballots[i].0 == voter;
        Some(ballots[i].1)
    } else {
        None
    }
}

/// Each voter holds at most one ballot.
pub open spec fn voters_unique(ballots: Seq<BallotView>) -> bool {
    forall|i: int, j: int|
        0 <= i < ballots.len() && 0 <= j < ballots.len() && i != j ==> ballots[i].0 != ballots[j].0
}

/// The ballots after `voter` chose `option`: an earlier ballot of the voter is
/// overwritten in place, otherwise a new one is appended.
pub open spec fn cast(ballots: Seq<BallotView>, voter: u64, option: Seq<char>) -> Seq<BallotView> {
    if exists|i: int| 0 <= i < ballots.len() && ballots[i].0 == voter {
        let i = choose|i: int| 0 <= i < ballots.len() && ballots[i].0 == voter;
        ballots.update(i, (voter, option))
    } else {
        ballots.push((voter, option))
    }
}

/// How many ballots name `option`.
pub open spec fn count_for(ballots: Seq<BallotView>, option: Seq<char>) -> nat
    decreases ballots.len(),
{
    if ballots.len() == 0 {
        0
    } else {
        count_for(ballots.drop_last(), option) + if ballots.last().1 == option {
            1nat
        } else {
            0nat
        }
    }
}

/// The abstract state of a poll.
pub struct PollView {
    pub title: Seq<char>,
    pub owner_id: u64,
    pub owner_name: Seq<char>,
    pub room: Seq<char>,
    pub options: Seq<Seq<char>>,
    pub ballots: Seq<BallotView>,
    pub closed: bool,
}

/// A titled, room-scoped vote: Open until closed, Closed for good.
pub struct Poll {
    title: String,
    owner_id: u64,
    owner_name: String,
    room: String,
    options: Vec<String>,
    ballots: Vec<(u64, String)>,
    closed: bool,
}

impl View for Poll {
    type V = PollView;

    closed spec fn view(&self) -> PollView {
        PollView {
            title: self.title@,
            owner_id: self.owner_id,
            owner_name: self.owner_name@,
            room: self.room@,
            options: self.options@.map_values(|o: String| o@),
            ballots: self.ballots@.map_values(|b: (u64, String)| (b.0, b.1@)),
            closed: self.closed,
        }
    }
}

impl Poll {
    /// Well-formed: each voter holds at most one ballot.
    pub open spec fn wf(&self) -> bool {
        voters_unique(self@.ballots)
    }

    /// A new poll: Open, with no options and no votes.
    pub fn new(title: String, owner_id: u64, owner_name: String, room: String) -> (p: Poll)
        ensures
            p.wf(),
            p@.title == title@,
            p@.owner_id == owner_id,
            p@.owner_name == owner_name@,
            p@.room == room@,
            p@.options == Seq::<Seq<char>>::empty(),
            p@.ballots == Seq::<BallotView>::empty(),
            !p@.closed,
    {
        let p = Poll {
            title,
            owner_id,
            owner_name,
            room,
            options: Vec::new(),
            ballots: Vec::new(),
            closed: false,
        };
        assert(p@.options =~= Seq::<Seq<char>>::empty());
        assert(p@.ballots =~= Seq::<BallotView>::empty());
        p
    }

    pub fn title(&self) -> (r: &String)
        ensures
            r@ == self@.title,
    {
        &self.title
    }

    pub fn owner_id(&self) -> (r: u64)
        ensures
            r == self@.owner_id,
    {
        self.owner_id
    }

    pub fn owner_name(&self) -> (r: &String)
        ensures
            r@ == self@.owner_name,
    {
        &self.owner_name
    }

    pub fn room(&self) -> (r: &String)
        ensures
            r@ == self@.room,
    {
        &self.room
    }

    pub fn is_closed(&self) -> (r: bool)
        ensures
            r == self@.closed,
    {
        self.closed
    }

    /// The options, in the order they were added.
    pub fn options(&self) -> (r: Vec<String>)
        ensures
            r@.map_values(|o: String| o@) == self@.options,
    {
        self.options.clone()
    }

    /// Whether `option` is one of the poll's options.
    pub fn has_option(&self, option: &String) -> (r: bool)
        ensures
            r == self@.options.contains(option@),
    {
        let mut i: usize = 0;
        while i < self.options.len()
            invariant
                0 <= i <= self.options.len(),
                forall|k: int| 0 <= k < i ==> self@.options[k] != option@,
            decreases self.options.len() - i,
        {
            if self.options[i] == *option {
                assert(self@.options[i as int] == option@);
                return true;
            }
            i = i + 1;
        }
        false
    }

    /// Position of the voter's ballot, if they hold one.
    fn find_ballot(&self, voter: u64) -> (r: Option<usize>)
        ensures
            match r {
                Some(i) => i < self@.ballots.len() && self@.ballots[i as int].0 == voter,
                None => forall|k: int| 0 <= k < self@.ballots.len() ==> self@.ballots[k].0 != voter,
            },
    {
        let mut i: usize = 0;
        while i < self.ballots.len()
            invariant
                0 <= i <= self.ballots.len(),
                forall|k: int| 0 <= k < i ==> self@.ballots[k].0 != voter,
            decreases self.ballots.len() - i,
        {
            if self.ballots[i].0 == voter {
                return Some(i);
            }
            i = i + 1;
        }
        None
    }

    /// The option the voter currently holds, if any.
    pub fn vote_of(&self, voter: u64) -> (r: Option<String>)
        requires
            self.wf(),
        ensures
            match r {
                Some(o) => vote_of(self@.ballots, voter) == Some(o@),
                None => vote_of(self@.ballots, voter).is_none(),
            },
    {
        match self.find_ballot(voter) {
            Some(i) => {
                proof {
                    let j = choose|j: int| 0 <= j < self@.ballots.len() && self@.ballots[j].0 == voter;
                    assert(j == i as int);
                }
                Some(self.ballots[i].1.clone())
            },
            None => None,
        }
    }

    /// Number of voters whose ballot names `option`.
    pub fn tally(&self, option: &String) -> (r: usize)
        ensures
            r == count_for(self@.ballots, option@),
    {
        let mut n: usize = 0;
        let mut i: usize = 0;
        while i < self.ballots.len()
            invariant
                0 <= i <= self.ballots.len(),
                n == count_for(self@.ballots.subrange(0, i as int), option@),
                n <= i,
            decreases self.ballots.len() - i,
        {
            assert(self@.ballots.subrange(0, i as int + 1).drop_last() =~= self@.ballots.subrange(0, i as int));
            if self.ballots[i].1 == *option {
                n = n + 1;
            }
            i = i + 1;
        }
        assert(self@.ballots.subrange(0, i as int) =~= self@.ballots);
        n
    }

    /// Appends `option` while the poll is Open; returns whether it did.
    pub fn add_option(&mut self, option: String) -> (changed: bool)
        requires
            old(self).wf(),
        ensures
            final(self).wf(),
            changed == !old(self)@.closed,
            changed ==> final(self)@ == (PollView { options: old(self)@.options.push(option@), ..old(self)@ }),
            !changed ==> final(self)@ == old(self)@,
    {
        if self.closed {
            return false;
        }
        self.options.push(option);
        assert(self@.options =~= old(self)@.options.push(option@));
        true
    }

    /// Records the voter's choice while the poll is Open and `option` is one of
    /// its options; returns whether it did.
    pub fn vote(&mut self, voter: u64, option: String) -> (changed: bool)
        requires
            old(self).wf(),
        ensures
            final(self).wf(),
            changed == (!old(self)@.closed && old(self)@.options.contains(option@)),
            changed ==> final(self)@ == (PollView {
                ballots: cast(old(self)@.ballots, voter, option@),
                ..old(self)@
            }),
            !changed ==> final(self)@ == old(self)@,
    {
        if self.closed || !self.has_option(&option) {
            return false;
        }
        let ghost option_view = option@;
        match self.find_ballot(voter) {
            Some(i) => {
                proof {
                    let j = choose|j: int| 0 <= j < self@.ballots.len() && self@.ballots[j].0 == voter;
                    assert(j == i as int);
                }
                self.ballots.set(i, (voter, option));
                assert(self@.ballots =~= cast(old(self)@.ballots, voter, option_view));
            },
            None => {
                self.ballots.push((voter, option));
                assert(self@.ballots =~= cast(old(self)@.ballots, voter, option_view));
            },
        }
        true
    }

    /// Closes the poll if it is Open; returns whether it did.
    pub fn close(&mut self) -> (changed: bool)
        requires
            old(self).wf(),
        ensures
            final(self).wf(),
            changed == !old(self)@.closed,
            final(self)@ == (PollView { closed: true, ..old(self)@ }),
    {
        let changed = !self.closed;
        self.closed = true;
        changed
    }
}

/// Voting sets the voter's entry to the chosen option and leaves every other
/// voter's entry as it was; a later vote by the same voter overwrites the earlier.
pub proof fn lemma_cast_sets_one_entry(ballots: Seq<BallotView>, voter: u64, option: Seq<char>, other: u64)
    requires
        voters_unique(ballots),
    ensures
        voters_unique(cast(ballots, voter, option)),
        vote_of(cast(ballots, voter, option), voter) == Some(option),
        other != voter ==> vote_of(cast(ballots, voter, option), other) == vote_of(ballots, other),
{
    let after = cast(ballots, voter, option);
    if exists|i: int| 0 <= i < ballots.len() && ballots[i].0 == voter {
        let i = choose|i: int| 0 <= i < ballots.len() && ballots[i].0 == voter;
        assert(after[i].0 == voter);
        if other != voter {
            if exists|k: int| 0 <= k < ballots.len() && ballots[k].0 == other {
                let k = choose|k: int| 0 <= k < ballots.len() && ballots[k].0 == other;
                assert(after[k].0 == other);
            }
        }
    } else {
        assert(after[ballots.len() as int].0 == voter);
        if other != voter {
            if exists|k: int| 0 <= k < ballots.len() && ballots[k].0 == other {
                let k = choose|k: int| 0 <= k < ballots.len() && ballots[k].0 == other;
                assert(after[k].0 == other);
            }
        }
    }
}

} // verus!
