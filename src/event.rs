use vstd::prelude::*;
use crate::poll::{count_for, Poll, PollView};

verus! {

/// The per-option vote counts of a poll, in option order.
pub open spec fn tallies_of(p: PollView) -> Seq<nat> {
    p.options.map_values(|o: Seq<char>| count_for(p.ballots, o))
}

/// What a room is told about a poll: its identity, options, counts and state.
pub struct PollSummary {
    pub room: String,
    pub title: String,
    pub owner_id: u64,
    pub owner_name: String,
    pub options: Vec<String>,
    pub tallies: Vec<usize>,
    pub closed: bool,
}

pub struct PollSummaryView {
    pub room: Seq<char>,
    pub title: Seq<char>,
    pub owner_id: u64,
    pub owner_name: Seq<char>,
    pub options: Seq<Seq<char>>,
    pub tallies: Seq<nat>,
    pub closed: bool,
}

impl View for PollSummary {
    type V = PollSummaryView;

    open spec fn view(&self) -> PollSummaryView {
        PollSummaryView {
            room: self.room@,
            title: self.title@,
            owner_id: self.owner_id,
            owner_name: self.owner_name@,
            options: self.options@.map_values(|o: String| o@),
            tallies: self.tallies@.map_values(|t: usize| t as nat),
            closed: self.closed,
        }
    }
}

/// The summary that a poll in state `p` is announced with.
pub open spec fn summary_of(p: PollView) -> PollSummaryView {
    PollSummaryView {
        room: p.room,
        title: p.title,
        owner_id: p.owner_id,
        owner_name: p.owner_name,
        options: p.options,
        tallies: tallies_of(p),
        closed: p.closed,
    }
}

impl Poll {
    /// The poll's current summary, with one count per option.
    pub fn summary(&self) -> (s: PollSummary)
        ensures
            s@ == summary_of(self@),
    {
        let options = self.options();
        let mut tallies: Vec<usize> = Vec::new();
        let mut i: usize = 0;
        while i < options.len()
            invariant
                0 <= i <= options.len(),
                options@.map_values(|o: String| o@) == self@.options,
                tallies@.len() == i,
                forall|k: int| 0 <= k < i ==> tallies@[k] as nat == count_for(self@.ballots, self@.options[k]),
            decreases options.len() - i,
        {
            assert(options@[i as int]@ == self@.options[i as int]);
            let t = self.tally(&options[i]);
            tallies.push(t);
            i = i + 1;
        }
        let s = PollSummary {
            room: self.room().clone(),
            title: self.title().clone(),
            owner_id: self.owner_id(),
            owner_name: self.owner_name().clone(),
            options,
            tallies,
            closed: self.is_closed(),
        };
        assert(s@.tallies =~= tallies_of(self@));
        s
    }
}

/// Which change to a poll an announcement reports.
#[derive(PartialEq, Eq, Structural, Clone, Copy, Debug)]
pub enum PollChange {
    Created,
    OptionAdded,
    Voted,
    Closed,
}

/// Which ephemeral room-wide signal is relayed.
#[derive(PartialEq, Eq, Structural, Clone, Copy, Debug)]
pub enum Signal {
    Instant,
    Raise,
    Lower,
}

/// An event fanned out to every session of a room.
pub enum Event {
    Poll { change: PollChange, poll: PollSummary },
    /// A numeric adjustment for the owner: raised when `up`, lowered otherwise.
    Adjust { up: bool, owner_id: u64, amount: u64 },
    Signal { signal: Signal, owner_id: u64, owner_name: String, payload: String },
}

pub enum EventView {
    Poll { change: PollChange, poll: PollSummaryView },
    Adjust { up: bool, owner_id: u64, amount: u64 },
    Signal { signal: Signal, owner_id: u64, owner_name: Seq<char>, payload: Seq<char> },
}

impl View for Event {
    type V = EventView;

    open spec fn view(&self) -> EventView {
        match self {
            Event::Poll { change, poll } => EventView::Poll { change: *change, poll: poll@ },
            Event::Adjust { up, owner_id, amount } => EventView::Adjust {
                up: *up,
                owner_id: *owner_id,
                amount: *amount,
            },
            Event::Signal { signal, owner_id, owner_name, payload } => EventView::Signal {
                signal: *signal,
                owner_id: *owner_id,
                owner_name: owner_name@,
                payload: payload@,
            },
        }
    }
}

/// An event together with the sessions it is to be delivered to.
pub struct Broadcast {
    pub recipients: Vec<u64>,
    pub event: Event,
}

/// A lowercase hexadecimal digit, for `n < 16`.
pub open spec fn hex_digit(n: nat) -> char {
    seq!['0', '1', '2', '3', '4', '5', '6', '7', '8', '9', 'a', 'b', 'c', 'd', 'e', 'f'][n as int]
}

/// How one character stands in a JSON string literal: quote and backslash
/// behind a backslash, the short escapes for backspace, tab, line feed, form
/// feed and carriage return, `\u00xx` for the other control characters, and
/// every other character as it is.
pub open spec fn escaped(c: char) -> Seq<char> {
    if c == '"' {
        seq!['\\', '"']
    } else if c == '\\' {
        seq!['\\', '\\']
    } else if c == '\x08' {
        seq!['\\', 'b']
    } else if c == '\t' {
        seq!['\\', 't']
    } else if c == '\n' {
        seq!['\\', 'n']
    } else if c == '\x0C' {
        seq!['\\', 'f']
    } else if c == '\r' {
        seq!['\\', 'r']
    } else if (c as u32) < 0x20 {
        seq!['\\', 'u', '0', '0', hex_digit((c as u32 / 16) as nat), hex_digit((c as u32 % 16) as nat)]
    } else {
        seq![c]
    }
}

/// The characters of `s`, each escaped.
pub open spec fn escape_all(s: Seq<char>) -> Seq<char>
    decreases s.len(),
{
    if s.len() == 0 {
        Seq::empty()
    } else {
        escape_all(s.drop_last()) + escaped(s.last())
    }
}

/// The JSON string literal for `s`: its escaped characters between quotes.
pub open spec fn json_quoted(s: Seq<char>) -> Seq<char> {
    seq!['"'] + escape_all(s) + seq!['"']
}

/// Relies on serde_json::to_string on a `str`: the JSON string literal for `s`.
#[verifier::external_body]
fn quote(s: &str) -> (r: String)
    ensures
        r@ == json_quoted(s@),
{
    match serde_json::to_string(s) {
        Ok(t) => t,
        Err(_) => String::new(),
    }
}

/// The decimal digit for `d < 10`.
pub open spec fn digit_char(d: nat) -> char {
    seq!['0', '1', '2', '3', '4', '5', '6', '7', '8', '9'][d as int]
}

/// The decimal numeral of `n`, without leading zeros.
pub open spec fn decimal(n: nat) -> Seq<char>
    decreases n,
{
    if n < 10 {
        seq![digit_char(n)]
    } else {
        decimal(n / 10).push(digit_char(n % 10))
    }
}

fn digit_text(d: u64) -> (r: &'static str)
    requires
        d < 10,
    ensures
        r@ == seq![digit_char(d as nat)],
{
    proof {
        reveal_strlit("0");
        reveal_strlit("1");
        reveal_strlit("2");
        reveal_strlit("3");
        reveal_strlit("4");
        reveal_strlit("5");
        reveal_strlit("6");
        reveal_strlit("7");
        reveal_strlit("8");
        reveal_strlit("9");
    }
    let r = if d == 0 {
        "0"
    } else if d == 1 {
        "1"
    } else if d == 2 {
        "2"
    } else if d == 3 {
        "3"
    } else if d == 4 {
        "4"
    } else if d == 5 {
        "5"
    } else if d == 6 {
        "6"
    } else if d == 7 {
        "7"
    } else if d == 8 {
        "8"
    } else {
        "9"
    };
    assert(r@ =~= seq![digit_char(d as nat)]);
    r
}

/// Appends the decimal numeral of `n`.
pub fn push_decimal(out: &mut String, n: u64)
    ensures
        final(out)@ == old(out)@ + decimal(n as nat),
    decreases n,
{
    if n < 10 {
        out.append(digit_text(n));
    } else {
        push_decimal(out, n / 10);
        out.append(digit_text(n % 10));
        assert(final(out)@ =~= old(out)@ + decimal(n as nat));
    }
}

/// String literals separated by commas.
pub open spec fn quoted_items(items: Seq<Seq<char>>) -> Seq<char>
    decreases items.len(),
{
    if items.len() == 0 {
        Seq::empty()
    } else if items.len() == 1 {
        json_quoted(items[0])
    } else {
        quoted_items(items.drop_last()) + ","@ + json_quoted(items.last())
    }
}

/// Numerals separated by commas.
pub open spec fn number_items(items: Seq<nat>) -> Seq<char>
    decreases items.len(),
{
    if items.len() == 0 {
        Seq::empty()
    } else if items.len() == 1 {
        decimal(items[0])
    } else {
        number_items(items.drop_last()) + ","@ + decimal(items.last())
    }
}

pub open spec fn change_name(c: PollChange) -> Seq<char> {
    match c {
        PollChange::Created => "created"@,
        PollChange::OptionAdded => "option_added"@,
        PollChange::Voted => "voted"@,
        PollChange::Closed => "closed"@,
    }
}

pub open spec fn signal_name(s: Signal) -> Seq<char> {
    match s {
        Signal::Instant => "instant"@,
        Signal::Raise => "raise"@,
        Signal::Lower => "lower"@,
    }
}

pub open spec fn bool_text(b: bool) -> Seq<char> {
    if b {
        "true"@
    } else {
        "false"@
    }
}

/// The JSON text an event is sent as.
pub open spec fn event_json(e: EventView) -> Seq<char> {
    match e {
        EventView::Poll { change, poll } => "{\"type\":\"poll\",\"change\":\""@ + change_name(change)
            + "\",\"room\":"@ + json_quoted(poll.room) + ",\"title\":"@ + json_quoted(poll.title)
            + ",\"owner_id\":"@ + decimal(poll.owner_id as nat) + ",\"owner_name\":"@ + json_quoted(poll.owner_name)
            + ",\"options\":["@ + quoted_items(poll.options) + "],\"tallies\":["@ + number_items(poll.tallies)
            + "],\"closed\":"@ + bool_text(poll.closed) + "}"@,
        EventView::Adjust { up, owner_id, amount } => "{\"type\":\""@ + (if up {
            "elevate"@
        } else {
            "recede"@
        }) + "\",\"owner_id\":"@ + decimal(owner_id as nat) + ",\"amount\":"@ + decimal(amount as nat) + "}"@,
        EventView::Signal { signal, owner_id, owner_name, payload } => "{\"type\":\""@ + signal_name(signal)
            + "\",\"owner_id\":"@ + decimal(owner_id as nat) + ",\"owner_name\":"@ + json_quoted(owner_name)
            + ",\"object\":"@ + payload + "}"@,
    }
}

fn push_quoted_items(out: &mut String, items: &Vec<String>)
    ensures
        final(out)@ == old(out)@ + quoted_items(items@.map_values(|o: String| o@)),
{
    let ghost all = items@.map_values(|o: String| o@);
    let mut i: usize = 0;
    while i < items.len()
        invariant
            0 <= i <= items.len(),
            all == items@.map_values(|o: String| o@),
            out@ == old(out)@ + quoted_items(all.subrange(0, i as int)),
        decreases items.len() - i,
    {
        let ghost before = out@;
        assert(all.subrange(0, i as int + 1).drop_last() =~= all.subrange(0, i as int));
        if i > 0 {
            out.append(",");
        }
        let q = quote(items[i].as_str());
        out.append(q.as_str());
        proof {
            if i == 0 {
                assert(out@ =~= old(out)@ + quoted_items(all.subrange(0, 1)));
            } else {
                assert(out@ =~= old(out)@ + quoted_items(all.subrange(0, i as int + 1)));
            }
        }
        i = i + 1;
    }
    assert(all.subrange(0, i as int) =~= all);
}

fn push_number_items(out: &mut String, items: &Vec<usize>)
    ensures
        final(out)@ == old(out)@ + number_items(items@.map_values(|t: usize| t as nat)),
{
    let ghost all = items@.map_values(|t: usize| t as nat);
    let mut i: usize = 0;
    while i < items.len()
        invariant
            0 <= i <= items.len(),
            all == items@.map_values(|t: usize| t as nat),
            out@ == old(out)@ + number_items(all.subrange(0, i as int)),
        decreases items.len() - i,
    {
        assert(all.subrange(0, i as int + 1).drop_last() =~= all.subrange(0, i as int));
        if i > 0 {
            out.append(",");
        }
        push_decimal(out, items[i] as u64);
        proof {
            if i == 0 {
                assert(out@ =~= old(out)@ + number_items(all.subrange(0, 1)));
            } else {
                assert(out@ =~= old(out)@ + number_items(all.subrange(0, i as int + 1)));
            }
        }
        i = i + 1;
    }
    assert(all.subrange(0, i as int) =~= all);
}

impl Event {
    /// The JSON text the event is sent as.
    pub fn to_json(&self) -> (r: String)
        ensures
            r@ == event_json(self@),
    {
        let mut out = String::new();
        match self {
            Event::Poll { change, poll } => {
                out.append("{\"type\":\"poll\",\"change\":\"");
                out.append(match change {
                    PollChange::Created => "created",
                    PollChange::OptionAdded => "option_added",
                    PollChange::Voted => "voted",
                    PollChange::Closed => "closed",
                });
                out.append("\",\"room\":");
                out.append(quote(poll.room.as_str()).as_str());
                out.append(",\"title\":");
                out.append(quote(poll.title.as_str()).as_str());
                out.append(",\"owner_id\":");
                push_decimal(&mut out, poll.owner_id);
                out.append(",\"owner_name\":");
                out.append(quote(poll.owner_name.as_str()).as_str());
                out.append(",\"options\":[");
                push_quoted_items(&mut out, &poll.options);
                out.append("],\"tallies\":[");
                push_number_items(&mut out, &poll.tallies);
                out.append("],\"closed\":");
                out.append(if poll.closed { "true" } else { "false" });
                out.append("}");
            },
            Event::Adjust { up, owner_id, amount } => {
                out.append("{\"type\":\"");
                out.append(if *up { "elevate" } else { "recede" });
                out.append("\",\"owner_id\":");
                push_decimal(&mut out, *owner_id);
                out.append(",\"amount\":");
                push_decimal(&mut out, *amount);
                out.append("}");
            },
            Event::Signal { signal, owner_id, owner_name, payload } => {
                out.append("{\"type\":\"");
                out.append(match signal {
                    Signal::Instant => "instant",
                    Signal::Raise => "raise",
                    Signal::Lower => "lower",
                });
                out.append("\",\"owner_id\":");
                push_decimal(&mut out, *owner_id);
                out.append(",\"owner_name\":");
                out.append(quote(owner_name.as_str()).as_str());
                out.append(",\"object\":");
                out.append(payload.as_str());
                out.append("}");
            },
        }
        assert(out@ =~= event_json(self@));
        out
    }
}

} // verus!
