use vstd::prelude::*;
use crate::event::Signal;
use crate::json::{
    json_member, json_members, json_of, json_text, json_text_of, json_value, member, parse_json, trim, trimmed,
    JsonView,
};

verus! {

/// The command families, one per wire discriminant.
#[derive(PartialEq, Eq, Structural, Clone, Copy, Debug)]
pub enum Kind {
    Poll,
    PollOption,
    Vote,
    PollClose,
    Elevate,
    Recede,
    Instant,
    Raise,
    Lower,
}

/// The kind a discriminant names, if it names one.
pub open spec fn kind_of(t: Seq<char>) -> Option<Kind> {
    if t == "poll"@ {
        Some(Kind::Poll)
    } else if t == "polloption"@ {
        Some(Kind::PollOption)
    } else if t == "vote"@ {
        Some(Kind::Vote)
    } else if t == "closepoll"@ {
        Some(Kind::PollClose)
    } else if t == "elevate"@ {
        Some(Kind::Elevate)
    } else if t == "recede"@ {
        Some(Kind::Recede)
    } else if t == "instant"@ {
        Some(Kind::Instant)
    } else if t == "raise"@ {
        Some(Kind::Raise)
    } else if t == "lower"@ {
        Some(Kind::Lower)
    } else {
        None
    }
}

fn is_text(t: &String, lit: &str) -> (r: bool)
    ensures
        r == (t@ == lit@),
{
    *t == String::from_str(lit)
}

/// Reads a discriminant.
pub fn parse_kind(t: &String) -> (r: Option<Kind>)
    ensures
        r == kind_of(t@),
{
    if is_text(t, "poll") {
        Some(Kind::Poll)
    } else if is_text(t, "polloption") {
        Some(Kind::PollOption)
    } else if is_text(t, "vote") {
        Some(Kind::Vote)
    } else if is_text(t, "closepoll") {
        Some(Kind::PollClose)
    } else if is_text(t, "elevate") {
        Some(Kind::Elevate)
    } else if is_text(t, "recede") {
        Some(Kind::Recede)
    } else if is_text(t, "instant") {
        Some(Kind::Instant)
    } else if is_text(t, "raise") {
        Some(Kind::Raise)
    } else if is_text(t, "lower") {
        Some(Kind::Lower)
    } else {
        None
    }
}

/// What the decoder reads of an inbound frame `{"type": .., "object": ..}`:
/// the discriminant, and the `object` member seen as a map of strings (when
/// it is a JSON object whose members are all strings), as a non-negative
/// integer (when it is one), and as JSON text.
pub struct Envelope {
    pub kind: String,
    pub fields: Option<Vec<(String, String)>>,
    pub number: Option<u64>,
    pub payload: String,
}

pub struct EnvelopeView {
    pub kind: Seq<char>,
    pub fields: Option<Seq<(Seq<char>, Seq<char>)>>,
    pub number: Option<u64>,
    pub payload: Seq<char>,
}

impl View for Envelope {
    type V = EnvelopeView;

    open spec fn view(&self) -> EnvelopeView {
        EnvelopeView {
            kind: self.kind@,
            fields: match self.fields {
                Some(f) => Some(f@.map_values(|e: (String, String)| (e.0@, e.1@))),
                None => None,
            },
            number: self.number,
            payload: self.payload@,
        }
    }
}

/// A typed command, ready for the coordinator.
pub enum Command {
    CreatePoll { title: String },
    AddOption { poll_title: String, option: String },
    Vote { poll_title: String, option: String },
    ClosePoll { poll_title: String },
    /// Elevate when `up`, recede otherwise.
    Adjust { up: bool, amount: u64 },
    Signal { signal: Signal, payload: String },
}

pub enum CommandView {
    CreatePoll { title: Seq<char> },
    AddOption { poll_title: Seq<char>, option: Seq<char> },
    Vote { poll_title: Seq<char>, option: Seq<char> },
    ClosePoll { poll_title: Seq<char> },
    Adjust { up: bool, amount: u64 },
    Signal { signal: Signal, payload: Seq<char> },
}

impl View for Command {
    type V = CommandView;

    open spec fn view(&self) -> CommandView {
        match self {
            Command::CreatePoll { title } => CommandView::CreatePoll { title: title@ },
            Command::AddOption { poll_title, option } => CommandView::AddOption {
                poll_title: poll_title@,
                option: option@,
            },
            Command::Vote { poll_title, option } => CommandView::Vote { poll_title: poll_title@, option: option@ },
            Command::ClosePoll { poll_title } => CommandView::ClosePoll { poll_title: poll_title@ },
            Command::Adjust { up, amount } => CommandView::Adjust { up: *up, amount: *amount },
            Command::Signal { signal, payload } => CommandView::Signal { signal: *signal, payload: payload@ },
        }
    }
}

/// The value of the first member named `key`.
pub open spec fn field(fields: Seq<(Seq<char>, Seq<char>)>, key: Seq<char>) -> Option<Seq<char>>
    decreases fields.len(),
{
    if fields.len() == 0 {
        None
    } else if fields[0].0 == key {
        Some(fields[0].1)
    } else {
        field(fields.drop_first(), key)
    }
}

/// The value of `key` in an optional map of strings.
pub open spec fn field_in(fields: Option<Seq<(Seq<char>, Seq<char>)>>, key: Seq<char>) -> Option<Seq<char>> {
    match fields {
        Some(f) => field(f, key),
        None => None,
    }
}

/// The command an envelope carries: the poll family needs a map of strings with
/// `poll_title` (and `poll_option_title` where an option is named), elevate and
/// recede need a number, the signals take any payload.
pub open spec fn command_of(e: EnvelopeView) -> Option<CommandView> {
    let title = field_in(e.fields, "poll_title"@);
    let option = field_in(e.fields, "poll_option_title"@);
    match kind_of(e.kind) {
        Some(Kind::Poll) => match title {
            Some(t) => Some(CommandView::CreatePoll { title: t }),
            None => None,
        },
        Some(Kind::PollOption) => if title.is_some() && option.is_some() {
            Some(CommandView::AddOption { poll_title: title.unwrap(), option: option.unwrap() })
        } else {
            None
        },
        Some(Kind::Vote) => if title.is_some() && option.is_some() {
            Some(CommandView::Vote { poll_title: title.unwrap(), option: option.unwrap() })
        } else {
            None
        },
        Some(Kind::PollClose) => match title {
            Some(t) => Some(CommandView::ClosePoll { poll_title: t }),
            None => None,
        },
        Some(Kind::Elevate) => match e.number {
            Some(n) => Some(CommandView::Adjust { up: true, amount: n }),
            None => None,
        },
        Some(Kind::Recede) => match e.number {
            Some(n) => Some(CommandView::Adjust { up: false, amount: n }),
            None => None,
        },
        Some(Kind::Instant) => Some(CommandView::Signal { signal: Signal::Instant, payload: e.payload }),
        Some(Kind::Raise) => Some(CommandView::Signal { signal: Signal::Raise, payload: e.payload }),
        Some(Kind::Lower) => Some(CommandView::Signal { signal: Signal::Lower, payload: e.payload }),
        None => None,
    }
}

/// Looks up `key` among string members.
pub fn lookup(fields: &Vec<(String, String)>, key: &str) -> (r: Option<String>)
    ensures
        match r {
            Some(v) => field(fields@.map_values(|e: (String, String)| (e.0@, e.1@)), key@) == Some(v@),
            None => field(fields@.map_values(|e: (String, String)| (e.0@, e.1@)), key@).is_none(),
        },
{
    let ghost all = fields@.map_values(|e: (String, String)| (e.0@, e.1@));
    let k = String::from_str(key);
    let mut i: usize = 0;
    assert(all.subrange(0, all.len() as int) =~= all);
    while i < fields.len()
        invariant
            0 <= i <= fields.len(),
            all == fields@.map_values(|e: (String, String)| (e.0@, e.1@)),
            k@ == key@,
            field(all, key@) == field(all.subrange(i as int, all.len() as int), key@),
        decreases fields.len() - i,
    {
        let ghost rest = all.subrange(i as int, all.len() as int);
        assert(rest.drop_first() =~= all.subrange(i as int + 1, all.len() as int));
        if fields[i].0 == k {
            return Some(fields[i].1.clone());
        }
        i = i + 1;
    }
    assert(all.subrange(i as int, all.len() as int) =~= Seq::<(Seq<char>, Seq<char>)>::empty());
    None
}

fn field_of(fields: &Option<Vec<(String, String)>>, key: &str) -> (r: Option<String>)
    ensures
        match r {
            Some(v) => field_in(
                match fields {
                    Some(f) => Some(f@.map_values(|e: (String, String)| (e.0@, e.1@))),
                    None => None,
                },
                key@,
            ) == Some(v@),
            None => field_in(
                match fields {
                    Some(f) => Some(f@.map_values(|e: (String, String)| (e.0@, e.1@))),
                    None => None,
                },
                key@,
            ).is_none(),
        },
{
    match fields {
        Some(f) => lookup(f, key),
        None => None,
    }
}

/// The command that an envelope carries, if any.
pub fn decode_envelope(e: &Envelope) -> (r: Option<Command>)
    ensures
        match r {
            Some(c) => command_of(e@) == Some(c@),
            None => command_of(e@).is_none(),
        },
{
    let kind = parse_kind(&e.kind);
    let title = field_of(&e.fields, "poll_title");
    let option = field_of(&e.fields, "poll_option_title");
    match kind {
        Some(Kind::Poll) => match title {
            Some(t) => Some(Command::CreatePoll { title: t }),
            None => None,
        },
        Some(Kind::PollOption) => match (title, option) {
            (Some(t), Some(o)) => Some(Command::AddOption { poll_title: t, option: o }),
            _ => None,
        },
        Some(Kind::Vote) => match (title, option) {
            (Some(t), Some(o)) => Some(Command::Vote { poll_title: t, option: o }),
            _ => None,
        },
        Some(Kind::PollClose) => match title {
            Some(t) => Some(Command::ClosePoll { poll_title: t }),
            None => None,
        },
        Some(Kind::Elevate) => match e.number {
            Some(n) => Some(Command::Adjust { up: true, amount: n }),
            None => None,
        },
        Some(Kind::Recede) => match e.number {
            Some(n) => Some(Command::Adjust { up: false, amount: n }),
            None => None,
        },
        Some(Kind::Instant) => Some(Command::Signal { signal: Signal::Instant, payload: e.payload.clone() }),
        Some(Kind::Raise) => Some(Command::Signal { signal: Signal::Raise, payload: e.payload.clone() }),
        Some(Kind::Lower) => Some(Command::Signal { signal: Signal::Lower, payload: e.payload.clone() }),
        None => None,
    }
}

/// The members as a map of strings, if every one of them is a JSON string.
pub open spec fn strings_of(ms: Seq<(Seq<char>, JsonView)>) -> Option<Seq<(Seq<char>, Seq<char>)>>
    decreases ms.len(),
{
    if ms.len() == 0 {
        Some(Seq::empty())
    } else {
        match (strings_of(ms.drop_last()), ms.last().1) {
            (Some(f), JsonView::Str(t)) => Some(f.push((ms.last().0, t))),
            _ => None,
        }
    }
}

/// The envelope of a JSON value: an object with a string `type` member and an
/// `object` member.
pub open spec fn envelope_of(j: JsonView) -> Option<EnvelopeView> {
    match j {
        JsonView::Object(ms) => match (member(ms, "type"@), member(ms, "object"@)) {
            (Some(JsonView::Str(k)), Some(o)) => Some(EnvelopeView {
                kind: k,
                fields: match o {
                    JsonView::Object(om) => strings_of(om),
                    _ => None,
                },
                number: match o {
                    JsonView::Number { uint, text } => uint,
                    _ => None,
                },
                payload: json_text_of(o),
            }),
            _ => None,
        },
        _ => None,
    }
}

proof fn lemma_strings_of_prefix(ms: Seq<(Seq<char>, JsonView)>, n: int)
    requires
        0 <= n <= ms.len(),
        strings_of(ms.subrange(0, n)).is_none(),
    ensures
        strings_of(ms).is_none(),
    decreases ms.len(),
{
    if n == ms.len() {
        assert(ms.subrange(0, n) =~= ms);
    } else {
        assert(ms.drop_last().subrange(0, n) =~= ms.subrange(0, n));
        lemma_strings_of_prefix(ms.drop_last(), n);
    }
}

/// Reads the envelope of a parsed frame.
fn read_envelope(v: &serde_json::Value) -> (r: Option<Envelope>)
    ensures
        match r {
            Some(e) => envelope_of(json_value(*v)) == Some(e@),
            None => envelope_of(json_value(*v)).is_none(),
        },
{
    let kind = match json_member(v, "type") {
        Some(t) => match t.as_str() {
            Some(k) => String::from_str(k),
            None => return None,
        },
        None => return None,
    };
    let object = match json_member(v, "object") {
        Some(o) => o,
        None => return None,
    };
    let fields = match json_members(&object) {
        Some(members) => string_members(&members),
        None => None,
    };
    let number = object.as_u64();
    let payload = json_text(&object);
    let e = Envelope { kind, fields, number, payload };
    Some(e)
}

/// The members as strings, if every one of them is a JSON string.
fn string_members(members: &Vec<(String, serde_json::Value)>) -> (r: Option<Vec<(String, String)>>)
    ensures
        ({
            let ms = members@.map_values(|m: (String, serde_json::Value)| (m.0@, json_value(m.1)));
            match r {
                Some(f) => strings_of(ms) == Some(f@.map_values(|e: (String, String)| (e.0@, e.1@))),
                None => strings_of(ms).is_none(),
            }
        }),
{
    let ghost ms = members@.map_values(|m: (String, serde_json::Value)| (m.0@, json_value(m.1)));
    let mut out: Vec<(String, String)> = Vec::new();
    let mut i: usize = 0;
    assert(ms.subrange(0, 0) =~= Seq::<(Seq<char>, JsonView)>::empty());
    assert(out@.map_values(|e: (String, String)| (e.0@, e.1@)) =~= Seq::<(Seq<char>, Seq<char>)>::empty());
    while i < members.len()
        invariant
            0 <= i <= members.len(),
            ms == members@.map_values(|m: (String, serde_json::Value)| (m.0@, json_value(m.1))),
            strings_of(ms.subrange(0, i as int)) == Some(out@.map_values(|e: (String, String)| (e.0@, e.1@))),
        decreases members.len() - i,
    {
        let ghost before = out@.map_values(|e: (String, String)| (e.0@, e.1@));
        assert(ms.subrange(0, i as int + 1).drop_last() =~= ms.subrange(0, i as int));
        assert(ms.subrange(0, i as int + 1).last() == ms[i as int]);
        match members[i].1.as_str() {
            Some(text) => {
                let pair = (members[i].0.clone(), String::from_str(text));
                out.push(pair);
                assert(out@.map_values(|e: (String, String)| (e.0@, e.1@)) =~= before.push((ms[i as int].0, text@)));
            },
            None => {
                proof {
                    lemma_strings_of_prefix(ms, i as int + 1);
                }
                return None;
            },
        }
        i = i + 1;
    }
    assert(ms.subrange(0, i as int) =~= ms);
    Some(out)
}

/// The outcome of decoding one inbound text frame.
pub enum Decoded {
    /// A recognised command.
    Command(Command),
    /// No command, but a flat frame with a discriminant of the retired protocol.
    Deprecated(String),
    /// A JSON object that carries no recognised command.
    Unrecognized,
    /// Not a JSON object at all.
    Malformed,
}

pub enum DecodedView {
    Command(CommandView),
    Deprecated(Seq<char>),
    Unrecognized,
    Malformed,
}

impl View for Decoded {
    type V = DecodedView;

    open spec fn view(&self) -> DecodedView {
        match self {
            Decoded::Command(c) => DecodedView::Command(c@),
            Decoded::Deprecated(k) => DecodedView::Deprecated(k@),
            Decoded::Unrecognized => DecodedView::Unrecognized,
            Decoded::Malformed => DecodedView::Malformed,
        }
    }
}

/// What is read of an inbound text frame before it is classified.
pub enum FrameRead {
    /// Not a JSON object.
    Malformed,
    /// A JSON object: its envelope, if it has one, and its `type` member, if
    /// that is a string.
    Object { envelope: Option<Envelope>, kind: Option<String> },
}

pub enum FrameReadView {
    Malformed,
    Object { envelope: Option<EnvelopeView>, kind: Option<Seq<char>> },
}

impl View for FrameRead {
    type V = FrameReadView;

    open spec fn view(&self) -> FrameReadView {
        match self {
            FrameRead::Malformed => FrameReadView::Malformed,
            FrameRead::Object { envelope, kind } => FrameReadView::Object {
                envelope: match envelope {
                    Some(e) => Some(e@),
                    None => None,
                },
                kind: match kind {
                    Some(k) => Some(k@),
                    None => None,
                },
            },
        }
    }
}

/// What is read of a parsed frame: a JSON object gives its envelope and its
/// string `type` member; anything else is malformed.
pub open spec fn frame_of(j: Option<JsonView>) -> FrameReadView {
    match j {
        Some(JsonView::Object(ms)) => FrameReadView::Object {
            envelope: envelope_of(JsonView::Object(ms)),
            kind: match member(ms, "type"@) {
                Some(JsonView::Str(k)) => Some(k),
                _ => None,
            },
        },
        _ => FrameReadView::Malformed,
    }
}

/// The classification of what was read: the envelope's command if it carries
/// one; otherwise a discriminant of the retired flat protocol; otherwise
/// unrecognized.
pub open spec fn classify_spec(f: FrameReadView) -> DecodedView {
    match f {
        FrameReadView::Malformed => DecodedView::Malformed,
        FrameReadView::Object { envelope, kind } => {
            let cmd = match envelope {
                Some(e) => command_of(e),
                None => None,
            };
            if cmd.is_some() {
                DecodedView::Command(cmd.unwrap())
            } else if kind.is_some() && kind_of(kind.unwrap()).is_some() {
                DecodedView::Deprecated(kind.unwrap())
            } else {
                DecodedView::Unrecognized
            }
        },
    }
}

/// What an inbound text frame decodes to: the text is trimmed, parsed by
/// serde_json, read and classified.
pub open spec fn decoded_of(text: Seq<char>) -> DecodedView {
    classify_spec(frame_of(json_of(trimmed(text))))
}

/// Classifies what was read of a frame.
pub fn classify(read: FrameRead) -> (r: Decoded)
    ensures
        r@ == classify_spec(read@),
{
    match read {
        FrameRead::Malformed => Decoded::Malformed,
        FrameRead::Object { envelope, kind } => {
            match envelope {
                Some(e) => match decode_envelope(&e) {
                    Some(c) => return Decoded::Command(c),
                    None => {},
                },
                None => {},
            }
            match kind {
                Some(k) => if parse_kind(&k).is_some() {
                    Decoded::Deprecated(k)
                } else {
                    Decoded::Unrecognized
                },
                None => Decoded::Unrecognized,
            }
        },
    }
}

/// Reads a frame through serde_json.
fn read_frame(text: &str) -> (r: FrameRead)
    ensures
        r@ == frame_of(json_of(text@)),
{
    let v = match parse_json(text) {
        Some(v) => v,
        None => return FrameRead::Malformed,
    };
    if json_members(&v).is_none() {
        return FrameRead::Malformed;
    }
    let envelope = read_envelope(&v);
    let kind = match json_member(&v, "type") {
        Some(t) => match t.as_str() {
            Some(k) => Some(String::from_str(k)),
            None => None,
        },
        None => None,
    };
    FrameRead::Object { envelope, kind }
}

/// Decodes an inbound text frame into at most one command.
pub fn decode(text: &str) -> (r: Decoded)
    ensures
        r@ == decoded_of(text@),
{
    classify(read_frame(trim(text)))
}

/// A frame decodes to a command only through an envelope whose discriminant
/// names a command family; a frame is malformed exactly when serde_json reads
/// no JSON object from it.
pub proof fn lemma_decoded_frames(text: Seq<char>)
    ensures
        decoded_of(text) is Command ==> {
            let j = json_of(trimmed(text));
            &&& j.is_some()
            &&& envelope_of(j.unwrap()).is_some()
            &&& kind_of(envelope_of(j.unwrap()).unwrap().kind).is_some()
        },
        decoded_of(text) is Malformed <==> !(json_of(trimmed(text)).is_some() && json_of(trimmed(text)).unwrap() is Object),
{
    let j = json_of(trimmed(text));
    if decoded_of(text) is Command {
        let e = envelope_of(j.unwrap()).unwrap();
        if kind_of(e.kind).is_none() {
            lemma_unknown_kind_no_command(e);
        }
    }
}

/// A frame whose discriminant names no command family carries no command.
pub proof fn lemma_unknown_kind_no_command(e: EnvelopeView)
    requires
        kind_of(e.kind).is_none(),
    ensures
        command_of(e).is_none(),
{
}

} // verus!
