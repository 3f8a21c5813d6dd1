use vimeet::decoder::{classify, decode, decode_envelope, parse_kind, Command, Decoded, Envelope, FrameRead, Kind};
use vimeet::event::Signal;
use vimeet::session::{Frame, Reply, Session, Tick, CLIENT_TIMEOUT_MS, HEARTBEAT_INTERVAL_MS};

fn s(t: &str) -> String {
    t.to_string()
}

fn command(text: &str) -> Command {
    match decode(text) {
        Decoded::Command(c) => c,
        _ => panic!("no command for {}", text),
    }
}

#[test]
fn decodes_poll_family() {
    match command("{\"type\":\"poll\",\"object\":{\"poll_title\":\"lunch\"}}") {
        Command::CreatePoll { title } => assert_eq!(title, "lunch"),
        _ => panic!("wrong command"),
    }
    match command(" {\"type\":\"polloption\",\"object\":{\"poll_title\":\"lunch\",\"poll_option_title\":\"pizza\"}} ") {
        Command::AddOption { poll_title, option } => {
            assert_eq!(poll_title, "lunch");
            assert_eq!(option, "pizza");
        }
        _ => panic!("wrong command"),
    }
    match command("{\"type\":\"vote\",\"object\":{\"poll_title\":\"lunch\",\"poll_option_title\":\"pizza\"}}") {
        Command::Vote { poll_title, option } => {
            assert_eq!(poll_title, "lunch");
            assert_eq!(option, "pizza");
        }
        _ => panic!("wrong command"),
    }
    match command("{\"type\":\"closepoll\",\"object\":{\"poll_title\":\"lunch\"}}") {
        Command::ClosePoll { poll_title } => assert_eq!(poll_title, "lunch"),
        _ => panic!("wrong command"),
    }
}

#[test]
fn decodes_adjustments_and_signals() {
    match command("{\"type\":\"elevate\",\"object\":5}") {
        Command::Adjust { up, amount } => {
            assert!(up);
            assert_eq!(amount, 5);
        }
        _ => panic!("wrong command"),
    }
    match command("{\"type\":\"recede\",\"object\":0}") {
        Command::Adjust { up, amount } => {
            assert!(!up);
            assert_eq!(amount, 0);
        }
        _ => panic!("wrong command"),
    }
    match command("{\"type\":\"raise\",\"object\":{\"hand\":true}}") {
        Command::Signal { signal, payload } => {
            assert_eq!(signal, Signal::Raise);
            assert_eq!(payload, "{\"hand\":true}");
        }
        _ => panic!("wrong command"),
    }
    match command("{\"type\":\"instant\",\"object\":\"clap\"}") {
        Command::Signal { signal, payload } => {
            assert_eq!(signal, Signal::Instant);
            assert_eq!(payload, "\"clap\"");
        }
        _ => panic!("wrong command"),
    }
    match command("{\"type\":\"lower\",\"object\":null}") {
        Command::Signal { signal, payload } => {
            assert_eq!(signal, Signal::Lower);
            assert_eq!(payload, "null");
        }
        _ => panic!("wrong command"),
    }
}

#[test]
fn unknown_discriminant_gives_no_command() {
    assert!(matches!(decode("{\"type\":\"dance\",\"object\":{\"poll_title\":\"x\"}}"), Decoded::Unrecognized));
    assert!(matches!(decode("{\"object\":1}"), Decoded::Unrecognized));
}

#[test]
fn wrong_shapes_give_no_command() {
    assert!(matches!(decode("{\"type\":\"elevate\",\"object\":-2}"), Decoded::Deprecated(_)));
    assert!(matches!(decode("{\"type\":\"elevate\",\"object\":1.5}"), Decoded::Deprecated(_)));
    assert!(matches!(decode("{\"type\":\"poll\",\"object\":{\"title\":\"x\"}}"), Decoded::Deprecated(_)));
    assert!(matches!(decode("{\"type\":\"poll\",\"object\":{\"poll_title\":3}}"), Decoded::Deprecated(_)));
    assert!(matches!(decode("{\"type\":\"vote\",\"object\":{\"poll_title\":\"x\"}}"), Decoded::Deprecated(_)));
}

#[test]
fn flat_frame_of_retired_protocol_is_reported() {
    match decode("{\"type\":\"raise\",\"name\":\"bob\"}") {
        Decoded::Deprecated(kind) => assert_eq!(kind, "raise"),
        _ => panic!("not reported"),
    }
}

#[test]
fn malformed_frames() {
    assert!(matches!(decode("not json"), Decoded::Malformed));
    assert!(matches!(decode("[1,2]"), Decoded::Malformed));
    assert!(matches!(decode(""), Decoded::Malformed));
}

#[test]
fn kinds_by_name() {
    assert_eq!(parse_kind(&s("poll")), Some(Kind::Poll));
    assert_eq!(parse_kind(&s("polloption")), Some(Kind::PollOption));
    assert_eq!(parse_kind(&s("closepoll")), Some(Kind::PollClose));
    assert_eq!(parse_kind(&s("lower")), Some(Kind::Lower));
    assert_eq!(parse_kind(&s("Poll")), None);
}

#[test]
fn envelope_picks_first_matching_member() {
    let e = Envelope {
        kind: s("vote"),
        fields: Some(vec![(s("poll_title"), s("lunch")), (s("poll_option_title"), s("pizza"))]),
        number: None,
        payload: s("{}"),
    };
    match decode_envelope(&e) {
        Some(Command::Vote { poll_title, option }) => {
            assert_eq!(poll_title, "lunch");
            assert_eq!(option, "pizza");
        }
        _ => panic!("wrong command"),
    }
    let e = Envelope { kind: s("elevate"), fields: None, number: None, payload: s("\"x\"") };
    assert!(decode_envelope(&e).is_none());
}

#[test]
fn heartbeat_constants() {
    assert_eq!(HEARTBEAT_INTERVAL_MS, 5000);
    assert_eq!(CLIENT_TIMEOUT_MS, 10000);
}

#[test]
fn ping_and_pong_refresh_heartbeat() {
    let mut sn = Session::new(4, 0);
    assert!(matches!(sn.on_frame(Frame::Ping, 9000), Reply::Pong));
    assert_eq!(sn.on_tick(15000), Tick::Ping);
    assert!(matches!(sn.on_frame(Frame::Pong, 18000), Reply::Nothing));
    assert_eq!(sn.on_tick(28000), Tick::Ping);
    assert!(sn.is_active());
}

#[test]
fn silent_client_times_out_once() {
    let mut sn = Session::new(4, 1000);
    assert_eq!(sn.on_tick(6000), Tick::Ping);
    assert_eq!(sn.on_tick(11000), Tick::Ping);
    assert_eq!(sn.on_tick(11001), Tick::TimedOut);
    assert!(!sn.is_active());
    assert!(!sn.stop());
    assert_eq!(sn.on_tick(16000), Tick::Idle);
    assert!(matches!(sn.on_frame(Frame::Ping, 16000), Reply::Nothing));
}

#[test]
fn close_frames_end_session_and_notify_once() {
    for f in vec![Frame::Close, Frame::Continuation, Frame::ProtocolError] {
        let mut sn = Session::new(2, 0);
        assert!(matches!(sn.on_frame(f, 10), Reply::Stop));
        assert!(!sn.is_active());
        assert!(sn.stop());
        assert!(!sn.stop());
    }
}

#[test]
fn unknown_text_frame_keeps_session() {
    let mut sn = Session::new(2, 0);
    assert!(matches!(sn.on_frame(Frame::Text(s("{\"type\":\"dance\",\"object\":1}")), 10), Reply::Dropped));
    assert!(matches!(sn.on_frame(Frame::Text(s("garbage")), 10), Reply::Dropped));
    assert!(matches!(sn.on_frame(Frame::Binary, 10), Reply::UnexpectedBinary));
    assert!(matches!(sn.on_frame(Frame::Nop, 10), Reply::Nothing));
    assert!(sn.is_active());
    assert_eq!(sn.on_tick(10000), Tick::Ping);
    match sn.on_frame(Frame::Text(s("{\"type\":\"elevate\",\"object\":2}")), 20) {
        Reply::Forward(Command::Adjust { up, amount }) => {
            assert!(up);
            assert_eq!(amount, 2);
        }
        _ => panic!("not forwarded"),
    }
}

#[test]
fn issued_id_is_taken() {
    let mut sn = Session::new(0, 0);
    sn.set_id(12);
    assert_eq!(sn.id(), 12);
}

#[test]
fn classify_prefers_command_then_retired_kind() {
    let env = Envelope { kind: s("closepoll"), fields: Some(vec![(s("poll_title"), s("q"))]), number: None, payload: s("{}") };
    match classify(FrameRead::Object { envelope: Some(env), kind: Some(s("closepoll")) }) {
        Decoded::Command(Command::ClosePoll { poll_title }) => assert_eq!(poll_title, "q"),
        _ => panic!("wrong outcome"),
    }
    let env = Envelope { kind: s("closepoll"), fields: Some(vec![]), number: None, payload: s("{}") };
    match classify(FrameRead::Object { envelope: Some(env), kind: Some(s("closepoll")) }) {
        Decoded::Deprecated(k) => assert_eq!(k, "closepoll"),
        _ => panic!("wrong outcome"),
    }
    assert!(matches!(classify(FrameRead::Object { envelope: None, kind: Some(s("hello")) }), Decoded::Unrecognized));
    assert!(matches!(classify(FrameRead::Object { envelope: None, kind: None }), Decoded::Unrecognized));
    assert!(matches!(classify(FrameRead::Malformed), Decoded::Malformed));
}

#[test]
fn frame_is_trimmed_before_parsing() {
    match decode("\u{a0}\u{c}{\"type\":\"closepoll\",\"object\":{\"poll_title\":\"q\"}}\u{a0}") {
        Decoded::Command(Command::ClosePoll { poll_title }) => assert_eq!(poll_title, "q"),
        _ => panic!("not decoded"),
    }
}
