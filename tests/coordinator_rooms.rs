use vimeet::coordinator::Coordinator;
use vimeet::decoder::Command;
use vimeet::event::{Event, PollChange, Signal};

fn s(t: &str) -> String {
    t.to_string()
}

fn joined(c: &mut Coordinator, room: &str, name: &str) -> u64 {
    let id = c.issue_id().unwrap();
    assert!(c.join(id, s(room), s(name)));
    id
}

fn poll_change(e: &Event) -> PollChange {
    match e {
        Event::Poll { change, .. } => *change,
        _ => panic!("not a poll event"),
    }
}

#[test]
fn ids_are_issued_in_order() {
    let mut c = Coordinator::new();
    assert_eq!(c.issue_id(), Some(1));
    assert_eq!(c.issue_id(), Some(2));
    assert_eq!(c.issue_id(), Some(3));
}

#[test]
fn join_registers_member_until_disconnect() {
    let mut c = Coordinator::new();
    let a = joined(&mut c, "standup", "alice");
    let b = joined(&mut c, "retro", "bob");
    let d = joined(&mut c, "standup", "dora");
    assert_eq!(c.members(&s("standup")), vec![a, d]);
    assert_eq!(c.members(&s("retro")), vec![b]);
    assert!(c.disconnect(a));
    assert_eq!(c.members(&s("standup")), vec![d]);
    assert!(!c.disconnect(a));
    assert_eq!(c.members(&s("nowhere")), Vec::<u64>::new());
}

#[test]
fn join_refuses_duplicate_and_unissued_ids() {
    let mut c = Coordinator::new();
    let a = joined(&mut c, "standup", "alice");
    assert!(!c.join(a, s("retro"), s("alice")));
    assert!(!c.join(99, s("retro"), s("ghost")));
    assert_eq!(c.members(&s("retro")), Vec::<u64>::new());
    assert_eq!(c.members(&s("standup")), vec![a]);
}

#[test]
fn disconnect_keeps_votes() {
    let mut c = Coordinator::new();
    let a = joined(&mut c, "standup", "alice");
    c.create_poll(s("standup"), s("lunch"), a, s("alice")).unwrap();
    c.add_option(s("standup"), s("lunch"), s("pizza")).unwrap();
    c.vote(s("standup"), s("lunch"), s("pizza"), a).unwrap();
    c.disconnect(a);
    let p = c.poll(&s("standup"), &s("lunch")).unwrap();
    assert_eq!(p.vote_of(a), Some(s("pizza")));
}

#[test]
fn duplicate_poll_title_is_rejected() {
    let mut c = Coordinator::new();
    let a = joined(&mut c, "standup", "alice");
    assert!(c.create_poll(s("standup"), s("lunch"), a, s("alice")).is_some());
    c.add_option(s("standup"), s("lunch"), s("pizza")).unwrap();
    assert!(c.create_poll(s("standup"), s("lunch"), a, s("alice")).is_none());
    let p = c.poll(&s("standup"), &s("lunch")).unwrap();
    assert_eq!(p.options(), vec![s("pizza")]);
    assert!(c.create_poll(s("retro"), s("lunch"), a, s("alice")).is_some());
}

#[test]
fn mutations_on_missing_poll_are_silent() {
    let mut c = Coordinator::new();
    let a = joined(&mut c, "standup", "alice");
    assert!(c.add_option(s("standup"), s("lunch"), s("pizza")).is_none());
    assert!(c.vote(s("standup"), s("lunch"), s("pizza"), a).is_none());
    assert!(c.close_poll(s("standup"), s("lunch")).is_none());
    assert!(c.poll(&s("standup"), &s("lunch")).is_none());
}

#[test]
fn vote_for_missing_option_is_silent() {
    let mut c = Coordinator::new();
    let a = joined(&mut c, "standup", "alice");
    c.create_poll(s("standup"), s("lunch"), a, s("alice")).unwrap();
    c.add_option(s("standup"), s("lunch"), s("pizza")).unwrap();
    assert!(c.vote(s("standup"), s("lunch"), s("sushi"), a).is_none());
    let p = c.poll(&s("standup"), &s("lunch")).unwrap();
    assert_eq!(p.vote_of(a), None);
    assert_eq!(p.tally(&s("pizza")), 0);
}

#[test]
fn closed_poll_stays_closed() {
    let mut c = Coordinator::new();
    let a = joined(&mut c, "standup", "alice");
    c.create_poll(s("standup"), s("lunch"), a, s("alice")).unwrap();
    c.add_option(s("standup"), s("lunch"), s("pizza")).unwrap();
    let b = c.close_poll(s("standup"), s("lunch")).unwrap();
    assert_eq!(poll_change(&b.event), PollChange::Closed);
    assert!(c.add_option(s("standup"), s("lunch"), s("tacos")).is_none());
    assert!(c.vote(s("standup"), s("lunch"), s("pizza"), a).is_none());
    assert!(c.close_poll(s("standup"), s("lunch")).is_none());
    let p = c.poll(&s("standup"), &s("lunch")).unwrap();
    assert!(p.is_closed());
    assert_eq!(p.options(), vec![s("pizza")]);
}

#[test]
fn standup_lunch_scenario() {
    let mut c = Coordinator::new();
    let a = joined(&mut c, "standup", "alice");
    let b = joined(&mut c, "standup", "bob");
    let room = s("standup");

    let e = c.apply(room.clone(), a, s("alice"), Command::CreatePoll { title: s("lunch") }).unwrap();
    assert_eq!(e.recipients, vec![a, b]);
    assert_eq!(poll_change(&e.event), PollChange::Created);
    let p = c.poll(&room, &s("lunch")).unwrap();
    assert!(!p.is_closed());
    assert!(p.options().is_empty());

    let e = c
        .apply(room.clone(), b, s("bob"), Command::AddOption { poll_title: s("lunch"), option: s("pizza") })
        .unwrap();
    assert_eq!(poll_change(&e.event), PollChange::OptionAdded);
    assert_eq!(c.poll(&room, &s("lunch")).unwrap().options(), vec![s("pizza")]);

    let e = c
        .apply(room.clone(), a, s("alice"), Command::Vote { poll_title: s("lunch"), option: s("pizza") })
        .unwrap();
    match &e.event {
        Event::Poll { change, poll } => {
            assert_eq!(*change, PollChange::Voted);
            assert_eq!(poll.tallies, vec![1]);
        }
        _ => panic!("not a poll event"),
    }
    let p = c.poll(&room, &s("lunch")).unwrap();
    assert_eq!(p.vote_of(a), Some(s("pizza")));
    assert_eq!(p.vote_of(b), None);
    assert_eq!(p.tally(&s("pizza")), 1);

    let e = c.apply(room.clone(), a, s("alice"), Command::ClosePoll { poll_title: s("lunch") }).unwrap();
    assert_eq!(poll_change(&e.event), PollChange::Closed);
    assert!(c.poll(&room, &s("lunch")).unwrap().is_closed());

    let rejected =
        c.apply(room.clone(), b, s("bob"), Command::AddOption { poll_title: s("lunch"), option: s("tacos") });
    assert!(rejected.is_none());
    assert_eq!(c.poll(&room, &s("lunch")).unwrap().options(), vec![s("pizza")]);
}

#[test]
fn adjust_and_signals_reach_the_room_only() {
    let mut c = Coordinator::new();
    let a = joined(&mut c, "standup", "alice");
    let _b = joined(&mut c, "retro", "bob");
    let e = c.apply(s("standup"), a, s("alice"), Command::Adjust { up: true, amount: 3 }).unwrap();
    assert_eq!(e.recipients, vec![a]);
    match e.event {
        Event::Adjust { up, owner_id, amount } => {
            assert!(up);
            assert_eq!(owner_id, a);
            assert_eq!(amount, 3);
        }
        _ => panic!("not an adjustment"),
    }
    let e = c
        .apply(s("standup"), a, s("alice"), Command::Signal { signal: Signal::Raise, payload: s("{\"x\":1}") })
        .unwrap();
    assert_eq!(e.recipients, vec![a]);
    match e.event {
        Event::Signal { signal, owner_id, owner_name, payload } => {
            assert_eq!(signal, Signal::Raise);
            assert_eq!(owner_id, a);
            assert_eq!(owner_name, "alice");
            assert_eq!(payload, "{\"x\":1}");
        }
        _ => panic!("not a signal"),
    }
}

fn forwarded(sn: &mut vimeet::session::Session, text: &str) -> Command {
    match sn.on_frame(vimeet::session::Frame::Text(s(text)), 1) {
        vimeet::session::Reply::Forward(c) => c,
        _ => panic!("not forwarded: {}", text),
    }
}

#[test]
fn standup_scenario_through_frames() {
    let mut c = Coordinator::new();
    let a = joined(&mut c, "standup", "alice");
    let b = joined(&mut c, "standup", "bob");
    let mut sa = vimeet::session::Session::new(a, 0);
    let mut sb = vimeet::session::Session::new(b, 0);
    let room = s("standup");

    let cmd = forwarded(&mut sa, "{\"type\":\"poll\",\"object\":{\"poll_title\":\"lunch\"}}");
    assert!(c.apply(room.clone(), a, s("alice"), cmd).is_some());
    assert!(c.poll(&room, &s("lunch")).unwrap().options().is_empty());

    let cmd = forwarded(&mut sb, "{\"type\":\"polloption\",\"object\":{\"poll_title\":\"lunch\",\"poll_option_title\":\"pizza\"}}");
    assert!(c.apply(room.clone(), b, s("bob"), cmd).is_some());

    let cmd = forwarded(&mut sa, "{\"type\":\"vote\",\"object\":{\"poll_title\":\"lunch\",\"poll_option_title\":\"pizza\"}}");
    assert!(c.apply(room.clone(), a, s("alice"), cmd).is_some());
    assert_eq!(c.poll(&room, &s("lunch")).unwrap().vote_of(a), Some(s("pizza")));
    assert_eq!(c.poll(&room, &s("lunch")).unwrap().tally(&s("pizza")), 1);

    let cmd = forwarded(&mut sa, "{\"type\":\"closepoll\",\"object\":{\"poll_title\":\"lunch\"}}");
    assert!(c.apply(room.clone(), a, s("alice"), cmd).is_some());

    let cmd = forwarded(&mut sb, "{\"type\":\"polloption\",\"object\":{\"poll_title\":\"lunch\",\"poll_option_title\":\"tacos\"}}");
    assert!(c.apply(room.clone(), b, s("bob"), cmd).is_none());
    let p = c.poll(&room, &s("lunch")).unwrap();
    assert!(p.is_closed());
    assert_eq!(p.options(), vec![s("pizza")]);
}
