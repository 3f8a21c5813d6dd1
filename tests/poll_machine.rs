use vimeet::poll::Poll;

fn s(t: &str) -> String {
    t.to_string()
}

fn fresh() -> Poll {
    Poll::new(s("lunch"), 1, s("alice"), s("standup"))
}

#[test]
fn new_poll_is_open_and_empty() {
    let p = fresh();
    assert!(!p.is_closed());
    assert!(p.options().is_empty());
    assert_eq!(p.vote_of(1), None);
    assert_eq!(p.title(), "lunch");
    assert_eq!(p.owner_id(), 1);
    assert_eq!(p.owner_name(), "alice");
    assert_eq!(p.room(), "standup");
}

#[test]
fn added_options_keep_insertion_order() {
    let mut p = fresh();
    assert!(p.add_option(s("pizza")));
    assert!(p.add_option(s("tacos")));
    assert!(p.add_option(s("pizza")));
    assert_eq!(p.options(), vec![s("pizza"), s("tacos"), s("pizza")]);
}

#[test]
fn vote_for_existing_option_sets_entry() {
    let mut p = fresh();
    p.add_option(s("pizza"));
    assert!(p.vote(7, s("pizza")));
    assert_eq!(p.vote_of(7), Some(s("pizza")));
    assert_eq!(p.tally(&s("pizza")), 1);
}

#[test]
fn second_vote_overwrites_first() {
    let mut p = fresh();
    p.add_option(s("pizza"));
    p.add_option(s("tacos"));
    assert!(p.vote(7, s("pizza")));
    assert!(p.vote(8, s("pizza")));
    assert!(p.vote(7, s("tacos")));
    assert_eq!(p.vote_of(7), Some(s("tacos")));
    assert_eq!(p.vote_of(8), Some(s("pizza")));
    assert_eq!(p.tally(&s("pizza")), 1);
    assert_eq!(p.tally(&s("tacos")), 1);
}

#[test]
fn vote_for_missing_option_is_rejected() {
    let mut p = fresh();
    p.add_option(s("pizza"));
    assert!(!p.vote(7, s("sushi")));
    assert_eq!(p.vote_of(7), None);
    assert_eq!(p.tally(&s("sushi")), 0);
    assert_eq!(p.options(), vec![s("pizza")]);
}

#[test]
fn closed_poll_rejects_everything() {
    let mut p = fresh();
    p.add_option(s("pizza"));
    p.vote(7, s("pizza"));
    assert!(p.close());
    assert!(p.is_closed());
    assert!(!p.add_option(s("tacos")));
    assert!(!p.vote(8, s("pizza")));
    assert!(!p.close());
    assert!(p.is_closed());
    assert_eq!(p.options(), vec![s("pizza")]);
    assert_eq!(p.vote_of(8), None);
    assert_eq!(p.tally(&s("pizza")), 1);
}

#[test]
fn summary_counts_each_option() {
    let mut p = fresh();
    p.add_option(s("pizza"));
    p.add_option(s("tacos"));
    p.vote(1, s("pizza"));
    p.vote(2, s("pizza"));
    p.vote(3, s("tacos"));
    let sm = p.summary();
    assert_eq!(sm.options, vec![s("pizza"), s("tacos")]);
    assert_eq!(sm.tallies, vec![2, 1]);
    assert!(!sm.closed);
    assert_eq!(sm.title, "lunch");
}
