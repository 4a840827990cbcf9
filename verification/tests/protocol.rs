use thedj::{deck_step, interpret_id_reply, interpret_init_reply, DM2Deck, DM2DJ, Error, Registry};

#[test]
fn registration_command_replies_with_the_new_id() {
    let mut registry = Registry::new();
    let reply = deck_step(&mut registry, DM2Deck::Registration(String::from("kick")));
    assert!(matches!(reply, Some(DM2DJ::ID(Ok(0)))));
    let reply = deck_step(&mut registry, DM2Deck::Registration(String::from("snare")));
    assert!(matches!(reply, Some(DM2DJ::ID(Ok(1)))));
}

#[test]
fn registration_command_revalidates_the_name() {
    let mut registry = Registry::new();
    let reply = deck_step(&mut registry, DM2Deck::Registration(String::new()));
    assert!(matches!(reply, Some(DM2DJ::ID(Err(Error::ValidationFailed)))));
    assert!(matches!(registry.roster(), Err(Error::EmptyResult)));
}

#[test]
fn deregistration_and_heartbeat_send_no_reply() {
    let mut registry = Registry::new();
    deck_step(&mut registry, DM2Deck::Registration(String::from("kick")));
    assert!(deck_step(&mut registry, DM2Deck::Heartbeat(0, 42)).is_none());
    assert!(deck_step(&mut registry, DM2Deck::Deregistration(0)).is_none());
    assert!(matches!(registry.roster(), Err(Error::EmptyResult)));
}

#[test]
fn heartbeat_to_absent_id_changes_nothing() {
    let mut registry = Registry::new();
    deck_step(&mut registry, DM2Deck::Registration(String::from("kick")));
    deck_step(&mut registry, DM2Deck::Heartbeat(3, 42));
    assert!(matches!(registry.roster_actives(), Err(Error::EmptyResult)));
}

#[test]
fn init_command_hands_back_a_matching_view() {
    let mut registry = Registry::new();
    deck_step(&mut registry, DM2Deck::Registration(String::from("kick")));
    let reply = deck_step(&mut registry, DM2Deck::Init);
    match reply {
        Some(DM2DJ::ARM(view)) => {
            assert_eq!(view.roster().unwrap(), registry.roster().unwrap());
        }
        _ => panic!("init must reply with the registry view"),
    }
}

#[test]
fn snapshots_are_independent_of_later_writes() {
    let mut registry = Registry::new();
    deck_step(&mut registry, DM2Deck::Registration(String::from("kick")));
    let snapshot = registry.snapshot();
    deck_step(&mut registry, DM2Deck::Deregistration(0));
    assert_eq!(snapshot.roster().unwrap(), vec![0]);
    assert!(matches!(registry.roster(), Err(Error::EmptyResult)));
}

#[test]
fn closed_reply_channel_is_receive_failed() {
    assert!(matches!(interpret_id_reply(None), Err(Error::ReceiveFailed)));
    assert!(matches!(interpret_init_reply(None), Err(Error::ReceiveFailed)));
}

#[test]
fn wrong_reply_shape_is_unexpected_reply() {
    let registry = Registry::new();
    assert!(matches!(
        interpret_id_reply(Some(DM2DJ::ARM(registry))),
        Err(Error::UnexpectedReply)
    ));
    assert!(matches!(
        interpret_init_reply(Some(DM2DJ::ID(Ok(4)))),
        Err(Error::UnexpectedReply)
    ));
}

#[test]
fn well_shaped_replies_pass_through() {
    assert!(matches!(interpret_id_reply(Some(DM2DJ::ID(Ok(5)))), Ok(5)));
    assert!(matches!(
        interpret_id_reply(Some(DM2DJ::ID(Err(Error::ValidationFailed)))),
        Err(Error::ValidationFailed)
    ));
    let mut registry = Registry::new();
    deck_step(&mut registry, DM2Deck::Registration(String::from("kick")));
    let view = interpret_init_reply(Some(DM2DJ::ARM(registry))).unwrap();
    assert_eq!(view.roster().unwrap(), vec![0]);
}
