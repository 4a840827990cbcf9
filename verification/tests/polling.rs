use thedj::{block_poll_step, Error, PollStep, TheDJ};

#[test]
fn deadline_expiry_wins_over_any_observation() {
    assert_eq!(block_poll_step(3, 0, Some(2), true), PollStep::Expired);
    assert_eq!(block_poll_step(3, 3, Some(3), true), PollStep::Expired);
}

#[test]
fn target_reached_is_ready_at_once() {
    assert_eq!(block_poll_step(2, 0, Some(2), false), PollStep::Ready);
    assert_eq!(block_poll_step(2, 0, Some(5), false), PollStep::Ready);
}

#[test]
fn a_later_drop_cannot_undo_a_reached_target() {
    assert_eq!(block_poll_step(2, 2, Some(0), false), PollStep::Ready);
    assert_eq!(block_poll_step(2, 2, None, false), PollStep::Ready);
}

#[test]
fn running_maximum_only_grows() {
    assert_eq!(block_poll_step(5, 3, Some(1), false), PollStep::Wait(3));
    assert_eq!(block_poll_step(5, 3, Some(4), false), PollStep::Wait(4));
    assert_eq!(block_poll_step(5, 3, None, false), PollStep::Wait(3));
    assert_eq!(block_poll_step(5, 0, Some(0), false), PollStep::Wait(0));
}

#[test]
fn a_wait_driven_by_the_step_sees_the_registry_become_ready() {
    let mut dj = TheDJ::init().unwrap();
    let first = dj.spin_new(String::from("kick")).unwrap();
    let second = dj.spin_new(String::from("snare")).unwrap();

    let mut running: usize = 0;
    let mut ticks: usize = 0;
    let outcome = loop {
        let observed = dj.get_roster_actives().ok().map(|roster| roster.len());
        match block_poll_step(2, running, observed, ticks >= 8) {
            PollStep::Ready => break Ok(()),
            PollStep::Expired => break Err(Error::DeadlineExceeded),
            PollStep::Wait(updated) => {
                running = updated;
                ticks += 1;
            }
        }
        if ticks == 2 {
            dj.heartbeat(first.id, 1).unwrap();
        }
        if ticks == 4 {
            dj.heartbeat(second.id, 2).unwrap();
        }
    };
    assert_eq!(outcome, Ok(()));
    assert!(ticks < 8);
}

#[test]
fn a_wait_on_a_registry_that_never_fills_expires() {
    let mut dj = TheDJ::init().unwrap();
    let beat = dj.spin_new(String::from("kick")).unwrap();
    dj.heartbeat(beat.id, 1).unwrap();

    let mut running: usize = 0;
    let mut ticks: usize = 0;
    let outcome = loop {
        let observed = dj.get_roster_actives().ok().map(|roster| roster.len());
        match block_poll_step(3, running, observed, ticks >= 8) {
            PollStep::Ready => break Ok(()),
            PollStep::Expired => break Err(Error::DeadlineExceeded),
            PollStep::Wait(updated) => {
                running = updated;
                ticks += 1;
            }
        }
    };
    assert_eq!(outcome, Err(Error::DeadlineExceeded));
}
