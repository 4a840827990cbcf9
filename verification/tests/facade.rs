use thedj::{Error, TheDJ};

#[test]
fn fresh_registration_appears_in_roster() {
    let mut dj = TheDJ::init().unwrap();
    let beat = dj.spin_new(String::from("drum")).unwrap();
    let roster = dj.get_roster().unwrap();
    assert!(roster.contains(&beat.id));
}

#[test]
fn empty_name_is_rejected_without_mutation() {
    let mut dj = TheDJ::init().unwrap();
    assert!(matches!(dj.spin_new(String::new()), Err(Error::ValidationFailed)));
    assert!(matches!(dj.get_roster(), Err(Error::EmptyResult)));
}

#[test]
fn unregister_removes_record() {
    let mut dj = TheDJ::init().unwrap();
    let gone = dj.spin_new(String::from("kick")).unwrap();
    let kept = dj.spin_new(String::from("snare")).unwrap();
    dj.unregister(gone.id).unwrap();
    assert!(matches!(dj.get_record(gone.id), Err(Error::NotFound)));
    let roster = dj.get_roster().unwrap();
    assert!(!roster.contains(&gone.id));
    assert!(roster.contains(&kept.id));
}

#[test]
fn unregister_absent_id_is_not_an_error() {
    let mut dj = TheDJ::init().unwrap();
    let beat = dj.spin_new(String::from("hat")).unwrap();
    dj.unregister(beat.id + 40).unwrap();
    assert_eq!(dj.get_roster().unwrap(), vec![beat.id]);
}

#[test]
fn actives_lists_exactly_the_beaten_records() {
    let mut dj = TheDJ::init().unwrap();
    let fresh = dj.spin_new(String::from("kick")).unwrap();
    let beaten = dj.spin_new(String::from("snare")).unwrap();
    assert!(matches!(dj.get_roster_actives(), Err(Error::EmptyResult)));
    dj.heartbeat(beaten.id, 1).unwrap();
    let actives = dj.get_roster_actives().unwrap();
    assert_eq!(actives, vec![beaten.id]);
    assert!(!actives.contains(&fresh.id));
}

#[test]
fn clear_all_then_roster_is_empty_result() {
    let mut dj = TheDJ::init().unwrap();
    for name in ["kick", "snare", "hat"] {
        dj.spin_new(String::from(name)).unwrap();
    }
    dj.clear_all().unwrap();
    assert!(matches!(dj.get_roster(), Err(Error::EmptyResult)));
}

#[test]
fn clear_all_on_empty_registry_fails() {
    let mut dj = TheDJ::init().unwrap();
    assert!(matches!(dj.clear_all(), Err(Error::EmptyResult)));
}

#[test]
fn get_record_returns_the_stored_fields() {
    let mut dj = TheDJ::init().unwrap();
    let beat = dj.spin_new(String::from("tom")).unwrap();
    dj.heartbeat(beat.id, 7).unwrap();
    dj.heartbeat(beat.id, 8).unwrap();
    let record = dj.get_record(beat.id).unwrap();
    assert_eq!(record.id, beat.id);
    assert_eq!(record.name, "tom");
    assert_eq!(record.history, vec![7, 8]);
}

#[test]
fn get_record_of_unknown_id_is_not_found() {
    let dj = TheDJ::init().unwrap();
    assert!(matches!(dj.get_record(9), Err(Error::NotFound)));
}

#[test]
fn hundred_registrations_yield_distinct_ids() {
    let mut dj = TheDJ::init().unwrap();
    let mut ids = Vec::new();
    for i in 0..100 {
        let beat = dj.spin_new(format!("unit-{i}")).unwrap();
        ids.push(beat.id);
    }
    assert_eq!(dj.get_roster().unwrap().len(), 100);
    let mut sorted = ids.clone();
    sorted.sort();
    sorted.dedup();
    assert_eq!(sorted.len(), 100);
}

#[test]
fn ids_are_never_reused() {
    let mut dj = TheDJ::init().unwrap();
    let first = dj.spin_new(String::from("kick")).unwrap();
    dj.unregister(first.id).unwrap();
    let second = dj.spin_new(String::from("kick")).unwrap();
    assert_ne!(first.id, second.id);
    assert!(second.id > first.id);
}

#[test]
fn add_report_without_reporter_fails() {
    let mut dj = TheDJ::init().unwrap();
    assert!(matches!(dj.add_report(1), Err(Error::SendFailed)));
}

#[test]
fn add_report_with_reporter_succeeds() {
    let mut dj = TheDJ::init_with_reporting().unwrap();
    dj.add_report(1).unwrap();
    dj.add_report(2).unwrap();
}
