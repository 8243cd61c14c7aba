use nanite_clip::census::{
    alert_label, classify_event, classify_experience_event, continent_name, metagame_event_lifecycle,
    normalize_service_id, route_event, AlertLifecycle, CensusEvent, ClassifiedEvent, DeathEvent,
    EventKind, ExperienceEvent, Loadout, StreamEvent,
};
use nanite_clip::event_log::EventLog;

#[test]
fn normalize_service_id_accepts_prefixed_and_plain_values() {
    assert_eq!(normalize_service_id("example"), Some("example".into()));
    assert_eq!(normalize_service_id("s:example"), Some("example".into()));
    assert_eq!(normalize_service_id("  s:example  "), Some("example".into()));
    assert_eq!(normalize_service_id(""), None);
}

#[test]
fn highlightable_experience_ids_map_to_specific_event_kinds() {
    assert_eq!(classify_experience_event(7), Some(EventKind::Revive));
    assert_eq!(classify_experience_event(25), Some(EventKind::MultipleKill));
    assert_eq!(classify_experience_event(278), Some(EventKind::PriorityKill));
    assert_eq!(classify_experience_event(556), Some(EventKind::ObjectivePulseDefend));
    assert_eq!(classify_experience_event(593), Some(EventKind::BountyKill));
    assert_eq!(classify_experience_event(2133), Some(EventKind::CtfFlagCaptured));
}

#[test]
fn non_highlightable_experience_ids_are_ignored() {
    assert_eq!(classify_experience_event(4), None);
    assert_eq!(classify_experience_event(5), None);
    assert_eq!(classify_experience_event(34), None);
}

fn death(attacker: u64, victim: u64, headshot: bool) -> CensusEvent {
    CensusEvent::Death(DeathEvent {
        character_id: victim,
        attacker_character_id: attacker,
        is_headshot: headshot,
        timestamp: 1_700_000_000,
        world_id: 17,
        zone_id: 2,
        attacker_weapon_id: 80,
        attacker_vehicle_id: 0,
        vehicle_id: 0,
        attacker_loadout_id: Loadout::NCMedic,
        character_loadout_id: Loadout::TRMAX,
    })
}

#[test]
fn kills_deaths_and_suicides_classify_for_the_tracked_character() {
    let kill = classify_event(&death(10, 20, true), 10).unwrap();
    assert_eq!(kill.kind, EventKind::Headshot);
    assert_eq!(kill.actor_character_id, Some(10));
    assert_eq!(kill.other_character_id, Some(20));
    assert_eq!(kill.attacker_weapon_id, Some(80));
    assert_eq!(kill.attacker_vehicle_id, None);

    let died = classify_event(&death(20, 10, false), 10).unwrap();
    assert_eq!(died.kind, EventKind::Death);
    assert_eq!(died.actor_character_id, Some(10));

    assert!(classify_event(&death(30, 40, false), 10).is_none());
}

#[test]
fn experience_ticks_classify_only_highlights() {
    let tick = |experience_id| {
        CensusEvent::GainExperience(ExperienceEvent {
            character_id: 10,
            other_id: 0,
            experience_id,
            timestamp: 5,
            world_id: 1,
            zone_id: 4,
            loadout_id: Loadout::VSEngineer,
        })
    };
    let revive = classify_event(&tick(7), 10).unwrap();
    assert_eq!(revive.kind, EventKind::Revive);
    assert_eq!(revive.other_character_id, None);
    assert_eq!(revive.experience_id, Some(7));
    assert!(classify_event(&tick(4), 10).is_none());
}

#[test]
fn logins_of_tracked_characters_are_routed() {
    let ids = vec![10u64, 11];
    assert!(matches!(
        route_event(&CensusEvent::PlayerLogin(11), &ids),
        Some(StreamEvent::Login { character_id: 11 })
    ));
    assert!(route_event(&CensusEvent::PlayerLogin(12), &ids).is_none());
    assert!(matches!(
        route_event(&CensusEvent::PlayerLogout(10), &ids),
        Some(StreamEvent::Logout { character_id: 10 })
    ));
}

#[test]
fn continent_and_alert_names() {
    assert_eq!(continent_name(Some(2)), "Indar");
    assert_eq!(continent_name(Some(999)), "Zone #999");
    assert_eq!(continent_name(None), "Unknown");
    assert_eq!(alert_label(1, 2), "Meltdown Alert (Indar)");
    assert_eq!(alert_label(147, 999), "Metagame Alert (Zone #999)");
}

#[test]
fn metagame_state_names_map_to_lifecycle() {
    assert_eq!(metagame_event_lifecycle("Started"), AlertLifecycle::Started);
    assert_eq!(metagame_event_lifecycle("ENDED"), AlertLifecycle::Ended);
    assert_eq!(metagame_event_lifecycle("restarted"), AlertLifecycle::Started);
    assert_eq!(metagame_event_lifecycle("xp bonus changed"), AlertLifecycle::Updated);
}

fn event(kind: EventKind, secs: i64) -> ClassifiedEvent {
    ClassifiedEvent {
        kind,
        timestamp: 1_700_000_000 + secs,
        world_id: 17,
        zone_id: Some(2),
        facility_id: Some(1_234),
        actor_character_id: Some(10),
        other_character_id: Some(20),
        other_character_outfit_id: None,
        characters_killed: 1,
        attacker_weapon_id: Some(80),
        attacker_vehicle_id: None,
        vehicle_killed_id: None,
        is_headshot: false,
        actor_class: None,
        experience_id: None,
    }
}

fn ts(secs: i64) -> i64 {
    1_700_000_000 + secs
}

#[test]
fn prune_removes_expired_events() {
    let mut log = EventLog::new(10);
    log.append(event(EventKind::Kill, 0));
    log.append(event(EventKind::Headshot, 5));
    log.prune(ts(12));

    let events = log.query_range(ts(-100), ts(100));
    assert_eq!(events.len(), 1);
    assert_eq!(events[0].kind, EventKind::Headshot);
}

#[test]
fn empty_range_query_returns_nothing() {
    let mut log = EventLog::new(10);
    log.append(event(EventKind::Kill, 0));

    assert!(log.query_range(ts(10), ts(5)).is_empty());
    assert!(log.query_range(ts(1), ts(2)).is_empty());
}

#[test]
fn query_range_is_inclusive_on_exact_boundaries() {
    let mut log = EventLog::new(30);
    log.append(event(EventKind::Kill, 0));
    log.append(event(EventKind::Headshot, 10));
    log.append(event(EventKind::Revive, 20));

    let events = log.query_range(ts(10), ts(20));
    assert_eq!(events.len(), 2);
    assert_eq!(events[0].kind, EventKind::Headshot);
    assert_eq!(events[1].kind, EventKind::Revive);
}

#[test]
fn appending_a_late_event_drops_the_old_ones() {
    let mut log = EventLog::new(10);
    log.append(event(EventKind::Kill, 0));
    log.append(event(EventKind::Death, 30));
    let events = log.query_range(ts(-100), ts(100));
    assert_eq!(events.len(), 1);
    assert_eq!(events[0].kind, EventKind::Death);
    log.clear();
    assert!(log.query_range(ts(-100), ts(100)).is_empty());
}
