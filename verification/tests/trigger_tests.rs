use open2jam::trigger::{AudioTriggerEvent, AudioTriggerSystem, TriggerState};

#[test]
fn new_event_is_full_volume_centred() {
    let e = AudioTriggerEvent::new(7, 1000);
    assert_eq!(f32::from_bits(e.volume_bits), 1.0);
    assert_eq!(f32::from_bits(e.pan_bits), 0.0);
}

#[test]
fn should_fire_accounts_for_latency() {
    let e = AudioTriggerEvent::new(1, 1000);
    assert!(!e.should_fire(949, 50));
    assert!(e.should_fire(950, 50));
    assert!(AudioTriggerEvent::new(1, 10).should_fire(0, 50));
}

#[test]
fn schedule_keeps_time_order_and_schedule_order_for_ties() {
    let mut sys = AudioTriggerSystem::new();
    assert_eq!(sys.audio_latency(), 50);
    let events = [(1, 300), (2, 100), (3, 300), (4, 200), (5, 100)];
    for (id, t) in events {
        sys.schedule(AudioTriggerEvent::new(id, t));
    }
    let mut expected: Vec<(u32, u64)> = events.to_vec();
    expected.sort_by_key(|e| e.1);
    let got: Vec<(u32, u64)> = sys
        .triggers()
        .iter()
        .map(|t| (t.event.sample_id, t.event.target_game_time_ms))
        .collect();
    assert_eq!(got, expected);
    assert_eq!(sys.pending_count(), 5);

    let mut many = AudioTriggerSystem::new();
    many.schedule_many(events.iter().map(|&(id, t)| AudioTriggerEvent::new(id, t)).collect());
    let got_many: Vec<u32> = many.triggers().iter().map(|t| t.event.sample_id).collect();
    assert_eq!(got_many, expected.iter().map(|e| e.0).collect::<Vec<u32>>());
}

#[test]
fn due_triggers_are_resolved_in_order() {
    let mut sys = AudioTriggerSystem::new();
    sys.set_audio_latency(0);
    sys.schedule_many(vec![
        AudioTriggerEvent::new(1, 100),
        AudioTriggerEvent::new(2, 200),
        AudioTriggerEvent::new(3, 300),
    ]);
    // At 250 ms the first two are due; the first plays, the second has no sound.
    let k = sys.next_due(250).expect("due");
    assert_eq!(k, 0);
    sys.resolve(k, true);
    let k = sys.next_due(250).expect("due");
    assert_eq!(k, 1);
    sys.resolve(k, false);
    assert_eq!(sys.next_due(250), None);
    assert_eq!(sys.fire_count(), 1);
    assert_eq!(sys.skip_count(), 1);
    assert_eq!(sys.pending_count(), 1);
    assert_eq!(sys.triggers()[0].state, TriggerState::Fired);
    assert_eq!(sys.triggers()[1].state, TriggerState::Skipped);
    assert!(sys.was_triggered_within_tolerance(1, 5));
    assert!(!sys.was_triggered_within_tolerance(2, 5));
    assert_eq!(sys.get_trigger_drift(1, 100), Some(0));
    assert_eq!(sys.get_trigger_drift(2, 200), None);
    sys.clear();
    assert_eq!(sys.pending_count(), 0);
    assert_eq!(sys.fire_count(), 0);
    assert_eq!(sys.next_due(1_000), None);
}
