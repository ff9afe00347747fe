use open2jam::modifiers::{
    ChannelMod, MirrorModifier, Modifiers, PanicModifier, PanicPrecomputed, RandomModifier,
    SeededRng,
};
use open2jam::ojn::{Channel, NoteEvent, NoteType};

/// A note on `lane` (0-based) at position `index / count` of `measure`.
fn note(measure: u32, index: u32, count: u32, lane: usize, note_type: NoteType) -> NoteEvent {
    NoteEvent {
        channel: Channel::Note((lane + 1) as u8),
        sample_id: None,
        volume_pan: 0,
        note_type,
        measure,
        position_index: index,
        position_count: count,
    }
}

#[test]
fn test_mirror() {
    let m = MirrorModifier;
    assert_eq!(m.transform(0, 0, NoteType::Tap, false, &[]), 6);
    assert_eq!(m.transform(3, 0, NoteType::Tap, false, &[]), 3);
    assert_eq!(m.transform(6, 0, NoteType::Tap, false, &[]), 0);
}

#[test]
fn test_random_deterministic() {
    let seed = 12345u64;
    let m1 = RandomModifier::new(seed);
    let m2 = RandomModifier::new(seed);
    for lane in 0..7 {
        let t1 = m1.transform(lane, 0, NoteType::Tap, false, &[]);
        let t2 = m2.transform(lane, 0, NoteType::Tap, false, &[]);
        assert_eq!(t1, t2, "Same seed must produce same permutation");
    }
}

#[test]
fn test_random_is_bijection() {
    let m = RandomModifier::new(42);
    let mut seen = [false; 7];
    for lane in 0..7 {
        let t = m.transform(lane, 0, NoteType::Tap, false, &[]);
        assert!(t < 7, "transformed lane must be 0-6");
        seen[t] = true;
    }
    for (i, &v) in seen.iter().enumerate() {
        assert!(v, "Random permutation must contain lane {}", i);
    }
}

#[test]
fn test_panic_head_tail_same_lane() {
    let chart = vec![note(0, 0, 1, 3, NoteType::Hold), note(5, 0, 1, 3, NoteType::Release)];
    let pre = PanicPrecomputed::build(&chart);
    let mut m = PanicModifier::new(pre);

    m.prepare_measure(0);
    let head_lane = m.transform(3, 0, NoteType::Hold, false, &[]);
    m.prepare_measure(5);
    let tail_lane = m.transform(3, 5, NoteType::Release, true, &[]);
    assert_eq!(
        head_lane, tail_lane,
        "Head and tail of same long note must share the same visual lane"
    );
}

#[test]
fn test_panic_frozen_while_hold_active() {
    let chart = vec![note(0, 0, 1, 3, NoteType::Hold), note(5, 0, 1, 3, NoteType::Release)];
    let pre = PanicPrecomputed::build(&chart);
    let mut m = PanicModifier::new(pre);

    m.prepare_measure(0);
    let _shuffled = m.transform(3, 0, NoteType::Hold, false, &[]);
    m.prepare_measure(1);
    let tap_m1 = m.transform(0, 1, NoteType::Tap, false, &[]);
    m.prepare_measure(2);
    let tap_m2 = m.transform(0, 2, NoteType::Tap, false, &[]);
    assert_eq!(
        tap_m1, tap_m2,
        "Measures 1 and 2 should use frozen permutation while hold active"
    );
}

#[test]
fn test_panic_reshuffle_after_release() {
    let chart = vec![
        note(0, 0, 1, 3, NoteType::Hold),
        note(5, 0, 1, 3, NoteType::Release),
        note(6, 0, 1, 0, NoteType::Tap),
    ];
    let pre = PanicPrecomputed::build(&chart);
    let mut m = PanicModifier::new(pre);

    m.prepare_measure(0);
    m.transform(3, 0, NoteType::Hold, false, &[]);
    m.prepare_measure(5);
    m.transform(3, 5, NoteType::Release, true, &[]);
    m.prepare_measure(6);
    let p6_a = m.transform(0, 6, NoteType::Tap, false, &[]);
    let p6_b = m.transform(1, 6, NoteType::Tap, false, &[]);
    assert_ne!(p6_a, p6_b, "Measure 6 should have fresh permutation");
}

#[test]
fn test_panic_frozen_captures_measure() {
    let chart = vec![note(10, 0, 1, 3, NoteType::Hold), note(20, 0, 1, 3, NoteType::Release)];
    let pre = PanicPrecomputed::build(&chart);
    let mut m = PanicModifier::new(pre);

    m.prepare_measure(10);
    let shuffled_10 = m.transform(3, 10, NoteType::Hold, false, &[]);
    m.prepare_measure(20);
    let tap_at_20 = m.transform(3, 20, NoteType::Tap, false, &[]);
    assert_eq!(
        shuffled_10, tap_at_20,
        "Frozen permutation from measure 10 should persist across measures"
    );
}

#[test]
fn test_panic_clear_release() {
    let chart = vec![note(0, 0, 1, 3, NoteType::Hold), note(5, 0, 1, 3, NoteType::Release)];
    let pre = PanicPrecomputed::build(&chart);
    let mut m = PanicModifier::new(pre);

    m.prepare_measure(0);
    m.transform(3, 0, NoteType::Hold, false, &[]);
    m.clear_release(3);
    assert!(
        m.lane_lock.get(&3).is_none(),
        "clear_release should remove lane_lock entry"
    );
}

#[test]
fn test_panic_occupied_fallback() {
    let chart: Vec<NoteEvent> = vec![];
    let pre = PanicPrecomputed::build(&chart);
    let shuffled = pre.permutations[0][3];
    let mut m = PanicModifier::new(pre);

    m.prepare_measure(0);
    let occupied = vec![shuffled];
    let result = m.transform(3, 0, NoteType::Tap, false, &occupied);
    assert_ne!(
        result, shuffled,
        "When shuffled lane is occupied, should fall through to different lane"
    );
    assert!(result < 7, "result must be a valid lane");
}

#[test]
fn test_panic_fallback_to_original() {
    let chart: Vec<NoteEvent> = vec![];
    let pre = PanicPrecomputed::build(&chart);
    let mut m = PanicModifier::new(pre);

    m.prepare_measure(0);
    let occupied = vec![0, 1, 2, 3, 4, 5, 6];
    let result = m.transform(3, 0, NoteType::Tap, false, &occupied);
    assert_eq!(result, 3, "Fallback to original when all occupied");
}

#[test]
fn test_panic_hot_mask_tap_last_16th() {
    // Tap at position 0.95 (19/20 > 15/16) in measure 2 marks its visual lane.
    let chart = vec![note(2, 19, 20, 1, NoteType::Tap)];
    let pre = PanicPrecomputed::build(&chart);
    let mask = pre.hot_masks[2];
    let perm = pre.permutations[2];
    let visual_lane = perm[1];
    assert!(
        (mask >> visual_lane) & 1 == 1,
        "Tap at position 0.95 in measure 2 should mark its visual lane as hot"
    );
}

#[test]
fn test_panic_hot_mask_ignore_hold_head() {
    let chart = vec![note(2, 19, 20, 1, NoteType::Hold), note(3, 0, 1, 1, NoteType::Release)];
    let pre = PanicPrecomputed::build(&chart);
    let mask = pre.hot_masks[2];
    let perm = pre.permutations[2];
    let visual_lane = perm[1];
    assert!(
        (mask >> visual_lane) & 1 == 0,
        "Hold head at position 0.95 should NOT mark hot mask (only tails matter)"
    );
}

#[test]
fn test_panic_hot_mask_release_last_16th() {
    let chart = vec![note(2, 0, 1, 1, NoteType::Hold), note(2, 19, 20, 1, NoteType::Release)];
    let pre = PanicPrecomputed::build(&chart);
    let mask = pre.hot_masks[2];
    let perm = pre.permutations[2];
    let visual_lane = perm[1];
    assert!(
        (mask >> visual_lane) & 1 == 1,
        "Release at position 0.95 should mark its visual lane as hot"
    );
}

#[test]
fn test_panic_precompute_max_measure() {
    let chart = vec![
        note(0, 0, 1, 0, NoteType::Tap),
        note(5, 0, 1, 1, NoteType::Tap),
        note(10, 0, 1, 2, NoteType::Tap),
    ];
    let pre = PanicPrecomputed::build(&chart);
    assert!(
        pre.permutations.len() >= 11,
        "Should have permutations for measures 0 through at least 10"
    );
}

#[test]
fn test_panic_precompute_frozen_from_first_hold() {
    let chart = vec![
        note(3, 0, 1, 1, NoteType::Hold),
        note(5, 0, 1, 2, NoteType::Tap),
        note(7, 0, 1, 1, NoteType::Release),
    ];
    let pre = PanicPrecomputed::build(&chart);
    let perm_3_lane2 = pre.permutations[3][2];
    let mut m = PanicModifier::new(pre);

    m.prepare_measure(3);
    let _shuffled_3 = m.transform(1, 3, NoteType::Hold, false, &[]);
    m.prepare_measure(5);
    let tap_5 = m.transform(2, 5, NoteType::Tap, false, &[]);
    assert_eq!(
        tap_5, perm_3_lane2,
        "Tap at measure 5 should use frozen permutation from when first hold started (measure 3)"
    );
}

#[test]
fn test_seeded_rng_deterministic() {
    let mut rng1 = SeededRng::new(999);
    let mut rng2 = SeededRng::new(999);
    let mut v1 = vec![1, 2, 3, 4, 5];
    let mut v2 = vec![1, 2, 3, 4, 5];
    rng1.shuffle(&mut v1);
    rng2.shuffle(&mut v2);
    assert_eq!(v1, v2, "Same seed must produce same shuffle");
}

#[test]
fn test_panic_different_perms_per_measure() {
    let chart = vec![
        note(0, 0, 1, 0, NoteType::Tap),
        note(1, 0, 1, 0, NoteType::Tap),
        note(2, 0, 1, 0, NoteType::Tap),
        note(3, 0, 1, 0, NoteType::Tap),
    ];
    let pre = PanicPrecomputed::build(&chart);
    let mut m = PanicModifier::new(pre);

    m.prepare_measure(0);
    let m0 = m.transform(0, 0, NoteType::Tap, false, &[]);
    m.prepare_measure(1);
    let m1 = m.transform(0, 1, NoteType::Tap, false, &[]);
    m.prepare_measure(2);
    let m2 = m.transform(0, 2, NoteType::Tap, false, &[]);
    m.prepare_measure(3);
    let m3 = m.transform(0, 3, NoteType::Tap, false, &[]);

    let all_same = m0 == m1 && m1 == m2 && m2 == m3;
    assert!(
        !all_same,
        "Measures 0,1,2,3 should have different permutations (got {}, {}, {}, {})",
        m0, m1, m2, m3
    );
}

#[test]
fn test_panic_first_measure_notes_all_different() {
    let chart = vec![
        note(0, 0, 4, 0, NoteType::Tap),
        note(0, 1, 4, 1, NoteType::Tap),
        note(0, 2, 4, 2, NoteType::Tap),
        note(0, 3, 4, 3, NoteType::Tap),
    ];
    let pre = PanicPrecomputed::build(&chart);
    let mut m = PanicModifier::new(pre);

    let mut current_measure = 0u32;
    let mut results = vec![];
    for note_ev in chart.iter() {
        if note_ev.measure != current_measure {
            current_measure = note_ev.measure;
            m.prepare_measure(current_measure);
        }
        let visual_lane = m.transform(
            note_ev.channel.lane_index().unwrap(),
            note_ev.measure,
            note_ev.note_type,
            false,
            &[],
        );
        results.push(visual_lane);
    }

    assert_eq!(results.len(), 4);
    let is_identity = results == vec![0, 1, 2, 3];
    assert!(
        !is_identity,
        "Notes at lanes 0,1,2,3 should be shuffled, not identity (got {:?})",
        results
    );
}

#[test]
fn test_panic_modifiers_api_first_measure() {
    let chart = vec![
        note(0, 0, 4, 0, NoteType::Tap),
        note(0, 1, 4, 1, NoteType::Tap),
        note(1, 0, 4, 0, NoteType::Tap),
        note(1, 1, 4, 1, NoteType::Tap),
    ];
    let pre = PanicPrecomputed::build(&chart);
    let mut modifiers = Modifiers::new(ChannelMod::Panic, 12345, Some(pre));

    let mut current_measure = 0u32;
    let mut results = vec![];
    for note_ev in &chart {
        if note_ev.measure != current_measure {
            current_measure = note_ev.measure;
            modifiers.prepare_measure(current_measure);
        }
        let visual_lane = modifiers.transform_lane(
            note_ev.channel.lane_index().unwrap(),
            note_ev.measure,
            note_ev.note_type,
            false,
            &[],
        );
        results.push((note_ev.measure, note_ev.channel.lane_index().unwrap(), visual_lane));
    }

    let m0_notes: Vec<_> = results.iter().filter(|(m, _, _)| *m == 0).collect();
    let m0_original: Vec<_> = m0_notes.iter().map(|(_, orig, _)| *orig).collect();
    let m0_visual: Vec<_> = m0_notes.iter().map(|(_, _, visual)| *visual).collect();
    assert_eq!(m0_original, vec![0, 1]);
    assert_ne!(m0_visual, vec![0, 1], "Measure 0 should be shuffled");

    let m1_notes: Vec<_> = results.iter().filter(|(m, _, _)| *m == 1).collect();
    let m1_visual: Vec<_> = m1_notes.iter().map(|(_, _, visual)| *visual).collect();
    assert_ne!(m1_visual, vec![0, 1], "Measure 1 should be shuffled");
    assert_ne!(m0_visual, m1_visual, "Measure 0 and 1 should have different shuffles");
}

#[test]
fn test_panic_measure0_permutation_contents() {
    let chart = vec![note(0, 0, 1, 0, NoteType::Tap)];
    let pre = PanicPrecomputed::build(&chart);
    let perm0 = &pre.permutations[0];

    let is_identity = perm0 == &[0, 1, 2, 3, 4, 5, 6];
    assert!(
        !is_identity,
        "Measure 0 permutation should be shuffled, not identity: {:?}",
        perm0
    );

    let mut seen = [false; 7];
    for &v in perm0 {
        assert!(v < 7, "Permutation value {} is out of range", v);
        seen[v] = true;
    }
    for (i, &v) in seen.iter().enumerate() {
        assert!(v, "Permutation should contain lane {}", i);
    }
}

#[test]
fn mirror_twice_is_identity() {
    let m = MirrorModifier;
    for lane in 0..7 {
        let once = m.transform(lane, 0, NoteType::Tap, false, &[]);
        assert_eq!(m.transform(once, 0, NoteType::Tap, false, &[]), lane);
    }
}

#[test]
fn modifiers_off_keeps_lanes() {
    let mut modifiers = Modifiers::new(ChannelMod::Off, 7, None);
    for lane in 0..7 {
        assert_eq!(modifiers.transform_lane(lane, 0, NoteType::Tap, false, &[]), lane);
    }
}

#[test]
fn seeded_rng_shuffle_keeps_elements() {
    let mut rng = SeededRng::new(2024);
    let mut v: Vec<u32> = (0..20).collect();
    rng.shuffle(&mut v);
    let mut sorted = v.clone();
    sorted.sort();
    assert_eq!(sorted, (0..20).collect::<Vec<u32>>());
}

#[test]
fn panic_release_returns_locked_lane_and_clear_forgets_it() {
    let chart = vec![note(0, 0, 1, 2, NoteType::Hold), note(1, 0, 1, 2, NoteType::Release)];
    let pre = PanicPrecomputed::build(&chart);
    let mut m = PanicModifier::new(pre);
    m.prepare_measure(0);
    let head = m.transform(2, 0, NoteType::Hold, false, &[]);
    assert_eq!(m.lane_lock.get(&2), Some(&head));
    assert_eq!(m.active_count(), 1);
    let tail = m.transform(2, 1, NoteType::Release, true, &[]);
    assert_eq!(tail, head);
    m.clear_release(2);
    assert_eq!(m.active_count(), 0);
    // With no lock left, a release is shown on its own lane.
    assert_eq!(m.transform(2, 1, NoteType::Release, true, &[]), 2);
}

#[test]
fn panic_new_measure_moves_note_off_hot_lane() {
    let chart = vec![note(0, 31, 32, 2, NoteType::Tap), note(1, 0, 1, 0, NoteType::Tap)];
    let pre = PanicPrecomputed::build(&chart);
    let hot = pre.hot_masks[0];
    assert_ne!(hot, 0);
    let p1 = pre.permutations[1];
    let i0 = (0..7).find(|&i| (hot >> p1[i]) & 1 == 1).unwrap();
    let mut m = PanicModifier::new(pre);
    m.prepare_measure(0);
    m.transform(2, 0, NoteType::Tap, false, &[]);
    m.prepare_measure(1);
    let r = m.transform(i0, 1, NoteType::Tap, false, &[]);
    assert_eq!((hot >> r) & 1, 0, "lane {} was hot at the end of measure 0", r);
}

#[test]
fn panic_masks_fit_the_lanes_and_measure0_is_shuffled() {
    let chart = vec![
        note(0, 31, 32, 6, NoteType::Tap),
        note(1, 0, 1, 3, NoteType::Hold),
        note(2, 63, 64, 3, NoteType::Release),
        note(3, 15, 16, 5, NoteType::Tap),
    ];
    let pre = PanicPrecomputed::build(&chart);
    assert_eq!(pre.permutations.len(), 4);
    assert_eq!(pre.hot_masks.len(), 4);
    assert!(pre.hot_masks.iter().all(|&m| m < 128));
    assert_ne!(pre.permutations[0], [0, 1, 2, 3, 4, 5, 6]);
    assert_eq!(pre.permutations[0][1], 6);
}

#[test]
fn shuffle_keeps_the_multiset() {
    let mut v = vec![3, 1, 3, 2, 2, 2, 9];
    let mut rng = SeededRng::new(0);
    rng.shuffle(&mut v);
    let mut sorted = v.clone();
    sorted.sort();
    assert_eq!(sorted, vec![1, 2, 2, 2, 3, 3, 9]);
    let mut w = vec![3, 1, 3, 2, 2, 2, 9];
    SeededRng::new(0x5DEECE66D).shuffle(&mut w);
    assert_eq!(v, w);
}
