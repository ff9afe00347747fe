use open2jam::prefab::{NotePrefabs, NUM_LANES};
use open2jam::skin::{EntityDef, SkinDef};

fn entity(id: &str, sprite: Option<&str>, x: i32, y: i32) -> EntityDef {
    EntityDef {
        id: Some(id.to_string()),
        sprite: sprite.map(|s| s.to_string()),
        head_sprite: None,
        body_sprite: None,
        tail_sprite: None,
        x,
        y,
        layer: 0,
    }
}

#[test]
fn test_extract_lane_from_entity() {
    assert_eq!(
        NotePrefabs::extract_lane_from_note_entity(&EntityDef {
            id: Some("NOTE_1".to_string()),
            sprite: None, head_sprite: None, body_sprite: None, tail_sprite: None,
            x: 0, y: 0, layer: 0,
        }),
        Some(0)
    );

    assert_eq!(
        NotePrefabs::extract_lane_from_note_entity(&EntityDef {
            id: Some("NOTE_7".to_string()),
            sprite: None, head_sprite: None, body_sprite: None, tail_sprite: None,
            x: 0, y: 0, layer: 0,
        }),
        Some(6)
    );

    assert_eq!(
        NotePrefabs::extract_lane_from_note_entity(&EntityDef {
            id: Some("LONG_NOTE_3".to_string()),
            sprite: None, head_sprite: None, body_sprite: None, tail_sprite: None,
            x: 0, y: 0, layer: 0,
        }),
        Some(2)
    );

    assert_eq!(
        NotePrefabs::extract_lane_from_note_entity(&EntityDef {
            id: Some("JUDGMENT_LINE".to_string()),
            sprite: None, head_sprite: None, body_sprite: None, tail_sprite: None,
            x: 0, y: 0, layer: 0,
        }),
        None
    );
}

#[test]
fn test_invalid_lane_numbers() {
    let entity = EntityDef {
        id: Some("NOTE_8".to_string()),
        sprite: None, head_sprite: None, body_sprite: None, tail_sprite: None,
        x: 0, y: 0, layer: 0,
    };
    assert!(NotePrefabs::extract_lane_from_note_entity(&entity).is_none());

    let entity = EntityDef {
        id: Some("NOTE_0".to_string()),
        sprite: None, head_sprite: None, body_sprite: None, tail_sprite: None,
        x: 0, y: 0, layer: 0,
    };
    assert!(NotePrefabs::extract_lane_from_note_entity(&entity).is_none());
}

#[test]
fn lane_numbers_parse_like_usize() {
    let lane = |id: &str| NotePrefabs::extract_lane_from_note_entity(&entity(id, None, 0, 0));
    assert_eq!(lane("NOTE_+4"), Some(3));
    assert_eq!(lane("NOTE_007"), Some(6));
    assert_eq!(lane("NOTE_"), None);
    assert_eq!(lane("NOTE_+"), None);
    assert_eq!(lane("NOTE_1a"), None);
    assert_eq!(lane("NOTE_ 1"), None);
    assert_eq!(lane("NOTE_99999999999999999999999"), None);
    assert_eq!(lane("PRESSED_NOTE_2"), None);
    let none_id = EntityDef { id: None, ..entity("x", None, 0, 0) };
    assert_eq!(NotePrefabs::extract_lane_from_note_entity(&none_id), None);
    assert_eq!(
        NotePrefabs::extract_pressed_lane_from_entity(&entity("PRESSED_NOTE_2", None, 0, 0)),
        Some(1)
    );
    assert_eq!(
        NotePrefabs::extract_pressed_lane_from_entity(&entity("NOTE_2", None, 0, 0)),
        None
    );
}

#[test]
fn default_prefabs_spread_lanes_over_width() {
    let p = NotePrefabs::default_7lan(700, 600, 480);
    assert_eq!(p.skin_width, 700);
    assert_eq!(p.skin_height, 600);
    assert_eq!(p.judgment_line_y, 480);
    for lane in 0..NUM_LANES {
        assert_eq!(p.lanes[lane].lane, lane);
        assert_eq!(p.lanes[lane].x, 100 * lane as i32 + 50);
        assert!(p.lanes[lane].sprite_id.is_none());
        assert!(!p.lanes[lane].is_long_note);
        assert!(p.pressed_note_overlays[lane].is_empty());
    }
    let q = NotePrefabs::default_7lan(800, 600, 480);
    assert_eq!(q.lanes[1].x, 114 + 57);
}

/// The entities of the test skin of the XML module.
fn test_skin() -> SkinDef {
    SkinDef {
        name: "test".to_string(),
        width: 800,
        height: 600,
        judgment_line_y: 480,
        entities: vec![
            entity("NOTE_1", Some("note1_sprite"), 100, 0),
            entity("NOTE_2", Some("note1_sprite"), 200, 0),
            entity("NOTE_3", Some("note1_sprite"), 300, 0),
            EntityDef {
                head_sprite: Some("note1_sprite".to_string()),
                body_sprite: Some("long_body".to_string()),
                tail_sprite: Some("long_tail".to_string()),
                ..entity("LONG_NOTE_1", None, 100, 0)
            },
            EntityDef {
                head_sprite: Some("note1_sprite".to_string()),
                body_sprite: Some("long_body".to_string()),
                tail_sprite: Some("long_tail".to_string()),
                ..entity("LONG_NOTE_2", None, 200, 0)
            },
        ],
    }
}

#[test]
fn prefabs_from_skin_entities() {
    let prefabs = NotePrefabs::from_skin(&test_skin());
    assert_eq!(prefabs.judgment_line_y, 480);
    assert_eq!(prefabs.skin_width, 800);
    assert_eq!(prefabs.skin_height, 600);

    let lane0 = &prefabs.lanes[0];
    assert_eq!(lane0.lane, 0);
    assert_eq!(lane0.x, 100);
    assert_eq!(lane0.sprite_id.as_deref(), Some("note1_sprite"));
    assert_eq!(lane0.head_sprite.as_deref(), Some("note1_sprite"));
    assert!(lane0.is_long_note);
    assert_eq!(prefabs.lanes[1].x, 200);
    assert_eq!(prefabs.lanes[2].x, 300);
    for lane in 3..NUM_LANES {
        assert_eq!(prefabs.lanes[lane].lane, lane);
        assert_eq!(prefabs.lanes[lane].x, 0);
        assert!(prefabs.lanes[lane].sprite_id.is_none());
        assert!(!prefabs.lanes[lane].is_long_note);
    }
}

#[test]
fn long_note_entity_first_defines_lane() {
    let skin = SkinDef {
        entities: vec![
            EntityDef {
                body_sprite: Some("body".to_string()),
                ..entity("LONG_NOTE_4", Some("head"), 40, 0)
            },
            entity("NOTE_4", Some("tap"), 99, 0),
        ],
        ..test_skin()
    };
    let prefabs = NotePrefabs::from_skin(&skin);
    let l = &prefabs.lanes[3];
    assert_eq!(l.x, 40);
    assert_eq!(l.sprite_id.as_deref(), Some("head"));
    assert_eq!(l.head_sprite.as_deref(), Some("head"));
    assert_eq!(l.body_sprite.as_deref(), Some("body"));
    assert_eq!(l.tail_sprite.as_deref(), Some("head"));
}

#[test]
fn pressed_note_overlays_collect_in_order() {
    let skin = SkinDef {
        entities: vec![
            entity("PRESSED_NOTE_1", Some("white_a"), 10, 400),
            entity("PRESSED_NOTE_1", Some("white_b"), 12, 410),
            entity("PRESSED_NOTE_2", None, 20, 400),
            entity("PRESSED_NOTE_7", Some("blue"), 70, 420),
        ],
        ..test_skin()
    };
    let prefabs = NotePrefabs::from_skin(&skin);
    assert_eq!(
        prefabs.pressed_note_overlays[0],
        vec![("white_a".to_string(), 10, 400), ("white_b".to_string(), 12, 410)]
    );
    assert!(prefabs.pressed_note_overlays[1].is_empty());
    assert_eq!(prefabs.pressed_note_overlays[6], vec![("blue".to_string(), 70, 420)]);
    for lane in 0..NUM_LANES {
        assert!(!prefabs.lanes[lane].is_long_note);
    }
}
