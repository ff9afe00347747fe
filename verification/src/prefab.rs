//! Note prefabs: the per-lane note prototypes (position and sprites) that a
//! skin's entities define for the 7 lanes.
use vstd::prelude::*;
use vstd::string::StrSliceExecFns;
use crate::skin::{EntityDef, SkinDef};
use crate::numbers::{digits_value_capped, spec_all_digits, spec_digits_value};

verus! {

/// Number of lanes.
pub const NUM_LANES: usize = 7;

/// A note prefab for a single lane.
#[derive(Debug, Clone)]
pub struct NotePrefab {
    pub lane: usize,
    pub x: i32,
    /// Regular note sprite (for tap notes)
    pub sprite_id: Option<String>,
    /// Long note head sprite (falls back to sprite_id)
    pub head_sprite: Option<String>,
    /// Long note body sprite (falls back to sprite_id)
    pub body_sprite: Option<String>,
    /// Long note tail sprite (falls back to sprite_id)
    pub tail_sprite: Option<String>,
    /// A long note prototype exists for this lane
    pub is_long_note: bool,
}

/// All note prefabs for a skin (one per lane).
#[derive(Debug, Clone)]
pub struct NotePrefabs {
    pub lanes: [NotePrefab; 7],
    pub judgment_line_y: u32,
    pub skin_width: u32,
    pub skin_height: u32,
    /// Key-press overlays per lane: (sprite id, x, y), in skin order.
    pub pressed_note_overlays: [Vec<(String, i32, i32)>; 7],
}

// ---------------------------------------------------------------------------
// Lane numbers in entity ids
// ---------------------------------------------------------------------------

/// The 0-based lane named by one or more decimal digits with a value of 1
/// to 7, else none.
pub open spec fn spec_lane_digits(d: Seq<char>) -> Option<usize> {
    if d.len() > 0 && spec_all_digits(d) && 1 <= spec_digits_value(d) <= 7 {
        Some((spec_digits_value(d) - 1) as usize)
    } else {
        None
    }
}

/// The 0-based lane named by a decimal lane number 1 to 7 (an optional '+'
/// sign, then one or more digits), else none.
pub open spec fn spec_lane_number(s: Seq<char>) -> Option<usize> {
    if s.len() > 0 && s[0] == '+' {
        spec_lane_digits(s.drop_first())
    } else {
        spec_lane_digits(s)
    }
}

/// The lane named after `prefix` in `id`, if `id` starts with it.
pub open spec fn spec_lane_after_prefix(id: Seq<char>, prefix: Seq<char>) -> Option<usize> {
    if prefix.len() <= id.len() && id.subrange(0, prefix.len() as int) == prefix {
        spec_lane_number(id.subrange(prefix.len() as int, id.len() as int))
    } else {
        None
    }
}

/// Lane of a note entity ("NOTE_1" to "NOTE_7", "LONG_NOTE_1" to
/// "LONG_NOTE_7").
pub open spec fn spec_note_lane(e: EntityDef) -> Option<usize> {
    match e.id {
        None => None,
        Some(id) => match spec_lane_after_prefix(id@, "NOTE_"@) {
            Some(l) => Some(l),
            None => spec_lane_after_prefix(id@, "LONG_NOTE_"@),
        },
    }
}

/// Lane of a key-press overlay entity ("PRESSED_NOTE_1" to "PRESSED_NOTE_7").
pub open spec fn spec_pressed_lane(e: EntityDef) -> Option<usize> {
    match e.id {
        None => None,
        Some(id) => spec_lane_after_prefix(id@, "PRESSED_NOTE_"@),
    }
}

/// Whether `s` starts with `prefix`.
fn starts_with(s: &str, prefix: &str) -> (r: bool)
    ensures
        r == (prefix@.len() <= s@.len() && s@.subrange(0, prefix@.len() as int) == prefix@),
{
    let n = prefix.unicode_len();
    if n > s.unicode_len() {
        return false;
    }
    let mut i: usize = 0;
    while i < n
        invariant
            n == prefix@.len(),
            n <= s@.len(),
            i <= n,
            forall|j: int| 0 <= j < i ==> s@[j] == prefix@[j],
        decreases n - i,
    {
        if s.get_char(i) != prefix.get_char(i) {
            assert(s@.subrange(0, n as int)[i as int] != prefix@[i as int]);
            return false;
        }
        i = i + 1;
    }
    assert(s@.subrange(0, n as int) =~= prefix@);
    true
}

/// The lane number written in `s` from character `start` on.
fn lane_number_from(s: &str, start: usize) -> (r: Option<usize>)
    requires
        start <= s@.len(),
    ensures
        r == spec_lane_number(s@.subrange(start as int, s@.len() as int)),
{
    let len = s.unicode_len();
    let first = if start < len && s.get_char(start) == '+' {
        start + 1
    } else {
        start
    };
    proof {
        let t = s@.subrange(start as int, s@.len() as int);
        if t.len() > 0 && t[0] == '+' {
            assert(t.drop_first() =~= s@.subrange(first as int, s@.len() as int));
        } else {
            assert(t =~= s@.subrange(first as int, s@.len() as int));
        }
    }
    match digits_value_capped(s, first, 8) {
        Some(v) => {
            if 1 <= v && v <= 7 {
                Some((v - 1) as usize)
            } else {
                None
            }
        },
        None => None,
    }
}

/// The lane named after `prefix` in `id`, if `id` starts with it.
fn lane_after_prefix(id: &str, prefix: &str) -> (r: Option<usize>)
    ensures
        r == spec_lane_after_prefix(id@, prefix@),
{
    if starts_with(id, prefix) {
        lane_number_from(id, prefix.unicode_len())
    } else {
        None
    }
}

impl NotePrefabs {
    /// Extract the lane index from a note entity id: `NOTE_1` to `NOTE_7` and
    /// `LONG_NOTE_1` to `LONG_NOTE_7` give lanes 0 to 6.
    pub fn extract_lane_from_note_entity(entity: &EntityDef) -> (r: Option<usize>)
        ensures
            r == spec_note_lane(*entity),
    {
        match &entity.id {
            None => None,
            Some(id) => {
                let id = id.as_str();
                match lane_after_prefix(id, "NOTE_") {
                    Some(l) => Some(l),
                    None => lane_after_prefix(id, "LONG_NOTE_"),
                }
            },
        }
    }

    /// Extract the lane index from a `PRESSED_NOTE_N` entity id.
    pub fn extract_pressed_lane_from_entity(entity: &EntityDef) -> (r: Option<usize>)
        ensures
            r == spec_pressed_lane(*entity),
    {
        match &entity.id {
            None => None,
            Some(id) => lane_after_prefix(id.as_str(), "PRESSED_NOTE_"),
        }
    }
}


// ---------------------------------------------------------------------------
// Building the prefabs
// ---------------------------------------------------------------------------

/// Integer division truncating toward zero, as Rust's `/` on signed values.
pub open spec fn spec_div_trunc(a: int, b: int) -> int {
    if a >= 0 {
        a / b
    } else {
        -((-a) / b)
    }
}

/// X position of `lane` when the skin width is split into 7 equal lanes:
/// the centre of the lane.
pub open spec fn spec_default_lane_x(skin_width: u32, lane: int) -> int {
    let w = spec_div_trunc((skin_width as i32) as int, 7);
    w * lane + spec_div_trunc(w, 2)
}

/// The prefab of a lane with no note entity.
pub open spec fn spec_empty_prefab(lane: usize, x: i32) -> NotePrefab {
    NotePrefab {
        lane,
        x,
        sprite_id: None,
        head_sprite: None,
        body_sprite: None,
        tail_sprite: None,
        is_long_note: false,
    }
}

fn empty_prefab(lane: usize, x: i32) -> (p: NotePrefab)
    ensures
        p == spec_empty_prefab(lane, x),
{
    NotePrefab {
        lane,
        x,
        sprite_id: None,
        head_sprite: None,
        body_sprite: None,
        tail_sprite: None,
        is_long_note: false,
    }
}

fn clone_opt(o: &Option<String>) -> (r: Option<String>)
    ensures
        r == *o,
{
    match o {
        Some(s) => Some(s.clone()),
        None => None,
    }
}

/// `a`, or `b` when `a` is none.
pub open spec fn spec_or(a: Option<String>, b: Option<String>) -> Option<String> {
    match a {
        Some(_) => a,
        None => b,
    }
}

/// The prefab a note entity defines for its lane: its x and sprite, with the
/// long-note sprites falling back to the sprite.
pub open spec fn spec_note_prefab(e: EntityDef, lane: usize) -> NotePrefab {
    NotePrefab {
        lane,
        x: e.x,
        sprite_id: e.sprite,
        head_sprite: spec_or(e.head_sprite, e.sprite),
        body_sprite: spec_or(e.body_sprite, e.sprite),
        tail_sprite: spec_or(e.tail_sprite, e.sprite),
        is_long_note: true,
    }
}

/// Lanes and overlays collected from a prefix of the entities.
pub ghost struct PrefabBuild {
    pub lanes: Seq<Option<NotePrefab>>,
    pub overlays: Seq<Seq<(String, i32, i32)>>,
}

/// One entity's effect: a pressed-note entity with a sprite adds an overlay
/// to its lane; a note entity defines its lane's prefab unless an earlier
/// one did.
pub open spec fn spec_prefab_step(st: PrefabBuild, e: EntityDef) -> PrefabBuild {
    match spec_pressed_lane(e) {
        Some(lane) => match e.sprite {
            Some(sp) => PrefabBuild {
                lanes: st.lanes,
                overlays: st.overlays.update(
                    lane as int,
                    st.overlays[lane as int].push((sp, e.x, e.y)),
                ),
            },
            None => st,
        },
        None => match spec_note_lane(e) {
            Some(lane) => if st.lanes[lane as int] is None {
                PrefabBuild {
                    lanes: st.lanes.update(lane as int, Some(spec_note_prefab(e, lane))),
                    overlays: st.overlays,
                }
            } else {
                st
            },
            None => st,
        },
    }
}

/// The effect of the first `k` entities.
pub open spec fn spec_prefab_fold(es: Seq<EntityDef>, k: int) -> PrefabBuild
    decreases k,
{
    if k <= 0 {
        PrefabBuild {
            lanes: Seq::new(7, |i: int| None),
            overlays: Seq::new(7, |i: int| Seq::empty()),
        }
    } else {
        spec_prefab_step(spec_prefab_fold(es, k - 1), es[k - 1])
    }
}

proof fn lemma_lane_below_7(s: Seq<char>)
    ensures
        spec_lane_number(s) matches Some(l) ==> l < 7,
{
}

/// Lanes named by entities are lanes 0 to 6.
proof fn lemma_entity_lanes_below_7(e: EntityDef)
    ensures
        spec_note_lane(e) matches Some(l) ==> l < 7,
        spec_pressed_lane(e) matches Some(l) ==> l < 7,
{
    if let Some(id) = e.id {
        lemma_lane_below_7(id@.subrange("PRESSED_NOTE_"@.len() as int, id@.len() as int));
        lemma_lane_below_7(id@.subrange("NOTE_"@.len() as int, id@.len() as int));
        lemma_lane_below_7(id@.subrange("LONG_NOTE_"@.len() as int, id@.len() as int));
    }
}

/// The collected lanes and overlays always number 7, and a prefab stored for
/// lane `i` has lane `i`.
proof fn lemma_fold_lanes(es: Seq<EntityDef>, k: int)
    ensures
        spec_prefab_fold(es, k).lanes.len() == 7,
        spec_prefab_fold(es, k).overlays.len() == 7,
        forall|i: int|
            0 <= i < 7 ==> (#[trigger] spec_prefab_fold(es, k).lanes[i] matches Some(p) ==> p.lane
                == i),
    decreases k,
{
    if k > 0 {
        lemma_fold_lanes(es, k - 1);
        lemma_entity_lanes_below_7(es[k - 1]);
    }
}

impl NotePrefabs {
    /// Default 7-lane prefabs when no skin is available: lanes evenly spread
    /// over the width, no sprites.
    pub fn default_7lan(skin_width: u32, skin_height: u32, judgment_line_y: u32) -> (r: Self)
        ensures
            r.skin_width == skin_width,
            r.skin_height == skin_height,
            r.judgment_line_y == judgment_line_y,
            forall|i: int|
                0 <= i < 7 ==> #[trigger] r.lanes[i] == spec_empty_prefab(
                    i as usize,
                    spec_default_lane_x(skin_width, i) as i32,
                ),
            forall|i: int| 0 <= i < 7 ==> (#[trigger] r.pressed_note_overlays[i])@.len() == 0,
    {
        let width = skin_width as i32;
        let lane_width = width / 7;
        assert(lane_width as int == spec_div_trunc(width as int, 7));
        let half = lane_width / 2;
        assert(half as int == spec_div_trunc(lane_width as int, 2));
        assert(-306783378 <= lane_width <= 306783378);
        let lanes: [NotePrefab; 7] = [
            empty_prefab(0, half),
            empty_prefab(1, lane_width + half),
            empty_prefab(2, lane_width * 2 + half),
            empty_prefab(3, lane_width * 3 + half),
            empty_prefab(4, lane_width * 4 + half),
            empty_prefab(5, lane_width * 5 + half),
            empty_prefab(6, lane_width * 6 + half),
        ];
        assert forall|i: int| 0 <= i < 7 implies #[trigger] lanes[i] == spec_empty_prefab(
            i as usize,
            spec_default_lane_x(skin_width, i) as i32,
        ) by {
            if i == 0 {
            } else if i == 1 {
            } else if i == 2 {
            } else if i == 3 {
            } else if i == 4 {
            } else if i == 5 {
            } else {
                assert(i == 6);
            }
        }
        NotePrefabs {
            lanes,
            judgment_line_y,
            skin_width,
            skin_height,
            pressed_note_overlays: [
                Vec::new(),
                Vec::new(),
                Vec::new(),
                Vec::new(),
                Vec::new(),
                Vec::new(),
                Vec::new(),
            ],
        }
    }

    /// Build note prefabs from a skin: `NOTE_N` / `LONG_NOTE_N` entities
    /// define lane N's prefab (the first one wins), `PRESSED_NOTE_N` entities
    /// with a sprite add key-press overlays; lanes without a note entity get
    /// an empty prefab at x 0.
    pub fn from_skin(skin: &SkinDef) -> (r: Self)
        ensures
            r.judgment_line_y == skin.judgment_line_y,
            r.skin_width == skin.width,
            r.skin_height == skin.height,
            forall|i: int|
                0 <= i < 7 ==> #[trigger] r.lanes[i] == match spec_prefab_fold(
                    skin.entities@,
                    skin.entities@.len() as int,
                ).lanes[i] {
                    Some(p) => p,
                    None => spec_empty_prefab(i as usize, 0),
                },
            forall|i: int|
                0 <= i < 7 ==> (#[trigger] r.pressed_note_overlays[i])@ == spec_prefab_fold(
                    skin.entities@,
                    skin.entities@.len() as int,
                ).overlays[i],
            forall|i: int| 0 <= i < 7 ==> (#[trigger] r.lanes[i]).lane == i,
    {
        proof {
            lemma_fold_lanes(skin.entities@, skin.entities@.len() as int);
        }
        let mut lanes: [Option<NotePrefab>; 7] = [None, None, None, None, None, None, None];
        let mut overlays: [Vec<(String, i32, i32)>; 7] = [
            Vec::new(),
            Vec::new(),
            Vec::new(),
            Vec::new(),
            Vec::new(),
            Vec::new(),
            Vec::new(),
        ];
        let mut k: usize = 0;
        while k < skin.entities.len()
            invariant
                k <= skin.entities@.len(),
                lanes@ == spec_prefab_fold(skin.entities@, k as int).lanes,
                forall|i: int|
                    0 <= i < 7 ==> (#[trigger] overlays@[i])@ == spec_prefab_fold(
                        skin.entities@,
                        k as int,
                    ).overlays[i],
                spec_prefab_fold(skin.entities@, k as int).lanes.len() == 7,
                spec_prefab_fold(skin.entities@, k as int).overlays.len() == 7,
            decreases skin.entities@.len() - k,
        {
            let entity = &skin.entities[k];
            let ghost before = spec_prefab_fold(skin.entities@, k as int);
            proof {
                lemma_entity_lanes_below_7(*entity);
            }
            match Self::extract_pressed_lane_from_entity(entity) {
                Some(lane) => {
                    if lane < NUM_LANES {
                        match &entity.sprite {
                            Some(sprite) => {
                                overlays[lane].push((sprite.clone(), entity.x, entity.y));
                            },
                            None => {},
                        }
                    }
                },
                None => {
                    match Self::extract_lane_from_note_entity(entity) {
                        Some(lane) => {
                            if lane < NUM_LANES && lanes[lane].is_none() {
                                let sprite_id = clone_opt(&entity.sprite);
                                let head = match &entity.head_sprite {
                                    Some(h) => Some(h.clone()),
                                    None => clone_opt(&entity.sprite),
                                };
                                let body = match &entity.body_sprite {
                                    Some(b) => Some(b.clone()),
                                    None => clone_opt(&entity.sprite),
                                };
                                let tail = match &entity.tail_sprite {
                                    Some(t) => Some(t.clone()),
                                    None => clone_opt(&entity.sprite),
                                };
                                lanes[lane] = Some(
                                    NotePrefab {
                                        lane,
                                        x: entity.x,
                                        sprite_id,
                                        head_sprite: head,
                                        body_sprite: body,
                                        tail_sprite: tail,
                                        is_long_note: true,
                                    },
                                );
                            }
                        },
                        None => {},
                    }
                },
            }
            proof {
                let after = spec_prefab_fold(skin.entities@, k + 1);
                assert(after == spec_prefab_step(before, skin.entities@[k as int]));
                assert(lanes@ =~= after.lanes);
            }
            k = k + 1;
        }
        let ghost fin = spec_prefab_fold(skin.entities@, skin.entities@.len() as int);
        let l0 = match lanes[0].take() {
            Some(p) => p,
            None => empty_prefab(0, 0),
        };
        let l1 = match lanes[1].take() {
            Some(p) => p,
            None => empty_prefab(1, 0),
        };
        let l2 = match lanes[2].take() {
            Some(p) => p,
            None => empty_prefab(2, 0),
        };
        let l3 = match lanes[3].take() {
            Some(p) => p,
            None => empty_prefab(3, 0),
        };
        let l4 = match lanes[4].take() {
            Some(p) => p,
            None => empty_prefab(4, 0),
        };
        let l5 = match lanes[5].take() {
            Some(p) => p,
            None => empty_prefab(5, 0),
        };
        let l6 = match lanes[6].take() {
            Some(p) => p,
            None => empty_prefab(6, 0),
        };
        let r = NotePrefabs {
            lanes: [l0, l1, l2, l3, l4, l5, l6],
            judgment_line_y: skin.judgment_line_y,
            skin_width: skin.width,
            skin_height: skin.height,
            pressed_note_overlays: overlays,
        };
        r
    }
}

} // verus!
