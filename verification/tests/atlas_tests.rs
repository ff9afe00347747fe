use open2jam::atlas::{frame_in_image, pack_frames, plan_atlas, ATLAS_WIDTH};

#[test]
fn frames_are_packed_left_to_right_with_a_gap() {
    let (placements, height) = pack_frames(&[(32, 25), (32, 25), (10, 40)]);
    assert_eq!(placements, vec![(0, 0), (33, 0), (66, 0)]);
    assert_eq!(height, 40);
}

#[test]
fn a_frame_past_the_width_starts_a_new_row() {
    let (placements, height) = pack_frames(&[(4000, 10), (100, 20), (50, 5)]);
    assert_eq!(placements, vec![(0, 0), (0, 11), (101, 11)]);
    assert_eq!(height, 31);
    assert_eq!(ATLAS_WIDTH, 4096);
}

#[test]
fn a_wide_first_frame_stays_on_the_first_row() {
    let (placements, height) = pack_frames(&[(5000, 3)]);
    assert_eq!(placements, vec![(0, 0)]);
    assert_eq!(height, 3);
}

#[test]
fn no_frames_give_an_empty_atlas() {
    let (placements, height) = pack_frames(&[]);
    assert!(placements.is_empty());
    assert_eq!(height, 0);
}

#[test]
fn atlas_plan_keeps_frames_inside_loaded_images() {
    assert!(frame_in_image((0, 0, 32, 25), (32, 25)));
    assert!(!frame_in_image((1, 0, 32, 25), (32, 25)));
    assert!(!frame_in_image((0, 1, 32, 25), (32, 25)));
    let rects = vec![(0, 0, 32, 25), (10, 10, 50, 5), (0, 0, 8, 8), (4, 4, 4, 4)];
    let images = vec![Some((64, 64)), Some((40, 40)), None, Some((16, 16))];
    let (kept, placements, height) = plan_atlas(&rects, &images).expect("an atlas");
    assert_eq!(kept, vec![0, 3]);
    assert_eq!(placements, vec![(0, 0), (33, 0)]);
    assert_eq!(height, 25);
}

#[test]
fn no_atlas_without_frames_or_height() {
    assert!(plan_atlas(&vec![], &vec![]).is_none());
    assert!(plan_atlas(&vec![(0, 0, 1, 1)], &vec![None]).is_none());
    assert!(plan_atlas(&vec![(0, 0, 5, 0)], &vec![Some((5, 5))]).is_none());
}
