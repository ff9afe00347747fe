use open2jam::ojn::{
    block_note_event, count_playable_notes, NoteEvent, decode_note_type_byte, measure_schedule, note_value_fits,
    ojn_reads_in_bounds, parse_bytes, Channel, MeasureBlock, NoteType, OjnError,
};

fn put_u32(buf: &mut Vec<u8>, at: usize, v: u32) {
    buf[at..at + 4].copy_from_slice(&v.to_le_bytes());
}

fn put_u16(buf: &mut Vec<u8>, at: usize, v: u16) {
    buf[at..at + 2].copy_from_slice(&v.to_le_bytes());
}

/// A chart header whose Hard section starts right after it.
fn header() -> Vec<u8> {
    let mut buf = vec![0u8; 300];
    put_u32(&mut buf, 0, 100);
    buf[4..8].copy_from_slice(b"ojn\0");
    put_u32(&mut buf, 16, 130.0f32.to_bits());
    put_u16(&mut buf, 24, 12);
    buf[108..118].copy_from_slice(b"Bach Alive");
    buf[172..185].copy_from_slice(b"Beautiful Day");
    buf[204..208].copy_from_slice(b"HWAN");
    buf[236..247].copy_from_slice(b"o2ma100.ojm");
    put_u32(&mut buf, 284, 300);
    put_u32(&mut buf, 288, 300);
    put_u32(&mut buf, 292, 300);
    buf
}

fn block(buf: &mut Vec<u8>, measure: u32, channel: u16, events: &[[u8; 4]]) {
    buf.extend_from_slice(&measure.to_le_bytes());
    buf.extend_from_slice(&channel.to_le_bytes());
    buf.extend_from_slice(&(events.len() as u16).to_le_bytes());
    for e in events {
        buf.extend_from_slice(e);
    }
}

#[test]
fn test_parse_ojn_signature() {
    let result = parse_bytes(&[0u8; 300]);
    assert!(matches!(result, Err(OjnError::InvalidSignature(_))));
}

#[test]
fn test_parse_ojn_truncated() {
    let result = parse_bytes(&[0u8; 100]);
    assert!(matches!(result, Err(OjnError::Truncated { .. })));
}

#[test]
fn test_note_type_decoding() {
    let (val, note_type) = decode_note_type_byte(0, 5);
    assert_eq!(val, 5);
    assert_eq!(note_type, NoteType::Tap);

    let (_val, note_type) = decode_note_type_byte(2, 5);
    assert_eq!(note_type, NoteType::Hold);

    let (_val, note_type) = decode_note_type_byte(3, 5);
    assert_eq!(note_type, NoteType::Release);
}

#[test]
fn test_channel_from_number() {
    assert_eq!(Channel::from_number(0), Channel::TimeSignature);
    assert_eq!(Channel::from_number(1), Channel::BpmChange);
    assert_eq!(Channel::from_number(2), Channel::Note(1));
    assert_eq!(Channel::from_number(8), Channel::Note(7));
    assert!(matches!(Channel::from_number(9), Channel::AutoPlay(_)));
}

#[test]
fn note_type_byte_bit_2_adds_ogg_offset() {
    assert_eq!(decode_note_type_byte(4, 5), (1005, NoteType::Tap));
    assert_eq!(decode_note_type_byte(6, 5), (1005, NoteType::Hold));
    assert_eq!(decode_note_type_byte(9, 5), (5, NoteType::Tap));
}

#[test]
fn lane_index_of_channels() {
    assert_eq!(Channel::Note(1).lane_index(), Some(0));
    assert_eq!(Channel::Note(7).lane_index(), Some(6));
    assert_eq!(Channel::AutoPlay(9).lane_index(), None);
    assert_eq!(Channel::from_number(300), Channel::AutoPlay(44));
}

#[test]
fn parse_header_and_hard_blocks() {
    let mut buf = header();
    block(&mut buf, 0, 2, &[[5, 0, 0x80, 0], [0, 0, 0, 0]]);
    block(&mut buf, 1, 1, &[130.0f32.to_le_bytes()]);
    let cover = buf.len() as u32;
    put_u32(&mut buf, 296, cover);
    assert!(ojn_reads_in_bounds(&buf));
    let chart = parse_bytes(&buf).expect("valid chart");
    let h = &chart.header;
    assert_eq!(h.song_id, 100);
    assert_eq!(f32::from_bits(h.bpm_bits), 130.0);
    assert_eq!(h.level_hard, 12);
    assert_eq!(h.title, "Bach Alive");
    assert_eq!(h.artist, "Beautiful Day");
    assert_eq!(h.noter, "HWAN");
    assert_eq!(h.ojm_filename, "o2ma100.ojm");
    assert_eq!(h.note_offset_hard, 300);
    assert_eq!(chart.blocks.len(), 2);
    assert_eq!(chart.blocks[0].measure, 0);
    assert_eq!(chart.blocks[0].channel, 2);
    assert_eq!(chart.blocks[0].events, vec![[5, 0, 0x80, 0], [0, 0, 0, 0]]);
    assert_eq!(chart.blocks[1].channel, 1);
}

#[test]
fn blocks_stop_at_section_end() {
    let mut buf = header();
    // Easy section starts after the first block: Hard (first) ends there.
    block(&mut buf, 0, 2, &[[1, 0, 0, 0]]);
    let easy = buf.len() as u32;
    block(&mut buf, 1, 2, &[[2, 0, 0, 0]]);
    put_u32(&mut buf, 284, easy);
    put_u32(&mut buf, 288, easy);
    let cover = buf.len() as u32;
    put_u32(&mut buf, 296, cover);
    let chart = parse_bytes(&buf).expect("valid chart");
    assert_eq!(chart.blocks.len(), 1);
}

#[test]
fn note_offset_past_data_is_an_error() {
    let mut buf = header();
    put_u32(&mut buf, 292, 5000);
    assert!(matches!(
        parse_bytes(&buf),
        Err(OjnError::NoteOffsetOutOfBounds { offset: 5000, size: 300 })
    ));
}

#[test]
fn block_past_data_is_detected() {
    let mut buf = header();
    block(&mut buf, 0, 2, &[[1, 0, 0, 0]]);
    // The block claims 50 events but the data ends; the cover lies far away.
    put_u16(&mut buf, 306, 50);
    put_u32(&mut buf, 296, 100_000);
    assert!(!ojn_reads_in_bounds(&buf));
}

#[test]
fn note_events_of_a_block() {
    let b = MeasureBlock {
        measure: 3,
        channel: 2,
        events_count: 4,
        events: vec![[5, 0, 0x80, 0], [0, 0, 0, 0], [5, 0, 0x3F, 4], [9, 0, 0, 2]],
    };
    let n0 = block_note_event(&b, 0).expect("a note");
    assert_eq!(n0.channel, Channel::Note(1));
    assert_eq!(n0.sample_id, Some(4));
    assert_eq!(n0.volume_pan, 0x80);
    assert_eq!(n0.note_type, NoteType::Tap);
    assert_eq!((n0.measure, n0.position_index, n0.position_count), (3, 0, 4));
    assert!(block_note_event(&b, 1).is_none());
    assert_eq!(block_note_event(&b, 2).expect("a note").sample_id, Some(1004));
    assert_eq!(block_note_event(&b, 3).expect("a note").note_type, NoteType::Hold);
    let bpm = MeasureBlock { measure: 0, channel: 1, events_count: 1, events: vec![[0, 0, 2, 67]] };
    assert!(block_note_event(&bpm, 0).is_none());
    assert!(note_value_fits(&[5, 0, 0, 4]));
    assert!(!note_value_fits(&[0xFF, 0xFF, 0, 4]));
}

#[test]
fn schedule_orders_measures_and_keeps_block_order() {
    let mk = |m: u32| MeasureBlock { measure: m, channel: 2, events_count: 1, events: vec![[1, 0, 0, 0]] };
    let blocks = vec![mk(3), mk(1), mk(3), mk(0)];
    let schedule = measure_schedule(&blocks);
    assert_eq!(schedule, vec![(0, vec![3]), (1, vec![1]), (3, vec![0, 2])]);
    assert!(measure_schedule(&[]).is_empty());
}

#[test]
fn playable_notes_are_counted() {
    let mk = |channel: Channel| NoteEvent {
        channel,
        sample_id: None,
        volume_pan: 0,
        note_type: NoteType::Tap,
        measure: 0,
        position_index: 0,
        position_count: 1,
    };
    let notes = vec![mk(Channel::Note(1)), mk(Channel::AutoPlay(9)), mk(Channel::Note(7))];
    assert_eq!(count_playable_notes(&notes), 2);
    assert_eq!(count_playable_notes(&[]), 0);
}

#[test]
fn bar_line_markers_follow_the_schedule() {
    let sched = vec![(0u32, vec![0usize]), (2, vec![1]), (5, vec![2, 3])];
    assert_eq!(open2jam::ojn::measure_markers(&sched), vec![false, true, true]);
    let late_start = vec![(3u32, vec![0usize]), (4, vec![1])];
    assert_eq!(open2jam::ojn::measure_markers(&late_start), vec![false, true]);
    assert!(open2jam::ojn::measure_markers(&Vec::new()).is_empty());
}
