use open2jam::audio::{sample_format, AudioFormat, DecodeError};
use open2jam::models::{ChartScanEntry, LibraryEntry};
use open2jam::ojm::SampleEntry;
use open2jam::ojn::OjnHeader;

#[test]
fn library_entry_fields_are_accessible() {
    let entry = LibraryEntry {
        id: 1,
        root_path: "/music".to_string(),
        name: "My Library".to_string(),
        added_at: 1_700_000_000,
        last_scan: None,
    };
    assert_eq!(entry.id, 1);
    assert_eq!(entry.root_path, "/music");
    assert!(entry.last_scan.is_none());
}

#[test]
fn library_entry_with_scan_time() {
    let entry = LibraryEntry {
        id: 1,
        root_path: "/music".to_string(),
        name: "My Library".to_string(),
        added_at: 1_700_000_000,
        last_scan: Some(1_700_100_000),
    };
    assert_eq!(entry.last_scan, Some(1_700_100_000));
}

#[test]
fn chart_scan_entry_from_ojn_header() {
    let header = OjnHeader {
        song_id: 42,
        encode_version_bits: 1.0f32.to_bits(),
        genre: 1,
        bpm_bits: 120.0f32.to_bits(),
        level_easy: 2,
        level_normal: 6,
        level_hard: 12,
        event_count_easy: 100,
        event_count_normal: 200,
        event_count_hard: 300,
        note_count_easy: 50,
        note_count_normal: 150,
        note_count_hard: 250,
        measure_count_easy: 10,
        measure_count_normal: 20,
        measure_count_hard: 30,
        title: "My Song".to_string(),
        artist: "My Artist".to_string(),
        noter: "My Noter".to_string(),
        ojm_filename: "song.ojm".to_string(),
        bmp_size: 256,
        cover_size: 4096,
        duration_easy: 60000,
        duration_normal: 120000,
        duration_hard: 180000,
        note_offset_easy: 300,
        note_offset_normal: 600,
        note_offset_hard: 900,
        cover_offset: 1000,
    };

    let entry = ChartScanEntry {
        relative_path: "test/song.ojn".to_string(),
        song_group_id: "deadbeef".to_string(),
        header,
        file_size: 50000,
        file_modified: 1_700_000_000,
    };

    assert_eq!(entry.relative_path, "test/song.ojn");
    assert_eq!(entry.header.title, "My Song");
    assert_eq!(entry.file_size, 50000);
}

fn sample(data: &[u8], ext: &str) -> SampleEntry {
    SampleEntry { id: 0, name: String::new(), data: data.to_vec(), extension: ext.to_string() }
}

#[test]
fn sample_format_by_magic_or_extension() {
    assert!(matches!(sample_format(&sample(b"OggS....", "wav")), Ok(AudioFormat::Ogg)));
    assert!(matches!(sample_format(&sample(b"RIFF....", "bin")), Ok(AudioFormat::Wav)));
    assert!(matches!(sample_format(&sample(b"xx", "ogg")), Ok(AudioFormat::Ogg)));
    assert!(matches!(sample_format(&sample(b"xx", "wav")), Ok(AudioFormat::Wav)));
    assert!(matches!(sample_format(&sample(b"Ogg", "")), Err(DecodeError::UnknownFormat)));
}
