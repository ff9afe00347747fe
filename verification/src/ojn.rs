//! OJN (O2Jam Note) chart file parser: header, measure blocks and the
//! integer decoding of note events.
use vstd::prelude::*;
use vstd::slice::slice_subrange;
use crate::bytes::{read_le_u16, read_le_u32, spec_le_u16, spec_le_u32};
use crate::text::{decode_c_string, spec_decode_c_string};

verus! {

/// "ojn\0", little-endian.
pub const OJN_SIGNATURE: u32 = 0x006E_6A6F;

/// Size of the fixed OJN header.
pub const HEADER_SIZE: usize = 300;

/// Chart difficulty levels.
#[derive(Debug, Clone, Copy, PartialEq, Eq, Hash, Structural)]
pub enum Difficulty {
    Easy,
    Normal,
    Hard,
}

/// Channel types in an OJN chart.
#[derive(Debug, Clone, Copy, PartialEq, Eq, Hash, Structural)]
pub enum Channel {
    TimeSignature,
    BpmChange,
    /// Playable lanes 1-7
    Note(u8),
    /// Background (auto-play) channels 9 and up
    AutoPlay(u8),
}

/// The channel that a channel number in a measure block denotes.
pub open spec fn spec_channel_from_number(n: u16) -> Channel {
    if n == 0 {
        Channel::TimeSignature
    } else if n == 1 {
        Channel::BpmChange
    } else if 2 <= n <= 8 {
        Channel::Note((n - 1) as u8)
    } else {
        Channel::AutoPlay((n % 256) as u8)
    }
}

/// The 0-based lane of a note channel.
pub open spec fn spec_lane_index(c: Channel) -> Option<usize> {
    match c {
        Channel::Note(lane) => Some((lane - 1) as usize),
        _ => None,
    }
}

/// A note channel never names lane 0 (its lanes are 1-based).
pub open spec fn spec_channel_ok(c: Channel) -> bool {
    c matches Channel::Note(l) ==> l >= 1
}

impl Channel {
    /// Map a channel number of a measure block to its channel.
    pub fn from_number(n: u16) -> (r: Self)
        ensures
            r == spec_channel_from_number(n),
    {
        match n {
            0 => Channel::TimeSignature,
            1 => Channel::BpmChange,
            2..=8 => Channel::Note((n - 1) as u8),
            other => {
                let low = (other % 256) as u8;
                proof {
                    assert((other as u8) == low) by (bit_vector)
                        requires
                            low == (other % 256) as u8,
                    ;
                }
                Channel::AutoPlay(other as u8)
            },
        }
    }

    /// Returns the lane index (0-based) for note channels, None otherwise.
    pub fn lane_index(&self) -> (r: Option<usize>)
        requires
            spec_channel_ok(*self),
        ensures
            r == spec_lane_index(*self),
    {
        match self {
            Channel::Note(lane) => Some((*lane - 1) as usize),
            _ => None,
        }
    }
}

/// Channel numbers 2 to 8 are the playable lanes 0 to 6.
pub proof fn lemma_note_channel_lane(n: u16)
    requires
        2 <= n <= 8,
    ensures
        spec_channel_ok(spec_channel_from_number(n)),
        spec_lane_index(spec_channel_from_number(n)) == Some((n - 2) as usize),
{
}

/// Note type flags.
#[derive(Debug, Clone, Copy, PartialEq, Eq, Hash, Structural)]
pub enum NoteType {
    Tap,
    /// HEAD of a long note
    Hold,
    /// TAIL of a long note
    Release,
}

/// A note event of a chart, with its position inside the measure kept as
/// the exact fraction `position_index / position_count`.
#[derive(Debug, Clone, Copy, PartialEq, Eq, Structural)]
pub struct NoteEvent {
    pub channel: Channel,
    /// 0-based sample id (None when the event names no sample)
    pub sample_id: Option<u32>,
    /// Volume (high nibble) and pan (low nibble), as stored in the chart
    pub volume_pan: u8,
    pub note_type: NoteType,
    pub measure: u32,
    pub position_index: u32,
    pub position_count: u32,
}

impl NoteEvent {
    /// Returns true if this is a playable note (not BGM/AUTO_PLAY).
    pub fn is_note(&self) -> (r: bool)
        ensures
            r == (self.channel is Note),
    {
        matches!(self.channel, Channel::Note(_))
    }

    /// Returns true if this is the HEAD of a long note.
    pub fn is_long_note(&self) -> (r: bool)
        ensures
            r == (self.note_type == NoteType::Hold),
    {
        matches!(self.note_type, NoteType::Hold)
    }

    /// Returns true if this is the TAIL (release) of a long note.
    pub fn is_release(&self) -> (r: bool)
        ensures
            r == (self.note_type == NoteType::Release),
    {
        matches!(self.note_type, NoteType::Release)
    }
}

/// The note lies in the last sixteenth of its measure (position > 15/16).
pub open spec fn spec_in_last_sixteenth(n: NoteEvent) -> bool {
    16 * n.position_index > 15 * n.position_count
}


/// Integer decoding of a note event's type byte: bit 2 (of the low three
/// bits) moves the sample value into the OGG range (+1000); the low two bits
/// give the note type (0 and 1 tap, 2 long-note head, 3 long-note tail).
pub open spec fn spec_decode_note_type_byte(type_byte: u8, value: u16) -> (u16, NoteType) {
    let adjusted = if type_byte % 8 > 3 {
        (value + 1000) as u16
    } else {
        value
    };
    let note_type = if type_byte % 4 == 2 {
        NoteType::Hold
    } else if type_byte % 4 == 3 {
        NoteType::Release
    } else {
        NoteType::Tap
    };
    (adjusted, note_type)
}

/// Decode the type byte of a note event together with its sample value.
pub fn decode_note_type_byte(type_byte: u8, value: u16) -> (r: (u16, NoteType))
    requires
        type_byte % 8 > 3 ==> value + 1000 <= u16::MAX,
    ensures
        r == spec_decode_note_type_byte(type_byte, value),
{
    let mut adjusted_value = value;
    let type_value = type_byte % 4;
    if type_byte % 8 > 3 {
        adjusted_value = adjusted_value + 1000;
    }
    let note_type = match type_value {
        0 => NoteType::Tap,
        1 => NoteType::Tap,
        2 => NoteType::Hold,
        _ => NoteType::Release,
    };
    (adjusted_value, note_type)
}

/// OJN header metadata. The two floating-point fields are kept as the raw
/// bits of their IEEE-754 single-precision values.
#[derive(Debug, Clone)]
pub struct OjnHeader {
    pub song_id: u32,
    /// Bits of the IEEE-754 single-precision encode version.
    pub encode_version_bits: u32,
    pub genre: u32,
    /// Bits of the IEEE-754 single-precision base BPM.
    pub bpm_bits: u32,
    pub level_easy: u16,
    pub level_normal: u16,
    pub level_hard: u16,
    pub event_count_easy: u32,
    pub event_count_normal: u32,
    pub event_count_hard: u32,
    pub note_count_easy: u32,
    pub note_count_normal: u32,
    pub note_count_hard: u32,
    pub measure_count_easy: u32,
    pub measure_count_normal: u32,
    pub measure_count_hard: u32,
    pub title: String,
    pub artist: String,
    pub noter: String,
    pub ojm_filename: String,
    pub bmp_size: u32,
    pub cover_size: u32,
    pub duration_easy: u32,
    pub duration_normal: u32,
    pub duration_hard: u32,
    pub note_offset_easy: u32,
    pub note_offset_normal: u32,
    pub note_offset_hard: u32,
    pub cover_offset: u32,
}

/// `h` holds the header fields stored in `data` (at least 300 bytes).
pub open spec fn spec_header_matches(h: OjnHeader, data: Seq<u8>) -> bool {
    &&& h.song_id == spec_le_u32(data, 0)
    &&& h.encode_version_bits == spec_le_u32(data, 8)
    &&& h.genre == spec_le_u32(data, 12)
    &&& h.bpm_bits == spec_le_u32(data, 16)
    &&& h.level_easy == spec_le_u16(data, 20)
    &&& h.level_normal == spec_le_u16(data, 22)
    &&& h.level_hard == spec_le_u16(data, 24)
    &&& h.event_count_easy == spec_le_u32(data, 28)
    &&& h.event_count_normal == spec_le_u32(data, 32)
    &&& h.event_count_hard == spec_le_u32(data, 36)
    &&& h.note_count_easy == spec_le_u32(data, 40)
    &&& h.note_count_normal == spec_le_u32(data, 44)
    &&& h.note_count_hard == spec_le_u32(data, 48)
    &&& h.measure_count_easy == spec_le_u32(data, 52)
    &&& h.measure_count_normal == spec_le_u32(data, 56)
    &&& h.measure_count_hard == spec_le_u32(data, 60)
    &&& h.bmp_size == spec_le_u32(data, 100)
    &&& h.title@ == spec_decode_c_string(data.subrange(108, 172))
    &&& h.artist@ == spec_decode_c_string(data.subrange(172, 204))
    &&& h.noter@ == spec_decode_c_string(data.subrange(204, 236))
    &&& h.ojm_filename@ == spec_decode_c_string(data.subrange(236, 268))
    &&& h.cover_size == spec_le_u32(data, 268)
    &&& h.duration_easy == spec_le_u32(data, 272)
    &&& h.duration_normal == spec_le_u32(data, 276)
    &&& h.duration_hard == spec_le_u32(data, 280)
    &&& h.note_offset_easy == spec_le_u32(data, 284)
    &&& h.note_offset_normal == spec_le_u32(data, 288)
    &&& h.note_offset_hard == spec_le_u32(data, 292)
    &&& h.cover_offset == spec_le_u32(data, 296)
}

/// Read the 300-byte header.
pub fn parse_header(data: &[u8]) -> (h: OjnHeader)
    requires
        data@.len() >= 300,
    ensures
        spec_header_matches(h, data@),
{
    OjnHeader {
        song_id: read_le_u32(data, 0),
        encode_version_bits: read_le_u32(data, 8),
        genre: read_le_u32(data, 12),
        bpm_bits: read_le_u32(data, 16),
        level_easy: read_le_u16(data, 20),
        level_normal: read_le_u16(data, 22),
        level_hard: read_le_u16(data, 24),
        event_count_easy: read_le_u32(data, 28),
        event_count_normal: read_le_u32(data, 32),
        event_count_hard: read_le_u32(data, 36),
        note_count_easy: read_le_u32(data, 40),
        note_count_normal: read_le_u32(data, 44),
        note_count_hard: read_le_u32(data, 48),
        measure_count_easy: read_le_u32(data, 52),
        measure_count_normal: read_le_u32(data, 56),
        measure_count_hard: read_le_u32(data, 60),
        title: decode_c_string(slice_subrange(data, 108, 172)),
        artist: decode_c_string(slice_subrange(data, 172, 204)),
        noter: decode_c_string(slice_subrange(data, 204, 236)),
        ojm_filename: decode_c_string(slice_subrange(data, 236, 268)),
        bmp_size: read_le_u32(data, 100),
        cover_size: read_le_u32(data, 268),
        duration_easy: read_le_u32(data, 272),
        duration_normal: read_le_u32(data, 276),
        duration_hard: read_le_u32(data, 280),
        note_offset_easy: read_le_u32(data, 284),
        note_offset_normal: read_le_u32(data, 288),
        note_offset_hard: read_le_u32(data, 292),
        cover_offset: read_le_u32(data, 296),
    }
}

/// One measure block of a difficulty section: a measure, a channel and its
/// events, each 4 raw bytes spread evenly over the measure.
#[derive(Debug, Clone)]
pub struct MeasureBlock {
    pub measure: u32,
    pub channel: u16,
    pub events_count: u16,
    pub events: Vec<[u8; 4]>,
}

/// A measure block as plain values.
pub ghost struct MeasureBlockView {
    pub measure: u32,
    pub channel: u16,
    pub events_count: u16,
    pub events: Seq<[u8; 4]>,
}

impl View for MeasureBlock {
    type V = MeasureBlockView;

    open spec fn view(&self) -> MeasureBlockView {
        MeasureBlockView {
            measure: self.measure,
            channel: self.channel,
            events_count: self.events_count,
            events: self.events@,
        }
    }
}

/// The 4 bytes of `data` at `i`.
pub open spec fn spec_event_at(data: Seq<u8>, i: int) -> [u8; 4] {
    [data[i], data[i + 1], data[i + 2], data[i + 3]]
}

/// Start of the note data of a difficulty.
pub open spec fn spec_note_offset(h: OjnHeader, d: Difficulty) -> u32 {
    match d {
        Difficulty::Easy => h.note_offset_easy,
        Difficulty::Normal => h.note_offset_normal,
        Difficulty::Hard => h.note_offset_hard,
    }
}

/// End of the section that starts at `note_offset`: the nearest larger
/// difficulty offset, else the cover offset.
pub open spec fn spec_section_end_of(e: u32, n: u32, d: u32, cover: u32, note_offset: u32) -> int {
    let m1: int = if e > note_offset {
        e as int
    } else {
        -1
    };
    let m2: int = if n > note_offset && (m1 < 0 || n < m1) {
        n as int
    } else {
        m1
    };
    let m3: int = if d > note_offset && (m2 < 0 || d < m2) {
        d as int
    } else {
        m2
    };
    if m3 < 0 {
        cover as int
    } else {
        m3
    }
}

/// End of the section of a header that starts at `note_offset`.
pub open spec fn spec_section_end(h: OjnHeader, note_offset: u32) -> int {
    spec_section_end_of(
        h.note_offset_easy,
        h.note_offset_normal,
        h.note_offset_hard,
        h.cover_offset,
        note_offset,
    )
}

/// The larger of the section end and the cover offset, past which no block
/// starts.
pub open spec fn spec_walk_bound(section_end: int, cover_offset: int) -> int {
    if section_end > cover_offset {
        section_end
    } else {
        cover_offset
    }
}

/// The measure blocks from `offset` on, after `acc`: an 8-byte block header
/// (measure u32, channel u16, event count u16) and then 4 bytes per event.
/// The walk ends before the cover, at the end of the section, or at a block
/// with no events or with events past the section end.
pub open spec fn spec_blocks_walk(
    data: Seq<u8>,
    offset: int,
    section_end: int,
    cover_offset: int,
    acc: Seq<MeasureBlockView>,
) -> Seq<MeasureBlockView>
    decreases spec_walk_bound(section_end, cover_offset) - offset,
{
    if offset + 8 > cover_offset || offset >= section_end {
        acc
    } else {
        let count = spec_le_u16(data, offset + 6) as int;
        let start = offset + 8;
        if count == 0 || start + 4 * count > section_end {
            acc
        } else {
            let block = MeasureBlockView {
                measure: spec_le_u32(data, offset),
                channel: spec_le_u16(data, offset + 4),
                events_count: count as u16,
                events: Seq::new(count as nat, |k: int| spec_event_at(data, start + 4 * k)),
            };
            spec_blocks_walk(data, start + 4 * count, section_end, cover_offset, acc.push(block))
        }
    }
}

/// Every block header and event that the walk reads lies inside the data.
pub open spec fn spec_blocks_in_bounds(
    data: Seq<u8>,
    offset: int,
    section_end: int,
    cover_offset: int,
) -> bool
    decreases spec_walk_bound(section_end, cover_offset) - offset,
{
    if offset + 8 > cover_offset || offset >= section_end {
        true
    } else if offset + 8 > data.len() {
        false
    } else {
        let count = spec_le_u16(data, offset + 6) as int;
        let start = offset + 8;
        if count == 0 || start + 4 * count > section_end {
            true
        } else if start + 4 * count > data.len() {
            false
        } else {
            spec_blocks_in_bounds(data, start + 4 * count, section_end, cover_offset)
        }
    }
}

/// Why a chart could not be read.
#[derive(Debug)]
pub enum OjnError {
    Io(std::io::Error),
    InvalidSignature(u32),
    Truncated { expected: usize, actual: usize },
    NoteOffsetOutOfBounds { offset: u32, size: usize },
}

/// The measure blocks of a difficulty section, or the error when its offset
/// lies past the data.
pub open spec fn spec_difficulty_blocks(data: Seq<u8>, h: OjnHeader, d: Difficulty) -> Result<
    Seq<MeasureBlockView>,
    OjnError,
> {
    let note_offset = spec_note_offset(h, d);
    if note_offset > data.len() {
        Err(OjnError::NoteOffsetOutOfBounds { offset: note_offset, size: data.len() as usize })
    } else {
        Ok(
            spec_blocks_walk(
                data,
                note_offset as int,
                spec_section_end(h, note_offset),
                h.cover_offset as int,
                Seq::empty(),
            ),
        )
    }
}

/// Reading the section of difficulty `d` stays inside the data.
pub open spec fn spec_difficulty_in_bounds(data: Seq<u8>, h: OjnHeader, d: Difficulty) -> bool {
    let note_offset = spec_note_offset(h, d);
    note_offset > data.len() || spec_blocks_in_bounds(
        data,
        note_offset as int,
        spec_section_end(h, note_offset),
        h.cover_offset as int,
    )
}

/// The blocks of `r` have the views in `s`.
pub open spec fn spec_blocks_match(r: Seq<MeasureBlock>, s: Seq<MeasureBlockView>) -> bool {
    r.len() == s.len() && forall|i: int| 0 <= i < r.len() ==> #[trigger] r[i]@ == s[i]
}

/// End of the section that starts at `note_offset`.
fn section_end(header: &OjnHeader, note_offset: u32) -> (r: u32)
    ensures
        r == spec_section_end(*header, note_offset),
{
    let mut best: Option<u32> = None;
    let candidates = [header.note_offset_easy, header.note_offset_normal, header.note_offset_hard];
    let mut i: usize = 0;
    while i < 3
        invariant
            i <= 3,
            candidates@ == seq![header.note_offset_easy, header.note_offset_normal, header.note_offset_hard],
            i == 0 ==> best is None,
            i == 1 ==> best == (if header.note_offset_easy > note_offset { Some(header.note_offset_easy) } else { None::<u32> }),
            i >= 1 ==> ({
                let e = header.note_offset_easy;
                let n = header.note_offset_normal;
                let m1: int = if e > note_offset { e as int } else { -1 };
                let m2: int = if n > note_offset && (m1 < 0 || n < m1) { n as int } else { m1 };
                i == 2 ==> (match best { Some(b) => m2 == b, None => m2 < 0 })
            }),
            i == 3 ==> ({
                let e = header.note_offset_easy;
                let n = header.note_offset_normal;
                let d = header.note_offset_hard;
                let m1: int = if e > note_offset { e as int } else { -1 };
                let m2: int = if n > note_offset && (m1 < 0 || n < m1) { n as int } else { m1 };
                let m3: int = if d > note_offset && (m2 < 0 || d < m2) { d as int } else { m2 };
                match best { Some(b) => m3 == b, None => m3 < 0 }
            }),
        decreases 3 - i,
    {
        let o = candidates[i];
        if o > note_offset {
            match best {
                Some(b) => {
                    if o < b {
                        best = Some(o);
                    }
                },
                None => {
                    best = Some(o);
                },
            }
        }
        i = i + 1;
    }
    match best {
        Some(b) => b,
        None => header.cover_offset,
    }
}

/// Read the measure blocks of one difficulty section.
pub fn parse_difficulty_blocks(data: &[u8], header: &OjnHeader, difficulty: Difficulty) -> (r:
    Result<Vec<MeasureBlock>, OjnError>)
    requires
        spec_difficulty_in_bounds(data@, *header, difficulty),
    ensures
        match (r, spec_difficulty_blocks(data@, *header, difficulty)) {
            (Ok(v), Ok(s)) => spec_blocks_match(v@, s),
            (Err(e), Err(se)) => e == se,
            _ => false,
        },
{
    let note_offset = match difficulty {
        Difficulty::Easy => header.note_offset_easy,
        Difficulty::Normal => header.note_offset_normal,
        Difficulty::Hard => header.note_offset_hard,
    };
    let cover_offset = header.cover_offset as usize;
    if note_offset as usize > data.len() {
        return Err(OjnError::NoteOffsetOutOfBounds { offset: note_offset, size: data.len() });
    }
    let section_end = section_end(header, note_offset) as usize;
    let ghost total = spec_blocks_walk(
        data@,
        note_offset as int,
        section_end as int,
        cover_offset as int,
        Seq::empty(),
    );
    let mut offset = note_offset as usize;
    let mut blocks: Vec<MeasureBlock> = Vec::new();
    let ghost mut acc: Seq<MeasureBlockView> = Seq::empty();
    loop
        invariant
            offset <= data@.len() || offset <= section_end,
            data@.len() == data.len(),
            section_end <= u32::MAX,
            cover_offset <= u32::MAX,
            spec_blocks_in_bounds(data@, offset as int, section_end as int, cover_offset as int),
            spec_blocks_match(blocks@, acc),
            spec_difficulty_blocks(data@, *header, difficulty) == Ok::<
                Seq<MeasureBlockView>,
                OjnError,
            >(total),
            total == spec_blocks_walk(
                data@,
                offset as int,
                section_end as int,
                cover_offset as int,
                acc,
            ),
        decreases spec_walk_bound(section_end as int, cover_offset as int) - offset,
    {
        if offset > cover_offset || cover_offset - offset < 8 || offset >= section_end {
            return Ok(blocks);
        }
        let measure_num = read_le_u32(data, offset);
        let channel_num = read_le_u16(data, offset + 4);
        let events_count = read_le_u16(data, offset + 6);
        let start = offset + 8;
        if events_count == 0 || start > section_end || 4 * (events_count as usize) > section_end
            - start {
            return Ok(blocks);
        }
        let count = events_count as usize;
        let mut events: Vec<[u8; 4]> = Vec::new();
        let mut k: usize = 0;
        while k < count
            invariant
                k <= count,
                data@.len() == data.len(),
                start + 4 * count <= data@.len(),
                events@.len() == k,
                forall|j: int| 0 <= j < k ==> #[trigger] events@[j] == spec_event_at(data@, start + 4 * j),
            decreases count - k,
        {
            let at = start + 4 * k;
            events.push([data[at], data[at + 1], data[at + 2], data[at + 3]]);
            k = k + 1;
        }
        let block = MeasureBlock {
            measure: measure_num,
            channel: channel_num,
            events_count,
            events,
        };
        let ghost bv = MeasureBlockView {
            measure: measure_num,
            channel: channel_num,
            events_count: count as u16,
            events: Seq::new(count as nat, |j: int| spec_event_at(data@, start + 4 * j)),
        };
        assert(block@.events =~= bv.events);
        blocks.push(block);
        proof {
            acc = acc.push(bv);
        }
        offset = start + 4 * count;
    }
}

/// A parsed chart: its header and the measure blocks of the Hard section.
/// (Timing the blocks into events takes floating point and is done by the
/// caller.)
#[derive(Debug, Clone)]
pub struct Chart {
    pub header: OjnHeader,
    pub blocks: Vec<MeasureBlock>,
}

/// The error that reading a chart ends with, if any: too short for the
/// header, a wrong signature, or a Hard note offset past the data.
pub open spec fn spec_ojn_error(data: Seq<u8>) -> Option<OjnError> {
    if data.len() < 300 {
        Some(OjnError::Truncated { expected: 300, actual: data.len() as usize })
    } else if spec_le_u32(data, 4) != OJN_SIGNATURE {
        Some(OjnError::InvalidSignature(spec_le_u32(data, 4)))
    } else if spec_le_u32(data, 292) > data.len() {
        Some(
            OjnError::NoteOffsetOutOfBounds {
                offset: spec_le_u32(data, 292),
                size: data.len() as usize,
            },
        )
    } else {
        None
    }
}

/// Reading a chart stays inside the data: its Hard section's blocks do not run
/// past the end.
pub open spec fn spec_ojn_reads_in_bounds(data: Seq<u8>) -> bool {
    let hard = spec_le_u32(data, 292);
    data.len() < 300 || spec_le_u32(data, 4) != OJN_SIGNATURE || hard > data.len()
        || spec_blocks_in_bounds(
        data,
        hard as int,
        spec_section_end_of(
            spec_le_u32(data, 284),
            spec_le_u32(data, 288),
            hard,
            spec_le_u32(data, 296),
            hard,
        ),
        spec_le_u32(data, 296) as int,
    )
}

/// Parse an OJN chart from raw bytes: the header and the Hard section.
pub fn parse_bytes(data: &[u8]) -> (r: Result<Chart, OjnError>)
    requires
        spec_ojn_reads_in_bounds(data@),
    ensures
        match r {
            Ok(chart) => {
                &&& spec_ojn_error(data@) is None
                &&& spec_header_matches(chart.header, data@)
                &&& spec_difficulty_blocks(data@, chart.header, Difficulty::Hard) matches Ok(s)
                    && spec_blocks_match(chart.blocks@, s)
            },
            Err(e) => spec_ojn_error(data@) == Some(e),
        },
{
    if data.len() < HEADER_SIZE {
        return Err(OjnError::Truncated { expected: HEADER_SIZE, actual: data.len() });
    }
    let signature = read_le_u32(data, 4);
    if signature != OJN_SIGNATURE {
        return Err(OjnError::InvalidSignature(signature));
    }
    let header = parse_header(data);
    match parse_difficulty_blocks(data, &header, Difficulty::Hard) {
        Ok(blocks) => Ok(Chart { header, blocks }),
        Err(e) => Err(e),
    }
}


/// Whether `parse_bytes` can read this chart without running past its end.
pub fn ojn_reads_in_bounds(data: &[u8]) -> (r: bool)
    ensures
        r == spec_ojn_reads_in_bounds(data@),
{
    if data.len() < HEADER_SIZE || read_le_u32(data, 4) != OJN_SIGNATURE {
        return true;
    }
    let header = parse_header(data);
    let note_offset = header.note_offset_hard;
    if note_offset as usize > data.len() {
        return true;
    }
    let cover_offset = header.cover_offset as usize;
    let section_end = section_end(&header, note_offset) as usize;
    let mut offset = note_offset as usize;
    loop
        invariant
            offset <= data@.len() || offset <= section_end,
            data@.len() == data.len(),
            section_end <= u32::MAX,
            cover_offset <= u32::MAX,
            spec_ojn_reads_in_bounds(data@) == spec_blocks_in_bounds(
                data@,
                offset as int,
                section_end as int,
                cover_offset as int,
            ),
        decreases spec_walk_bound(section_end as int, cover_offset as int) - offset,
    {
        if offset > cover_offset || cover_offset - offset < 8 || offset >= section_end {
            return true;
        }
        if offset > data.len() || data.len() - offset < 8 {
            return false;
        }
        let count = read_le_u16(data, offset + 6) as usize;
        let start = offset + 8;
        if count == 0 || start > section_end || 4 * count > section_end - start {
            return true;
        }
        if 4 * count > data.len() - start {
            return false;
        }
        offset = start + 4 * count;
    }
}


// ---------------------------------------------------------------------------
// From measure blocks to note events and a per-measure schedule
// ---------------------------------------------------------------------------

impl MeasureBlock {
    /// The block holds as many events as its header declares.
    pub open spec fn wf(&self) -> bool {
        self.events@.len() == self.events_count
    }
}

/// The sample value of a note event fits after the OGG offset is added.
pub open spec fn spec_note_value_fits(ev: [u8; 4]) -> bool {
    ev@[3] % 8 > 3 ==> spec_le_u16(ev@, 0) + 1000 <= u16::MAX
}

/// The note event that event `i` of block `b` stands for: none for the BPM
/// and time-signature channels or for an empty sample value; else the
/// decoded note at position `i / events_count` of the measure, with its
/// 1-based sample value made 0-based.
pub open spec fn spec_block_note(b: MeasureBlock, i: int) -> Option<NoteEvent> {
    let channel = spec_channel_from_number(b.channel);
    let ev = b.events@[i];
    let raw = spec_le_u16(ev@, 0);
    if channel is BpmChange || channel is TimeSignature || raw == 0 {
        None
    } else {
        let d = spec_decode_note_type_byte(ev@[3], raw);
        Some(
            NoteEvent {
                channel,
                sample_id: if d.0 > 0 {
                    Some((d.0 - 1) as u32)
                } else {
                    None
                },
                volume_pan: ev@[2],
                note_type: d.1,
                measure: b.measure,
                position_index: i as u32,
                position_count: b.events_count as u32,
            },
        )
    }
}

/// Which events of a block are notes: every event with a nonzero sample
/// value on a lane channel (2..=8) or a background channel (9 and up) is
/// one, on that channel, at its position in its measure; the BPM and
/// time-signature channels (1 and 0) and zero values give none. A note's
/// sample id is its 1-based value made 0-based (after the move into the OGG
/// range when bit 2 of the type byte is set).
pub proof fn lemma_block_note_channels(b: MeasureBlock, i: int)
    requires
        b.wf(),
        0 <= i < b.events@.len(),
    ensures
        ({
            let ev = b.events@[i]@;
            let raw = ev[0] as int + 256 * ev[1] as int;
            &&& spec_block_note(b, i) is None <==> (b.channel <= 1 || raw == 0)
            &&& (b.channel >= 2 && raw != 0) ==> (spec_block_note(b, i) matches Some(n) && {
                &&& n.measure == b.measure
                &&& n.position_index == i
                &&& n.position_count == b.events_count
                &&& n.volume_pan == ev[2]
                &&& (ev[3] % 8 <= 3 ==> n.sample_id == Some((raw - 1) as u32))
                &&& (b.channel <= 8 ==> n.channel == Channel::Note((b.channel - 1) as u8))
                &&& (b.channel >= 9 ==> n.channel == Channel::AutoPlay((b.channel % 256) as u8))
            })
        }),
{
    let ev = b.events@[i]@;
    let raw = ev[0] as int + 256 * ev[1] as int;
    assert(0 <= raw < 65536);
    assert(spec_le_u16(ev, 0) == raw);
    let c = spec_channel_from_number(b.channel);
    if b.channel <= 1 {
        assert(c is BpmChange || c is TimeSignature);
    } else if b.channel <= 8 {
        assert(c == Channel::Note((b.channel - 1) as u8));
    } else {
        assert(c == Channel::AutoPlay((b.channel % 256) as u8));
    }
}

/// Whether the sample value of this event fits after the OGG offset is added.
pub fn note_value_fits(ev: &[u8; 4]) -> (r: bool)
    ensures
        r == spec_note_value_fits(*ev),
{
    let raw = read_le_u16(ev.as_slice(), 0);
    !(ev[3] % 8 > 3) || raw <= 64535
}

/// The note event of event `i` of a block, if it is one.
pub fn block_note_event(block: &MeasureBlock, i: usize) -> (r: Option<NoteEvent>)
    requires
        block.wf(),
        i < block.events@.len(),
        spec_note_value_fits(block.events@[i as int]),
    ensures
        r == spec_block_note(*block, i as int),
{
    let channel = Channel::from_number(block.channel);
    let ev = block.events[i];
    let raw_value = read_le_u16(ev.as_slice(), 0);
    match channel {
        Channel::BpmChange => None,
        Channel::TimeSignature => None,
        _ => {
            if raw_value == 0 {
                return None;
            }
            let (adjusted_value, note_type) = decode_note_type_byte(ev[3], raw_value);
            let sample_id = if adjusted_value > 0 {
                Some((adjusted_value - 1) as u32)
            } else {
                None
            };
            Some(
                NoteEvent {
                    channel,
                    sample_id,
                    volume_pan: ev[2],
                    note_type,
                    measure: block.measure,
                    position_index: i as u32,
                    position_count: block.events_count as u32,
                },
            )
        },
    }
}

/// Indices, in increasing order, of the first `n` blocks whose measure is `m`.
pub open spec fn spec_blocks_of_measure(blocks: Seq<MeasureBlock>, m: u32, n: int) -> Seq<usize>
    decreases n,
{
    if n <= 0 {
        Seq::empty()
    } else {
        let prev = spec_blocks_of_measure(blocks, m, n - 1);
        if blocks[n - 1].measure == m {
            prev.push((n - 1) as usize)
        } else {
            prev
        }
    }
}

/// The schedule lists every measure of the blocks once, in increasing
/// order, each with the indices of its blocks in their original order.
pub open spec fn spec_schedule_ok(blocks: Seq<MeasureBlock>, r: Seq<(u32, Vec<usize>)>) -> bool {
    &&& forall|i: int, j: int| 0 <= i < j < r.len() ==> r[i].0 < r[j].0
    &&& forall|b: int|
        0 <= b < blocks.len() ==> exists|k: int|
            0 <= k < r.len() && #[trigger] r[k].0 == #[trigger] blocks[b].measure
    &&& forall|k: int|
        0 <= k < r.len() ==> #[trigger] r[k].1@ == spec_blocks_of_measure(
            blocks,
            r[k].0,
            blocks.len() as int,
        ) && r[k].1@.len() > 0
}

proof fn lemma_blocks_of_measure_nonempty(blocks: Seq<MeasureBlock>, m: u32, n: int, j: int)
    requires
        0 <= j < n <= blocks.len(),
        blocks[j].measure == m,
    ensures
        spec_blocks_of_measure(blocks, m, n).len() > 0,
    decreases n,
{
    if j < n - 1 {
        lemma_blocks_of_measure_nonempty(blocks, m, n - 1, j);
    }
}

/// `m` comes after the last measure scheduled.
pub open spec fn spec_above(last: Option<u32>, m: u32) -> bool {
    match last {
        Some(l) => m > l,
        None => true,
    }
}

/// Rank of the last measure scheduled, for termination.
pub open spec fn spec_schedule_rank(last: Option<u32>) -> int {
    match last {
        None => 0x1_0000_0000,
        Some(m) => u32::MAX - m,
    }
}

/// Whether the schedule entry at position `idx`, for `measure`, gets a
/// bar-line marker of its own. The chart always opens with the marker of
/// measure 0, which is never repeated, and a first scheduled measure other
/// than 0 gets none.
pub open spec fn spec_gets_marker(measure: u32, idx: int) -> bool {
    (idx > 0 || measure == 0) && measure != 0
}

/// For each entry of a measure schedule, whether its measure gets a bar-line
/// marker after the opening marker of measure 0.
pub fn measure_markers(schedule: &Vec<(u32, Vec<usize>)>) -> (r: Vec<bool>)
    ensures
        r@.len() == schedule@.len(),
        forall|k: int| 0 <= k < schedule@.len() ==> #[trigger] r@[k] == spec_gets_marker(schedule@[k].0, k),
{
    let mut r: Vec<bool> = Vec::new();
    let mut k: usize = 0;
    while k < schedule.len()
        invariant
            k <= schedule@.len(),
            r@.len() == k,
            forall|j: int| 0 <= j < k ==> #[trigger] r@[j] == spec_gets_marker(schedule@[j].0, j),
        decreases schedule@.len() - k,
    {
        let m = schedule[k].0;
        r.push((k > 0 || m == 0) && m != 0);
        k = k + 1;
    }
    r
}

/// The distinct measures of the blocks in increasing order, each with the
/// indices of its blocks in their original order.
#[verifier::spinoff_prover]
#[verifier::rlimit(30)]
pub fn measure_schedule(blocks: &[MeasureBlock]) -> (r: Vec<(u32, Vec<usize>)>)
    ensures
        spec_schedule_ok(blocks@, r@),
{
    let mut r: Vec<(u32, Vec<usize>)> = Vec::new();
    let mut last: Option<u32> = None;
    loop
        invariant
            forall|i: int, j: int| 0 <= i < j < r@.len() ==> r@[i].0 < r@[j].0,
            last is None <==> r@.len() == 0,
            last matches Some(l) ==> r@.len() > 0 && r@[r@.len() - 1].0 == l,
            last matches Some(l) ==> forall|b: int|
                0 <= b < blocks@.len() && blocks@[b].measure <= l ==> exists|k: int|
                    0 <= k < r@.len() && #[trigger] r@[k].0 == #[trigger] blocks@[b].measure,
            forall|k: int|
                0 <= k < r@.len() ==> #[trigger] r@[k].1@ == spec_blocks_of_measure(
                    blocks@,
                    r@[k].0,
                    blocks@.len() as int,
                ) && r@[k].1@.len() > 0,
        decreases spec_schedule_rank(last),
    {
        let mut best: Option<u32> = None;
        let mut i: usize = 0;
        while i < blocks.len()
            invariant
                i <= blocks@.len(),
                best is None ==> forall|j: int|
                    0 <= j < i ==> !spec_above(last, #[trigger] blocks@[j].measure),
                best matches Some(bm) ==> (exists|j: int|
                    0 <= j < i && #[trigger] blocks@[j].measure == bm) && spec_above(last, bm)
                    && forall|j: int|
                    0 <= j < i && spec_above(last, #[trigger] blocks@[j].measure) ==> bm
                        <= blocks@[j].measure,
            decreases blocks@.len() - i,
        {
            let m = blocks[i].measure;
            let above = match last {
                Some(l) => m > l,
                None => true,
            };
            if above {
                match best {
                    Some(bm) => {
                        if m < bm {
                            best = Some(m);
                        }
                    },
                    None => {
                        best = Some(m);
                    },
                }
            }
            i = i + 1;
        }
        match best {
            None => {
                return r;
            },
            Some(m) => {
                let mut indices: Vec<usize> = Vec::new();
                let mut b: usize = 0;
                while b < blocks.len()
                    invariant
                        b <= blocks@.len(),
                        indices@ == spec_blocks_of_measure(blocks@, m, b as int),
                    decreases blocks@.len() - b,
                {
                    if blocks[b].measure == m {
                        indices.push(b);
                    }
                    b = b + 1;
                }
                proof {
                    let j = choose|j: int| 0 <= j < blocks@.len() && blocks@[j].measure == m;
                    lemma_blocks_of_measure_nonempty(blocks@, m, blocks@.len() as int, j);
                    assert forall|bi: int|
                        0 <= bi < blocks@.len() && blocks@[bi].measure <= m implies exists|k: int|
                        0 <= k < r@.len() + 1 && #[trigger] r@.push((m, indices))[k].0
                            == #[trigger] blocks@[bi].measure by {
                        if !spec_above(last, blocks@[bi].measure) {
                            let k = choose|k: int|
                                0 <= k < r@.len() && #[trigger] r@[k].0 == #[trigger] blocks@[bi].measure;
                            assert(r@.push((m, indices))[k].0 == blocks@[bi].measure);
                        } else {
                            assert(r@.push((m, indices))[r@.len() as int].0 == blocks@[bi].measure);
                        }
                    }
                }
                r.push((m, indices));
                last = Some(m);
            },
        }
    }
}


/// The number of playable notes (on the 7 lanes) among the first `n` events.
pub open spec fn spec_count_playable(notes: Seq<NoteEvent>, n: int) -> nat
    decreases n,
{
    if n <= 0 {
        0
    } else {
        spec_count_playable(notes, n - 1) + if notes[n - 1].channel is Note {
            1nat
        } else {
            0nat
        }
    }
}

/// Count the playable notes of a chart (the count is taken modulo 2^32, as
/// its `u32` result holds it).
pub fn count_playable_notes(notes: &[NoteEvent]) -> (r: u32)
    ensures
        r == spec_count_playable(notes@, notes@.len() as int) as u32,
{
    let mut count: usize = 0;
    let mut i: usize = 0;
    while i < notes.len()
        invariant
            i <= notes@.len(),
            count <= i,
            count == spec_count_playable(notes@, i as int),
        decreases notes@.len() - i,
    {
        if notes[i].is_note() {
            count = count + 1;
        }
        i = i + 1;
    }
    count as u32
}

} // verus!
