//! OJM sample containers in their three variants: M30 (OGG samples with an
//! optional XOR mask), OMC (rearranged and XOR-encrypted WAV samples, then OGG
//! samples) and OJM (the OMC layout without encryption).
use vstd::prelude::*;
use std::collections::HashMap;
use vstd::string::StringExecFns;
use vstd::slice::{slice_subrange, slice_to_vec};
use crate::bytes::{read_le_u16, read_le_u32, spec_le_u16, spec_le_u32};
use crate::text::{decode_sample_name, spec_sample_name};

verus! {

broadcast use vstd::std_specs::hash::group_hash_axioms;

/// "M30\0", little-endian.
pub const M30_SIGNATURE: u32 = 0x0030_334D;
/// "OMC\0", little-endian.
pub const OMC_SIGNATURE: u32 = 0x0043_4D4F;
/// "OJM\0", little-endian.
pub const OJM_SIGNATURE: u32 = 0x004D_4A4F;

/// XOR mask of M30 files with encryption flag 16.
pub const MASK_NAMI: [u8; 4] = [0x6E, 0x61, 0x6D, 0x69];
/// XOR mask of M30 files with encryption flag 32.
pub const MASK_0412: [u8; 4] = [0x30, 0x34, 0x31, 0x32];

/// Destination block of each of the 17 blocks of an OMC sample, one row of 17
/// entries per remainder of the sample length modulo 17.
pub const REARRANGE_TABLE: [u8; 290] = [
    0x10, 0x0E, 0x02, 0x09, 0x04, 0x00, 0x07, 0x01, 0x06, 0x08, 0x0F, 0x0A, 0x05, 0x0C, 0x03, 0x0D,
    0x0B, 0x07, 0x02, 0x0A, 0x0B, 0x03, 0x05, 0x0D, 0x08, 0x04, 0x00, 0x0C, 0x06, 0x0F, 0x0E, 0x10,
    0x01, 0x09, 0x0C, 0x0D, 0x03, 0x00, 0x06, 0x09, 0x0A, 0x01, 0x07, 0x08, 0x10, 0x02, 0x0B, 0x0E,
    0x04, 0x0F, 0x05, 0x08, 0x03, 0x04, 0x0D, 0x06, 0x05, 0x0B, 0x10, 0x02, 0x0C, 0x07, 0x09, 0x0A,
    0x0F, 0x0E, 0x00, 0x01, 0x0F, 0x02, 0x0C, 0x0D, 0x00, 0x04, 0x01, 0x05, 0x07, 0x03, 0x09, 0x10,
    0x06, 0x0B, 0x0A, 0x08, 0x0E, 0x00, 0x04, 0x0B, 0x10, 0x0F, 0x0D, 0x0C, 0x06, 0x05, 0x07, 0x01,
    0x02, 0x03, 0x08, 0x09, 0x0A, 0x0E, 0x03, 0x10, 0x08, 0x07, 0x06, 0x09, 0x0E, 0x0D, 0x00, 0x0A,
    0x0B, 0x04, 0x05, 0x0C, 0x02, 0x01, 0x0F, 0x04, 0x0E, 0x10, 0x0F, 0x05, 0x08, 0x07, 0x0B, 0x00,
    0x01, 0x06, 0x02, 0x0C, 0x09, 0x03, 0x0A, 0x0D, 0x06, 0x0D, 0x0E, 0x07, 0x10, 0x0A, 0x0B, 0x00,
    0x01, 0x0C, 0x0F, 0x02, 0x03, 0x08, 0x09, 0x04, 0x05, 0x0A, 0x0C, 0x00, 0x08, 0x09, 0x0D, 0x03,
    0x04, 0x05, 0x10, 0x0E, 0x0F, 0x01, 0x02, 0x0B, 0x06, 0x07, 0x05, 0x06, 0x0C, 0x04, 0x0D, 0x0F,
    0x07, 0x0E, 0x08, 0x01, 0x09, 0x02, 0x10, 0x0A, 0x0B, 0x00, 0x03, 0x0B, 0x0F, 0x04, 0x0E, 0x03,
    0x01, 0x00, 0x02, 0x0D, 0x0C, 0x06, 0x07, 0x05, 0x10, 0x09, 0x08, 0x0A, 0x03, 0x02, 0x01, 0x00,
    0x04, 0x0C, 0x0D, 0x0B, 0x10, 0x05, 0x06, 0x0F, 0x0E, 0x07, 0x09, 0x0A, 0x08, 0x09, 0x0A, 0x00,
    0x07, 0x08, 0x06, 0x10, 0x03, 0x04, 0x01, 0x02, 0x05, 0x0B, 0x0E, 0x0F, 0x0D, 0x0C, 0x0A, 0x06,
    0x09, 0x0C, 0x0B, 0x10, 0x07, 0x08, 0x00, 0x0F, 0x03, 0x01, 0x02, 0x05, 0x0D, 0x0E, 0x04, 0x0D,
    0x00, 0x01, 0x0E, 0x02, 0x03, 0x08, 0x0B, 0x07, 0x0C, 0x09, 0x05, 0x0A, 0x0F, 0x04, 0x06, 0x10,
    0x01, 0x0E, 0x02, 0x03, 0x0D, 0x0B, 0x07, 0x00, 0x08, 0x0C, 0x09, 0x06, 0x0F, 0x10, 0x05, 0x0A,
    0x04, 0x00,
];

/// Largest sample an M30 or OGG section entry may declare.
pub const MAX_ALLOWED_SAMPLE_SIZE: usize = 50 * 1024 * 1024;

/// `std::io::Error`, carried unopened in the `Io` variants of the error types.
#[verifier::external_type_specification]
#[verifier::external_body]
pub struct ExIoError(std::io::Error);

/// A parsed sample entry from an OJM/M30/OMC file.
#[derive(Debug, Clone)]
pub struct SampleEntry {
    pub id: u32,
    pub name: String,
    pub data: Vec<u8>,
    pub extension: String,
}

/// A sample entry as plain values.
pub ghost struct SampleEntryView {
    pub id: u32,
    pub name: Seq<char>,
    pub data: Seq<u8>,
    pub extension: Seq<char>,
}

impl View for SampleEntry {
    type V = SampleEntryView;

    open spec fn view(&self) -> SampleEntryView {
        SampleEntryView {
            id: self.id,
            name: self.name@,
            data: self.data@,
            extension: self.extension@,
        }
    }
}

/// Samples of a container, by sample id.
pub type SampleMap = HashMap<u32, SampleEntry>;

/// A sample map with each entry taken by its view.
pub open spec fn spec_samples_view(m: Map<u32, SampleEntry>) -> Map<u32, SampleEntryView> {
    m.map_values(|e: SampleEntry| e@)
}

/// Why a sample container could not be read.
#[derive(Debug)]
pub enum OjmError {
    Io(std::io::Error),
    UnknownSignature(u32),
    Truncated { expected: usize, actual: usize },
    InvalidSampleSize { size: usize },
    UnknownEncryptionFlag(u32),
    EucKrDecodeError,
}

/// `r` is the outcome `s` describes: the same error, or a map whose entries
/// have the described views.
pub open spec fn spec_result_matches(
    r: Result<SampleMap, OjmError>,
    s: Result<Map<u32, SampleEntryView>, OjmError>,
) -> bool {
    match (r, s) {
        (Ok(m), Ok(sm)) => spec_samples_view(m@) == sm,
        (Err(e), Err(se)) => e == se,
        _ => false,
    }
}

proof fn lemma_samples_view_empty()
    ensures
        spec_samples_view(Map::<u32, SampleEntry>::empty()) == Map::<u32, SampleEntryView>::empty(),
{
    assert(spec_samples_view(Map::<u32, SampleEntry>::empty()) =~= Map::<
        u32,
        SampleEntryView,
    >::empty());
}

proof fn lemma_samples_view_insert(m: Map<u32, SampleEntry>, k: u32, e: SampleEntry)
    ensures
        spec_samples_view(m.insert(k, e)) == spec_samples_view(m).insert(k, e@),
{
    assert(spec_samples_view(m.insert(k, e)) =~= spec_samples_view(m).insert(k, e@));
}

// ---------------------------------------------------------------------------
// XOR mask (M30)
// ---------------------------------------------------------------------------

/// `d` with each byte of its whole 4-byte groups XORed with the mask byte of
/// its position; trailing bytes are left as they are.
pub open spec fn spec_xor_with_mask(d: Seq<u8>, mask: Seq<u8>) -> Seq<u8> {
    Seq::new(
        d.len(),
        |i: int|
            if i < (d.len() / 4) * 4 {
                d[i] ^ mask[i % 4]
            } else {
                d[i]
            },
    )
}

/// XOR the whole 4-byte groups of `data` with `mask`, skipping trailing bytes.
pub fn xor_with_mask(data: &mut [u8], mask: &[u8; 4])
    ensures
        final(data)@ == spec_xor_with_mask(old(data)@, mask@),
        final(data)@.len() == old(data)@.len(),
{
    let aligned_len = (data.len() / 4) * 4;
    let mut i: usize = 0;
    while i < aligned_len
        invariant
            aligned_len == (old(data)@.len() / 4) * 4,
            aligned_len <= old(data)@.len(),
            i <= aligned_len,
            data@.len() == old(data)@.len(),
            forall|j: int| 0 <= j < i ==> data@[j] == old(data)@[j] ^ mask@[j % 4],
            forall|j: int| i <= j < data@.len() ==> data@[j] == old(data)@[j],
        decreases aligned_len - i,
    {
        data[i] = data[i] ^ mask[i % 4];
        i = i + 1;
    }
    assert(data@ =~= spec_xor_with_mask(old(data)@, mask@));
}


/// Masking is its own inverse: applying the same mask twice gives back the
/// data.
pub proof fn lemma_xor_mask_involution(d: Seq<u8>, mask: Seq<u8>)
    requires
        mask.len() == 4,
    ensures
        spec_xor_with_mask(spec_xor_with_mask(d, mask), mask) == d,
{
    let once = spec_xor_with_mask(d, mask);
    let twice = spec_xor_with_mask(once, mask);
    assert forall|i: int| 0 <= i < d.len() implies twice[i] == d[i] by {
        if i < (d.len() / 4) * 4 {
            let b = d[i];
            let m = mask[i % 4];
            assert((b ^ m) ^ m == b) by (bit_vector);
        }
    }
    assert(twice =~= d);
}

// ---------------------------------------------------------------------------
// M30
// ---------------------------------------------------------------------------

/// Sample id of an M30 entry: codec 0 moves the reference id into the OGG
/// range (1000 and up); other codecs keep it.
pub open spec fn spec_m30_id(codec: u16, ref_id: u16) -> u32 {
    if codec == 0 {
        (ref_id + 1000) as u32
    } else {
        ref_id as u32
    }
}

/// The sample bytes of an M30 entry after decryption by the file's flag.
pub open spec fn spec_m30_sample_data(raw: Seq<u8>, flag: u32) -> Seq<u8> {
    if flag == 16 {
        spec_xor_with_mask(raw, MASK_NAMI@)
    } else if flag == 32 {
        spec_xor_with_mask(raw, MASK_0412@)
    } else {
        raw
    }
}

/// An encryption flag that the M30 format does not know (1 to 15).
pub open spec fn spec_m30_flag_unknown(flag: u32) -> bool {
    flag != 0 && flag != 16 && flag != 32 && flag <= 16
}

/// The M30 entries from `offset` on, added to `acc`: a 52-byte entry header
/// (name, size, codec, reference id), then the sample. The walk ends at the
/// first header that does not fit or whose size is 0, too large or past the
/// end; an unknown encryption flag fails at the first complete entry.
pub open spec fn spec_m30_walk(
    data: Seq<u8>,
    flag: u32,
    offset: int,
    acc: Map<u32, SampleEntryView>,
) -> Result<Map<u32, SampleEntryView>, OjmError>
    decreases data.len() - offset,
{
    if offset + 52 > data.len() {
        Ok(acc)
    } else {
        let size = spec_le_u32(data, offset + 32) as int;
        let start = offset + 52;
        if size == 0 || size > MAX_ALLOWED_SAMPLE_SIZE || start + size > data.len() {
            Ok(acc)
        } else if spec_m30_flag_unknown(flag) {
            Err(OjmError::UnknownEncryptionFlag(flag))
        } else {
            let id = spec_m30_id(spec_le_u16(data, offset + 36), spec_le_u16(data, offset + 44));
            let entry = SampleEntryView {
                id,
                name: spec_sample_name(data.subrange(offset, offset + 32)),
                data: spec_m30_sample_data(data.subrange(start, start + size), flag),
                extension: "ogg"@,
            };
            spec_m30_walk(data, flag, start + size, acc.insert(id, entry))
        }
    }
}

/// Outcome of reading an M30 container: a 28-byte header whose bytes 8..12
/// hold the encryption flag, then the entries.
pub open spec fn spec_parse_m30(data: Seq<u8>) -> Result<Map<u32, SampleEntryView>, OjmError> {
    if data.len() < 28 {
        Err(OjmError::Truncated { expected: 28, actual: data.len() as usize })
    } else {
        spec_m30_walk(data, spec_le_u32(data, 8), 28, Map::empty())
    }
}

/// `raw` with each byte of its whole 4-byte groups XORed with the byte of
/// `key` at its position modulo 4, the trailing bytes unchanged.
pub open spec fn spec_xor_groups(raw: Seq<u8>, k0: u8, k1: u8, k2: u8, k3: u8) -> Seq<u8> {
    Seq::new(
        raw.len(),
        |i: int|
            if i < (raw.len() / 4) * 4 {
                raw[i] ^ (if i % 4 == 0 {
                    k0
                } else if i % 4 == 1 {
                    k1
                } else if i % 4 == 2 {
                    k2
                } else {
                    k3
                })
            } else {
                raw[i]
            },
    )
}

/// M30 decryption by flag: flag 16 XORs the whole 4-byte groups with the
/// bytes of "nami", flag 32 with the bytes of "0412", and flag 0 (or any flag
/// past 16 other than 32) leaves the sample as it is.
pub proof fn lemma_m30_decryption(raw: Seq<u8>, flag: u32)
    ensures
        flag == 16 ==> spec_m30_sample_data(raw, flag) == spec_xor_groups(raw, 0x6E, 0x61, 0x6D, 0x69),
        flag == 32 ==> spec_m30_sample_data(raw, flag) == spec_xor_groups(raw, 0x30, 0x34, 0x31, 0x32),
        flag != 16 && flag != 32 ==> spec_m30_sample_data(raw, flag) == raw,
        spec_m30_sample_data(raw, flag).len() == raw.len(),
{
    if flag == 16 {
        assert(spec_m30_sample_data(raw, flag) =~= spec_xor_groups(raw, 0x6E, 0x61, 0x6D, 0x69));
    } else if flag == 32 {
        assert(spec_m30_sample_data(raw, flag) =~= spec_xor_groups(raw, 0x30, 0x34, 0x31, 0x32));
    }
}

/// An M30 container with encryption flag 32 and a single entry (a 28-byte
/// header, a 52-byte entry header whose bytes 32..36 give the sample size,
/// then exactly that many sample bytes) holds one sample: its id is the
/// reference id (bytes 44..46), moved up by 1000 for codec 0 (bytes 36..38),
/// and its data is the sample bytes with their whole 4-byte groups XORed
/// with "0412".
pub proof fn lemma_m30_single_entry_flag32(data: Seq<u8>)
    requires
        data.len() > 80,
        spec_le_u32(data, 8) == 32,
        spec_le_u32(data, 60) == data.len() - 80,
        data.len() - 80 <= MAX_ALLOWED_SAMPLE_SIZE,
    ensures
        ({
            let codec = spec_le_u16(data, 64);
            let ref_id = spec_le_u16(data, 72);
            let id: u32 = if codec == 0 {
                (ref_id + 1000) as u32
            } else {
                ref_id as u32
            };
            &&& spec_parse_m30(data) matches Ok(m)
            &&& m.dom() == set![id]
            &&& m[id].data == spec_xor_groups(data.subrange(80, data.len() as int), 0x30, 0x34, 0x31, 0x32)
            &&& m[id].extension == "ogg"@
        }),
{
    let raw = data.subrange(80, data.len() as int);
    lemma_m30_decryption(raw, 32);
    assert(spec_m30_walk(data, 32, data.len() as int, Map::empty().insert(
        spec_m30_id(spec_le_u16(data, 64), spec_le_u16(data, 72)),
        SampleEntryView {
            id: spec_m30_id(spec_le_u16(data, 64), spec_le_u16(data, 72)),
            name: spec_sample_name(data.subrange(28, 60)),
            data: spec_m30_sample_data(raw, 32),
            extension: "ogg"@,
        },
    )) is Ok);
    let codec = spec_le_u16(data, 64);
    let ref_id = spec_le_u16(data, 72);
    let id: u32 = if codec == 0 {
        (ref_id + 1000) as u32
    } else {
        ref_id as u32
    };
    assert(spec_m30_id(codec, ref_id) == id);
    let m = spec_parse_m30(data)->Ok_0;
    assert(m.dom() =~= set![id]);
}

/// Parse an M30 container.
pub fn parse_m30(data: &[u8]) -> (r: Result<SampleMap, OjmError>)
    ensures
        spec_result_matches(r, spec_parse_m30(data@)),
{
    if data.len() < 28 {
        return Err(OjmError::Truncated { expected: 28, actual: data.len() });
    }
    let encryption_flag = read_le_u32(data, 8);
    let mut samples: SampleMap = HashMap::new();
    let mut offset: usize = 28;
    proof {
        lemma_samples_view_empty();
    }
    loop
        invariant
            28 <= offset <= data@.len(),
            encryption_flag == spec_le_u32(data@, 8),
            spec_parse_m30(data@) == spec_m30_walk(
                data@,
                encryption_flag,
                offset as int,
                spec_samples_view(samples@),
            ),
        decreases data@.len() - offset,
    {
        if data.len() - offset < 52 {
            return Ok(samples);
        }
        let name = decode_sample_name(slice_subrange(data, offset, offset + 32));
        let sample_size = read_le_u32(data, offset + 32) as usize;
        let codec_code = read_le_u16(data, offset + 36);
        let ref_id = read_le_u16(data, offset + 44);
        let start = offset + 52;
        if sample_size == 0 || sample_size > MAX_ALLOWED_SAMPLE_SIZE || sample_size > data.len()
            - start {
            return Ok(samples);
        }
        let mut sample_data = slice_to_vec(slice_subrange(data, start, start + sample_size));
        if encryption_flag == 16 {
            xor_with_mask(sample_data.as_mut_slice(), &MASK_NAMI);
        } else if encryption_flag == 32 {
            xor_with_mask(sample_data.as_mut_slice(), &MASK_0412);
        } else if encryption_flag != 0 && encryption_flag <= 16 {
            return Err(OjmError::UnknownEncryptionFlag(encryption_flag));
        }
        let sid: u32 = if codec_code == 0 {
            ref_id as u32 + 1000
        } else {
            ref_id as u32
        };
        let entry = SampleEntry {
            id: sid,
            name,
            data: sample_data,
            extension: String::from_str("ogg"),
        };
        proof {
            lemma_samples_view_insert(samples@, sid, entry);
        }
        samples.insert(sid, entry);
        offset = start + sample_size;
    }
}


// ---------------------------------------------------------------------------
// OMC decryption: block rearrangement, then stateful XOR
// ---------------------------------------------------------------------------

/// Every entry of the rearrangement table names one of the 17 blocks.
proof fn lemma_rearrange_table_bound()
    ensures
        forall|i: int| 0 <= i < 290 ==> REARRANGE_TABLE@[i] <= 16,
{
}

/// The rearranged buffer after its first `k` blocks were copied: block `b` of
/// `bs` bytes goes from position `bs * b` to `bs * T[key_start + b]`; bytes
/// that no block reaches are 0.
pub open spec fn spec_rearrange_blocks(buf: Seq<u8>, bs: int, key_start: int, k: int) -> Seq<u8>
    decreases k,
{
    if k <= 0 {
        Seq::new(buf.len(), |i: int| 0u8)
    } else {
        let prev = spec_rearrange_blocks(buf, bs, key_start, k - 1);
        let src = bs * (k - 1);
        let dst = bs * (REARRANGE_TABLE@[key_start + k - 1] as int);
        Seq::new(
            buf.len(),
            |i: int|
                if dst <= i < dst + bs {
                    buf[src + i - dst]
                } else {
                    prev[i]
                },
        )
    }
}

/// An OMC sample with its 17 blocks (of `len / 17` bytes each) put back in
/// place by the table row of `len % 17`; a sample shorter than 17 bytes is
/// left as it is.
pub open spec fn spec_rearrange(buf: Seq<u8>) -> Seq<u8> {
    let bs = (buf.len() / 17) as int;
    if bs == 0 {
        buf
    } else {
        spec_rearrange_blocks(buf, bs, (17 * (buf.len() % 17)) as int, 17)
    }
}

/// Undo the block shuffle of an encrypted OMC sample.
pub fn rearrange(buf: &mut [u8])
    ensures
        final(buf)@ == spec_rearrange(old(buf)@),
        final(buf)@.len() == old(buf)@.len(),
{
    let length = buf.len();
    if length == 0 {
        return;
    }
    let remainder = length % 17;
    assert((remainder << 4usize) == remainder * 16) by (bit_vector)
        requires
            remainder < 17,
    ;
    let key_start = (remainder << 4) + remainder;
    let block_size = length / 17;
    if block_size == 0 {
        return;
    }
    assert(17 * block_size <= length) by (nonlinear_arith)
        requires
            block_size == length / 17,
    ;
    proof {
        lemma_rearrange_table_bound();
    }
    let ghost orig = buf@;
    let mut plain: Vec<u8> = vec![0u8; length];
    assert(plain@ =~= spec_rearrange_blocks(orig, block_size as int, key_start as int, 0));
    let mut key = key_start;
    let mut block: usize = 0;
    while block < 17
        invariant
            buf@ == orig,
            orig.len() == length,
            block_size == length / 17,
            0 < block_size,
            17 * block_size <= length,
            key_start == 17 * (length % 17),
            block <= 17,
            key == key_start + block,
            plain@.len() == length,
            plain@ == spec_rearrange_blocks(orig, block_size as int, key_start as int, block as int),
            forall|i: int| 0 <= i < 290 ==> REARRANGE_TABLE@[i] <= 16,
        decreases 17 - block,
    {
        let target = REARRANGE_TABLE[key] as usize;
        assert(block_size * block <= block_size * 16) by (nonlinear_arith)
            requires
                block <= 16,
        ;
        assert(block_size * target <= block_size * 16) by (nonlinear_arith)
            requires
                target <= 16,
        ;
        let block_start_encoded = block_size * block;
        let block_start_plain = block_size * target;
        let end_encoded = if block_start_encoded + block_size < length {
            block_start_encoded + block_size
        } else {
            length
        };
        let end_plain = if block_start_plain + block_size < length {
            block_start_plain + block_size
        } else {
            length
        };
        let copy_len = if end_encoded - block_start_encoded < end_plain - block_start_plain {
            end_encoded - block_start_encoded
        } else {
            end_plain - block_start_plain
        };
        let ghost prev = plain@;
        let mut j: usize = 0;
        while j < copy_len
            invariant
                buf@ == orig,
                orig.len() == length,
                prev.len() == length,
                copy_len == block_size,
                block_start_encoded + block_size <= length,
                block_start_plain + block_size <= length,
                j <= copy_len,
                plain@.len() == length,
                forall|i: int|
                    0 <= i < length ==> plain@[i] == (if block_start_plain <= i < block_start_plain
                        + j {
                        orig[block_start_encoded + i - block_start_plain]
                    } else {
                        prev[i]
                    }),
            decreases copy_len - j,
        {
            plain[block_start_plain + j] = buf[block_start_encoded + j];
            j = j + 1;
        }
        assert(plain@ =~= spec_rearrange_blocks(
            orig,
            block_size as int,
            key_start as int,
            block + 1,
        ));
        key = key + 1;
        block = block + 1;
    }
    let mut i: usize = 0;
    while i < length
        invariant
            i <= length,
            plain@.len() == length,
            buf@.len() == length,
            forall|j: int| 0 <= j < i ==> buf@[j] == plain@[j],
        decreases length - i,
    {
        buf[i] = plain[i];
        i = i + 1;
    }
    assert(buf@ =~= plain@);
}

/// Whether the byte at counter position `c` of the key byte `kb` is set, which
/// flips the next byte.
pub open spec fn spec_flips(kb: u8, c: u8) -> bool {
    ((kb as u32) << ((c as u32) % 32)) & 0x80u32 != 0
}

/// The (key byte, counter) state after the first `n` bytes of `bytes`: the
/// counter advances per byte, and past 7 it restarts at 0 and the byte just
/// read (before any flip) becomes the key byte.
pub open spec fn spec_xor_state(bytes: Seq<u8>, kb: u8, c: u8, n: int) -> (u8, u8)
    decreases n,
{
    if n <= 0 {
        (kb, c)
    } else {
        let prev = spec_xor_state(bytes, kb, c, n - 1);
        if prev.1 + 1 > 7 {
            (bytes[n - 1], 0u8)
        } else {
            (prev.0, (prev.1 + 1) as u8)
        }
    }
}

/// `bytes` with each byte inverted where the state before it says so.
pub open spec fn spec_xor_with_state(bytes: Seq<u8>, kb: u8, c: u8) -> Seq<u8> {
    Seq::new(
        bytes.len(),
        |i: int|
            {
                let st = spec_xor_state(bytes, kb, c, i);
                if spec_flips(st.0, st.1) {
                    !bytes[i]
                } else {
                    bytes[i]
                }
            },
    )
}

/// Stateful XOR decryption of an OMC sample; returns the state to carry into
/// the next sample.
pub fn xor_with_state(buf: &mut [u8], acc_keybyte: u8, acc_counter: u8) -> (r: (u8, u8))
    requires
        old(buf)@.len() > 0 ==> acc_counter < 255,
    ensures
        final(buf)@ == spec_xor_with_state(old(buf)@, acc_keybyte, acc_counter),
        r == spec_xor_state(old(buf)@, acc_keybyte, acc_counter, old(buf)@.len() as int),
{
    let ghost orig = buf@;
    let mut keybyte = acc_keybyte;
    let mut counter = acc_counter;
    let mut i: usize = 0;
    while i < buf.len()
        invariant
            orig == old(buf)@,
            buf@.len() == orig.len(),
            i <= orig.len(),
            (keybyte, counter) == spec_xor_state(orig, acc_keybyte, acc_counter, i as int),
            i > 0 ==> counter <= 7,
            i == 0 ==> counter == acc_counter,
            orig.len() > 0 ==> acc_counter < 255,
            forall|j: int|
                0 <= j < i ==> buf@[j] == spec_xor_with_state(orig, acc_keybyte, acc_counter)[j],
            forall|j: int| i <= j < orig.len() ==> buf@[j] == orig[j],
        decreases orig.len() - i,
    {
        let original = buf[i];
        if (keybyte as u32).wrapping_shl(counter as u32) & 0x80 != 0 {
            buf[i] = !original;
        }
        counter = counter + 1;
        if counter > 7 {
            counter = 0;
            keybyte = original;
        }
        i = i + 1;
    }
    assert(buf@ =~= spec_xor_with_state(orig, acc_keybyte, acc_counter));
    (keybyte, counter)
}


/// The state after a prefix of `a ++ b` that lies within `a` is the state
/// after that prefix of `a`.
proof fn lemma_xor_state_prefix(a: Seq<u8>, b: Seq<u8>, kb: u8, c: u8, n: int)
    requires
        0 <= n <= a.len(),
    ensures
        spec_xor_state(a + b, kb, c, n) == spec_xor_state(a, kb, c, n),
    decreases n,
{
    if n > 0 {
        lemma_xor_state_prefix(a, b, kb, c, n - 1);
        assert((a + b)[n - 1] == a[n - 1]);
    }
}

/// Past the end of `a`, the state over `a ++ b` is the state over `b`
/// started from the state that `a` ends in.
proof fn lemma_xor_state_suffix(a: Seq<u8>, b: Seq<u8>, kb: u8, c: u8, n: int)
    requires
        0 <= n <= b.len(),
    ensures
        ({
            let sa = spec_xor_state(a, kb, c, a.len() as int);
            spec_xor_state(a + b, kb, c, a.len() + n) == spec_xor_state(b, sa.0, sa.1, n)
        }),
    decreases n,
{
    if n == 0 {
        lemma_xor_state_prefix(a, b, kb, c, a.len() as int);
    } else {
        lemma_xor_state_suffix(a, b, kb, c, n - 1);
        assert((a + b)[a.len() + n - 1] == b[n - 1]);
    }
}

/// From a counter of at most 7, the counter after `n` bytes is `(c + n) % 8`.
proof fn lemma_xor_counter(bytes: Seq<u8>, kb: u8, c: u8, n: int)
    requires
        c <= 7,
        0 <= n,
    ensures
        spec_xor_state(bytes, kb, c, n).1 == (c + n) % 8,
    decreases n,
{
    if n > 0 {
        lemma_xor_counter(bytes, kb, c, n - 1);
    }
}

/// Decrypting `a ++ b` in one run is decrypting `a`, then `b` from the state
/// that `a` ends in: the same bytes and the same final state. From a counter
/// of at most 7 the final counter is `(c + |a| + |b|) % 8`, and every output
/// byte is its input byte or that byte inverted.
pub proof fn lemma_xor_with_state_split(a: Seq<u8>, b: Seq<u8>, kb: u8, c: u8)
    ensures
        ({
            let sa = spec_xor_state(a, kb, c, a.len() as int);
            &&& spec_xor_with_state(a + b, kb, c) == spec_xor_with_state(a, kb, c)
                + spec_xor_with_state(b, sa.0, sa.1)
            &&& spec_xor_state(a + b, kb, c, (a.len() + b.len()) as int) == spec_xor_state(
                b,
                sa.0,
                sa.1,
                b.len() as int,
            )
            &&& c <= 7 ==> spec_xor_state(a + b, kb, c, (a.len() + b.len()) as int).1 == (c
                + a.len() + b.len()) % 8
            &&& forall|i: int|
                0 <= i < a.len() + b.len() ==> #[trigger] spec_xor_with_state(a + b, kb, c)[i]
                    == (a + b)[i] || spec_xor_with_state(a + b, kb, c)[i] == !(a + b)[i]
        }),
{
    let sa = spec_xor_state(a, kb, c, a.len() as int);
    let ab = a + b;
    let lhs = spec_xor_with_state(ab, kb, c);
    let rhs = spec_xor_with_state(a, kb, c) + spec_xor_with_state(b, sa.0, sa.1);
    assert forall|i: int| 0 <= i < ab.len() implies lhs[i] == rhs[i] by {
        if i < a.len() {
            lemma_xor_state_prefix(a, b, kb, c, i);
            assert(ab[i] == a[i]);
        } else {
            lemma_xor_state_suffix(a, b, kb, c, i - a.len());
            assert(ab[i] == b[i - a.len()]);
        }
    }
    assert(lhs =~= rhs);
    lemma_xor_state_suffix(a, b, kb, c, b.len() as int);
    if c <= 7 {
        lemma_xor_counter(ab, kb, c, ab.len() as int);
    }
}

// ---------------------------------------------------------------------------
// OMC / OJM
// ---------------------------------------------------------------------------

/// The WAV section of an OMC/OJM container from `offset` on (ids from `id`,
/// XOR state `kb`, `c`), added to `acc`. Each entry has a 56-byte header
/// followed by a 4-byte chunk size and the chunk; an empty chunk, or one that
/// would pass the start of the OGG section, takes an id and is skipped.
pub open spec fn spec_omc_wav_walk(
    data: Seq<u8>,
    ogg_start: int,
    decrypt: bool,
    offset: int,
    id: u32,
    kb: u8,
    c: u8,
    acc: Map<u32, SampleEntryView>,
) -> Map<u32, SampleEntryView>
    decreases ogg_start + 4 - offset,
{
    if offset + 56 > ogg_start {
        acc
    } else {
        let size = spec_le_u32(data, offset + 56) as int;
        let start = offset + 60;
        if size == 0 || start + size > ogg_start {
            spec_omc_wav_walk(data, ogg_start, decrypt, start, (id + 1) as u32, kb, c, acc)
        } else {
            let raw = data.subrange(start, start + size);
            let plain = spec_rearrange(raw);
            let sample = if decrypt {
                spec_xor_with_state(plain, kb, c)
            } else {
                raw
            };
            let next = if decrypt {
                spec_xor_state(plain, kb, c, plain.len() as int)
            } else {
                (kb, c)
            };
            let entry = SampleEntryView {
                id,
                name: spec_sample_name(data.subrange(offset, offset + 32)),
                data: sample,
                extension: "wav"@,
            };
            spec_omc_wav_walk(
                data,
                ogg_start,
                decrypt,
                start + size,
                (id + 1) as u32,
                next.0,
                next.1,
                acc.insert(id, entry),
            )
        }
    }
}

/// The chunk-size field of every WAV entry header that the walk reaches lies
/// inside the data.
pub open spec fn spec_omc_wav_in_bounds(data: Seq<u8>, ogg_start: int, offset: int) -> bool
    decreases ogg_start + 4 - offset,
{
    if offset + 56 > ogg_start {
        true
    } else if offset + 60 > data.len() {
        false
    } else {
        let size = spec_le_u32(data, offset + 56) as int;
        let start = offset + 60;
        if size == 0 || start + size > ogg_start {
            spec_omc_wav_in_bounds(data, ogg_start, start)
        } else {
            spec_omc_wav_in_bounds(data, ogg_start, start + size)
        }
    }
}

/// The OGG section from `offset` on (ids from `id`), added to `acc`: a 32-byte
/// name and a 4-byte size, then the sample; a size that is 0, too large or
/// past `filesize` takes an id and is skipped.
pub open spec fn spec_omc_ogg_walk(
    data: Seq<u8>,
    filesize: int,
    offset: int,
    id: u32,
    acc: Map<u32, SampleEntryView>,
) -> Map<u32, SampleEntryView>
    decreases filesize - offset,
{
    if offset + 36 > filesize {
        acc
    } else {
        let size = spec_le_u32(data, offset + 32) as int;
        let start = offset + 36;
        if size == 0 || size > MAX_ALLOWED_SAMPLE_SIZE || start + size > filesize {
            spec_omc_ogg_walk(data, filesize, start, (id + 1) as u32, acc)
        } else {
            let entry = SampleEntryView {
                id,
                name: spec_sample_name(data.subrange(offset, offset + 32)),
                data: data.subrange(start, start + size),
                extension: "ogg"@,
            };
            spec_omc_ogg_walk(data, filesize, start + size, (id + 1) as u32, acc.insert(id, entry))
        }
    }
}

/// The smaller of a header offset and the data length.
pub open spec fn spec_clamp_to_len(v: u32, len: int) -> int {
    if v < len {
        v as int
    } else {
        len
    }
}

/// Outcome of reading an OMC (`decrypt`) or OJM container: a 20-byte header
/// with the OGG section start at 12..16 and the file size at 16..20 (both
/// clamped to the data), WAV samples from id 0, OGG samples from id 1000.
pub open spec fn spec_parse_omc(data: Seq<u8>, decrypt: bool) -> Result<
    Map<u32, SampleEntryView>,
    OjmError,
> {
    if data.len() < 20 {
        Err(OjmError::Truncated { expected: 20, actual: data.len() as usize })
    } else {
        let ogg_start = spec_clamp_to_len(spec_le_u32(data, 12), data.len() as int);
        let filesize = spec_clamp_to_len(spec_le_u32(data, 16), data.len() as int);
        let wav = spec_omc_wav_walk(data, ogg_start, decrypt, 20, 0, 0xFF, 0, Map::empty());
        Ok(spec_omc_ogg_walk(data, filesize, ogg_start, 1000, wav))
    }
}

/// Reading an OMC/OJM container stays inside the data (the WAV walk reads
/// 4 bytes past each 56-byte header).
pub open spec fn spec_omc_reads_in_bounds(data: Seq<u8>) -> bool {
    data.len() < 20 || spec_omc_wav_in_bounds(
        data,
        spec_clamp_to_len(spec_le_u32(data, 12), data.len() as int),
        20,
    )
}

/// The smaller of a header field and the data length.
fn clamp_to_len(v: u32, len: usize) -> (r: usize)
    ensures
        r == spec_clamp_to_len(v, len as int),
{
    if (v as usize) < len {
        v as usize
    } else {
        len
    }
}

/// Parse an OMC (`decrypt == true`) or OJM container.
pub fn parse_omc(data: &[u8], decrypt: bool) -> (r: Result<SampleMap, OjmError>)
    requires
        spec_omc_reads_in_bounds(data@),
    ensures
        spec_result_matches(r, spec_parse_omc(data@, decrypt)),
{
    if data.len() < 20 {
        return Err(OjmError::Truncated { expected: 20, actual: data.len() });
    }
    let ogg_start = clamp_to_len(read_le_u32(data, 12), data.len());
    let filesize = clamp_to_len(read_le_u32(data, 16), data.len());
    let mut samples: SampleMap = HashMap::new();
    proof {
        lemma_samples_view_empty();
    }
    let ghost wav_total = spec_omc_wav_walk(
        data@,
        ogg_start as int,
        decrypt,
        20,
        0,
        0xFF,
        0,
        Map::empty(),
    );
    let mut offset: usize = 20;
    let mut sample_id: u32 = 0;
    let mut acc_keybyte: u8 = 0xFF;
    let mut acc_counter: u8 = 0;
    while offset <= ogg_start && ogg_start - offset >= 56
        invariant
            20 <= offset,
            offset == 20 || offset <= ogg_start + 4,
            ogg_start <= data@.len(),
            data@.len() == data.len(),
            ogg_start <= u32::MAX,
            60 * sample_id + 20 <= offset,
            acc_counter <= 7,
            spec_omc_wav_in_bounds(data@, ogg_start as int, offset as int),
            wav_total == spec_omc_wav_walk(
                data@,
                ogg_start as int,
                decrypt,
                offset as int,
                sample_id,
                acc_keybyte,
                acc_counter,
                spec_samples_view(samples@),
            ),
        decreases ogg_start + 4 - offset,
    {
        let start = offset + 60;
        let name = decode_sample_name(slice_subrange(data, offset, offset + 32));
        let chunk_size = read_le_u32(data, offset + 56) as usize;
        if chunk_size == 0 || start > ogg_start || chunk_size > ogg_start - start {
            sample_id = sample_id + 1;
            offset = start;
            continue;
        }
        let mut sample_data = slice_to_vec(slice_subrange(data, start, start + chunk_size));
        if decrypt {
            rearrange(sample_data.as_mut_slice());
            let state = xor_with_state(sample_data.as_mut_slice(), acc_keybyte, acc_counter);
            acc_keybyte = state.0;
            acc_counter = state.1;
        }
        let entry = SampleEntry {
            id: sample_id,
            name,
            data: sample_data,
            extension: String::from_str("wav"),
        };
        proof {
            lemma_samples_view_insert(samples@, sample_id, entry);
        }
        samples.insert(sample_id, entry);
        sample_id = sample_id + 1;
        offset = start + chunk_size;
    }
    offset = ogg_start;
    sample_id = 1000;
    while offset <= filesize && filesize - offset >= 36
        invariant
            ogg_start <= offset,
            offset <= filesize || offset == ogg_start,
            filesize <= data@.len(),
            filesize <= u32::MAX,
            36 * (sample_id - 1000) + ogg_start <= offset,
            1000 <= sample_id,
            spec_parse_omc(data@, decrypt) == Ok::<Map<u32, SampleEntryView>, OjmError>(
                spec_omc_ogg_walk(
                    data@,
                    filesize as int,
                    offset as int,
                    sample_id,
                    spec_samples_view(samples@),
                ),
            ),
        decreases filesize - offset,
    {
        let name = decode_sample_name(slice_subrange(data, offset, offset + 32));
        let sample_size = read_le_u32(data, offset + 32) as usize;
        let start = offset + 36;
        if sample_size == 0 || sample_size > MAX_ALLOWED_SAMPLE_SIZE || sample_size > filesize
            - start {
            sample_id = sample_id + 1;
            offset = start;
            continue;
        }
        let sample_data = slice_to_vec(slice_subrange(data, start, start + sample_size));
        let entry = SampleEntry {
            id: sample_id,
            name,
            data: sample_data,
            extension: String::from_str("ogg"),
        };
        proof {
            lemma_samples_view_insert(samples@, sample_id, entry);
        }
        samples.insert(sample_id, entry);
        sample_id = sample_id + 1;
        offset = start + sample_size;
    }
    Ok(samples)
}

/// Outcome of reading a sample container of any of the three kinds, told
/// apart by the little-endian signature in its first 4 bytes.
pub open spec fn spec_parse_ojm(data: Seq<u8>) -> Result<Map<u32, SampleEntryView>, OjmError> {
    if data.len() < 4 {
        Err(OjmError::Truncated { expected: 4, actual: data.len() as usize })
    } else {
        let signature = spec_le_u32(data, 0);
        if signature == M30_SIGNATURE {
            spec_parse_m30(data)
        } else if signature == OMC_SIGNATURE {
            spec_parse_omc(data, true)
        } else if signature == OJM_SIGNATURE {
            spec_parse_omc(data, false)
        } else {
            Err(OjmError::UnknownSignature(signature))
        }
    }
}

/// Reading the container stays inside the data: only OMC/OJM containers whose
/// WAV headers run into the last 4 bytes fail this.
pub open spec fn spec_ojm_reads_in_bounds(data: Seq<u8>) -> bool {
    data.len() < 4 || (spec_le_u32(data, 0) != OMC_SIGNATURE && spec_le_u32(data, 0)
        != OJM_SIGNATURE) || spec_omc_reads_in_bounds(data)
}

/// Whether `parse_bytes` can read this container without running past its
/// end.
pub fn ojm_reads_in_bounds(data: &[u8]) -> (r: bool)
    ensures
        r == spec_ojm_reads_in_bounds(data@),
{
    if data.len() < 20 {
        return true;
    }
    let signature = read_le_u32(data, 0);
    if signature != OMC_SIGNATURE && signature != OJM_SIGNATURE {
        return true;
    }
    let ogg_start = clamp_to_len(read_le_u32(data, 12), data.len());
    let mut offset: usize = 20;
    while offset <= ogg_start && ogg_start - offset >= 56
        invariant
            20 <= offset,
            offset == 20 || offset <= ogg_start + 4,
            ogg_start <= data@.len(),
            spec_ojm_reads_in_bounds(data@) == spec_omc_wav_in_bounds(
                data@,
                ogg_start as int,
                offset as int,
            ),
        decreases ogg_start + 4 - offset,
    {
        if data.len() - offset < 60 {
            return false;
        }
        let chunk_size = read_le_u32(data, offset + 56) as usize;
        let start = offset + 60;
        if chunk_size == 0 || start > ogg_start || chunk_size > ogg_start - start {
            offset = start;
        } else {
            offset = start + chunk_size;
        }
    }
    true
}

/// Parse an OJM, M30 or OMC sample container from its bytes.
pub fn parse_bytes(data: &[u8]) -> (r: Result<SampleMap, OjmError>)
    requires
        spec_ojm_reads_in_bounds(data@),
    ensures
        spec_result_matches(r, spec_parse_ojm(data@)),
{
    if data.len() < 4 {
        return Err(OjmError::Truncated { expected: 4, actual: data.len() });
    }
    let signature = read_le_u32(data, 0);
    if signature == M30_SIGNATURE {
        parse_m30(data)
    } else if signature == OMC_SIGNATURE {
        parse_omc(data, true)
    } else if signature == OJM_SIGNATURE {
        parse_omc(data, false)
    } else {
        Err(OjmError::UnknownSignature(signature))
    }
}

} // verus!
