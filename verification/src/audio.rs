//! Audio sample format detection and the errors of decoding and playing
//! samples.
use vstd::prelude::*;
use crate::ojm::SampleEntry;
use crate::text::str_eq;

verus! {

/// Why a sample could not be decoded.
#[derive(Debug)]
pub enum DecodeError {
    Lewton(String),
    Hound(String),
    NoSamples,
    UnknownFormat,
}

/// Why a sound could not be played.
#[derive(Debug, Clone, Copy, PartialEq, Eq, Structural)]
pub enum AudioPlayError {
    NoManager,
}

/// The decoder a sample goes to.
#[derive(Debug, Clone, Copy, PartialEq, Eq, Structural)]
pub enum AudioFormat {
    Ogg,
    Wav,
}

/// `data` begins with the four bytes of `magic`.
pub open spec fn spec_starts_with(data: Seq<u8>, magic: Seq<u8>) -> bool {
    magic.len() <= data.len() && data.subrange(0, magic.len() as int) == magic
}

/// The decoder of a sample: OGG when its data starts with "OggS" or its
/// extension is "ogg", else WAV when it starts with "RIFF" or its extension
/// is "wav", else none.
pub open spec fn spec_sample_format(entry: SampleEntry) -> Result<AudioFormat, DecodeError> {
    if spec_starts_with(entry.data@, seq![0x4Fu8, 0x67u8, 0x67u8, 0x53u8]) || entry.extension@
        == "ogg"@ {
        Ok(AudioFormat::Ogg)
    } else if spec_starts_with(entry.data@, seq![0x52u8, 0x49u8, 0x46u8, 0x46u8])
        || entry.extension@ == "wav"@ {
        Ok(AudioFormat::Wav)
    } else {
        Err(DecodeError::UnknownFormat)
    }
}

fn starts_with_magic(data: &Vec<u8>, magic: [u8; 4]) -> (r: bool)
    ensures
        r == spec_starts_with(data@, magic@),
{
    if data.len() < 4 {
        return false;
    }
    let r = data[0] == magic[0] && data[1] == magic[1] && data[2] == magic[2] && data[3]
        == magic[3];
    assert(r ==> data@.subrange(0, 4) =~= magic@);
    assert(data@.subrange(0, 4) == magic@ ==> r) by {
        if data@.subrange(0, 4) == magic@ {
            assert(data@.subrange(0, 4)[0] == data@[0]);
            assert(data@.subrange(0, 4)[1] == data@[1]);
            assert(data@.subrange(0, 4)[2] == data@[2]);
            assert(data@.subrange(0, 4)[3] == data@[3]);
        }
    }
    r
}

/// Choose the decoder of a sample by its leading bytes or extension.
pub fn sample_format(entry: &SampleEntry) -> (r: Result<AudioFormat, DecodeError>)
    ensures
        r == spec_sample_format(*entry),
{
    let ogg_magic: [u8; 4] = [0x4F, 0x67, 0x67, 0x53];
    let riff_magic: [u8; 4] = [0x52, 0x49, 0x46, 0x46];
    assert(ogg_magic@ =~= seq![0x4Fu8, 0x67u8, 0x67u8, 0x53u8]);
    assert(riff_magic@ =~= seq![0x52u8, 0x49u8, 0x46u8, 0x46u8]);
    if starts_with_magic(&entry.data, ogg_magic) || str_eq(entry.extension.as_str(), "ogg") {
        Ok(AudioFormat::Ogg)
    } else if starts_with_magic(&entry.data, riff_magic) || str_eq(
        entry.extension.as_str(),
        "wav",
    ) {
        Ok(AudioFormat::Wav)
    } else {
        Err(DecodeError::UnknownFormat)
    }
}

} // verus!
