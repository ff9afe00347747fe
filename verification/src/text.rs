//! Decoding of the fixed-size, NUL-padded text fields of chart and sample
//! files, which hold EUC-KR (Korean) or UTF-8 text.
use vstd::prelude::*;
use vstd::string::StrSliceExecFns;

verus! {

/// What `encoding_rs::EUC_KR.decode` gives for these bytes: the decoded text,
/// and whether a malformed sequence had to be replaced.
pub uninterp spec fn euc_kr_decode(bytes: Seq<u8>) -> (Seq<char>, bool);

/// What `String::from_utf8_lossy` gives for these bytes.
pub uninterp spec fn utf8_lossy(bytes: Seq<u8>) -> Seq<char>;

/// Calls `encoding_rs::Encoding::decode` on the EUC-KR encoding (which sniffs a
/// byte-order mark, then decodes, replacing malformed sequences). Claimed: the
/// text and the error flag it returns are `euc_kr_decode` of the input bytes.
#[verifier::external_body]
fn decode_euc_kr(bytes: &[u8]) -> (r: (String, bool))
    ensures
        (r.0@, r.1) == euc_kr_decode(bytes@),
{
    let (decoded, _encoding, had_errors) = encoding_rs::EUC_KR.decode(bytes);
    (decoded.into_owned(), had_errors)
}

/// Calls `String::from_utf8_lossy`. Claimed: the text it returns is
/// `utf8_lossy` of the input bytes.
#[verifier::external_body]
fn decode_utf8_lossy(bytes: &[u8]) -> (r: String)
    ensures
        r@ == utf8_lossy(bytes@),
{
    String::from_utf8_lossy(bytes).into_owned()
}

/// What `std::str::from_utf8` gives for these bytes: the text (owned), or
/// the message of the error it reports.
pub uninterp spec fn utf8_text_of(bytes: Seq<u8>) -> Result<String, String>;

/// Calls `std::str::from_utf8` and owns the result (the error as its
/// message). Claimed: the result is `utf8_text_of` of the input bytes, and
/// a text read successfully is encoded in UTF-8 by exactly those bytes (the
/// function hands back a view of the same bytes).
#[verifier::external_body]
pub(crate) fn utf8_text(bytes: &[u8]) -> (r: Result<String, String>)
    ensures
        r == utf8_text_of(bytes@),
        r matches Ok(s) ==> vstd::utf8::encode_utf8(s@) == bytes@,
{
    std::str::from_utf8(bytes).map(String::from).map_err(|e| e.to_string())
}

/// What `str::to_lowercase` gives for this text.
pub uninterp spec fn lowercase_of(s: Seq<char>) -> Seq<char>;

/// Calls std's `str::to_lowercase`. Claimed: the text it returns is
/// `lowercase_of` of the input text.
#[verifier::external_body]
pub(crate) fn to_lowercase(s: &str) -> (r: String)
    ensures
        r@ == lowercase_of(s@),
{
    s.to_lowercase()
}

/// The position of the first NUL byte of `s`, or its length when it has none.
pub open spec fn spec_nul_index(s: Seq<u8>) -> nat
    decreases s.len(),
{
    if s.len() == 0 {
        0
    } else if s[0] == 0 {
        0
    } else {
        1 + spec_nul_index(s.subrange(1, s.len() as int))
    }
}

/// The bytes of `s` before its first NUL byte.
pub open spec fn spec_until_nul(s: Seq<u8>) -> Seq<u8> {
    s.take(spec_nul_index(s) as int)
}

/// Text of a chart header field: the bytes before the first NUL, read as
/// EUC-KR when that succeeds with a non-empty result, else as lossy UTF-8.
pub open spec fn spec_decode_c_string(bytes: Seq<u8>) -> Seq<char> {
    let t = spec_until_nul(bytes);
    if t.len() == 0 {
        Seq::empty()
    } else if !euc_kr_decode(t).1 && euc_kr_decode(t).0.len() > 0 {
        euc_kr_decode(t).0
    } else {
        utf8_lossy(t)
    }
}

/// Name of a sample: the bytes before the first NUL, read as EUC-KR when that
/// succeeds, else as lossy UTF-8.
pub open spec fn spec_sample_name(bytes: Seq<u8>) -> Seq<char> {
    let t = spec_until_nul(bytes);
    if t.len() == 0 {
        Seq::empty()
    } else if !euc_kr_decode(t).1 {
        euc_kr_decode(t).0
    } else {
        utf8_lossy(t)
    }
}

/// A position `i` at which `s` has its first NUL (or its end) is the one that
/// `spec_nul_index` names.
proof fn lemma_nul_index(s: Seq<u8>, i: int)
    requires
        0 <= i <= s.len(),
        forall|j: int| 0 <= j < i ==> s[j] != 0,
        i == s.len() || s[i] == 0,
    ensures
        spec_nul_index(s) == i,
    decreases s.len(),
{
    if s.len() > 0 && s[0] != 0 {
        let t = s.subrange(1, s.len() as int);
        assert forall|j: int| 0 <= j < i - 1 implies t[j] != 0 by {
            assert(t[j] == s[j + 1]);
        }
        if i < s.len() {
            assert(t[i - 1] == s[i]);
        }
        lemma_nul_index(t, i - 1);
    }
}

/// The bytes of `bytes` before its first NUL byte.
fn until_nul(bytes: &[u8]) -> (r: &[u8])
    ensures
        r@ == spec_until_nul(bytes@),
{
    let mut i: usize = 0;
    while i < bytes.len() && bytes[i] != 0
        invariant
            i <= bytes@.len(),
            forall|j: int| 0 <= j < i ==> bytes@[j] != 0,
        decreases bytes@.len() - i,
    {
        i = i + 1;
    }
    proof {
        lemma_nul_index(bytes@, i as int);
    }
    vstd::slice::slice_subrange(bytes, 0, i)
}

/// The EUC-KR reading of a text field, if it is to be kept: it must have
/// decoded without errors, and, when `reject_empty`, be non-empty. Otherwise
/// the field is read as lossy UTF-8.
pub fn accept_euc_kr(decoded: String, had_errors: bool, reject_empty: bool) -> (r: Option<String>)
    ensures
        r == (if !had_errors && !(reject_empty && decoded@.len() == 0) {
            Some(decoded)
        } else {
            None::<String>
        }),
{
    if had_errors {
        return None;
    }
    if reject_empty && decoded.as_str().unicode_len() == 0 {
        return None;
    }
    Some(decoded)
}

/// Decode a null-terminated byte string that may be EUC-KR or UTF-8.
///
/// Strips everything from the first NUL on, tries EUC-KR first (most Korean
/// charts use it), then falls back to a lossy UTF-8 conversion.
pub fn decode_c_string(bytes: &[u8]) -> (r: String)
    ensures
        r@ == spec_decode_c_string(bytes@),
{
    let trimmed = until_nul(bytes);
    if trimmed.len() == 0 {
        return String::new();
    }
    let (decoded, had_errors) = decode_euc_kr(trimmed);
    match accept_euc_kr(decoded, had_errors, true) {
        Some(text) => text,
        None => decode_utf8_lossy(trimmed),
    }
}

/// Decode the NUL-padded name field of a sample: EUC-KR when it decodes
/// cleanly, else lossy UTF-8.
pub fn decode_sample_name(bytes: &[u8]) -> (r: String)
    ensures
        r@ == spec_sample_name(bytes@),
{
    let trimmed = until_nul(bytes);
    if trimmed.len() == 0 {
        return String::new();
    }
    let (decoded, had_errors) = decode_euc_kr(trimmed);
    match accept_euc_kr(decoded, had_errors, false) {
        Some(text) => text,
        None => decode_utf8_lossy(trimmed),
    }
}

/// Whether two strings hold the same characters.
pub fn str_eq(a: &str, b: &str) -> (r: bool)
    ensures
        r == (a@ == b@),
{
    let ab = a.as_bytes();
    let bb = b.as_bytes();
    proof {
        vstd::utf8::encode_utf8_decode_utf8(a@);
        vstd::utf8::encode_utf8_decode_utf8(b@);
    }
    if ab.len() != bb.len() {
        return false;
    }
    let mut i: usize = 0;
    while i < ab.len()
        invariant
            ab@.len() == bb@.len(),
            ab@ == vstd::utf8::encode_utf8(a@),
            bb@ == vstd::utf8::encode_utf8(b@),
            i <= ab@.len(),
            forall|j: int| 0 <= j < i ==> ab@[j] == bb@[j],
        decreases ab@.len() - i,
    {
        if ab[i] != bb[i] {
            return false;
        }
        i = i + 1;
    }
    assert(ab@ =~= bb@);
    true
}

} // verus!
