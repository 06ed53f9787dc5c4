//! RIFF/WAVE containers: reading the header of a clip and merging the PCM
//! data of several clips under the header of the first one.
//!
//! A WAVE file is `"RIFF"`, a 32-bit size, `"WAVE"`, then a list of chunks.
//! Each chunk is a four-byte id, a little-endian 32-bit body size and the
//! body, padded to an even length.  The `"fmt "` chunk describes the sample
//! format and the `"data"` chunk holds the samples.

use vstd::prelude::*;

verus! {

// ---------------------------------------------------------------------------
// Byte-level model
// ---------------------------------------------------------------------------

/// Little-endian 16-bit value at `i`.
pub open spec fn le16(b: Seq<u8>, i: int) -> int {
    b[i] as int + 256 * (b[i + 1] as int)
}

/// Little-endian 32-bit value at `i`.
pub open spec fn le32(b: Seq<u8>, i: int) -> int {
    b[i] as int + 256 * (b[i + 1] as int) + 65536 * (b[i + 2] as int) + 16777216 * (b[i + 3] as int)
}

/// The four bytes at `i` are `c0 c1 c2 c3`.
pub open spec fn id_at(b: Seq<u8>, i: int, c0: u8, c1: u8, c2: u8, c3: u8) -> bool {
    &&& b[i] == c0
    &&& b[i + 1] == c1
    &&& b[i + 2] == c2
    &&& b[i + 3] == c3
}

/// `"RIFF"` at `i`.
pub open spec fn is_riff_id(b: Seq<u8>, i: int) -> bool {
    id_at(b, i, 0x52, 0x49, 0x46, 0x46)
}

/// `"WAVE"` at `i`.
pub open spec fn is_wave_id(b: Seq<u8>, i: int) -> bool {
    id_at(b, i, 0x57, 0x41, 0x56, 0x45)
}

/// `"fmt "` at `i`.
pub open spec fn is_fmt_id(b: Seq<u8>, i: int) -> bool {
    id_at(b, i, 0x66, 0x6d, 0x74, 0x20)
}

/// `"data"` at `i`.
pub open spec fn is_data_id(b: Seq<u8>, i: int) -> bool {
    id_at(b, i, 0x64, 0x61, 0x74, 0x61)
}

/// The declared body size of the chunk that starts at `pos`.
pub open spec fn chunk_size(b: Seq<u8>, pos: int) -> int {
    le32(b, pos + 4)
}

/// Where the chunk after the one at `pos` starts (bodies are padded to an
/// even length).
pub open spec fn after_chunk(b: Seq<u8>, pos: int) -> int {
    pos + 8 + chunk_size(b, pos) + chunk_size(b, pos) % 2
}

/// The file starts with `"RIFF" <size> "WAVE"`.
pub open spec fn has_riff_wave_header(b: Seq<u8>) -> bool {
    b.len() >= 12 && is_riff_id(b, 0) && is_wave_id(b, 8)
}

/// The four little-endian bytes of `v` (taken modulo 2^32).
pub open spec fn le32_bytes(v: int) -> Seq<u8> {
    seq![
        (v % 256) as u8,
        ((v / 256) % 256) as u8,
        (((v / 256) / 256) % 256) as u8,
        ((((v / 256) / 256) / 256) % 256) as u8,
    ]
}

// ---------------------------------------------------------------------------
// Sample format
// ---------------------------------------------------------------------------

/// The sample format that a `"fmt "` chunk describes.
#[derive(Debug, Clone, Copy, PartialEq, Eq, Structural)]
pub struct WavFormat {
    /// Number of interleaved channels.
    pub channels: u16,
    /// Frames per second.
    pub sample_rate: u32,
    /// Bits in one sample of one channel.
    pub bits_per_sample: u16,
}

/// The format before any `"fmt "` chunk has been seen: all zero.
pub open spec fn no_format() -> WavFormat {
    WavFormat { channels: 0, sample_rate: 0, bits_per_sample: 0 }
}

/// The fields of a `"fmt "` body (PCM layout: channels at offset 2, sample
/// rate at 4, bits per sample at 14).
pub open spec fn fmt_fields(body: Seq<u8>) -> WavFormat {
    WavFormat {
        channels: le16(body, 2) as u16,
        sample_rate: le32(body, 4) as u32,
        bits_per_sample: le16(body, 14) as u16,
    }
}

/// What a header read finds: the format and the size of the data chunk.
#[derive(Debug, Clone, Copy, PartialEq, Eq, Structural)]
pub struct WavHeader {
    /// The sample format.
    pub format: WavFormat,
    /// Declared size in bytes of the `"data"` chunk.
    pub data_size: u32,
}

/// Why a header read failed.
#[derive(Debug, Clone, Copy, PartialEq, Eq, Structural)]
pub enum WavError {
    /// Shorter than 12 bytes, or not `"RIFF" .. "WAVE"`.
    NotRiffWave,
    /// No usable `"fmt "` chunk (zero rate or bit depth) or no non-empty
    /// `"data"` chunk before the chunk list ends.
    MissingFmtOrData,
    /// The format has zero channels.
    MalformedHeader,
}

/// Walk of the chunk list for a header read, from the chunk at `pos`, with
/// `f` the format found so far.  A `"fmt "` chunk whose body runs past the end
/// stops the walk; the first `"data"` chunk ends it with its size.
pub open spec fn header_scan(b: Seq<u8>, pos: int, f: WavFormat) -> (WavFormat, u32)
    decreases b.len() - pos,
{
    if pos + 8 > b.len() {
        (f, 0u32)
    } else if is_fmt_id(b, pos) {
        if pos + 8 + chunk_size(b, pos) > b.len() {
            (f, 0u32)
        } else {
            let f2 = if chunk_size(b, pos) >= 16 {
                fmt_fields(b.subrange(pos + 8, pos + 8 + chunk_size(b, pos)))
            } else {
                f
            };
            if after_chunk(b, pos) + 8 > b.len() {
                (f2, 0u32)
            } else {
                header_scan(b, after_chunk(b, pos), f2)
            }
        }
    } else if is_data_id(b, pos) {
        (f, chunk_size(b, pos) as u32)
    } else if after_chunk(b, pos) + 8 > b.len() {
        (f, 0u32)
    } else {
        header_scan(b, after_chunk(b, pos), f)
    }
}

/// The result of reading the header of the WAVE file `b`.
pub open spec fn spec_parse_wav_header(b: Seq<u8>) -> Result<WavHeader, WavError> {
    if !has_riff_wave_header(b) {
        Err(WavError::NotRiffWave)
    } else {
        let (f, size) = header_scan(b, 12, no_format());
        if f.sample_rate == 0 || f.bits_per_sample == 0 || size == 0 {
            Err(WavError::MissingFmtOrData)
        } else if f.channels == 0 {
            Err(WavError::MalformedHeader)
        } else {
            Ok(WavHeader { format: f, data_size: size })
        }
    }
}

// ---------------------------------------------------------------------------
// Exec readers
// ---------------------------------------------------------------------------

fn read_le16(b: &[u8], i: usize) -> (v: u16)
    requires
        i + 2 <= b@.len(),
    ensures
        v as int == le16(b@, i as int),
{
    b[i] as u16 + 256 * (b[i + 1] as u16)
}

fn read_le32(b: &[u8], i: usize) -> (v: u32)
    requires
        i + 4 <= b@.len(),
    ensures
        v as int == le32(b@, i as int),
{
    b[i] as u32 + 256 * (b[i + 1] as u32) + 65536 * (b[i + 2] as u32) + 16777216 * (
    b[i + 3] as u32)
}

fn id_is(b: &[u8], i: usize, c0: u8, c1: u8, c2: u8, c3: u8) -> (r: bool)
    requires
        i + 4 <= b@.len(),
    ensures
        r == id_at(b@, i as int, c0, c1, c2, c3),
{
    b[i] == c0 && b[i + 1] == c1 && b[i + 2] == c2 && b[i + 3] == c3
}

/// Reads the format fields of a `"fmt "` body of at least 16 bytes that
/// starts at `start`.
fn read_fmt_fields(b: &[u8], start: usize, len: usize) -> (f: WavFormat)
    requires
        16 <= len,
        start + len <= b.len(),
    ensures
        f == fmt_fields(b@.subrange(start as int, start + len)),
{
    let channels = read_le16(b, start + 2);
    let sample_rate = read_le32(b, start + 4);
    let bits_per_sample = read_le16(b, start + 14);
    let ghost body = b@.subrange(start as int, start + len);
    assert(le16(body, 2) == le16(b@, start + 2));
    assert(le32(body, 4) == le32(b@, start + 4));
    assert(le16(body, 14) == le16(b@, start + 14));
    WavFormat { channels, sample_rate, bits_per_sample }
}

/// Where the chunk after the one at `pos` (of body size `size`) starts, if a
/// further chunk header fits in `len` bytes.
fn next_chunk(pos: usize, size: u32, len: usize) -> (r: Option<usize>)
    requires
        pos + 8 <= len,
    ensures
        match r {
            Some(np) => np == pos + 8 + size + size % 2 && np + 8 <= len,
            None => pos + 8 + size + size % 2 + 8 > len,
        },
{
    let pad: u32 = size % 2;
    let rem: usize = len - pos;
    if (size as u64) + (pad as u64) + 16 > rem as u64 {
        None
    } else {
        Some(pos + 8 + size as usize + pad as usize)
    }
}

/// Reads the header of a WAVE file held in memory.
///
/// The chunk walk: a `"fmt "` body of
/// 16 bytes or more sets the format, a `"fmt "` body that runs past the end
/// stops the walk, and the first `"data"` chunk gives the data size.
pub fn parse_wav_header(bytes: &[u8]) -> (r: Result<WavHeader, WavError>)
    ensures
        r == spec_parse_wav_header(bytes@),
{
    let len = bytes.len();
    if len < 12 || !id_is(bytes, 0, 0x52, 0x49, 0x46, 0x46) || !id_is(
        bytes,
        8,
        0x57,
        0x41,
        0x56,
        0x45,
    ) {
        return Err(WavError::NotRiffWave);
    }
    let (f, size) = scan_header(bytes);
    if f.sample_rate == 0 || f.bits_per_sample == 0 || size == 0 {
        Err(WavError::MissingFmtOrData)
    } else if f.channels == 0 {
        Err(WavError::MalformedHeader)
    } else {
        Ok(WavHeader { format: f, data_size: size })
    }
}

fn scan_header(b: &[u8]) -> (r: (WavFormat, u32))
    requires
        b@.len() >= 12,
    ensures
        r == header_scan(b@, 12, no_format()),
{
    let len = b.len();
    let mut f = WavFormat { channels: 0, sample_rate: 0, bits_per_sample: 0 };
    let mut pos: usize = 12;
    while len >= 8 && pos <= len - 8
        invariant
            len == b@.len(),
            12 <= pos <= len,
            header_scan(b@, 12, no_format()) == header_scan(b@, pos as int, f),
        decreases len - pos,
    {
        let size = read_le32(b, pos + 4);
        if id_is(b, pos, 0x66, 0x6d, 0x74, 0x20) {
            if size as usize > len - pos - 8 {
                return (f, 0);
            }
            if size >= 16 {
                f = read_fmt_fields(b, pos + 8, size as usize);
            }
            match next_chunk(pos, size, len) {
                Some(np) => {
                    pos = np;
                },
                None => {
                    return (f, 0);
                },
            }
        } else if id_is(b, pos, 0x64, 0x61, 0x74, 0x61) {
            return (f, size);
        } else {
            match next_chunk(pos, size, len) {
                Some(np) => {
                    pos = np;
                },
                None => {
                    return (f, 0);
                },
            }
        }
    }
    (f, 0)
}

// ---------------------------------------------------------------------------
// Merging clips
// ---------------------------------------------------------------------------

/// Walk of the first clip's chunk list when merging, from the chunk at `pos`:
/// the body of the last `"fmt "` chunk before the first `"data"` chunk (cut at
/// the end of the file), the format it gives when it holds 16 bytes or more,
/// and whether a `"data"` chunk was reached.
pub open spec fn merge_scan(b: Seq<u8>, pos: int, body: Seq<u8>, f: WavFormat) -> (
    Seq<u8>,
    WavFormat,
    bool,
)
    decreases b.len() - pos,
{
    if pos + 8 > b.len() {
        (body, f, false)
    } else if is_fmt_id(b, pos) {
        let n = if chunk_size(b, pos) <= b.len() - pos - 8 {
            chunk_size(b, pos)
        } else {
            b.len() - pos - 8
        };
        let body2 = b.subrange(pos + 8, pos + 8 + n);
        let f2 = if n >= 16 {
            fmt_fields(body2)
        } else {
            f
        };
        if after_chunk(b, pos) + 8 > b.len() {
            (body2, f2, false)
        } else {
            merge_scan(b, after_chunk(b, pos), body2, f2)
        }
    } else if is_data_id(b, pos) {
        (body, f, true)
    } else if after_chunk(b, pos) + 8 > b.len() {
        (body, f, false)
    } else {
        merge_scan(b, after_chunk(b, pos), body, f)
    }
}

/// Walk of a clip's chunk list for its first `"data"` chunk, from `pos`: the
/// data bytes (cut at the end of the file), or `None` if there is none.
pub open spec fn data_scan(b: Seq<u8>, pos: int) -> Option<Seq<u8>>
    decreases b.len() - pos,
{
    if pos + 8 > b.len() {
        None
    } else if is_data_id(b, pos) {
        let end = if pos + 8 + chunk_size(b, pos) <= b.len() {
            pos + 8 + chunk_size(b, pos)
        } else {
            b.len() as int
        };
        Some(b.subrange(pos + 8, end))
    } else if after_chunk(b, pos) + 8 > b.len() {
        None
    } else {
        data_scan(b, after_chunk(b, pos))
    }
}

/// The PCM bytes that a clip contributes to a merge: the body of its first
/// `"data"` chunk.  Clips after the first are not checked for a RIFF header.
pub open spec fn clip_pcm(b: Seq<u8>) -> Option<Seq<u8>> {
    data_scan(b, 12)
}

/// Why a merge failed.
#[derive(Debug, Clone, Copy, PartialEq, Eq, Structural)]
pub enum WavMergeError {
    /// There is no clip to merge.
    EmptyTrack,
    /// The first clip is shorter than a 44-byte header or not `"RIFF" .. "WAVE"`.
    InvalidFirstClip,
    /// The first clip has no format with a sample rate and a bit depth, or no
    /// `"data"` chunk.
    MissingFmtOrData,
    /// A clip has no `"data"` chunk.
    NoDataChunk,
}

/// The state of a merge: the `"fmt "` body and format taken from the first
/// clip, and the PCM bytes gathered so far.
pub struct WavMergeState {
    /// The `"fmt "` body copied into the merged file.
    pub fmt_chunk: Seq<u8>,
    /// The format that body describes.
    pub format: WavFormat,
    /// The concatenated PCM data.
    pub pcm: Seq<u8>,
}

/// How a track of clips is written out as one file.
#[derive(Debug, Clone, Copy, PartialEq, Eq, Structural)]
pub enum TrackPlan {
    /// A single clip is copied as it is.
    CopySingle,
    /// Several clips are merged ([`WavMerger`]).
    Merge,
}

/// The plan for a track of `clips` clips: none is refused, one is copied,
/// more are merged.
pub open spec fn spec_track_plan(clips: nat) -> Result<TrackPlan, WavMergeError> {
    if clips == 0 {
        Err(WavMergeError::EmptyTrack)
    } else if clips == 1 {
        Ok(TrackPlan::CopySingle)
    } else {
        Ok(TrackPlan::Merge)
    }
}

/// Decides how a track of `clips` clips is written out.
pub fn track_plan(clips: usize) -> (r: Result<TrackPlan, WavMergeError>)
    ensures
        r == spec_track_plan(clips as nat),
{
    if clips == 0 {
        Err(WavMergeError::EmptyTrack)
    } else if clips == 1 {
        Ok(TrackPlan::CopySingle)
    } else {
        Ok(TrackPlan::Merge)
    }
}

/// The result of starting a merge from the bytes of the first clip.
pub open spec fn spec_merge_start(b: Seq<u8>) -> Result<WavMergeState, WavMergeError> {
    if b.len() < 44 || !is_riff_id(b, 0) || !is_wave_id(b, 8) {
        Err(WavMergeError::InvalidFirstClip)
    } else {
        let (body, f, found) = merge_scan(b, 12, Seq::empty(), no_format());
        if f.sample_rate == 0 || f.bits_per_sample == 0 || !found {
            Err(WavMergeError::MissingFmtOrData)
        } else {
            Ok(WavMergeState { fmt_chunk: body, format: f, pcm: Seq::empty() })
        }
    }
}

/// `"RIFF"`, `"WAVE"`, `"fmt "` and `"data"` as byte sequences.
pub open spec fn riff_tag() -> Seq<u8> {
    seq![0x52u8, 0x49u8, 0x46u8, 0x46u8]
}

/// `"WAVE"`.
pub open spec fn wave_tag() -> Seq<u8> {
    seq![0x57u8, 0x41u8, 0x56u8, 0x45u8]
}

/// `"fmt "`.
pub open spec fn fmt_tag() -> Seq<u8> {
    seq![0x66u8, 0x6du8, 0x74u8, 0x20u8]
}

/// `"data"`.
pub open spec fn data_tag() -> Seq<u8> {
    seq![0x64u8, 0x61u8, 0x74u8, 0x61u8]
}

/// A length as the 32-bit size field stores it.
pub open spec fn size_field(n: nat) -> int {
    n as int % 4294967296
}

/// The merged file: a RIFF header whose size field is `36 + pcm length`, the
/// copied `"fmt "` chunk, and one `"data"` chunk holding all the PCM bytes.
/// Lengths are stored as 32-bit size fields.
pub open spec fn wav_file_bytes(fmt_chunk: Seq<u8>, pcm: Seq<u8>) -> Seq<u8> {
    riff_tag() + le32_bytes(36 + size_field(pcm.len())) + wave_tag() + fmt_tag() + le32_bytes(
        size_field(fmt_chunk.len()),
    ) + fmt_chunk + data_tag() + le32_bytes(size_field(pcm.len())) + pcm
}

/// Merges the PCM data of several WAVE clips under the header of the first.
///
/// Start it with the first clip, feed it every clip in order (the first one
/// included), then take the merged file.
pub struct WavMerger {
    fmt_chunk: Vec<u8>,
    format: WavFormat,
    pcm: Vec<u8>,
}

impl View for WavMerger {
    type V = WavMergeState;

    closed spec fn view(&self) -> WavMergeState {
        WavMergeState { fmt_chunk: self.fmt_chunk@, format: self.format, pcm: self.pcm@ }
    }
}

fn copy_range(out: &mut Vec<u8>, b: &[u8], start: usize, end: usize)
    requires
        start <= end <= b@.len(),
    ensures
        final(out)@ == old(out)@ + b@.subrange(start as int, end as int),
{
    let mut i = start;
    while i < end
        invariant
            start <= i <= end <= b@.len(),
            out@ == old(out)@ + b@.subrange(start as int, i as int),
        decreases end - i,
    {
        out.push(b[i]);
        assert(b@.subrange(start as int, i + 1) =~= b@.subrange(start as int, i as int).push(
            b@[i as int],
        ));
        i += 1;
    }
}

fn push_le32(out: &mut Vec<u8>, v: u32)
    ensures
        final(out)@ == old(out)@ + le32_bytes(v as int),
{
    out.push((v % 256) as u8);
    out.push(((v / 256) % 256) as u8);
    out.push((((v / 256) / 256) % 256) as u8);
    out.push(((((v / 256) / 256) / 256) % 256) as u8);
    assert(final(out)@ =~= old(out)@ + le32_bytes(v as int));
}

fn push_tag(out: &mut Vec<u8>, c0: u8, c1: u8, c2: u8, c3: u8)
    ensures
        final(out)@ == old(out)@ + seq![c0, c1, c2, c3],
{
    out.push(c0);
    out.push(c1);
    out.push(c2);
    out.push(c3);
    assert(final(out)@ =~= old(out)@ + seq![c0, c1, c2, c3]);
}

fn scan_first_clip(first: &[u8]) -> (r: (Vec<u8>, WavFormat, bool))
    requires
        first@.len() >= 12,
    ensures
        (r.0@, r.1, r.2) == merge_scan(first@, 12, Seq::empty(), no_format()),
{
    let len = first.len();
    let mut fmt_chunk: Vec<u8> = Vec::new();
    let mut f = WavFormat { channels: 0, sample_rate: 0, bits_per_sample: 0 };
    let mut pos: usize = 12;
    while len >= 8 && pos <= len - 8
        invariant
            len == first@.len(),
            12 <= pos <= len,
            merge_scan(first@, 12, Seq::empty(), no_format()) == merge_scan(
                first@,
                pos as int,
                fmt_chunk@,
                f,
            ),
        decreases len - pos,
    {
        let size = read_le32(first, pos + 4);
        if id_is(first, pos, 0x66, 0x6d, 0x74, 0x20) {
            let rem = len - pos - 8;
            let n: usize = if size as usize <= rem {
                size as usize
            } else {
                rem
            };
            let mut body: Vec<u8> = Vec::new();
            copy_range(&mut body, first, pos + 8, pos + 8 + n);
            assert(body@ =~= first@.subrange(pos + 8, pos + 8 + n));
            fmt_chunk = body;
            if n >= 16 {
                f = read_fmt_fields(first, pos + 8, n);
            }
            match next_chunk(pos, size, len) {
                Some(np) => {
                    pos = np;
                },
                None => {
                    return (fmt_chunk, f, false);
                },
            }
        } else if id_is(first, pos, 0x64, 0x61, 0x74, 0x61) {
            return (fmt_chunk, f, true);
        } else {
            match next_chunk(pos, size, len) {
                Some(np) => {
                    pos = np;
                },
                None => {
                    return (fmt_chunk, f, false);
                },
            }
        }
    }
    (fmt_chunk, f, false)
}

impl WavMerger {
    /// Starts a merge from the bytes of the first clip: checks its RIFF header
    /// and takes its `"fmt "` chunk.
    pub fn from_first_clip(first: &[u8]) -> (r: Result<WavMerger, WavMergeError>)
        ensures
            match r {
                Ok(m) => spec_merge_start(first@) == Ok::<WavMergeState, WavMergeError>(m@),
                Err(e) => spec_merge_start(first@) == Err::<WavMergeState, WavMergeError>(e),
            },
    {
        let len = first.len();
        if len < 44 || !id_is(first, 0, 0x52, 0x49, 0x46, 0x46) || !id_is(
            first,
            8,
            0x57,
            0x41,
            0x56,
            0x45,
        ) {
            return Err(WavMergeError::InvalidFirstClip);
        }
        let (fmt_chunk, f, found) = scan_first_clip(first);
        if f.sample_rate == 0 || f.bits_per_sample == 0 || !found {
            return Err(WavMergeError::MissingFmtOrData);
        }
        Ok(WavMerger { fmt_chunk, format: f, pcm: Vec::new() })
    }
}

fn scan_data(b: &[u8]) -> (r: Option<(usize, usize)>)
    ensures
        match data_scan(b@, 12) {
            Some(p) => match r {
                Some((start, end)) => start <= end <= b@.len() && p == b@.subrange(
                    start as int,
                    end as int,
                ),
                None => false,
            },
            None => r is None,
        },
{
    let len = b.len();
    if len < 12 {
        return None;
    }
    let mut pos: usize = 12;
    while len >= 8 && pos <= len - 8
        invariant
            len == b@.len(),
            12 <= pos <= len,
            data_scan(b@, 12) == data_scan(b@, pos as int),
        decreases len - pos,
    {
        let size = read_le32(b, pos + 4);
        if id_is(b, pos, 0x64, 0x61, 0x74, 0x61) {
            let start = pos + 8;
            let end = if size as usize <= len - start {
                start + size as usize
            } else {
                len
            };
            return Some((start, end));
        }
        match next_chunk(pos, size, len) {
            Some(np) => {
                pos = np;
            },
            None => {
                return None;
            },
        }
    }
    None
}

impl WavMerger {
    /// Appends the body of the first `"data"` chunk of `clip` to the merged
    /// PCM data; a clip without one is refused and nothing changes.
    pub fn push_clip(&mut self, clip: &[u8]) -> (r: Result<(), WavMergeError>)
        ensures
            match clip_pcm(clip@) {
                Some(p) => r is Ok && final(self)@ == (WavMergeState {
                    fmt_chunk: old(self)@.fmt_chunk,
                    format: old(self)@.format,
                    pcm: old(self)@.pcm + p,
                }),
                None => r == Err::<(), WavMergeError>(WavMergeError::NoDataChunk) && final(self)@
                    == old(self)@,
            },
    {
        match scan_data(clip) {
            Some((start, end)) => {
                copy_range(&mut self.pcm, clip, start, end);
                Ok(())
            },
            None => Err(WavMergeError::NoDataChunk),
        }
    }

    /// The sample format taken from the first clip.
    pub fn format(&self) -> (f: WavFormat)
        ensures
            f == self@.format,
    {
        self.format
    }

    /// Number of PCM bytes gathered so far.
    pub fn pcm_len(&self) -> (n: usize)
        ensures
            n == self@.pcm.len(),
    {
        self.pcm.len()
    }

    /// The merged WAVE file.  Its size fields are written as 32-bit values,
    /// so the PCM length counts modulo 2^32, and that count plus the 36 bytes
    /// of header must fit in 32 bits.
    pub fn to_wav_bytes(&self) -> (out: Vec<u8>)
        requires
            size_field(self@.pcm.len()) + 36 <= u32::MAX,
        ensures
            out@ == wav_file_bytes(self@.fmt_chunk, self@.pcm),
    {
        let total_pcm: u32 = (self.pcm.len() as u64 % 4294967296) as u32;
        let fmt_size: u32 = (self.fmt_chunk.len() as u64 % 4294967296) as u32;
        let mut out: Vec<u8> = Vec::new();
        push_tag(&mut out, 0x52, 0x49, 0x46, 0x46);
        push_le32(&mut out, 36 + total_pcm);
        push_tag(&mut out, 0x57, 0x41, 0x56, 0x45);
        push_tag(&mut out, 0x66, 0x6d, 0x74, 0x20);
        push_le32(&mut out, fmt_size);
        copy_range(&mut out, self.fmt_chunk.as_slice(), 0, self.fmt_chunk.len());
        push_tag(&mut out, 0x64, 0x61, 0x74, 0x61);
        push_le32(&mut out, total_pcm);
        copy_range(&mut out, self.pcm.as_slice(), 0, self.pcm.len());
        proof {
            assert(self.fmt_chunk@.subrange(0, self.fmt_chunk@.len() as int) =~= self.fmt_chunk@);
            assert(self.pcm@.subrange(0, self.pcm@.len() as int) =~= self.pcm@);
            assert(out@ =~= wav_file_bytes(self@.fmt_chunk, self@.pcm));
        }
        out
    }
}

// ---------------------------------------------------------------------------
// Laws
// ---------------------------------------------------------------------------

proof fn lemma_le32_round_trip(v: int)
    requires
        0 <= v <= u32::MAX,
    ensures
        le32(le32_bytes(v), 0) == v,
{
    let q1 = v / 256;
    let q2 = q1 / 256;
    let q3 = q2 / 256;
    assert(v == 256 * q1 + v % 256);
    assert(q1 == 256 * q2 + q1 % 256);
    assert(q2 == 256 * q3 + q2 % 256);
    assert(q3 < 256);
    assert(q3 % 256 == q3);
}

/// The 20-byte head of a merged file.
spec fn merged_head(n: nat, m: nat) -> Seq<u8> {
    riff_tag() + le32_bytes(36 + size_field(m)) + wave_tag() + fmt_tag() + le32_bytes(size_field(n))
}

/// The 8-byte `"data"` chunk header of a merged file.
spec fn merged_data_header(m: nat) -> Seq<u8> {
    data_tag() + le32_bytes(size_field(m))
}

proof fn lemma_merged_head(n: nat, m: nat)
    requires
        n <= u32::MAX,
    ensures
        merged_head(n, m).len() == 20,
        is_riff_id(merged_head(n, m), 0),
        is_wave_id(merged_head(n, m), 8),
        is_fmt_id(merged_head(n, m), 12),
        !is_data_id(merged_head(n, m), 12),
        le32(merged_head(n, m), 16) == n,
{
    let h = merged_head(n, m);
    let l2 = le32_bytes(size_field(n));
    lemma_le32_round_trip(n as int);
    assert(h[16] == l2[0]);
    assert(h[17] == l2[1]);
    assert(h[18] == l2[2]);
    assert(h[19] == l2[3]);
}

proof fn lemma_merged_data_header(m: nat)
    requires
        m <= u32::MAX,
    ensures
        merged_data_header(m).len() == 8,
        is_data_id(merged_data_header(m), 0),
        !is_fmt_id(merged_data_header(m), 0),
        le32(merged_data_header(m), 4) == m,
{
    let t = merged_data_header(m);
    let l3 = le32_bytes(size_field(m));
    lemma_le32_round_trip(m as int);
    assert(t[4] == l3[0]);
    assert(t[5] == l3[1]);
    assert(t[6] == l3[2]);
    assert(t[7] == l3[3]);
}

/// Where each part of a merged file lies.
proof fn lemma_wav_file_layout(fmt_chunk: Seq<u8>, pcm: Seq<u8>)
    requires
        fmt_chunk.len() + pcm.len() + 36 <= u32::MAX,
    ensures
        ({
            let out = wav_file_bytes(fmt_chunk, pcm);
            let n = fmt_chunk.len() as int;
            let m = pcm.len() as int;
            &&& out.len() == 28 + n + m
            &&& has_riff_wave_header(out)
            &&& is_fmt_id(out, 12)
            &&& !is_data_id(out, 12)
            &&& chunk_size(out, 12) == n
            &&& out.subrange(20, 20 + n) == fmt_chunk
            &&& is_data_id(out, 20 + n)
            &&& !is_fmt_id(out, 20 + n)
            &&& chunk_size(out, 20 + n) == m
            &&& out.subrange(28 + n, 28 + n + m) == pcm
        }),
{
    let out = wav_file_bytes(fmt_chunk, pcm);
    let n = fmt_chunk.len() as int;
    let m = pcm.len() as int;
    let head = merged_head(fmt_chunk.len(), pcm.len());
    let tail = merged_data_header(pcm.len());
    lemma_merged_head(fmt_chunk.len(), pcm.len());
    lemma_merged_data_header(pcm.len());
    let s1 = head + fmt_chunk;
    let s2 = s1 + tail;
    assert(out =~= s2 + pcm);
    assert(out.len() == 28 + n + m);
    assert forall|k: int| 0 <= k < 20 implies #[trigger] out[k] == head[k] by {
        assert(out[k] == s2[k]);
        assert(s2[k] == s1[k]);
    }
    assert forall|k: int| 0 <= k < 8 implies #[trigger] out[20 + n + k] == tail[k] by {
        assert(out[20 + n + k] == s2[20 + n + k]);
    }
    assert(out[0] == head[0] && out[1] == head[1] && out[2] == head[2] && out[3] == head[3]);
    assert(out[8] == head[8] && out[9] == head[9] && out[10] == head[10] && out[11] == head[11]);
    assert(out[12] == head[12] && out[13] == head[13] && out[14] == head[14] && out[15]
        == head[15]);
    assert(out[16] == head[16] && out[17] == head[17] && out[18] == head[18] && out[19]
        == head[19]);
    assert(out[20 + n + 0] == tail[0] && out[20 + n + 1] == tail[1] && out[20 + n + 2] == tail[2]
        && out[20 + n + 3] == tail[3]);
    assert(out[20 + n + 4] == tail[4] && out[20 + n + 5] == tail[5] && out[20 + n + 6] == tail[6]
        && out[20 + n + 7] == tail[7]);
    assert(out.subrange(20, 20 + n) =~= fmt_chunk);
    assert(out.subrange(28 + n, 28 + n + m) =~= pcm);
}

/// A merged file gives back exactly the merged PCM data when it is itself
/// read as a clip, provided its `"fmt "` body has an even length (the merged
/// file carries no pad byte after that body, while the reader skips one after
/// an odd-sized chunk) and its sizes fit the 32-bit fields.
pub proof fn merged_file_data_round_trip(fmt_chunk: Seq<u8>, pcm: Seq<u8>)
    requires
        fmt_chunk.len() % 2 == 0,
        fmt_chunk.len() + pcm.len() + 36 <= u32::MAX,
    ensures
        clip_pcm(wav_file_bytes(fmt_chunk, pcm)) == Some(pcm),
{
    let out = wav_file_bytes(fmt_chunk, pcm);
    let n = fmt_chunk.len() as int;
    lemma_wav_file_layout(fmt_chunk, pcm);
    assert(after_chunk(out, 12) == 20 + n);
    assert(data_scan(out, 20 + n) == Some(pcm));
}

/// The header of a merged file reports the format of the copied `"fmt "`
/// body and the length of the merged PCM data, when that body is an even
/// number of at least 16 bytes describing a non-zero channel count, rate and
/// bit depth, the PCM data is not empty, and the sizes fit the 32-bit fields.
pub proof fn merged_file_header_round_trip(fmt_chunk: Seq<u8>, pcm: Seq<u8>)
    requires
        fmt_chunk.len() % 2 == 0,
        fmt_chunk.len() >= 16,
        fmt_fields(fmt_chunk).channels != 0,
        fmt_fields(fmt_chunk).sample_rate != 0,
        fmt_fields(fmt_chunk).bits_per_sample != 0,
        pcm.len() > 0,
        fmt_chunk.len() + pcm.len() + 36 <= u32::MAX,
    ensures
        spec_parse_wav_header(wav_file_bytes(fmt_chunk, pcm)) == Ok::<WavHeader, WavError>(
            WavHeader { format: fmt_fields(fmt_chunk), data_size: pcm.len() as u32 },
        ),
{
    let out = wav_file_bytes(fmt_chunk, pcm);
    let n = fmt_chunk.len() as int;
    lemma_wav_file_layout(fmt_chunk, pcm);
    assert(after_chunk(out, 12) == 20 + n);
    let f = fmt_fields(fmt_chunk);
    assert(header_scan(out, 20 + n, f) == (f, pcm.len() as u32));
    assert(header_scan(out, 12, no_format()) == (f, pcm.len() as u32));
}

/// A merged file can start a new merge: the new merge takes over the same
/// `"fmt "` body and format, when that body is an even number of at least 16
/// bytes with a non-zero rate and bit depth and the sizes fit the 32-bit
/// fields.
pub proof fn merged_file_restarts_merge(fmt_chunk: Seq<u8>, pcm: Seq<u8>)
    requires
        fmt_chunk.len() % 2 == 0,
        fmt_chunk.len() >= 16,
        fmt_fields(fmt_chunk).sample_rate != 0,
        fmt_fields(fmt_chunk).bits_per_sample != 0,
        fmt_chunk.len() + pcm.len() + 36 <= u32::MAX,
    ensures
        spec_merge_start(wav_file_bytes(fmt_chunk, pcm)) == Ok::<WavMergeState, WavMergeError>(
            WavMergeState { fmt_chunk, format: fmt_fields(fmt_chunk), pcm: Seq::empty() },
        ),
{
    let out = wav_file_bytes(fmt_chunk, pcm);
    let n = fmt_chunk.len() as int;
    lemma_wav_file_layout(fmt_chunk, pcm);
    assert(after_chunk(out, 12) == 20 + n);
    let f = fmt_fields(fmt_chunk);
    assert(merge_scan(out, 20 + n, fmt_chunk, f) == (fmt_chunk, f, true));
    assert(merge_scan(out, 12, Seq::empty(), no_format()) == (fmt_chunk, f, true));
}

/// The bytes of one chunk: its four-byte id, the body size, the body, and a
/// pad byte when the body has odd length.
pub open spec fn chunk_bytes(id: Seq<u8>, body: Seq<u8>) -> Seq<u8> {
    id + le32_bytes(body.len() as int) + body + if body.len() % 2 == 1 {
        seq![0u8]
    } else {
        Seq::<u8>::empty()
    }
}

/// `b` with one more chunk, of id `id` and body `body`, inserted at `pos`.
pub open spec fn with_chunk_inserted(b: Seq<u8>, pos: int, id: Seq<u8>, body: Seq<u8>) -> Seq<
    u8,
> {
    b.subrange(0, pos) + chunk_bytes(id, body) + b.subrange(pos, b.len() as int)
}

/// The header walk started at the chunk at `q` goes on to the chunk
/// boundary `pos`: every chunk it passes on the way is complete, is not the
/// `"data"` chunk, and is followed by another chunk header.
pub open spec fn walk_reaches(b: Seq<u8>, q: int, pos: int) -> bool
    decreases pos - q,
{
    if q == pos {
        true
    } else if q > pos || q + 8 > b.len() || is_data_id(b, q) {
        false
    } else if is_fmt_id(b, q) && q + 8 + chunk_size(b, q) > b.len() {
        false
    } else if after_chunk(b, q) + 8 > b.len() || after_chunk(b, q) > pos {
        false
    } else {
        walk_reaches(b, after_chunk(b, q), pos)
    }
}

/// The header walk reads the same in `b2` from `q + d` as in `b` from `q`
/// when `b2` holds the bytes of `b` from `pos` on, `d` places later.
proof fn lemma_header_scan_shift(b: Seq<u8>, b2: Seq<u8>, pos: int, d: int, q: int, f: WavFormat)
    requires
        0 <= pos <= q,
        0 <= d,
        b2.len() == b.len() + d,
        forall|i: int| pos <= i < b.len() ==> #[trigger] b2[i + d] == b[i],
    ensures
        header_scan(b2, q + d, f) == header_scan(b, q, f),
    decreases b.len() - q,
{
    if q + 8 <= b.len() {
        assert forall|k: int| 0 <= k < 8 implies #[trigger] b2[q + d + k] == b[q + k] by {
            assert(b2[(q + k) + d] == b[q + k]);
        }
        assert(b2[q + d] == b[q] && b2[q + d + 1] == b[q + 1] && b2[q + d + 2] == b[q + 2]);
        assert(b2[q + d + 3] == b[q + 3] && b2[q + d + 4] == b[q + 4] && b2[q + d + 5] == b[q + 5]);
        assert(b2[q + d + 6] == b[q + 6] && b2[q + d + 7] == b[q + 7]);
        assert(chunk_size(b2, q + d) == chunk_size(b, q));
        assert(after_chunk(b2, q + d) == after_chunk(b, q) + d);
        if is_fmt_id(b, q) && q + 8 + chunk_size(b, q) <= b.len() {
            let n = chunk_size(b, q);
            assert forall|k: int| 0 <= k < n implies #[trigger] b2.subrange(
                q + d + 8,
                q + d + 8 + n,
            )[k] == b.subrange(q + 8, q + 8 + n)[k] by {
                assert(b2[(q + 8 + k) + d] == b[q + 8 + k]);
            }
            assert(b2.subrange(q + d + 8, q + d + 8 + n) =~= b.subrange(q + 8, q + 8 + n));
        }
        if after_chunk(b, q) + 8 <= b.len() {
            let f2 = if is_fmt_id(b, q) && chunk_size(b, q) >= 16 {
                fmt_fields(b.subrange(q + 8, q + 8 + chunk_size(b, q)))
            } else {
                f
            };
            lemma_header_scan_shift(b, b2, pos, d, after_chunk(b, q), f2);
            lemma_header_scan_shift(b, b2, pos, d, after_chunk(b, q), f);
        }
    }
}

/// Along the walk up to `pos`, `b2` reads as `b` when the two agree before
/// `pos` and their walks agree from `pos` on.
proof fn lemma_header_scan_prefix(b: Seq<u8>, b2: Seq<u8>, pos: int, q: int, f: WavFormat)
    requires
        0 <= q,
        walk_reaches(b, q, pos),
        b2.len() >= b.len(),
        forall|i: int| 0 <= i < pos ==> #[trigger] b2[i] == b[i],
        forall|g: WavFormat| #[trigger] header_scan(b2, pos, g) == header_scan(b, pos, g),
    ensures
        header_scan(b2, q, f) == header_scan(b, q, f),
    decreases pos - q,
{
    if q != pos {
        let next = after_chunk(b, q);
        assert(b2[q] == b[q] && b2[q + 1] == b[q + 1] && b2[q + 2] == b[q + 2] && b2[q + 3] == b[q
            + 3]);
        assert(b2[q + 4] == b[q + 4] && b2[q + 5] == b[q + 5] && b2[q + 6] == b[q + 6] && b2[q + 7]
            == b[q + 7]);
        assert(chunk_size(b2, q) == chunk_size(b, q));
        let n = chunk_size(b, q);
        let f2 = if is_fmt_id(b, q) && n >= 16 {
            fmt_fields(b.subrange(q + 8, q + 8 + n))
        } else {
            f
        };
        if is_fmt_id(b, q) {
            assert(b2.subrange(q + 8, q + 8 + n) =~= b.subrange(q + 8, q + 8 + n));
        }
        lemma_header_scan_prefix(b, b2, pos, next, f2);
    }
}

/// Reading a header skips any chunk that is neither `"fmt "` nor `"data"`:
/// inserting one (a metadata chunk such as `LIST` or `fact`) at a chunk
/// boundary that the walk reaches, such as just after the RIFF header or
/// just before the `"data"` chunk, leaves the result unchanged, success or
/// error alike.
pub proof fn metadata_chunk_is_skipped(b: Seq<u8>, pos: int, id: Seq<u8>, body: Seq<u8>)
    requires
        has_riff_wave_header(b),
        12 <= pos <= b.len(),
        walk_reaches(b, 12, pos),
        id.len() == 4,
        id != fmt_tag(),
        id != data_tag(),
        body.len() <= u32::MAX,
    ensures
        spec_parse_wav_header(with_chunk_inserted(b, pos, id, body)) == spec_parse_wav_header(b),
{
    let c = chunk_bytes(id, body);
    let b2 = with_chunk_inserted(b, pos, id, body);
    let k = body.len() as int;
    let d = c.len() as int;
    assert(d == 8 + k + k % 2);
    assert(b2.len() == b.len() + d);
    assert forall|i: int| 0 <= i < pos implies #[trigger] b2[i] == b[i] by {}
    assert forall|i: int| pos <= i < b.len() implies #[trigger] b2[i + d] == b[i] by {}
    assert forall|j: int| 0 <= j < d implies #[trigger] b2[pos + j] == c[j] by {}
    // The inserted chunk's header.
    lemma_le32_round_trip(k);
    let l = le32_bytes(k);
    assert(c[4] == l[0] && c[5] == l[1] && c[6] == l[2] && c[7] == l[3]);
    assert(b2[pos + 4] == c[4] && b2[pos + 5] == c[5] && b2[pos + 6] == c[6] && b2[pos + 7]
        == c[7]);
    assert(chunk_size(b2, pos) == k);
    assert(b2[pos] == id[0] && b2[pos + 1] == id[1] && b2[pos + 2] == id[2] && b2[pos + 3]
        == id[3]);
    if is_fmt_id(b2, pos) {
        assert(id =~= fmt_tag());
    }
    if is_data_id(b2, pos) {
        assert(id =~= data_tag());
    }
    assert(after_chunk(b2, pos) == pos + d);
    assert forall|g: WavFormat| #[trigger] header_scan(b2, pos, g) == header_scan(b, pos, g) by {
        lemma_header_scan_shift(b, b2, pos, d, pos, g);
    }
    lemma_header_scan_prefix(b, b2, pos, 12, no_format());
    assert(has_riff_wave_header(b2)) by {
        assert(b2[0] == b[0] && b2[1] == b[1] && b2[2] == b[2] && b2[3] == b[3]);
        assert(b2[8] == b[8] && b2[9] == b[9] && b2[10] == b[10] && b2[11] == b[11]);
    }
}

} // verus!
