use cautious_carnival::wav::{
    parse_wav_header, track_plan, TrackPlan, WavError, WavFormat, WavMergeError, WavMerger,
};

fn le16(v: u16) -> [u8; 2] {
    v.to_le_bytes()
}

fn le32(v: u32) -> [u8; 4] {
    v.to_le_bytes()
}

fn fmt_body(channels: u16, rate: u32, bits: u16) -> Vec<u8> {
    let mut b = Vec::new();
    b.extend_from_slice(&le16(1));
    b.extend_from_slice(&le16(channels));
    b.extend_from_slice(&le32(rate));
    b.extend_from_slice(&le32(rate * channels as u32 * bits as u32 / 8));
    b.extend_from_slice(&le16(channels * bits / 8));
    b.extend_from_slice(&le16(bits));
    b
}

fn chunk(id: &[u8; 4], body: &[u8]) -> Vec<u8> {
    let mut c = Vec::new();
    c.extend_from_slice(id);
    c.extend_from_slice(&le32(body.len() as u32));
    c.extend_from_slice(body);
    if body.len() % 2 == 1 {
        c.push(0);
    }
    c
}

fn riff(chunks: &[Vec<u8>]) -> Vec<u8> {
    let mut body = Vec::new();
    for c in chunks {
        body.extend_from_slice(c);
    }
    let mut out = Vec::new();
    out.extend_from_slice(b"RIFF");
    out.extend_from_slice(&le32(4 + body.len() as u32));
    out.extend_from_slice(b"WAVE");
    out.extend_from_slice(&body);
    out
}

fn wav(channels: u16, rate: u32, bits: u16, pcm: &[u8]) -> Vec<u8> {
    riff(&[chunk(b"fmt ", &fmt_body(channels, rate, bits)), chunk(b"data", pcm)])
}

#[test]
fn header_of_plain_file() {
    let bytes = wav(2, 44100, 16, &[0u8; 400]);
    let h = parse_wav_header(&bytes).unwrap();
    assert_eq!(h.format, WavFormat { channels: 2, sample_rate: 44100, bits_per_sample: 16 });
    assert_eq!(h.data_size, 400);
}

#[test]
fn header_skips_metadata_chunks() {
    let bytes = riff(&[
        chunk(b"LIST", b"INFOabc"),
        chunk(b"fmt ", &fmt_body(1, 22050, 8)),
        chunk(b"fact", &le32(7)),
        chunk(b"data", &[1, 2, 3, 4, 5, 6, 7]),
    ]);
    let h = parse_wav_header(&bytes).unwrap();
    assert_eq!(h.format, WavFormat { channels: 1, sample_rate: 22050, bits_per_sample: 8 });
    assert_eq!(h.data_size, 7);
}

#[test]
fn header_rejects_short_or_foreign_files() {
    assert_eq!(parse_wav_header(b"RIFF"), Err(WavError::NotRiffWave));
    let mut bytes = wav(1, 8000, 16, &[0, 0]);
    bytes[8] = b'X';
    assert_eq!(parse_wav_header(&bytes), Err(WavError::NotRiffWave));
    let mut bytes = wav(1, 8000, 16, &[0, 0]);
    bytes[0] = b'r';
    assert_eq!(parse_wav_header(&bytes), Err(WavError::NotRiffWave));
}

#[test]
fn header_without_data_is_missing() {
    let bytes = riff(&[chunk(b"fmt ", &fmt_body(1, 8000, 16))]);
    assert_eq!(parse_wav_header(&bytes), Err(WavError::MissingFmtOrData));
}

#[test]
fn header_with_empty_data_is_missing() {
    let bytes = wav(1, 8000, 16, &[]);
    assert_eq!(parse_wav_header(&bytes), Err(WavError::MissingFmtOrData));
}

#[test]
fn header_without_fmt_is_missing() {
    let bytes = riff(&[chunk(b"data", &[1, 2, 3, 4])]);
    assert_eq!(parse_wav_header(&bytes), Err(WavError::MissingFmtOrData));
}

#[test]
fn header_with_zero_rate_is_missing() {
    let bytes = wav(1, 0, 16, &[1, 2]);
    assert_eq!(parse_wav_header(&bytes), Err(WavError::MissingFmtOrData));
}

#[test]
fn header_with_zero_channels_is_malformed() {
    let bytes = wav(0, 8000, 16, &[1, 2]);
    assert_eq!(parse_wav_header(&bytes), Err(WavError::MalformedHeader));
}

#[test]
fn header_with_truncated_fmt_stops_the_walk() {
    let mut bytes = riff(&[]);
    bytes.extend_from_slice(b"fmt ");
    bytes.extend_from_slice(&le32(100));
    bytes.extend_from_slice(&[0u8; 20]);
    assert_eq!(parse_wav_header(&bytes), Err(WavError::MissingFmtOrData));
}

#[test]
fn header_data_size_is_the_declared_size() {
    // The declared size is reported even when the file is cut short.
    let mut bytes = riff(&[chunk(b"fmt ", &fmt_body(1, 8000, 16))]);
    bytes.extend_from_slice(b"data");
    bytes.extend_from_slice(&le32(1000));
    bytes.extend_from_slice(&[9u8; 10]);
    let h = parse_wav_header(&bytes).unwrap();
    assert_eq!(h.data_size, 1000);
}

#[test]
fn merge_two_clips() {
    let a = wav(1, 16000, 16, &[1, 2, 3, 4]);
    let b = riff(&[
        chunk(b"fmt ", &fmt_body(1, 16000, 16)),
        chunk(b"LIST", b"xyz"),
        chunk(b"data", &[5, 6]),
    ]);
    let mut m = WavMerger::from_first_clip(&a).unwrap();
    assert_eq!(m.format(), WavFormat { channels: 1, sample_rate: 16000, bits_per_sample: 16 });
    assert_eq!(m.pcm_len(), 0);
    m.push_clip(&a).unwrap();
    m.push_clip(&b).unwrap();
    assert_eq!(m.pcm_len(), 6);
    let out = m.to_wav_bytes();
    assert_eq!(out, wav(1, 16000, 16, &[1, 2, 3, 4, 5, 6]));
    assert_eq!(out.len(), 44 + 6);
    assert_eq!(&out[4..8], &le32(36 + 6));
}

#[test]
fn merged_file_reads_back() {
    let a = wav(2, 48000, 16, &[7u8; 8]);
    let b = wav(2, 48000, 16, &[8u8; 12]);
    let mut m = WavMerger::from_first_clip(&a).unwrap();
    m.push_clip(&a).unwrap();
    m.push_clip(&b).unwrap();
    let out = m.to_wav_bytes();
    let h = parse_wav_header(&out).unwrap();
    assert_eq!(h.format, m.format());
    assert_eq!(h.data_size, 20);
    let again = WavMerger::from_first_clip(&out).unwrap();
    assert_eq!(again.format(), m.format());
}

#[test]
fn merge_takes_data_cut_short() {
    let a = wav(1, 8000, 8, &[1, 2]);
    let mut short = riff(&[chunk(b"fmt ", &fmt_body(1, 8000, 8))]);
    short.extend_from_slice(b"data");
    short.extend_from_slice(&le32(50));
    short.extend_from_slice(&[3, 4, 5]);
    let mut m = WavMerger::from_first_clip(&a).unwrap();
    m.push_clip(&short).unwrap();
    assert_eq!(m.pcm_len(), 3);
}

#[test]
fn merge_refuses_invalid_first_clip() {
    let a = wav(1, 8000, 16, &[]);
    // 44 bytes are needed.
    assert_eq!(WavMerger::from_first_clip(&a[..43]).err(), Some(WavMergeError::InvalidFirstClip));
    let mut b = wav(1, 8000, 16, &[0, 0]);
    b[1] = b'X';
    assert_eq!(WavMerger::from_first_clip(&b).err(), Some(WavMergeError::InvalidFirstClip));
}

#[test]
fn merge_refuses_first_clip_without_format() {
    let a = riff(&[chunk(b"data", &[0u8; 40])]);
    assert_eq!(WavMerger::from_first_clip(&a).err(), Some(WavMergeError::MissingFmtOrData));
    let b = wav(1, 8000, 0, &[0u8; 4]);
    assert_eq!(WavMerger::from_first_clip(&b).err(), Some(WavMergeError::MissingFmtOrData));
    let mut c = riff(&[chunk(b"fmt ", &fmt_body(1, 8000, 16))]);
    c.extend_from_slice(&[0u8; 8]);
    assert_eq!(WavMerger::from_first_clip(&c).err(), Some(WavMergeError::MissingFmtOrData));
}

#[test]
fn merge_refuses_clip_without_data() {
    let a = wav(1, 8000, 16, &[1, 2]);
    let mut m = WavMerger::from_first_clip(&a).unwrap();
    m.push_clip(&a).unwrap();
    let no_data = riff(&[chunk(b"fmt ", &fmt_body(1, 8000, 16))]);
    assert_eq!(m.push_clip(&no_data), Err(WavMergeError::NoDataChunk));
    assert_eq!(m.push_clip(b"tiny"), Err(WavMergeError::NoDataChunk));
    assert_eq!(m.pcm_len(), 2);
}

#[test]
fn merge_keeps_odd_fmt_body() {
    let mut body = fmt_body(1, 8000, 16);
    body.push(0xAA);
    let a = riff(&[chunk(b"fmt ", &body), chunk(b"data", &[1, 2, 3, 4])]);
    let mut m = WavMerger::from_first_clip(&a).unwrap();
    m.push_clip(&a).unwrap();
    let out = m.to_wav_bytes();
    // The 17-byte body is copied without its pad byte.
    assert_eq!(&out[16..20], &le32(17));
    assert_eq!(out[36], 0xAA);
    assert_eq!(&out[37..41], b"data");
}

#[test]
fn metadata_chunk_is_skipped_example() {
    let plain = wav(2, 44100, 16, &[0u8; 40]);
    let with_list = riff(&[
        chunk(b"fmt ", &fmt_body(2, 44100, 16)),
        chunk(b"LIST", b"INFOisft"),
        chunk(b"fact", &[1, 2, 3]),
        chunk(b"data", &[0u8; 40]),
    ]);
    let first = riff(&[
        chunk(b"LIST", b"odd"),
        chunk(b"fmt ", &fmt_body(2, 44100, 16)),
        chunk(b"data", &[0u8; 40]),
    ]);
    assert_eq!(parse_wav_header(&with_list), parse_wav_header(&plain));
    assert_eq!(parse_wav_header(&first), parse_wav_header(&plain));
    let bad = wav(0, 44100, 16, &[1, 2]);
    let bad_list = riff(&[
        chunk(b"LIST", b"x"),
        chunk(b"fmt ", &fmt_body(0, 44100, 16)),
        chunk(b"data", &[1, 2]),
    ]);
    assert_eq!(parse_wav_header(&bad_list), parse_wav_header(&bad));
}

#[test]
fn track_plans() {
    assert_eq!(track_plan(0), Err(WavMergeError::EmptyTrack));
    assert_eq!(track_plan(1), Ok(TrackPlan::CopySingle));
    assert_eq!(track_plan(2), Ok(TrackPlan::Merge));
    assert_eq!(track_plan(usize::MAX), Ok(TrackPlan::Merge));
}
