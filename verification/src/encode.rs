//! What the output backends decide before handing frames to an encoder:
//! numbered file names, the `ffmpeg` command lines, the size of a raw frame
//! and the delay of a GIF frame.

use vstd::prelude::*;

use crate::decimal::{
    decimal, decimal_round_trip, decimal_string, digits_value, push_decimal, push_zero_padded,
    zero_padded,
};
use crate::strings::{owned, push_all};
use crate::tts::texts;
use gif::Frame;

verus! {

// ---------------------------------------------------------------------------
// Numbered names
// ---------------------------------------------------------------------------

/// `frame_NNNNNN.png`: the PNG of frame `n`, numbered with at least six digits.
pub open spec fn frame_file_name_of(n: nat) -> Seq<char> {
    "frame_"@ + zero_padded(n, 6) + ".png"@
}

/// `voiceover_NNNN.wav`: the WAV of the `n`-th voiceover clip, numbered with
/// at least four digits.
pub open spec fn voiceover_file_name_of(n: nat) -> Seq<char> {
    "voiceover_"@ + zero_padded(n, 4) + ".wav"@
}

/// `mobj_N`: the id given to the `n`-th mobject added without one.
pub open spec fn auto_mobject_id_of(n: nat) -> Seq<char> {
    "mobj_"@ + decimal(n)
}

/// File name of the PNG written for frame `frame`.
pub fn frame_file_name(frame: u32) -> (name: String)
    ensures
        name@ == frame_file_name_of(frame as nat),
{
    let mut s = owned("frame_");
    push_zero_padded(&mut s, frame as u64, 6);
    push_all(&mut s, ".png");
    s
}

/// File name of the WAV written for the voiceover clip with index `index`.
pub fn voiceover_file_name(index: usize) -> (name: String)
    ensures
        name@ == voiceover_file_name_of(index as nat),
{
    let mut s = owned("voiceover_");
    push_zero_padded(&mut s, index as u64, 4);
    push_all(&mut s, ".wav");
    s
}

/// The id given to a mobject added without one when `count` mobjects are
/// already in the scene.
pub fn auto_mobject_id(count: usize) -> (id: String)
    ensures
        id@ == auto_mobject_id_of(count as nat),
{
    let mut s = owned("mobj_");
    push_decimal(&mut s, count as u64);
    s
}

/// Distinct frames are written to distinct files.
pub proof fn frame_file_names_distinct(a: nat, b: nat)
    requires
        a != b,
    ensures
        frame_file_name_of(a) != frame_file_name_of(b),
{
    if frame_file_name_of(a) == frame_file_name_of(b) {
        let pa = "frame_"@ + zero_padded(a, 6);
        let pb = "frame_"@ + zero_padded(b, 6);
        let ext = ".png"@;
        assert(frame_file_name_of(a) == pa + ext);
        assert(frame_file_name_of(b) == pb + ext);
        assert((pa + ext).len() == pa.len() + ext.len());
        assert((pb + ext).len() == pb.len() + ext.len());
        assert(pa.len() == pb.len());
        assert(pa =~= (pa + ext).subrange(0, pa.len() as int));
        assert(pb =~= (pb + ext).subrange(0, pb.len() as int));
        assert(zero_padded(a, 6) =~= pa.subrange("frame_"@.len() as int, pa.len() as int));
        assert(zero_padded(b, 6) =~= pb.subrange("frame_"@.len() as int, pb.len() as int));
        crate::decimal::zero_padded_injective(a, b, 6);
    }
}

// ---------------------------------------------------------------------------
// ffmpeg command lines
// ---------------------------------------------------------------------------

/// The video codec chosen for an output file: VP8 for `.webm`, H.264 otherwise.
pub open spec fn video_codec(webm: bool) -> Seq<char> {
    if webm {
        "libvpx"@
    } else {
        "libx264"@
    }
}

/// The `ffmpeg` arguments that encode raw RGBA frames of `width` × `height`
/// at `fps`, read from standard input, into the file `path`.
pub open spec fn video_encode_args(
    path: Seq<char>,
    width: u32,
    height: u32,
    fps: u32,
    webm: bool,
) -> Seq<Seq<char>> {
    seq![
        "-y"@,
        "-f"@,
        "rawvideo"@,
        "-pix_fmt"@,
        "rgba"@,
        "-s"@,
        decimal(width as nat) + "x"@ + decimal(height as nat),
        "-r"@,
        decimal(fps as nat),
        "-i"@,
        "-"@,
        "-c:v"@,
        video_codec(webm),
        "-pix_fmt"@,
        "yuv420p"@,
        "-crf"@,
        "18"@,
        path,
    ]
}

/// The `ffmpeg` arguments of the video backend for the output `path` (`webm`
/// tells whether its extension is `webm`).
pub fn video_encoder_args(path: &str, width: u32, height: u32, fps: u32, webm: bool) -> (args: Vec<
    String,
>)
    ensures
        texts(args@) == video_encode_args(path@, width, height, fps, webm),
{
    let mut size = decimal_string(width as u64);
    push_all(&mut size, "x");
    push_decimal(&mut size, height as u64);
    let codec = if webm {
        owned("libvpx")
    } else {
        owned("libx264")
    };
    let mut args: Vec<String> = Vec::new();
    args.push(owned("-y"));
    args.push(owned("-f"));
    args.push(owned("rawvideo"));
    args.push(owned("-pix_fmt"));
    args.push(owned("rgba"));
    args.push(owned("-s"));
    args.push(size);
    args.push(owned("-r"));
    args.push(decimal_string(fps as u64));
    args.push(owned("-i"));
    args.push(owned("-"));
    args.push(owned("-c:v"));
    args.push(codec);
    args.push(owned("-pix_fmt"));
    args.push(owned("yuv420p"));
    args.push(owned("-crf"));
    args.push(owned("18"));
    args.push(owned(path));
    assert(texts(args@) =~= video_encode_args(path@, width, height, fps, webm));
    args
}

/// The `ffmpeg` arguments of the pipe encoder for `path`: quiet output, raw
/// RGBA frames of `width` × `height` at `fps` from standard input, H.264 with
/// the `fast` preset, overwriting `path`.
pub open spec fn pipe_encode_args(path: Seq<char>, width: u32, height: u32, fps: u32) -> Seq<
    Seq<char>,
> {
    seq![
        "-hide_banner"@,
        "-loglevel"@,
        "error"@,
        "-f"@,
        "rawvideo"@,
        "-pix_fmt"@,
        "rgba"@,
        "-s"@,
        decimal(width as nat) + "x"@ + decimal(height as nat),
        "-framerate"@,
        decimal(fps as nat),
        "-i"@,
        "pipe:0"@,
        "-c:v"@,
        "libx264"@,
        "-pix_fmt"@,
        "yuv420p"@,
        "-preset"@,
        "fast"@,
        "-y"@,
        path,
    ]
}

/// The `ffmpeg` arguments of the pipe encoder that writes `path`.
pub fn pipe_encoder_args(path: &str, width: u32, height: u32, fps: u32) -> (args: Vec<String>)
    ensures
        texts(args@) == pipe_encode_args(path@, width, height, fps),
{
    let mut size = decimal_string(width as u64);
    push_all(&mut size, "x");
    push_decimal(&mut size, height as u64);
    let mut args: Vec<String> = Vec::new();
    args.push(owned("-hide_banner"));
    args.push(owned("-loglevel"));
    args.push(owned("error"));
    args.push(owned("-f"));
    args.push(owned("rawvideo"));
    args.push(owned("-pix_fmt"));
    args.push(owned("rgba"));
    args.push(owned("-s"));
    args.push(size);
    args.push(owned("-framerate"));
    args.push(decimal_string(fps as u64));
    args.push(owned("-i"));
    args.push(owned("pipe:0"));
    args.push(owned("-c:v"));
    args.push(owned("libx264"));
    args.push(owned("-pix_fmt"));
    args.push(owned("yuv420p"));
    args.push(owned("-preset"));
    args.push(owned("fast"));
    args.push(owned("-y"));
    args.push(owned(path));
    assert(texts(args@) =~= pipe_encode_args(path@, width, height, fps));
    args
}

/// The audio codec chosen when muxing narration: Vorbis for `.webm`, AAC
/// otherwise.
pub open spec fn audio_codec(webm: bool) -> Seq<char> {
    if webm {
        "libvorbis"@
    } else {
        "aac"@
    }
}

/// The `ffmpeg` arguments that copy the video stream of `video`, encode the
/// audio of `audio`, and write both into `out`, ending with the shorter one.
pub open spec fn mux_args_of(video: Seq<char>, audio: Seq<char>, out: Seq<char>, webm: bool) -> Seq<
    Seq<char>,
> {
    seq![
        "-y"@,
        "-i"@,
        video,
        "-i"@,
        audio,
        "-c:v"@,
        "copy"@,
        "-c:a"@,
        audio_codec(webm),
        "-shortest"@,
        out,
    ]
}

/// The `ffmpeg` arguments that mux narration into a video (`webm` tells
/// whether the output's extension is `webm`).
pub fn mux_args(video: &str, audio: &str, out: &str, webm: bool) -> (args: Vec<String>)
    ensures
        texts(args@) == mux_args_of(video@, audio@, out@, webm),
{
    let codec = if webm {
        owned("libvorbis")
    } else {
        owned("aac")
    };
    let mut args: Vec<String> = Vec::new();
    args.push(owned("-y"));
    args.push(owned("-i"));
    args.push(owned(video));
    args.push(owned("-i"));
    args.push(owned(audio));
    args.push(owned("-c:v"));
    args.push(owned("copy"));
    args.push(owned("-c:a"));
    args.push(codec);
    args.push(owned("-shortest"));
    args.push(owned(out));
    assert(texts(args@) =~= mux_args_of(video@, audio@, out@, webm));
    args
}

/// The helper script left next to a PNG frame sequence: it shows the
/// `ffmpeg` command that assembles the frames at `fps` into a video.
pub open spec fn frame_script_of(fps: u32) -> Seq<char> {
    "#!/bin/sh\n# Auto-generated by cautious-carnival.\n                 # Run from the directory containing this script.\n                 ffmpeg -y -framerate "@
        + decimal(fps as nat)
        + " -i frame_%06d.png -c:v libx264 \\\n                   -pix_fmt yuv420p -crf 18 ../output.mp4\n"@
}

/// The text of the helper script for a frame sequence rendered at `fps`.
pub fn frame_script(fps: u32) -> (s: String)
    ensures
        s@ == frame_script_of(fps),
{
    let mut s = owned(
        "#!/bin/sh\n# Auto-generated by cautious-carnival.\n                 # Run from the directory containing this script.\n                 ffmpeg -y -framerate ",
    );
    push_decimal(&mut s, fps as u64);
    push_all(
        &mut s,
        " -i frame_%06d.png -c:v libx264 \\\n                   -pix_fmt yuv420p -crf 18 ../output.mp4\n",
    );
    s
}

// ---------------------------------------------------------------------------
// Frame sizes and timing
// ---------------------------------------------------------------------------

/// A raw frame of the wrong size.
#[derive(Debug, Clone, Copy, PartialEq, Eq, Structural)]
pub struct FrameSizeMismatch {
    /// The length received.
    pub actual: usize,
    /// The length of `width * height` RGBA pixels.
    pub expected: usize,
}

/// Checks that a raw RGBA frame of `len` bytes holds exactly `width` ×
/// `height` pixels.  The byte count `width * height * 4` is computed in 32
/// bits and must fit there.
pub fn check_frame_len(width: u32, height: u32, len: usize) -> (r: Result<(), FrameSizeMismatch>)
    requires
        width * height * 4 <= u32::MAX,
    ensures
        r is Ok <==> len == width * height * 4,
        r matches Err(e) ==> e.actual == len && e.expected == width * height * 4,
{
    assert(width * height <= u32::MAX) by (nonlinear_arith)
        requires
            width * height * 4 <= u32::MAX,
    ;
    let expected = (width * height * 4) as usize;
    if len != expected {
        Err(FrameSizeMismatch { actual: len, expected })
    } else {
        Ok(())
    }
}

/// `a / b` rounded to the nearest integer, halves rounded up.
pub open spec fn round_div(a: int, b: int) -> int {
    (2 * a + b) / (2 * b)
}

/// The delay of one GIF frame in hundredths of a second at `fps` frames per
/// second: `100 / fps` rounded to the nearest hundredth, and at least 1.
pub fn gif_frame_delay(fps: u32) -> (centis: u16)
    requires
        fps >= 1,
    ensures
        centis == gif_delay_of_fps(fps as int),
{
    let f = fps as u64;
    let r = (200 + f) / (2 * f);
    assert(r <= 100) by (nonlinear_arith)
        requires
            f >= 1,
            r == (200 + f) / (2 * f),
    ;
    if r < 1 {
        1
    } else {
        r as u16
    }
}

/// The delay of a GIF frame at `fps` frames per second, as
/// [`gif_frame_delay`] computes it.
pub open spec fn gif_delay_of_fps(fps: int) -> int {
    if round_div(100, fps) < 1 {
        1
    } else {
        round_div(100, fps)
    }
}

#[verifier::external_type_specification]
#[verifier::external_body]
pub struct ExGifFrame<'a>(Frame<'a>);

/// The `(width, height)` of a GIF frame.
pub uninterp spec fn gif_frame_size(f: Frame<'static>) -> (u16, u16);

/// The delay of a GIF frame, in hundredths of a second.
pub uninterp spec fn gif_frame_delay_field(f: Frame<'static>) -> u16;

/// What a GIF frame shows: its local palette (RGB triples), its pixel
/// indices into that palette, and its transparent index if it has one.
pub uninterp spec fn gif_frame_content(f: Frame<'static>) -> (Seq<u8>, Seq<u8>, Option<u8>);

/// The content that `gif` builds for a `width` × `height` frame from the RGBA
/// `pixels` at quantisation speed `speed`.
pub uninterp spec fn gif_quantise(width: u16, height: u16, pixels: Seq<u8>, speed: i32) -> (
    Seq<u8>,
    Seq<u8>,
    Option<u8>,
);

/// The first pixel with alpha 0 among the first `n` RGBA pixels of `px`.
pub open spec fn first_transparent(px: Seq<u8>, n: int) -> Option<(u8, u8, u8, u8)>
    decreases n,
{
    if n <= 0 {
        None
    } else {
        match first_transparent(px, n - 1) {
            Some(t) => Some(t),
            None => if px[4 * (n - 1) + 3] == 0 {
                Some((px[4 * (n - 1)], px[4 * (n - 1) + 1], px[4 * (n - 1) + 2], px[4 * (n - 1) + 3]))
            } else {
                None
            },
        }
    }
}

/// The RGBA pixels as the GIF frame builder leaves them: every pixel with a
/// non-zero alpha becomes opaque, and every pixel with alpha 0 takes the
/// value of the first such pixel.
pub open spec fn gif_opaque_pixels(px: Seq<u8>) -> Seq<u8> {
    Seq::new(
        px.len(),
        |i: int|
            {
                let k = i / 4;
                let c = i % 4;
                if px[4 * k + 3] != 0 {
                    if c == 3 {
                        255u8
                    } else {
                        px[i]
                    }
                } else {
                    match first_transparent(px, k) {
                        Some(t) => if c == 0 {
                            t.0
                        } else if c == 1 {
                            t.1
                        } else if c == 2 {
                            t.2
                        } else {
                            t.3
                        },
                        None => px[i],
                    }
                }
            },
    )
}

/// A GIF frame quantised from RGBA pixels (`gif::Frame::from_rgba_speed`).
///
/// As the crate's source shows, the call panics unless `pixels` holds
/// exactly `width * height * 4` bytes and `speed` lies in 1–30.  It first
/// rewrites `pixels` ([`gif_opaque_pixels`]), then builds a palette: the
/// exact colours when there are at most 256, else a NeuQuant quantisation.
/// The frame has the given size and a delay of 0 (the default); its content
/// depends on the arguments alone (ordered sets and maps, no randomness) and
/// is named [`gif_quantise`].
#[verifier::external_body]
fn frame_from_rgba(width: u16, height: u16, pixels: &mut Vec<u8>, speed: i32) -> (f: Frame<
    'static,
>)
    requires
        old(pixels)@.len() == width * height * 4,
        1 <= speed <= 30,
    ensures
        gif_frame_size(f) == (width, height),
        gif_frame_delay_field(f) == 0,
        gif_frame_content(f) == gif_quantise(width, height, old(pixels)@, speed),
        final(pixels)@ == gif_opaque_pixels(old(pixels)@),
{
    Frame::from_rgba_speed(width, height, pixels.as_mut_slice(), speed)
}

/// Sets the delay of a GIF frame (its public `delay` field).
#[verifier::external_body]
fn set_frame_delay(f: &mut Frame<'static>, delay: u16)
    ensures
        gif_frame_delay_field(*final(f)) == delay,
        gif_frame_size(*final(f)) == gif_frame_size(*old(f)),
        gif_frame_content(*final(f)) == gif_frame_content(*old(f)),
{
    f.delay = delay;
}

/// One frame of an animated GIF at `fps` frames per second: the RGBA pixels
/// of a `width` × `height` image quantised to a local palette at speed 10,
/// shown for [`gif_frame_delay`] hundredths of a second.  `pixels` is left
/// as the frame builder rewrites it.
pub fn gif_frame(width: u16, height: u16, pixels: &mut Vec<u8>, fps: u32) -> (f: Frame<'static>)
    requires
        old(pixels)@.len() == width * height * 4,
        fps >= 1,
    ensures
        gif_frame_size(f) == (width, height),
        gif_frame_delay_field(f) == gif_delay_of_fps(fps as int),
        gif_frame_content(f) == gif_quantise(width, height, old(pixels)@, 10i32),
        final(pixels)@ == gif_opaque_pixels(old(pixels)@),
{
    let mut f = frame_from_rgba(width, height, pixels, 10);
    let delay = gif_frame_delay(fps);
    set_frame_delay(&mut f, delay);
    f
}

/// Rounding to the nearest integer: `round_div(a, b)` differs from `a / b` by
/// at most one half (a half rounds up), so the GIF delay is `100 / fps`
/// rounded to the nearest hundredth of a second.
pub proof fn round_div_is_nearest(a: int, b: int)
    requires
        b > 0,
    ensures
        -b <= 2 * (a - b * round_div(a, b)) < b,
{
    let q = round_div(a, b);
    vstd::arithmetic::div_mod::lemma_fundamental_div_mod(2 * a + b, 2 * b);
    assert((2 * b) * q == 2 * (b * q)) by (nonlinear_arith);
}

// ---------------------------------------------------------------------------
// Laws of the command lines
// ---------------------------------------------------------------------------

/// The video codec is the only thing the container changes: the arguments
/// for `.webm` and for any other extension agree everywhere but at the codec
/// (VP8 against H.264).  In particular the raw input is described the same
/// way for both.
pub proof fn video_container_changes_only_the_codec(path: Seq<char>, width: u32, height: u32, fps: u32, i: int)
    requires
        0 <= i < 18,
        i != 12,
    ensures
        video_encode_args(path, width, height, fps, true).len() == 18,
        video_encode_args(path, width, height, fps, false).len() == 18,
        video_encode_args(path, width, height, fps, true)[i] == video_encode_args(
            path,
            width,
            height,
            fps,
            false,
        )[i],
        video_encode_args(path, width, height, fps, true)[12] == "libvpx"@,
        video_encode_args(path, width, height, fps, false)[12] == "libx264"@,
{
}

/// The video encoder reads raw frames in RGBA order from standard input, at
/// the rate it is given (the rate argument reads back as `fps`), and writes
/// the file it is given; the output is in YUV 4:2:0.
pub proof fn video_input_is_raw_rgba(path: Seq<char>, width: u32, height: u32, fps: u32, webm: bool)
    ensures
        ({
            let a = video_encode_args(path, width, height, fps, webm);
            &&& a[1] == "-f"@ && a[2] == "rawvideo"@
            &&& a[3] == "-pix_fmt"@ && a[4] == "rgba"@
            &&& a[7] == "-r"@ && digits_value(a[8]) == fps
            &&& a[9] == "-i"@ && a[10] == "-"@
            &&& a[13] == "-pix_fmt"@ && a[14] == "yuv420p"@
            &&& a[17] == path
        }),
{
    decimal_round_trip(fps as nat);
}

/// The pipe encoder and the video renderer's encoder read the same input: raw
/// RGBA frames of the same size at the same rate.
pub proof fn encoders_read_the_same_input(path: Seq<char>, width: u32, height: u32, fps: u32, webm: bool)
    ensures
        pipe_encode_args(path, width, height, fps).subrange(3, 9) == video_encode_args(
            path,
            width,
            height,
            fps,
            webm,
        ).subrange(1, 7),
        pipe_encode_args(path, width, height, fps)[10] == video_encode_args(
            path,
            width,
            height,
            fps,
            webm,
        )[8],
        pipe_encode_args(path, width, height, fps)[20] == path,
{
    assert(pipe_encode_args(path, width, height, fps).subrange(3, 9) =~= video_encode_args(
        path,
        width,
        height,
        fps,
        webm,
    ).subrange(1, 7));
}

/// Muxing takes the video first and the narration second, whatever the
/// container, copies the video stream, and writes the output last.
pub proof fn mux_inputs_are_video_then_audio(video: Seq<char>, audio: Seq<char>, out: Seq<char>, webm: bool)
    ensures
        ({
            let a = mux_args_of(video, audio, out, webm);
            &&& a.len() == 11
            &&& a[1] == "-i"@ && a[2] == video
            &&& a[3] == "-i"@ && a[4] == audio
            &&& a[5] == "-c:v"@ && a[6] == "copy"@
            &&& a[7] == "-c:a"@
            &&& a[10] == out
        }),
{
}

/// The container changes only the audio codec of a mux (Vorbis for `.webm`,
/// AAC otherwise).
pub proof fn mux_container_changes_only_the_audio_codec(video: Seq<char>, audio: Seq<char>, out: Seq<char>, i: int)
    requires
        0 <= i < 11,
        i != 8,
    ensures
        mux_args_of(video, audio, out, true)[i] == mux_args_of(video, audio, out, false)[i],
        mux_args_of(video, audio, out, true)[8] == "libvorbis"@,
        mux_args_of(video, audio, out, false)[8] == "aac"@,
{
}

/// The pipe encoder reads raw RGBA frames from standard input at the rate it
/// is given and overwrites the file it is given.
pub proof fn pipe_input_is_raw_rgba(path: Seq<char>, width: u32, height: u32, fps: u32)
    ensures
        ({
            let a = pipe_encode_args(path, width, height, fps);
            &&& a.len() == 21
            &&& a[3] == "-f"@ && a[4] == "rawvideo"@
            &&& a[5] == "-pix_fmt"@ && a[6] == "rgba"@
            &&& a[9] == "-framerate"@ && digits_value(a[10]) == fps
            &&& a[11] == "-i"@ && a[12] == "pipe:0"@
            &&& a[19] == "-y"@ && a[20] == path
        }),
{
    decimal_round_trip(fps as nat);
}

} // verus!
