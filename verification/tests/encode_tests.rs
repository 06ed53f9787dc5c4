use cautious_carnival::encode::{
    auto_mobject_id, check_frame_len, frame_file_name, frame_script, gif_frame, gif_frame_delay, mux_args,
    pipe_encoder_args,
    video_encoder_args, voiceover_file_name, FrameSizeMismatch,
};

fn strs(v: &[String]) -> Vec<&str> {
    v.iter().map(|s| s.as_str()).collect()
}

#[test]
fn frame_names() {
    assert_eq!(frame_file_name(0), "frame_000000.png");
    assert_eq!(frame_file_name(42), "frame_000042.png");
    assert_eq!(frame_file_name(1234567), "frame_1234567.png");
    assert_eq!(frame_file_name(u32::MAX), format!("frame_{:06}.png", u32::MAX));
}

#[test]
fn frame_names_distinct_example() {
    let names: Vec<String> = (0..2000u32).map(frame_file_name).collect();
    let mut sorted = names.clone();
    sorted.sort();
    sorted.dedup();
    assert_eq!(sorted.len(), names.len());
}

#[test]
fn voiceover_names() {
    assert_eq!(voiceover_file_name(0), "voiceover_0000.wav");
    assert_eq!(voiceover_file_name(17), "voiceover_0017.wav");
    assert_eq!(voiceover_file_name(12345), "voiceover_12345.wav");
}

#[test]
fn mobject_ids() {
    assert_eq!(auto_mobject_id(0), "mobj_0");
    assert_eq!(auto_mobject_id(31), "mobj_31");
}

#[test]
fn video_arguments() {
    assert_eq!(
        strs(&video_encoder_args("out.mp4", 1920, 1080, 30, false)),
        vec![
            "-y", "-f", "rawvideo", "-pix_fmt", "rgba", "-s", "1920x1080", "-r", "30", "-i", "-",
            "-c:v", "libx264", "-pix_fmt", "yuv420p", "-crf", "18", "out.mp4"
        ]
    );
    let webm = video_encoder_args("clip.webm", 64, 48, 10, true);
    assert_eq!(webm[6], "64x48");
    assert_eq!(webm[8], "10");
    assert_eq!(webm[12], "libvpx");
    assert_eq!(webm[17], "clip.webm");
}

#[test]
fn mux_arguments() {
    assert_eq!(
        strs(&mux_args("v.mp4", "a.wav", "o.mp4", false)),
        vec!["-y", "-i", "v.mp4", "-i", "a.wav", "-c:v", "copy", "-c:a", "aac", "-shortest", "o.mp4"]
    );
    assert_eq!(mux_args("v.webm", "a.wav", "o.webm", true)[8], "libvorbis");
}

#[test]
fn helper_script_text() {
    let s = frame_script(24);
    assert!(s.starts_with("#!/bin/sh\n"));
    assert!(s.contains("ffmpeg -y -framerate 24 -i frame_%06d.png -c:v libx264"));
    assert!(s.ends_with("-pix_fmt yuv420p -crf 18 ../output.mp4\n"));
    assert_eq!(
        frame_script(60),
        "#!/bin/sh\n# Auto-generated by cautious-carnival.\n                 # Run from the directory containing this script.\n                 ffmpeg -y -framerate 60 -i frame_%06d.png -c:v libx264 \\\n                   -pix_fmt yuv420p -crf 18 ../output.mp4\n"
    );
}

#[test]
fn frame_length_check() {
    assert_eq!(check_frame_len(4, 3, 48), Ok(()));
    assert_eq!(check_frame_len(4, 3, 47), Err(FrameSizeMismatch { actual: 47, expected: 48 }));
    assert_eq!(check_frame_len(0, 3, 0), Ok(()));
    assert_eq!(check_frame_len(1, 1, 0), Err(FrameSizeMismatch { actual: 0, expected: 4 }));
}

#[test]
fn gif_delays() {
    assert_eq!(gif_frame_delay(10), 10);
    assert_eq!(gif_frame_delay(30), 3);
    assert_eq!(gif_frame_delay(8), 13);
    assert_eq!(gif_frame_delay(1), 100);
    assert_eq!(gif_frame_delay(1000), 1);
    assert_eq!(gif_frame_delay(u32::MAX), 1);
}

#[test]
fn gif_delay_matches_float_rounding() {
    for fps in 1..=400u32 {
        let expected = ((100.0 / fps as f64).round() as u16).max(1);
        assert_eq!(gif_frame_delay(fps), expected, "fps {fps}");
    }
}

#[test]
fn pipe_encoder_arguments() {
    let args = pipe_encoder_args("out.mp4", 640, 360, 24);
    assert_eq!(
        strs(&args),
        vec![
            "-hide_banner", "-loglevel", "error", "-f", "rawvideo", "-pix_fmt", "rgba", "-s",
            "640x360", "-framerate", "24", "-i", "pipe:0", "-c:v", "libx264", "-pix_fmt",
            "yuv420p", "-preset", "fast", "-y", "out.mp4"
        ]
    );
}

#[test]
fn gif_frames_carry_size_and_delay() {
    let mut pixels = vec![255u8, 0, 0, 255, 0, 0, 255, 128];
    let f = gif_frame(2, 1, &mut pixels, 30);
    assert_eq!((f.width, f.height), (2, 1));
    assert_eq!(f.delay, 3);
    assert_eq!(pixels, vec![255u8, 0, 0, 255, 0, 0, 255, 255]);
    let mut pixels = vec![0u8; 4 * 6];
    let f = gif_frame(3, 2, &mut pixels, 8);
    assert_eq!((f.width, f.height, f.delay), (3, 2, 13));
}

#[test]
fn gif_frame_unifies_transparent_pixels() {
    let mut pixels = vec![1u8, 2, 3, 0, 9, 9, 9, 0, 5, 5, 5, 7];
    let f = gif_frame(3, 1, &mut pixels, 10);
    assert_eq!(pixels, vec![1u8, 2, 3, 0, 1, 2, 3, 0, 5, 5, 5, 255]);
    assert_eq!(f.delay, 10);
    assert!(f.transparent.is_some());
}

#[test]
fn gif_frame_quantises_at_speed_ten() {
    // More than 256 colours, so the palette comes from NeuQuant at the
    // given speed.
    let (w, h) = (30u16, 20u16);
    let mut pixels: Vec<u8> = Vec::new();
    for i in 0..(w as u32 * h as u32) {
        pixels.extend_from_slice(&[(i * 7 % 256) as u8, (i * 13 % 256) as u8, (i % 251) as u8, 255]);
    }
    let mut direct = pixels.clone();
    let expected = gif::Frame::from_rgba_speed(w, h, &mut direct, 10);
    let f = gif_frame(w, h, &mut pixels, 24);
    assert_eq!(f.palette, expected.palette);
    assert_eq!(f.buffer, expected.buffer);
    assert_eq!(f.transparent, expected.transparent);
    assert_eq!(pixels, direct);
}
