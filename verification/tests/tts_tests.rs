use cautious_carnival::tts::{CommandEngine, EspeakNgEngine, Pico2WaveEngine};

fn strs(v: &[String]) -> Vec<&str> {
    v.iter().map(|s| s.as_str()).collect()
}

#[test]
fn espeak_default_arguments() {
    let e = EspeakNgEngine::new();
    let args = e.command_args("Hello there", "/tmp/voiceover_0000.wav");
    assert_eq!(
        strs(&args),
        vec!["-v", "en", "-s", "175", "-p", "50", "-a", "100", "-w", "/tmp/voiceover_0000.wav", "Hello there"]
    );
    let d = EspeakNgEngine::default();
    assert_eq!(d.command_args("x", "y"), e.command_args("x", "y"));
}

#[test]
fn espeak_settings_are_clamped() {
    let e = EspeakNgEngine::new()
        .with_voice("en-us")
        .with_speed(10)
        .with_pitch(500)
        .with_amplitude(1000);
    let args = e.command_args("t", "o.wav");
    assert_eq!(strs(&args), vec!["-v", "en-us", "-s", "80", "-p", "99", "-a", "200", "-w", "o.wav", "t"]);
    let fast = EspeakNgEngine::new().with_speed(9000).with_pitch(0).with_amplitude(0);
    let args = fast.command_args("t", "o.wav");
    assert_eq!(strs(&args)[3], "450");
    assert_eq!(strs(&args)[5], "0");
    assert_eq!(strs(&args)[7], "0");
    let mid = EspeakNgEngine::new().with_speed(200).with_pitch(42).with_amplitude(150);
    let args = mid.command_args("t", "o.wav");
    assert_eq!(strs(&args)[3], "200");
    assert_eq!(strs(&args)[5], "42");
    assert_eq!(strs(&args)[7], "150");
}

#[test]
fn pico2wave_arguments() {
    let p = Pico2WaveEngine::new();
    assert_eq!(strs(&p.command_args("Hi", "out.wav")), vec!["-len-US", "-w", "out.wav", "Hi"]);
    let g = Pico2WaveEngine::default().with_lang("de-DE");
    assert_eq!(strs(&g.command_args("Hallo", "a.wav")), vec!["-lde-DE", "-w", "a.wav", "Hallo"]);
}

#[test]
fn command_engine_fills_templates() {
    let c = CommandEngine::new("say")
        .with_arg("-o")
        .with_arg("{out}")
        .with_arg("--text={text}")
        .with_arg("{text}{out}")
        .with_arg("plain");
    assert_eq!(c.command(), "say");
    let args = c.command_args("hi", "f.wav");
    assert_eq!(strs(&args), vec!["-o", "f.wav", "--text=hi", "hif.wav", "plain"]);
}

#[test]
fn command_engine_text_is_filled_before_out() {
    // A text that itself holds "{out}" is filled in too, as `replace` in
    // sequence does.
    let c = CommandEngine::new("tts").with_arg("{text}");
    let args = c.command_args("see {out}", "x.wav");
    assert_eq!(strs(&args), vec!["see x.wav"]);
}

#[test]
fn command_engine_without_arguments() {
    let c = CommandEngine::new("true");
    assert!(c.command_args("a", "b").is_empty());
}
