//! Settings of the text-to-speech engines and the command lines they run.
//!
//! Each engine wraps an external speech synthesiser that writes a WAV file;
//! what is decided here is how its settings are bounded and which arguments
//! the synthesiser is given for a piece of text and an output path.

use vstd::prelude::*;

use crate::decimal::{decimal, decimal_round_trip, decimal_string, digits_value};
use crate::replace::{
    occurs_at, replace_all, replace_all_str, replace_whole_pattern,
    replace_without_match_is_identity,
};
use crate::strings::{owned, push_all};

verus! {

/// The texts of a list of strings.
pub open spec fn texts(v: Seq<String>) -> Seq<Seq<char>> {
    v.map_values(|a: String| a@)
}

// ---------------------------------------------------------------------------
// espeak-ng
// ---------------------------------------------------------------------------

/// The settings of an [`EspeakNgEngine`].
pub struct EspeakNgSettings {
    /// Voice name, such as `en-us`.
    pub voice: Seq<char>,
    /// Words per minute, kept within 80–450.
    pub speed: u32,
    /// Pitch, kept within 0–99.
    pub pitch: u32,
    /// Amplitude, kept within 0–200.
    pub amplitude: u32,
}

/// The arguments passed to `espeak-ng` to speak `text` into the WAV file `out`.
pub open spec fn espeak_args(st: EspeakNgSettings, text: Seq<char>, out: Seq<char>) -> Seq<
    Seq<char>,
> {
    seq![
        "-v"@,
        st.voice,
        "-s"@,
        decimal(st.speed as nat),
        "-p"@,
        decimal(st.pitch as nat),
        "-a"@,
        decimal(st.amplitude as nat),
        "-w"@,
        out,
        text,
    ]
}

/// A speech engine that runs the `espeak-ng` binary.
#[derive(Debug, Clone)]
pub struct EspeakNgEngine {
    voice: String,
    speed: u32,
    pitch: u32,
    amplitude: u32,
}

impl View for EspeakNgEngine {
    type V = EspeakNgSettings;

    closed spec fn view(&self) -> EspeakNgSettings {
        EspeakNgSettings {
            voice: self.voice@,
            speed: self.speed,
            pitch: self.pitch,
            amplitude: self.amplitude,
        }
    }
}

impl EspeakNgEngine {
    /// Defaults: voice `"en"`, speed 175 words per minute, pitch 50,
    /// amplitude 100.
    pub fn new() -> (e: EspeakNgEngine)
        ensures
            e@ == (EspeakNgSettings { voice: "en"@, speed: 175, pitch: 50, amplitude: 100 }),
    {
        EspeakNgEngine { voice: owned("en"), speed: 175, pitch: 50, amplitude: 100 }
    }

    /// Sets the voice (e.g. `"en-us"`, `"en-gb"`, `"fr"`).
    pub fn with_voice(self, voice: &str) -> (e: EspeakNgEngine)
        ensures
            e@ == (EspeakNgSettings { voice: voice@, ..self@ }),
    {
        EspeakNgEngine { voice: owned(voice), ..self }
    }

    /// Sets the speed in words per minute, clamped to 80–450.
    pub fn with_speed(self, speed: u32) -> (e: EspeakNgEngine)
        ensures
            e@ == (EspeakNgSettings {
                speed: if speed < 80 {
                    80
                } else if speed > 450 {
                    450
                } else {
                    speed
                },
                ..self@
            }),
    {
        let s = if speed < 80 {
            80
        } else if speed > 450 {
            450
        } else {
            speed
        };
        EspeakNgEngine { speed: s, ..self }
    }

    /// Sets the pitch, clamped to 0–99.
    pub fn with_pitch(self, pitch: u32) -> (e: EspeakNgEngine)
        ensures
            e@ == (EspeakNgSettings {
                pitch: if pitch > 99 {
                    99
                } else {
                    pitch
                },
                ..self@
            }),
    {
        let p = if pitch > 99 {
            99
        } else {
            pitch
        };
        EspeakNgEngine { pitch: p, ..self }
    }

    /// Sets the amplitude, clamped to 0–200.
    pub fn with_amplitude(self, amplitude: u32) -> (e: EspeakNgEngine)
        ensures
            e@ == (EspeakNgSettings {
                amplitude: if amplitude > 200 {
                    200
                } else {
                    amplitude
                },
                ..self@
            }),
    {
        let a = if amplitude > 200 {
            200
        } else {
            amplitude
        };
        EspeakNgEngine { amplitude: a, ..self }
    }

    /// The arguments that make `espeak-ng` speak `text` into the WAV file at
    /// `out`.
    pub fn command_args(&self, text: &str, out: &str) -> (args: Vec<String>)
        ensures
            texts(args@) == espeak_args(self@, text@, out@),
    {
        let mut args: Vec<String> = Vec::new();
        args.push(owned("-v"));
        args.push(self.voice.clone());
        args.push(owned("-s"));
        args.push(decimal_string(self.speed as u64));
        args.push(owned("-p"));
        args.push(decimal_string(self.pitch as u64));
        args.push(owned("-a"));
        args.push(decimal_string(self.amplitude as u64));
        args.push(owned("-w"));
        args.push(owned(out));
        args.push(owned(text));
        assert(texts(args@) =~= espeak_args(self@, text@, out@));
        args
    }
}

impl Default for EspeakNgEngine {
    /// The same settings as [`EspeakNgEngine::new`].
    fn default() -> (e: EspeakNgEngine)
        ensures
            e@ == (EspeakNgSettings { voice: "en"@, speed: 175, pitch: 50, amplitude: 100 }),
    {
        EspeakNgEngine::new()
    }
}

// ---------------------------------------------------------------------------
// pico2wave
// ---------------------------------------------------------------------------

/// The arguments passed to `pico2wave` to speak `text` in language `lang` into
/// the WAV file `out`.
pub open spec fn pico2wave_args(lang: Seq<char>, text: Seq<char>, out: Seq<char>) -> Seq<
    Seq<char>,
> {
    seq!["-l"@ + lang, "-w"@, out, text]
}

/// A speech engine that runs the `pico2wave` binary.
#[derive(Debug, Clone)]
pub struct Pico2WaveEngine {
    lang: String,
}

impl View for Pico2WaveEngine {
    type V = Seq<char>;

    /// The language code.
    closed spec fn view(&self) -> Seq<char> {
        self.lang@
    }
}

impl Pico2WaveEngine {
    /// Default language `"en-US"`.
    pub fn new() -> (e: Pico2WaveEngine)
        ensures
            e@ == "en-US"@,
    {
        Pico2WaveEngine { lang: owned("en-US") }
    }

    /// Sets the language code (e.g. `"en-GB"`, `"de-DE"`).
    pub fn with_lang(self, lang: &str) -> (e: Pico2WaveEngine)
        ensures
            e@ == lang@,
    {
        Pico2WaveEngine { lang: owned(lang) }
    }

    /// The arguments that make `pico2wave` speak `text` into the WAV file at
    /// `out`.
    pub fn command_args(&self, text: &str, out: &str) -> (args: Vec<String>)
        ensures
            texts(args@) == pico2wave_args(self@, text@, out@),
    {
        let mut flag = owned("-l");
        push_all(&mut flag, self.lang.as_str());
        let mut args: Vec<String> = Vec::new();
        args.push(flag);
        args.push(owned("-w"));
        args.push(owned(out));
        args.push(owned(text));
        assert(texts(args@) =~= pico2wave_args(self@, text@, out@));
        args
    }
}

impl Default for Pico2WaveEngine {
    /// The same settings as [`Pico2WaveEngine::new`].
    fn default() -> (e: Pico2WaveEngine)
        ensures
            e@ == "en-US"@,
    {
        Pico2WaveEngine::new()
    }
}

// ---------------------------------------------------------------------------
// Any command
// ---------------------------------------------------------------------------

/// The settings of a [`CommandEngine`]: the program and its argument templates.
pub struct CommandSettings {
    /// The program to run.
    pub command: Seq<char>,
    /// Argument templates, in order.
    pub args: Seq<Seq<char>>,
}

/// One argument template filled in: every `{text}` becomes the text, then
/// every `{out}` becomes the output path.
pub open spec fn fill_template(arg: Seq<char>, text: Seq<char>, out: Seq<char>) -> Seq<char> {
    replace_all(replace_all(arg, "{text}"@, text), "{out}"@, out)
}

/// A speech engine that runs any program, with `{text}` and `{out}` in its
/// argument templates standing for the text and the output WAV path.
#[derive(Debug, Clone)]
pub struct CommandEngine {
    command: String,
    args: Vec<String>,
}

impl View for CommandEngine {
    type V = CommandSettings;

    closed spec fn view(&self) -> CommandSettings {
        CommandSettings { command: self.command@, args: texts(self.args@) }
    }
}

impl CommandEngine {
    /// An engine that runs `command` with no arguments.
    pub fn new(command: &str) -> (e: CommandEngine)
        ensures
            e@.command == command@,
            e@.args == Seq::<Seq<char>>::empty(),
    {
        let e = CommandEngine { command: owned(command), args: Vec::new() };
        assert(e@.args =~= Seq::<Seq<char>>::empty());
        e
    }

    /// Appends one argument template.
    pub fn with_arg(self, arg: &str) -> (e: CommandEngine)
        ensures
            e@.command == self@.command,
            e@.args == self@.args.push(arg@),
    {
        let mut args = self.args;
        let ghost old_args = args@;
        args.push(owned(arg));
        let e = CommandEngine { command: self.command, args };
        assert(e@.args =~= texts(old_args).push(arg@));
        e
    }

    /// The program to run.
    pub fn command(&self) -> (c: &str)
        ensures
            c@ == self@.command,
    {
        self.command.as_str()
    }

    /// The arguments for speaking `text` into the WAV file at `out`: each
    /// template with its placeholders filled in.
    pub fn command_args(&self, text: &str, out: &str) -> (args: Vec<String>)
        ensures
            texts(args@) == self@.args.map_values(|a: Seq<char>| fill_template(a, text@, out@)),
    {
        let text_pat = "{text}";
        let out_pat = "{out}";
        proof {
            reveal_strlit("{text}");
            reveal_strlit("{out}");
        }
        let mut filled: Vec<String> = Vec::new();
        let mut i: usize = 0;
        while i < self.args.len()
            invariant
                i <= self.args@.len(),
                text_pat@ == "{text}"@,
                out_pat@ == "{out}"@,
                text_pat@.len() > 0,
                out_pat@.len() > 0,
                filled@.len() == i,
                forall|k: int|
                    0 <= k < i ==> #[trigger] filled@[k]@ == fill_template(
                        self.args@[k]@,
                        text@,
                        out@,
                    ),
            decreases self.args@.len() - i,
        {
            let once = replace_all_str(self.args[i].as_str(), text_pat, text);
            let twice = replace_all_str(once.as_str(), out_pat, out);
            filled.push(twice);
            i += 1;
        }
        assert(texts(filled@) =~= self@.args.map_values(
            |a: Seq<char>| fill_template(a, text@, out@),
        ));
        filled
    }
}

// ---------------------------------------------------------------------------
// Laws of the command lines
// ---------------------------------------------------------------------------

/// `espeak-ng` is given the voice, then the speed, pitch and amplitude (each
/// reading back as the setting), then the output file, and the text last.
pub proof fn espeak_args_carry_the_settings(st: EspeakNgSettings, text: Seq<char>, out: Seq<char>)
    ensures
        ({
            let a = espeak_args(st, text, out);
            &&& a.len() == 11
            &&& a[0] == "-v"@ && a[1] == st.voice
            &&& a[2] == "-s"@ && digits_value(a[3]) == st.speed
            &&& a[4] == "-p"@ && digits_value(a[5]) == st.pitch
            &&& a[6] == "-a"@ && digits_value(a[7]) == st.amplitude
            &&& a[8] == "-w"@ && a[9] == out
            &&& a[10] == text
        }),
{
    decimal_round_trip(st.speed as nat);
    decimal_round_trip(st.pitch as nat);
    decimal_round_trip(st.amplitude as nat);
}

/// `pico2wave` is given the language joined to `-l`, then the output file,
/// and the text last.
pub proof fn pico2wave_args_carry_the_settings(lang: Seq<char>, text: Seq<char>, out: Seq<char>)
    ensures
        ({
            let a = pico2wave_args(lang, text, out);
            &&& a.len() == 4
            &&& a[0].len() == lang.len() + 2
            &&& a[0].take(2) == "-l"@ && a[0].skip(2) == lang
            &&& a[1] == "-w"@ && a[2] == out
            &&& a[3] == text
        }),
{
    reveal_strlit("-l");
    assert(("-l"@ + lang).take(2) =~= "-l"@);
    assert(("-l"@ + lang).skip(2) =~= lang);
}

/// A template that is exactly `{out}` becomes the output path, and one that
/// is exactly `{text}` becomes the text (when the text itself holds no
/// `{out}`); a template with neither placeholder is passed on unchanged.
pub proof fn templates_are_filled(text: Seq<char>, out: Seq<char>, plain: Seq<char>)
    ensures
        fill_template("{out}"@, text, out) == out,
        (forall|i: int| !occurs_at(text, "{out}"@, i)) ==> fill_template("{text}"@, text, out)
            == text,
        (forall|i: int| !occurs_at(plain, "{text}"@, i)) && (forall|i: int|
            !occurs_at(plain, "{out}"@, i)) ==> fill_template(plain, text, out) == plain,
{
    reveal_strlit("{out}");
    reveal_strlit("{text}");
    // `{out}` holds no `{text}`, so the first pass leaves it.
    assert forall|i: int| !occurs_at("{out}"@, "{text}"@, i) by {
        if occurs_at("{out}"@, "{text}"@, i) {
            assert("{out}"@.len() < "{text}"@.len());
        }
    }
    replace_without_match_is_identity("{out}"@, "{text}"@, text);
    replace_whole_pattern("{out}"@, out);
    replace_whole_pattern("{text}"@, text);
    if forall|i: int| !occurs_at(text, "{out}"@, i) {
        replace_without_match_is_identity(text, "{out}"@, out);
    }
    if (forall|i: int| !occurs_at(plain, "{text}"@, i)) && (forall|i: int|
        !occurs_at(plain, "{out}"@, i)) {
        replace_without_match_is_identity(plain, "{text}"@, text);
        replace_without_match_is_identity(plain, "{out}"@, out);
    }
}

} // verus!
