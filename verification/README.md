# cautious-carnival

A programmable mathematical animation engine in the spirit of Manim: shapes,
text and groups are animated on a timeline and rendered to an SVG storyboard,
a PNG sequence, an animated GIF or an MP4/WebM video, optionally with
synthesised narration.

The project is in two parts.

* `src/` is the library, written in Verus and verified: every function states
  what it returns in its contract, and the laws that relate several functions
  are proof functions.  Where an outside crate computes part of a result
  (a font's character map, a GIF frame's quantised palette), the contract
  ties it to a named function of that call's arguments.  It holds the decisions that involve no floating point:

  | Module     | What it decides |
  |------------|-----------------|
  | `registry` | which mobject ids are handed out and which are still present |
  | `wav`      | reading a WAVE header; whether and how a track of clips is merged; merging their PCM data |
  | `tts`      | the settings of the speech engines and their command lines |
  | `encode`   | frame and clip file names, `ffmpeg` command lines, raw frame sizes, GIF frames and delays |
  | `svg`      | escaping of text, the document header and when it is written, the frame background |
  | `color`    | hexadecimal and CSS forms of a colour |
  | `glyphs`   | the built-in 5x7 bitmap font |
  | `raster`   | blending glyph masks into a `tiny-skia` pixmap, tinting it |
  | `fonts`    | which TrueType files are loaded, in what order; parsing them; glyph lookup |
  | `decimal`, `replace`, `strings` | the text building blocks of the above |

  Calls into `tiny-skia`, `fontdue` and `gif` go through small trusted wrappers whose
  contracts state what those crates' sources show.

* `app/` is ordinary Rust around the library: floating-point geometry,
  easing and animation timing, the renderers that write files and drive
  `ffmpeg`, `gif` and `image`, the speech engines' subprocesses, and text
  layout with `cosmic-text`.

`tests/` exercises the library from outside, with the real outside crates
linked.
