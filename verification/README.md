# Erika

The parts of a media player that decide and compute, written in Verus: each
function states what it returns or changes, and Verus proves it.

- `src/` is the library. Floating-point numbers are held as their bit patterns
  (`float_bits`, `float_sum`, `float_whole`, `binary64`), and spans of time as
  nanoseconds (`time`).
  - `audio`: the queue of samples between decoder and device, and the loop that
    drains it.
  - `danmaku`: comments that fly over the video, from files to glyphs.
  - `ffmpeg`: packets, frames, streams, samples and planes as they come out of
    the decoders.
  - `playback`: clocks, schedules, sessions and the engine that drives them.
  - `presenter`: what is shown at a time, and what is drawn anew.
  - `renderer`: colours, layouts, buffers and the state of the renderers.
  - `subtitle`: text formats, scripts, bitmaps and what they are drawn as.
- `app/` is ordinary Rust around it: clocks, files, fonts, channels and devices.
- `tests/` runs the library, and compares its arithmetic with that of the machine.
