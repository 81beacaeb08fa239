# libereco

Audio plumbing for a speech pipeline: sample formats and their byte layout,
FIFO sample buffers, planar PCM blocks, codec selection, stream
configurations, playback cursors and the naming of virtual PulseAudio and
PipeWire devices.

- `src/` is the library, written in Verus. Every executable function carries
  a contract that Verus proves; the laws that tie functions together (encoding
  then decoding a sample gives it back, buffers keep their samples in order,
  the latency buffer never has zero frames, ...) are public proof functions.
  Calls into std and outside crates that Verus cannot read go through small
  trusted wrappers whose doc comments say what is assumed of them.
- `app/` is ordinary Rust around the library: the CPAL and PipeWire backends,
  threads and lock-free frame queues, async plumbing, `pactl` invocations and
  the floating-point signal processing (quantization, resampling, gain).
- `tests/` exercises the library on concrete values.
