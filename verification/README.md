# piano

A physically modelled piano: a synthesiser whose notes are strings, hammers and a
soundboard rather than recordings, and whose decisions are verified with
[Verus](https://github.com/verus-lang/verus).

- `src/` is the library. It holds everything that decides what is played: keys and
  their names, MIDI messages, the command queue, the voice engine, the delay lines
  and filters with their states, the coupling of strings over a bridge, the voicing
  of the keyboard, how a command reaches the strings that ring, and the loops of the
  renderer, from one sample of one string to a block of the whole instrument. Every
  function has a contract and is proved to meet
  it. Numbers are `Binary32`, the bits of a single-precision
  number: comparing, bounding, rounding and clearing them is exact and verified.
  Where a step is floating-point arithmetic, the function that takes the step is an
  argument, and the contract says what it is handed and what becomes of its result.
- `app/` is the program: the arithmetic of single samples (`sound.rs`), the audio and
  MIDI devices, the terminal, WAV files and the command line.
- `tests/` runs the library, and in `sound.rs` the whole instrument. A test sees the
  library and nothing else, so `sound.rs` brings the arithmetic of the samples along.

```
piano render --note C4 --seconds 5 --output c4.wav
piano play --note A4 --damping 0.3
piano keyboard --base-note C3
piano midi --list
```
