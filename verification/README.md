# openclaw-speak

A command-line daemon that listens for OpenClaw assistant replies and speaks
them through the local sound device using ElevenLabs text-to-speech.

The crate is split in two:

- `src/` is the library, written in Verus and verified: configuration defaults
  and environment overrides, the text-to-speech request rules (credential
  checks, output-format parsing, request contents), the audio arithmetic (PCM
  decoding, frame counts, channel mapping, stream-layout and device choice, the
  playback cursor), and the daemon's decisions (session filter, subscriptions,
  event routing, reply deduplication, stale playback).
  - `text` — Unicode whitespace trimming, ASCII case folding, substring search,
    splitting on a separator.
  - `number` — decimal text of integers, written and read back.
  - `config`, `tts`, `audio`, `daemon` — the program's logic.
  - `report` — log messages handed to the caller.
- `app/` is the program around it: argument parsing, reading `.env`, the TOML
  file and the environment, HTTP requests, the Gateway connection, logging,
  the event loop, and the floating-point resampling.

`tests/` exercises the library on concrete values.
