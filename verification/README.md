# apogee

The playback and service logic of Apogee, a desktop radio player for Xtream Codes
providers, as a library verified with Verus, and the desktop shell around it.

- `src/` is the verified library. Each public function states what it returns or changes
  in `requires`/`ensures` over spec functions and views; the `law_*` proof functions state
  what holds across calls.
  - `session`: the playback controller (generations, the bounded retry budget, snapshots).
  - `detect`, `source`, `hls`, `pipeline`: identifying a stream from its bytes, routing it,
    driving an HLS session, and choosing the one audio track that is played.
  - `network`: scheme checks, URL and free-text redaction, bounded bodies, error texts.
  - `engine`, `output`, `audio_out`: buffering limits, the start/rebuffer hysteresis, the
    connect latch, and what the decode thread reports.
  - `commands`, `device`: the player state behind the UI commands, stream URLs, and
    output device migration.
  - `stellar`, `xtream`, `updater`, `secrets`, `logs`, `artwork`, `diagnostics`: the
    requests and messages of the services the player talks to.
  - `text`: string helpers and their specifications.
- Calls into outside crates (`url`, `serde_json`, `transmux`, `hls-runtime`,
  `container-probe`, `reqwest`'s status reasons) stand behind small trusted wrappers whose
  doc comments say what is assumed of them.
- `app/` is the Tauri shell: threads, sockets, the audio device, decoding to PCM, DSP on
  floating-point samples, and the commands the frontend invokes. It calls the library for
  every decision.
- `tests/` runs the library on concrete values.
