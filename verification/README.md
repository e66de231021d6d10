# music_player_rs

The logic of a desktop music player, written in Verus: the functions under
`src/` carry `requires`/`ensures` contracts that Verus proves. The calls into
std, rand and serde_json go through a few small wrappers marked
`#[verifier::external_body]`, whose contracts are trusted; each one's doc
comment says what it claims.

## Layout

- `src/playlist.rs`, `src/queue.rs` — supported files, next/previous
  navigation with repeat and shuffle, the play queue kept in step with the
  list (sorting, removal, appending).
- `src/table.rs` — the playlist table: cell texts, the order of rows under
  each column and the stable sort by a column.
- `src/track_list.rs` — reading and writing `.m3u` playlists.
- `src/audio/decoder.rs`, `src/audio/dsd.rs` — tag rules (first value wins,
  dates cut to a year, `n/total` numbers), ID3v2 parsing, DSF/DSDIFF headers
  and the DSD reading plan.
- `src/meta.rs` — format names, bit depth text, FLAC audio offsets.
- `src/settings.rs` — the settings model and its enumerations.
- `src/audio/output.rs` — output device classification and labelling, sample
  rate selection under the Auto/Native/Fixed policies, and the audio
  settings validation table.
- `src/audio/dop.rs` — DSD-over-PCM framing.
- `src/audio/cic.rs` — DSD to PCM decimation on integers: bit order of the
  containers, the CIC cascade, channel layout of a raw group.
- `src/audio/player.rs`, `src/audio/worker.rs` — transport state (play,
  pause, stop, seek), the seek handshake between decoder and output, ring
  sizing, dither seeding.
- `src/audio/visualizer.rs`, `src/audio/fulltrack.rs`,
  `src/audio/spectrogram.rs`, `src/audio/analyzer.rs` — visualization modes,
  dialog indices, image cache keys and paths, column planning, band layout.
- `src/cover.rs` — cover lookup order, cache names, search requests.
- `src/report.rs` — the bit-perfect report.
- `src/json.rs`, `src/hashing.rs` — JSON values as plain data; the byte
  streams std's `Hash` feeds a hasher.
- `src/display.rs`, `src/text.rs` — text helpers shared by the above.

Laws that span several functions are public proof functions named `law_*`.

`app/` is a headless command-line front end (file and network access,
symphonia decoding, waveform drawing); `tests/` holds the tests.
