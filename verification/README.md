# autoeq (verified core)

The decision logic of an automatic loudspeaker equaliser, written in Verus
and proved against its contracts.

## Layout

- `src/` — the verified library:
  - `algorithms` — the optimiser catalogue, lookup by name, library
    categories, run sizes; `strategy` — differential-evolution strategy
    names and defaults; `sampling` — random choice of distinct population
    members.
  - `formats`, `decoder`, `samples` — audio formats and their detection,
    decoder bookkeeping (track choice, stream shape, position), frame
    interleaving.
  - `audio` — device configurations offered and accepted, and the
    selection state.
  - `api`, `spinorama`, `download`, `cache`, `payload`, `traces`,
    `typed_array` — the measurement service: addresses, download plan, cache
    names, reply unwrapping, curve extraction and base64 typed arrays.
  - `signals`, `playback`, `benchmark`, `settings`, `plot`, `score` —
    planning of test-signal generation, player decisions, benchmark plan,
    setting checks, plot layout, index runs.
  - `text` — verified string helpers shared by the modules.
- `tests/` — executable tests of the library.
- `app/` — the command-line program: network, files, audio devices and
  codecs, floating-point signal work, and the serialisable copies of the
  library's records.
