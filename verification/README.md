# rustpp

An osu! difficulty and performance (pp) calculator for osu!standard and
osu!taiko, written in Rust and checked with Verus.

## Layout

- `src/` is the verified library: everything in it that is not floating
  point.
  - `text.rs`: characters, trimming, splitting and integer reading, with
    `parse_int` reading integer fields exactly as `str::parse::<i32>` after
    `str::trim`.
  - `beatmap.rs`: the `.osu` text reader (`parse_beatmap_text`), the list of
    hit object times (`hit_object_times`) and the expansion of taiko hit
    sounds (`sound_types`), with the laws the reader keeps.
  - `mods.rs`: the mod string reader (`parse_mods`) and which mod changes
    call for difficulty to be computed again (`mods_change_difficulty`).
  - `escape.rs`: JSON and CSV escaping, with their round-trip laws.
  - `report.rs` and `binary.rs`: the text, JSON, CSV, gnuplot and binary
    outputs, assembled from already formatted values.
  - `taiko.rs`: the colour-change rule of taiko strain.
  - `score.rs`: the integer parts of a score (the combo taken where none is
    given, and the count of 300s).
  - `constants.rs`: mode, mod, object and sound bits, error codes and
    `errstr`.
- `app/` is the command line program and the floating-point calculations
  (difficulty, strain, accuracy, pp, mod effects), which call the library
  for reading and writing.
- `tests/` runs the library on concrete inputs.
