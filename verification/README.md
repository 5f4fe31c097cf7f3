# Breez

A screen recorder and demo editor: record a take, trim it, add zoom
segments and music, export an MP4. This crate is its logic as a library
verified with Verus, plus a thin headless front end.

## Layout

- `src/` — the verified library.
  - `project`, `edit`, `plan`: the project model (takes, clips, zoom
    segments, music tracks), the editor's drags and inserts, and the audio
    sources an export reads.
  - `capture`: the capture loop's decisions, constant-frame-rate pacing of
    captured video, silence across audio dropouts, planar-to-interleaved
    samples, and the take a recording adds to the project.
  - `playback`, `walk`, `cache`: the preview's playhead and seek protocol,
    the forward walk over decoded frames, and the bounded LRU frame cache.
  - `graph`, `commands`, `media`: the export's audio filter graph, the
    ffmpeg command lines, frame sizes and codec errors.
  - `peaks`, `waveforms`, `music`, `thumbs`: waveform peaks and the
    per-file shelf the lane paints from, music import and the per-track
    preview player state, filmstrip thumbnail naming.
  - `export`, `export_run`, `ui`: export settings and progress, the export
    run's decisions as a state machine, and the plain state and decisions
    behind the editor's controls.
  - `text`: decimal, padded and fixed-point number text.
- `tests/` — tests of the library.
- `app/` — the headless front end: ffmpeg child processes (via
  ffmpeg-sidecar), the decode and peaks worker threads, the peaks cache
  file, thumbnail directories and the export's partial file.

Ratios and gains that a float would carry are held as integers: speeds and
gains in millionths, zoom levels in hundredths, the zoom anchor in halves of
the frame, and waveform peaks as the bit patterns of their `f32` values.
