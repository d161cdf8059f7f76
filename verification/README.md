# css2mp4

Renders CSS animations to MP4 / transparent WebM video through a headless
Chrome and FFmpeg, and writes sampled motion (position, zoom, rotation,
opacity) into YukkuriMovieMaker 4 (`.ymmp`) projects.

## Layout

- `src/` — the library, verified with Verus. Each module states its behaviour
  in `requires` / `ensures` over mathematical models:
  - `format`, `command`, `options` — output-format detection and the FFmpeg
    command line;
  - `url`, `browser` — `file://` URLs, Chrome location and switches, animation
    bookkeeping and the style-probe script;
  - `progress` — progress sinks and the frame clock of a capture loop;
  - `keyframes` — merging of keyframe indices and the shape of written values;
  - `ymmp` — the project model, its field maps and the byte-order-mark framing;
  - `tasks`, `requests` — the render-task table and the API server's decisions;
  - `error`, `text` — error messages, text utilities and the portable reading
    of paths.

  The string-keyed hash maps of the program (an item's fields, the server's
  tasks) are held as vectors with distinct keys (`FieldMap`, `TaskTable`),
  viewed as maps: vstd gives `HashMap` with `String` keys too little
  specification to prove what these maps are used for.
- `tests/` — tests of the library on concrete values.
- `app/` — the command-line program and the local API server: browser and
  FFmpeg processes, file and network I/O, JSON, and the floating-point work
  (frame timing, style decomposition, curve simplification).
