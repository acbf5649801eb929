# libwayshot

The verified core of `wayshot`, a screenshot tool for wlroots-based Wayland
compositors, and the program around it.

## Layout

- `src/` — the library, verified:
  - `region.rs`: positions, sizes and regions of the logical output layout;
    embedding a region into an output and back.
  - `output.rs`: what is known of an output, and the region that spans a
    set of outputs.
  - `convert.rs`: conversion of the compositor's pixel formats into RGB(A)
    bytes.
  - `screencopy.rs`: frame formats, copied frames, and their placement into
    an image under the output's transform.
  - `dispatch.rs`: the state a capture builds from protocol events, and the
    decisions taken on each event.
  - `capture.rs`: the choices of a capture (buffer format, pool size,
    outcome, regions of outputs to capture).
  - `cli.rs`: the command line logic: geometry strings, outputs a region
    meets, encodings and file names.
  - `encode.rs`: encoding a frame into PNG, JPEG or PNM through the image
    crate.
  - `image_buffer.rs`, `toplevel.rs`, `error.rs`, `text.rs`: image buffers,
    toplevel windows, errors and decimal text.
- `tests/` — tests of the library on concrete values.
- `app/` — the `wayshot` program: the Wayland connection, shared memory
  files, reading and writing files, and the floating point scaling of
  composed screenshots.
