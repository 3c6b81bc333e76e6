# blip

The verified core of the Blip capture tools (`blip-capture`, a macOS screen
recorder that saves, edits or uploads recordings, and `blip-cli`, which lists
capture targets, streams frames and records to MP4), written in Verus.

## Layout

- `src/` — the library. Every function is verified except the trusted wrappers
  of the `url` crate and of std (`urls.rs`, `String::push` in `text.rs`, the
  clock in `profiles.rs`), whose contracts state what those functions do.
  - `text`, `urls`: character helpers, and what the `url` crate computes of a URL.
  - `profiles`, `profile_settings`: recording profiles, importing
    `blip-capture://add-profile` links, and the settings form.
  - `session`, `recording`, `headless`: the toolbar's state machine, what a
    recording reports and cleans up when it ends, and headless runs.
  - `upload`: server URLs, endpoints, HLS upload plans, chunk numbering and
    error messages of the upload API.
  - `args`, `cli`, `capture_args`, `commands`: the two command lines and what
    `blip-cli` does with them.
  - `naming`, `bundle`, `segments`, `assets`, `open_urls`: file names, Blip
    Bundles and editor presets, timeline segment selection, bundled icons, and
    URLs opened by the system.
- `tests/` — tests of the library.
- `app/` — the I/O around it: the profiles file, bundle folders, the HTTP
  upload client and the process environment.

Public proof functions named `law_*` state properties that hold across calls.
