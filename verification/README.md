# homokuzel

Perspective rectification of drone photos: reference points with known
world coordinates give an image-to-ground homography, and the photo is
warped into a metric bird's-eye map, alone or merged with others.

## Layout

- `src/` — the verified library (Verus):
  - `session.rs` — the open image tabs: which is shown, which layer is
    selected, closing and adding tabs, reloading a project.
  - `points.rs` — the reference points of a tab, their `P1`, `P2`, …
    labels, and when the homography must be recomputed.
  - `project.rs` — project-file records and the upgrade of files in the
    older single-image layout.
  - `cli.rs` — the command line (`export`, `--grid`, `--help`).
  - `naming.rs`, `files.rs`, `decimal.rs` — tab names and titles, status
    texts, file kinds by extension, decimal rendering.
  - `overlay.rs`, `raster.rs` — the grid and origin cross baked into
    exported maps, on an `image::RgbaImage`.
- `app/` — the program around it: the egui window, file I/O and JSON,
  the homography solver and the warp, which compute in floating point.
- `tests/` — tests of the library.

Coordinates, scales and opacities travel through the library as the bit
patterns of their floating-point values; the library never computes with
them.
