# nif_viewer

A viewer for Morrowind NIF meshes packed in ZIP, 7-Zip and BSA archives.
The library in `src/` holds the viewer's state and decisions and is verified
with Verus; `app/` is the Bevy/egui program around it.

## Library modules

- `paths`: the canonical form of archive paths (backslashes, no `.`/`..`
  segments, ASCII lower case), the asset root of a NIF path, and the lookup
  of files a NIF refers to.
- `archive`: telling ZIP, 7-Zip and BSA archives apart and extracting their
  files under canonical paths (through the `zip` and `sevenz-rust2` crates).
- `files`: the archive filesystem, resource folders on disk with their read
  cache, the combination of both, and the viewer's file state.
- `textures`: texture look-ups for a loaded NIF and the list of references
  that were found nowhere.
- `nif`: the inspector's object hierarchy and the plan of the shapes to draw.
- `view`: the view options and the render decisions they drive.
- `state`: the panels' state (archive, inspector, resource folders, key
  bindings) and the actions on it.
- `keys`, `recent`, `cookies`, `query`: key binding names, the recent-files
  list and its stored forms, and the page's query string.
- `export`: OBJ text of the loaded shapes.
- `text`, `shared`: character helpers and shared byte buffers (`arc-slice`).

## Building

Verus checks the library's proofs; the tests in `tests/` run against the
compiled library. The program in `app/` needs Bevy, egui, the panorbit camera,
rfd and the TES3 reader besides the crates named in `Cargo.toml`.
