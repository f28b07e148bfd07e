# mtb_terrain

The decision logic of a text-driven modular terrain generator and its editor,
written in Verus and proved against its contracts.

- `src/text.rs`: character-level text handling (whitespace words, splitting,
  trimming, substring search and removal, decimal numbers), each function
  stated over `Seq<char>`.
- `src/mtb_editor/`: the editor's command console (command words, arguments,
  plane ids, history and its JSON file text, typing, tab completion), completion ranking, editor
  modes, panel choices, vertex picking, hover state and the text-box and
  drop-down widgets.
- `src/editor/`: modes, double clicks, undo snapshots and their restore, recent colours, box and brush
  selection, brush triangle winding, hover targets and picker keys.
- `src/terrain_core/`: option lists, plane index buffers, plane and vertex
  picking, and random choices of the wandering path.
- `src/terrain.rs`, `src/mtbterrain/`, `src/viewer.rs`: preset names, mesh
  quads, the tile grid and the viewer's modes.
- `app/`: a console front end (reading and writing the history file) and the floating-point parts (noise, heights,
  distances, mesh positions, polygon triangulation).
