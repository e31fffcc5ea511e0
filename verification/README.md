# rusty_editor

Verified editing logic of a scene editor built on the rg3d engine.

- `src/interaction/move_mode.rs`: the move gizmo (which part a pick hits,
  which constraint that selects, the color changes that show it, how a drag
  is constrained) and the move interaction mode as a state machine from
  mouse events to editor actions.
- `src/scene/selection.rs`: graph selections (toggling a node, comparing
  selections).
- `src/scene/terrain.rs`, `src/scene/commands/terrain.rs`: terrains seen as
  lists of layers per chunk, and the undoable commands that add a layer,
  delete a layer and set a layer texture, with their undo/redo laws.
- `app/lib.rs`: the engine side: building the gizmo's meshes, converting
  handles, colors and layers, the floating-point drag math.
