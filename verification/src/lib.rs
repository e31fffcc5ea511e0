//! Editing logic of a scene editor: the move gizmo and its interaction
//! mode, graph selections, and undoable commands on terrain layers.
pub mod color;
pub mod handle;
pub mod interaction;
pub mod scene;
