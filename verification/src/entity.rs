//! Shared vocabulary of the entity system.
use vstd::prelude::*;

verus! {

/// The plain, sendable form of an entity.
#[derive(Clone, Copy, Debug, PartialEq, Eq, Structural)]
pub enum EntityPod {
    PodCuboid,
}

/// An entity that can be turned into its plain, sendable form.
pub trait PodComponent {
    fn into_pod(&self) -> EntityPod;
}

/// The kinds of vertex the renderer draws.
#[derive(Clone, Copy, Debug, PartialEq, Eq, Structural)]
pub enum VertexKind {
    Basic,
    Shaded,
    Textured,
}

/// An undoable action on the entities of the world.
pub trait Command {
    fn execute(&mut self);

    fn undo(&mut self);
}

} // verus!
