use vstd::prelude::*;

verus! {

/// Generation that no live pool slot ever carries; a handle with it points at nothing.
pub const INVALID_GENERATION: u32 = 0;

/// A handle to a scene node: the index of a slot in the node pool and the
/// generation the slot had when the handle was issued. Two handles are equal
/// exactly when both numbers are equal.
#[derive(Clone, Copy, Debug, PartialEq, Eq, Structural)]
pub struct NodeHandle {
    pub index: u32,
    pub generation: u32,
}

impl NodeHandle {
    /// The handle that points at nothing.
    pub open spec fn none_spec() -> NodeHandle {
        NodeHandle { index: 0, generation: INVALID_GENERATION }
    }

    /// Whether the handle is the one that points at nothing.
    pub open spec fn is_none_spec(self) -> bool {
        self.index == 0 && self.generation == INVALID_GENERATION
    }

    pub fn none() -> (h: NodeHandle)
        ensures
            h == Self::none_spec(),
            h.is_none_spec(),
    {
        NodeHandle { index: 0, generation: INVALID_GENERATION }
    }

    pub fn new(index: u32, generation: u32) -> (h: NodeHandle)
        ensures
            h.index == index,
            h.generation == generation,
    {
        NodeHandle { index, generation }
    }

    pub fn is_none(&self) -> (r: bool)
        ensures
            r == self.is_none_spec(),
    {
        self.index == 0 && self.generation == INVALID_GENERATION
    }

    pub fn is_some(&self) -> (r: bool)
        ensures
            r == !self.is_none_spec(),
    {
        !self.is_none()
    }
}

} // verus!
