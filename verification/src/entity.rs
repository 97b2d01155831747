use vstd::prelude::*;

verus! {

/// A non-owning handle to one slot of the world.
///
/// `id` indexes every parallel storage column and the mask table; `version`
/// is the slot's generation counter at the time the handle was issued. Two
/// handles with equal `id` and `version` name the same logical object, so
/// copies of a handle become invalid together when that object is deleted.
#[derive(Clone, Copy, PartialEq, Eq, Structural, Hash, Debug, Default)]
pub struct Entity {
    /// The slot index. Never reused for a live object while another handle
    /// with the same index is still valid.
    pub id: usize,
    /// The slot's generation counter when this handle was issued.
    pub version: usize,
}

impl Entity {
    /// The slot index; use it to tell handles apart or to key external data.
    pub fn id(&self) -> (r: usize)
        ensures
            r == self.id,
    {
        self.id
    }

    /// The generation counter embedded in this handle.
    pub fn version(&self) -> (r: usize)
        ensures
            r == self.version,
    {
        self.version
    }
}

} // verus!
