use vstd::prelude::*;

verus! {

/// The number of the handle that leads nowhere.
pub const NULL_ID: u64 = 0x1_ffff_ffff;

/// Handle of a texture in a scene's pool of textures.
#[derive(Clone, Copy, Debug, PartialEq, Eq, Structural, Hash)]
pub struct TextureKey {
    pub id: u64,
}

/// Handle of a material in a scene's pool of materials.
#[derive(Clone, Copy, Debug, PartialEq, Eq, Structural, Hash)]
pub struct MaterialKey {
    pub id: u64,
}

impl Default for TextureKey {
    /// The handle that no pool resolves.
    fn default() -> (r: TextureKey)
        ensures
            r.id == NULL_ID,
    {
        TextureKey { id: NULL_ID }
    }
}

impl Default for MaterialKey {
    /// The handle that no pool resolves.
    fn default() -> (r: MaterialKey)
        ensures
            r.id == NULL_ID,
    {
        MaterialKey { id: NULL_ID }
    }
}

} // verus!
