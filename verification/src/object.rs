use std::collections::HashMap;
use vstd::prelude::*;

verus! {

broadcast use vstd::std_specs::hash::group_hash_axioms;

/// The index under which a resource manager keeps a tessellation.
#[derive(Debug, Clone, Copy, PartialEq, Eq, Hash, Structural)]
pub struct TessResource {
    pub idx: u32,
}

/// The index under which a resource manager keeps a texture.
#[derive(Debug, Clone, Copy, PartialEq, Eq, Hash, Structural)]
pub struct TextureResource {
    pub idx: u32,
}

/// The value that a map holds under a key, to change it in place:
/// `HashMap::get_mut`, unwrapped.
///
/// The contract asks for a key of the map, and claims what std documents:
/// the reference is to the value under that key, and what is written
/// through it is what the map holds under the key afterwards, all other
/// entries being as they were.
#[verifier::external_body]
fn value_mut<V>(map: &mut HashMap<u32, V>, key: u32) -> (value: &mut V)
    requires
        old(map)@.contains_key(key),
    ensures
        *value == old(map)@[key],
        final(map)@ == old(map)@.insert(key, *final(value)),
{
    map.get_mut(&key).unwrap()
}

/// Keeps the tessellations and textures of the program, each under an
/// index of its own.
pub struct ResourceManager<T, X> {
    tesses: HashMap<u32, T>,
    textures: HashMap<u32, X>,
    tess_counter: u32,
    texture_counter: u32,
}

/// The mathematical content of a [`ResourceManager`].
pub struct ResourcesView<T, X> {
    pub tesses: Map<u32, T>,
    pub textures: Map<u32, X>,
    /// The index that the next tessellation gets.
    pub tess_counter: u32,
    /// The index that the next texture gets.
    pub texture_counter: u32,
}

impl<T, X> View for ResourceManager<T, X> {
    type V = ResourcesView<T, X>;

    closed spec fn view(&self) -> ResourcesView<T, X> {
        ResourcesView {
            tesses: self.tesses@,
            textures: self.textures@,
            tess_counter: self.tess_counter,
            texture_counter: self.texture_counter,
        }
    }
}

impl<T, X> ResourceManager<T, X> {
    /// A manager that keeps nothing yet.
    pub fn new() -> (manager: Self)
        ensures
            manager@ == (ResourcesView {
                tesses: Map::<u32, T>::empty(),
                textures: Map::<u32, X>::empty(),
                tess_counter: 0,
                texture_counter: 0,
            }),
    {
        Self {
            tesses: HashMap::new(),
            textures: HashMap::new(),
            tess_counter: 0,
            texture_counter: 0,
        }
    }

    /// Takes a tessellation in, under the next index.
    pub fn add_tess(&mut self, tess: T) -> (result: TessResource)
        requires
            old(self)@.tess_counter < u32::MAX,
        ensures
            result.idx == old(self)@.tess_counter,
            final(self)@ == (ResourcesView {
                tesses: old(self)@.tesses.insert(result.idx, tess),
                tess_counter: (old(self)@.tess_counter + 1) as u32,
                ..old(self)@
            }),
    {
        self.tesses.insert(self.tess_counter, tess);
        let result = TessResource { idx: self.tess_counter };
        self.tess_counter += 1;
        result
    }

    /// Takes a texture in, under the next index.
    pub fn add_texture(&mut self, texture: X) -> (result: TextureResource)
        requires
            old(self)@.texture_counter < u32::MAX,
        ensures
            result.idx == old(self)@.texture_counter,
            final(self)@ == (ResourcesView {
                textures: old(self)@.textures.insert(result.idx, texture),
                texture_counter: (old(self)@.texture_counter + 1) as u32,
                ..old(self)@
            }),
    {
        self.textures.insert(self.texture_counter, texture);
        let result = TextureResource { idx: self.texture_counter };
        self.texture_counter += 1;
        result
    }

    /// The index that the next tessellation gets.
    pub fn tess_counter(&self) -> (counter: u32)
        ensures
            counter == self@.tess_counter,
    {
        self.tess_counter
    }

    /// The index that the next texture gets.
    pub fn texture_counter(&self) -> (counter: u32)
        ensures
            counter == self@.texture_counter,
    {
        self.texture_counter
    }

    /// Whether a tessellation is kept under this index.
    pub fn has_tess(&self, tess: &TessResource) -> (found: bool)
        ensures
            found == self@.tesses.contains_key(tess.idx),
    {
        self.tesses.contains_key(&tess.idx)
    }

    /// Whether a texture is kept under this index.
    pub fn has_texture(&self, texture: &TextureResource) -> (found: bool)
        ensures
            found == self@.textures.contains_key(texture.idx),
    {
        self.textures.contains_key(&texture.idx)
    }

    /// The tessellation kept under the index of a resource.
    pub fn get_tess(&self, tess: &TessResource) -> (found: &T)
        requires
            self@.tesses.contains_key(tess.idx),
        ensures
            *found == self@.tesses[tess.idx],
    {
        self.tesses.get(&tess.idx).unwrap()
    }

    /// The texture kept under the index of a resource, to change it in place.
    pub fn get_texture(&mut self, texture: &TextureResource) -> (found: &mut X)
        requires
            old(self)@.textures.contains_key(texture.idx),
        ensures
            *found == old(self)@.textures[texture.idx],
            final(self)@ == (ResourcesView {
                textures: old(self)@.textures.insert(texture.idx, *final(found)),
                ..old(self)@
            }),
    {
        value_mut(&mut self.textures, texture.idx)
    }

    /// Puts a tessellation under the index of a resource, in place of what
    /// was there.
    pub fn update_tess(&mut self, resource: TessResource, tess: T)
        ensures
            final(self)@ == (ResourcesView {
                tesses: old(self)@.tesses.insert(resource.idx, tess),
                ..old(self)@
            }),
    {
        self.tesses.insert(resource.idx, tess);
    }

    /// Puts a texture under the index of a resource, in place of what was
    /// there.
    pub fn update_texture(&mut self, resource: TextureResource, texture: X)
        ensures
            final(self)@ == (ResourcesView {
                textures: old(self)@.textures.insert(resource.idx, texture),
                ..old(self)@
            }),
    {
        self.textures.insert(resource.idx, texture);
    }
}

} // verus!
