//! Texture names to texture indices.
use vstd::prelude::*;
use vstd::hash_map::StringHashMap;
use crate::chunk_mesh_builder::chunk_mesh::TextureIndex;

verus! {

/// Name of a texture.
pub type TextureName = String;

/// Maps texture names to texture indices.
pub struct TextureDictionary {
    texture_index_dictionary: StringHashMap<TextureIndex>,
}

impl View for TextureDictionary {
    type V = Map<Seq<char>, TextureIndex>;

    closed spec fn view(&self) -> Map<Seq<char>, TextureIndex> {
        self.texture_index_dictionary@
    }
}

impl TextureDictionary {
    /// A dictionary holding `textures`.
    pub fn new(textures: StringHashMap<TextureIndex>) -> (r: TextureDictionary)
        ensures
            r@ == textures@,
    {
        TextureDictionary { texture_index_dictionary: textures }
    }

    /// An empty dictionary.
    pub fn empty() -> (r: TextureDictionary)
        ensures
            r@ == Map::<Seq<char>, TextureIndex>::empty(),
    {
        TextureDictionary { texture_index_dictionary: StringHashMap::new() }
    }

    /// Records `index` for `name`, replacing an earlier index.
    pub fn set_texture_index(&mut self, name: TextureName, index: TextureIndex)
        ensures
            final(self)@ == old(self)@.insert(name@, index),
    {
        self.texture_index_dictionary.insert(name, index);
    }

    /// The index recorded for `name`, if any.
    pub fn get_texture_index_from_name(&self, name: &str) -> (r: Option<TextureIndex>)
        ensures
            self@.contains_key(name@) ==> r == Some(self@[name@]),
            !self@.contains_key(name@) ==> r is None,
    {
        match self.texture_index_dictionary.get(name) {
            Some(e) => Some(*e),
            None => None,
        }
    }
}

/// A read after a write of the same name gives back the written index.
pub proof fn lemma_get_after_set(d: Map<Seq<char>, TextureIndex>, name: Seq<char>, index: TextureIndex)
    ensures
        d.insert(name, index).contains_key(name),
        d.insert(name, index)[name] == index,
{
}

} // verus!
