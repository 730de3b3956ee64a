//! Block types drawn with textures.
use vstd::prelude::*;
use crate::types::BlockSide;

verus! {

/// Name of a material.
pub type MaterialName = String;

/// The text of an optional string.
pub open spec fn opt_view(o: Option<String>) -> Option<Seq<char>> {
    match o {
        Some(s) => Some(s@),
        None => None,
    }
}

/// A block type drawn with a texture per side: a side texture, and optional
/// top and bottom textures that override it.
#[derive(Debug, PartialEq)]
pub struct TexturedBlockType {
    pub block_type: String,
    pub is_visible: bool,
    pub is_translucent: bool,
    pub material_name: String,
    top_texture: Option<String>,
    side_texture: String,
    bottom_texture: Option<String>,
}

impl TexturedBlockType {
    /// The block type's name.
    pub closed spec fn name(&self) -> Seq<char> {
        self.block_type@
    }

    /// Whether the block is drawn.
    pub closed spec fn visible(&self) -> bool {
        self.is_visible
    }

    /// Whether the block lets neighbouring faces show.
    pub closed spec fn translucent(&self) -> bool {
        self.is_translucent
    }

    /// The material's name.
    pub closed spec fn material(&self) -> Seq<char> {
        self.material_name@
    }

    /// The top texture, if set.
    pub closed spec fn top(&self) -> Option<Seq<char>> {
        opt_view(self.top_texture)
    }

    /// The side texture.
    pub closed spec fn side(&self) -> Seq<char> {
        self.side_texture@
    }

    /// The bottom texture, if set.
    pub closed spec fn bottom(&self) -> Option<Seq<char>> {
        opt_view(self.bottom_texture)
    }

    /// The texture drawn on `side`: top and bottom fall back to the side texture.
    pub open spec fn texture_of(&self, side: BlockSide) -> Seq<char> {
        match side {
            BlockSide::Top => match self.top() {
                Some(t) => t,
                None => self.side(),
            },
            BlockSide::Bottom => match self.bottom() {
                Some(t) => t,
                None => self.side(),
            },
            _ => self.side(),
        }
    }

    /// The texture name drawn on `side`.
    pub fn get_block_side_texture(&self, side: BlockSide) -> (r: &str)
        ensures
            r@ == self.texture_of(side),
    {
        match side {
            BlockSide::Top => match &self.top_texture {
                Some(t) => t.as_str(),
                None => self.side_texture.as_str(),
            },
            BlockSide::Bottom => match &self.bottom_texture {
                Some(t) => t.as_str(),
                None => self.side_texture.as_str(),
            },
            _ => self.side_texture.as_str(),
        }
    }
}

impl Default for TexturedBlockType {
    /// Type `"none"`, invisible, opaque, material `"default"`, every side
    /// textured `"default"`.
    fn default() -> (r: Self)
        ensures
            r.name() == "none"@,
            !r.visible(),
            !r.translucent(),
            r.material() == "default"@,
            r.top() is None,
            r.side() == "default"@,
            r.bottom() is None,
    {
        TexturedBlockType {
            block_type: "none".to_owned(),
            is_visible: false,
            is_translucent: false,
            material_name: "default".to_owned(),
            top_texture: None,
            side_texture: "default".to_owned(),
            bottom_texture: None,
        }
    }
}

/// Builds a `TexturedBlockType` step by step.
pub struct TexturedBlockTypeBuilder {
    block_type: TexturedBlockType,
}

impl TexturedBlockTypeBuilder {
    /// The block type under construction.
    pub closed spec fn current(&self) -> TexturedBlockType {
        self.block_type
    }

    /// Starts from the default block type, named `block_type`.
    pub fn new(block_type: &str) -> (r: TexturedBlockTypeBuilder)
        ensures
            r.current().name() == block_type@,
            !r.current().visible(),
            !r.current().translucent(),
            r.current().material() == "default"@,
            r.current().top() is None,
            r.current().side() == "default"@,
            r.current().bottom() is None,
    {
        let d = TexturedBlockType::default();
        let textured_block_type = TexturedBlockType { block_type: block_type.to_owned(), ..d };
        TexturedBlockTypeBuilder { block_type: textured_block_type }
    }

    /// Sets visibility.
    pub fn visible(self, visible: bool) -> (r: Self)
        ensures
            r.current().visible() == visible,
            r.current().name() == self.current().name(),
            r.current().translucent() == self.current().translucent(),
            r.current().material() == self.current().material(),
            r.current().top() == self.current().top(),
            r.current().side() == self.current().side(),
            r.current().bottom() == self.current().bottom(),
    {
        let mut s = self;
        s.block_type.is_visible = visible;
        s
    }

    /// Sets translucency.
    pub fn translucent(self, translucent: bool) -> (r: Self)
        ensures
            r.current().translucent() == translucent,
            r.current().name() == self.current().name(),
            r.current().visible() == self.current().visible(),
            r.current().material() == self.current().material(),
            r.current().top() == self.current().top(),
            r.current().side() == self.current().side(),
            r.current().bottom() == self.current().bottom(),
    {
        let mut s = self;
        s.block_type.is_translucent = translucent;
        s
    }

    /// Sets the material.
    pub fn material(self, material_name: MaterialName) -> (r: Self)
        ensures
            r.current().material() == material_name@,
            r.current().name() == self.current().name(),
            r.current().visible() == self.current().visible(),
            r.current().translucent() == self.current().translucent(),
            r.current().top() == self.current().top(),
            r.current().side() == self.current().side(),
            r.current().bottom() == self.current().bottom(),
    {
        let mut s = self;
        s.block_type.material_name = material_name;
        s
    }

    /// Sets the texture of `block_side`: the four vertical sides share one
    /// texture; top and bottom each have their own.
    pub fn texture(self, block_side: BlockSide, texture_name: &str) -> (r: Self)
        ensures
            r.current().name() == self.current().name(),
            r.current().visible() == self.current().visible(),
            r.current().translucent() == self.current().translucent(),
            r.current().material() == self.current().material(),
            block_side == BlockSide::Top ==> r.current().top() == Some(texture_name@)
                && r.current().side() == self.current().side() && r.current().bottom()
                == self.current().bottom(),
            block_side == BlockSide::Bottom ==> r.current().bottom() == Some(texture_name@)
                && r.current().side() == self.current().side() && r.current().top()
                == self.current().top(),
            block_side != BlockSide::Top && block_side != BlockSide::Bottom ==> r.current().side()
                == texture_name@ && r.current().top() == self.current().top()
                && r.current().bottom() == self.current().bottom(),
    {
        let mut s = self;
        match block_side {
            BlockSide::Top => {
                s.block_type.top_texture = Some(texture_name.to_owned());
            },
            BlockSide::Bottom => {
                s.block_type.bottom_texture = Some(texture_name.to_owned());
            },
            _ => {
                s.block_type.side_texture = texture_name.to_owned();
            },
        }
        s
    }

    /// The finished block type.
    pub fn build(self) -> (r: TexturedBlockType)
        ensures
            r == self.current(),
    {
        self.block_type
    }
}

impl Default for TexturedBlockTypeBuilder {
    /// A builder starting from the default block type.
    fn default() -> (r: Self)
        ensures
            r.current().name() == "none"@,
            !r.current().visible(),
            !r.current().translucent(),
            r.current().material() == "default"@,
            r.current().top() is None,
            r.current().side() == "default"@,
            r.current().bottom() is None,
    {
        TexturedBlockTypeBuilder { block_type: TexturedBlockType::default() }
    }
}

} // verus!
