use crate::text::str_equal;
use vstd::prelude::*;

verus! {

/// Texture formats of the textures that GI providers plan.
#[derive(Clone, Copy, Debug, PartialEq, Eq, Structural)]
pub enum TextureFormat {
    Rgba16Float,
    R32Float,
    Depth32Float,
}

/// Usage flags of a texture, as a bit set.
#[derive(Clone, Copy, Debug, PartialEq, Eq, Structural)]
pub struct TextureUsages {
    pub bits: u32,
}

pub const TEXTURE_USAGE_COPY_SRC: u32 = 1;

pub const TEXTURE_USAGE_COPY_DST: u32 = 2;

pub const TEXTURE_USAGE_TEXTURE_BINDING: u32 = 4;

pub const TEXTURE_USAGE_STORAGE_BINDING: u32 = 8;

pub const TEXTURE_USAGE_RENDER_ATTACHMENT: u32 = 16;

impl TextureUsages {
    /// Whether every flag of `other` is set in `self`.
    pub fn contains(self, other: TextureUsages) -> (r: bool)
        ensures
            r == (self.bits & other.bits == other.bits),
    {
        self.bits & other.bits == other.bits
    }
}

/// Size rule of a graph texture.
#[derive(Clone, Copy, Debug, PartialEq, Eq, Structural)]
pub enum TargetSize {
    Exact(u32, u32),
}

/// Description of a texture that a pass graph creates.
#[derive(Debug)]
pub struct TextureSpec {
    pub name: String,
    pub format: TextureFormat,
    pub size: TargetSize,
    pub usage: TextureUsages,
    pub mip_level_count: u32,
    pub array_layer_count: u32,
}

impl TextureSpec {
    /// A one-by-one texture with one mip level, one layer and no usage flags.
    pub fn new(name: &str, format: TextureFormat) -> (r: TextureSpec)
        ensures
            r.name@ == name@,
            r.format == format,
            r.size == TargetSize::Exact(1, 1),
            r.usage.bits == 0,
            r.mip_level_count == 1,
            r.array_layer_count == 1,
    {
        TextureSpec {
            name: name.to_owned(),
            format,
            size: TargetSize::Exact(1, 1),
            usage: TextureUsages { bits: 0 },
            mip_level_count: 1,
            array_layer_count: 1,
        }
    }

    pub fn exact(self, width: u32, height: u32) -> (r: TextureSpec)
        ensures
            r == (TextureSpec { size: TargetSize::Exact(width, height), ..self }),
    {
        TextureSpec { size: TargetSize::Exact(width, height), ..self }
    }

    pub fn usage(self, usage: TextureUsages) -> (r: TextureSpec)
        ensures
            r == (TextureSpec { usage, ..self }),
    {
        TextureSpec { usage, ..self }
    }

    pub fn mips(self, mip_level_count: u32) -> (r: TextureSpec)
        ensures
            r == (TextureSpec { mip_level_count, ..self }),
    {
        TextureSpec { mip_level_count, ..self }
    }

    pub fn array_layers(self, array_layer_count: u32) -> (r: TextureSpec)
        ensures
            r == (TextureSpec { array_layer_count, ..self }),
    {
        TextureSpec { array_layer_count, ..self }
    }

    pub fn name(&self) -> (r: &str)
        ensures
            r@ == self.name@,
    {
        self.name.as_str()
    }

    pub fn size(&self) -> (r: TargetSize)
        ensures
            r == self.size,
    {
        self.size
    }

    pub fn format(&self) -> (r: TextureFormat)
        ensures
            r == self.format,
    {
        self.format
    }

    pub fn usage_flags(&self) -> (r: TextureUsages)
        ensures
            r == self.usage,
    {
        self.usage
    }

    pub fn mip_level_count(&self) -> (r: u32)
        ensures
            r == self.mip_level_count,
    {
        self.mip_level_count
    }

    pub fn array_layer_count(&self) -> (r: u32)
        ensures
            r == self.array_layer_count,
    {
        self.array_layer_count
    }
}

/// Handle of a texture of a render graph: its creation index.
#[derive(Clone, Copy, Debug, PartialEq, Eq, Structural)]
pub struct TextureHandle(pub u32);

/// A range of mip levels and array layers of one graph texture.
#[derive(Clone, Copy, Debug, PartialEq, Eq, Structural)]
pub struct TextureSubresource {
    pub texture: TextureHandle,
    pub base_mip_level: u32,
    pub mip_level_count: u32,
    pub base_array_layer: u32,
    pub array_layer_count: u32,
}

impl TextureSubresource {
    pub fn new(
        texture: TextureHandle,
        base_mip_level: u32,
        mip_level_count: u32,
        base_array_layer: u32,
        array_layer_count: u32,
    ) -> (r: TextureSubresource)
        ensures
            r == (TextureSubresource {
                texture,
                base_mip_level,
                mip_level_count,
                base_array_layer,
                array_layer_count,
            }),
    {
        TextureSubresource {
            texture,
            base_mip_level,
            mip_level_count,
            base_array_layer,
            array_layer_count,
        }
    }
}

/// A resource that a pass reads or writes.
#[derive(Clone, Copy, Debug, PartialEq, Eq, Structural)]
pub enum ResourceRef {
    Texture(TextureHandle),
    TextureSubresource(TextureSubresource),
}

/// Scheduling hint: the pass may run on an async compute queue.
pub const PASS_FLAG_PREFER_ASYNC_COMPUTE: u32 = 1;

/// Scheduling hint: the pass is bound by memory bandwidth.
pub const PASS_FLAG_BANDWIDTH_INTENSIVE: u32 = 2;

/// Scheduling hint: the pass is bound by arithmetic.
pub const PASS_FLAG_COMPUTE_INTENSIVE: u32 = 4;

/// One declared pass: its name, what it reads and writes, and its hints.
#[derive(Debug)]
pub struct PassDecl {
    pub name: String,
    pub reads: Vec<ResourceRef>,
    pub writes: Vec<ResourceRef>,
    pub flags: u32,
}

/// The textures and passes declared for one frame.
#[derive(Debug)]
pub struct RenderGraph {
    pub textures: Vec<TextureSpec>,
    pub passes: Vec<PassDecl>,
}

impl RenderGraph {
    pub fn new() -> (r: RenderGraph)
        ensures
            r.textures@.len() == 0,
            r.passes@.len() == 0,
    {
        RenderGraph { textures: Vec::new(), passes: Vec::new() }
    }

    /// Adds a texture; its handle is its creation index.
    pub fn create_texture(&mut self, spec: TextureSpec) -> (h: TextureHandle)
        requires
            old(self).textures.len() < u32::MAX,
        ensures
            h.0 == old(self).textures.len(),
            final(self).textures@ == old(self).textures@.push(spec),
            final(self).passes@ == old(self).passes@,
    {
        let h = TextureHandle(self.textures.len() as u32);
        self.textures.push(spec);
        h
    }

    /// The first texture created under `name`.
    pub fn get_texture(&self, name: &str) -> (r: Option<TextureHandle>)
        requires
            self.textures.len() <= u32::MAX,
        ensures
            match r {
                Some(h) => {
                    &&& h.0 < self.textures@.len()
                    &&& self.textures@[h.0 as int].name@ == name@
                    &&& forall|j: int|
                        0 <= j < h.0 ==> (#[trigger] self.textures@[j]).name@ != name@
                },
                None => forall|j: int|
                    0 <= j < self.textures@.len() ==> (#[trigger] self.textures@[j]).name@
                        != name@,
            },
    {
        let mut i: usize = 0;
        while i < self.textures.len()
            invariant
                i <= self.textures.len(),
                self.textures.len() <= u32::MAX,
                forall|j: int| 0 <= j < i ==> (#[trigger] self.textures@[j]).name@ != name@,
            decreases self.textures.len() - i,
        {
            if str_equal(self.textures[i].name.as_str(), name) {
                return Some(TextureHandle(i as u32));
            }
            i = i + 1;
        }
        None
    }

    pub fn add_pass(&mut self, pass: PassDecl)
        ensures
            final(self).passes@ == old(self).passes@.push(pass),
            final(self).textures@ == old(self).textures@,
    {
        self.passes.push(pass);
    }

    pub fn pass_count(&self) -> (r: usize)
        ensures
            r == self.passes@.len(),
    {
        self.passes.len()
    }
}

} // verus!
