use crate::gi::graph::PassDecl;
use crate::gi::graph::RenderGraph;
use crate::gi::graph::ResourceRef;
use crate::gi::graph::TextureFormat;
use crate::gi::graph::TextureHandle;
use crate::gi::graph::TextureSpec;
use crate::gi::graph::TextureSubresource;
use crate::gi::graph::TextureUsages;
use crate::gi::graph::TargetSize;
use crate::gi::graph::PASS_FLAG_BANDWIDTH_INTENSIVE;
use crate::gi::graph::PASS_FLAG_COMPUTE_INTENSIVE;
use crate::gi::graph::PASS_FLAG_PREFER_ASYNC_COMPUTE;
use crate::text::str_equal;
use vstd::prelude::*;

verus! {

/// Number of mip levels of the SSGI chains (2x, 4x, 8x and 16x).
pub const SSGI_MIP_COUNT: usize = 4;

/// Number of array layers of the deinterleaved SSGI atlases.
pub const SSGI_ATLAS_LAYERS: u32 = 16;

/// Alignment, in pixels, of the internal SSGI target size.
pub const SSGI_INTERNAL_ALIGNMENT: u32 = 64;

/// Usage of every SSGI compute texture: sampled, storage, copy source and destination.
pub const SSGI_COMPUTE_TEXTURE_USAGE: u32 = 15;

pub open spec fn max1(v: int) -> int {
    if v >= 1 {
        v
    } else {
        1
    }
}

/// `v / d` rounded up.
pub open spec fn div_ceil(v: int, d: int) -> int {
    v / d + if v % d == 0 {
        0int
    } else {
        1int
    }
}

pub open spec fn pow2(e: nat) -> nat
    decreases e,
{
    if e == 0 {
        1
    } else {
        2 * pow2((e - 1) as nat)
    }
}

/// `value` (at least 1) rounded up to a multiple of `alignment`; with no
/// alignment, `value` (at least 1).
pub open spec fn spec_align_to(value: int, alignment: int) -> int {
    if alignment == 0 {
        max1(value)
    } else {
        div_ceil(max1(value), alignment) * alignment
    }
}

fn div_ceil_u32(v: u32, d: u32) -> (r: u32)
    requires
        d > 0,
    ensures
        r == div_ceil(v as int, d as int),
{
    assert(v % d != 0 ==> v / d < u32::MAX) by (nonlinear_arith)
        requires
            d > 0,
            v <= u32::MAX,
    ;
    if v % d == 0 {
        v / d
    } else {
        v / d + 1
    }
}

/// `value` rounded up to a multiple of `alignment`, treating 0 as 1.
pub fn align_to(value: u32, alignment: u32) -> (r: u32)
    requires
        spec_align_to(value as int, alignment as int) <= u32::MAX,
    ensures
        r == spec_align_to(value as int, alignment as int),
{
    let v = if value >= 1 {
        value
    } else {
        1
    };
    if alignment == 0 {
        return v;
    }
    assert(v == max1(value as int));
    let q = div_ceil_u32(v, alignment);
    assert(q * alignment <= u32::MAX);
    q * alignment
}

fn pow2_u32(e: u32) -> (r: u32)
    requires
        e < 32,
    ensures
        r == pow2(e as nat),
{
    let mut r: u32 = 1;
    let mut i: u32 = 0;
    while i < e
        invariant
            i <= e,
            e < 32,
            r == pow2(i as nat),
        decreases e - i,
    {
        proof {
            lemma_pow2_bound(i as nat);
        }
        r = r * 2;
        i = i + 1;
    }
    r
}

proof fn lemma_pow2_monotonic(a: nat, b: nat)
    requires
        a <= b,
    ensures
        pow2(a) <= pow2(b),
    decreases b,
{
    if a < b {
        lemma_pow2_monotonic(a, (b - 1) as nat);
    }
}

proof fn lemma_pow2_bound(e: nat)
    requires
        e < 31,
    ensures
        pow2(e) * 2 <= u32::MAX,
        pow2(e + 1) == 2 * pow2(e),
{
    lemma_pow2_monotonic(e, 30);
    assert(pow2(30) == 0x4000_0000) by {
        reveal_with_fuel(pow2, 31);
    }
}

/// Wicked-style SSGI mip dimensions.
#[derive(Clone, Copy, Debug, Default, PartialEq, Eq)]
pub struct SsgiMipLevel {
    pub scale: u32,
    pub atlas_size: [u32; 2],
    pub regular_size: [u32; 2],
}

/// Mip `i` of a chain whose level 0 is `atlas` (deinterleaved) and
/// `regular` (full-layout) texels: both halve per level, never below 1.
pub open spec fn is_mip_level(m: SsgiMipLevel, atlas: [u32; 2], regular: [u32; 2], i: nat) -> bool {
    &&& m.scale == pow2(i) * 2
    &&& m.atlas_size[0] == max1(atlas[0] as int / (pow2(i) as int))
    &&& m.atlas_size[1] == max1(atlas[1] as int / (pow2(i) as int))
    &&& m.regular_size[0] == max1(regular[0] as int / (pow2(i) as int))
    &&& m.regular_size[1] == max1(regular[1] as int / (pow2(i) as int))
}

fn mip_level_for(atlas: [u32; 2], regular: [u32; 2], index: u32) -> (m: SsgiMipLevel)
    requires
        index < 4,
    ensures
        is_mip_level(m, atlas, regular, index as nat),
{
    let scale = pow2_u32(index);
    proof {
        lemma_pow2_bound(index as nat);
        lemma_pow2_positive(index as nat);
    }
    let a0 = atlas[0] / scale;
    let a1 = atlas[1] / scale;
    let r0 = regular[0] / scale;
    let r1 = regular[1] / scale;
    SsgiMipLevel {
        scale: scale * 2,
        atlas_size: [
            if a0 >= 1 {
                a0
            } else {
                1
            },
            if a1 >= 1 {
                a1
            } else {
                1
            },
        ],
        regular_size: [
            if r0 >= 1 {
                r0
            } else {
                1
            },
            if r1 >= 1 {
                r1
            } else {
                1
            },
        ],
    }
}

proof fn lemma_pow2_positive(e: nat)
    ensures
        pow2(e) >= 1,
    decreases e,
{
    if e > 0 {
        lemma_pow2_positive((e - 1) as nat);
    }
}

/// Sizes of the SSGI working textures for one render target.
#[derive(Clone, Copy, Debug, Default, PartialEq, Eq)]
pub struct SsgiResources {
    pub target_size: [u32; 2],
    pub aligned_size: [u32; 2],
    pub atlas_size: [u32; 2],
    pub mip_chain: [SsgiMipLevel; 4],
}

/// The resources planned for a `width` x `height` target: the target size
/// (at least 1 by 1), aligned up to 64 pixels; the deinterleaved atlas an
/// eighth of it; and four mip levels, halving from half resolution.
pub open spec fn is_planned_for(r: SsgiResources, width: int, height: int) -> bool {
    let regular = [
        max1(div_ceil(r.aligned_size[0] as int, 2)) as u32,
        max1(div_ceil(r.aligned_size[1] as int, 2)) as u32,
    ];
    &&& r.target_size[0] == max1(width)
    &&& r.target_size[1] == max1(height)
    &&& r.aligned_size[0] == spec_align_to(r.target_size[0] as int, SSGI_INTERNAL_ALIGNMENT as int)
    &&& r.aligned_size[1] == spec_align_to(r.target_size[1] as int, SSGI_INTERNAL_ALIGNMENT as int)
    &&& r.atlas_size[0] == max1(div_ceil(r.aligned_size[0] as int, 8))
    &&& r.atlas_size[1] == max1(div_ceil(r.aligned_size[1] as int, 8))
    &&& forall|i: int|
        0 <= i < 4 ==> is_mip_level(#[trigger] r.mip_chain[i], r.atlas_size, regular, i as nat)
}

proof fn lemma_shift_is_division(x: u32, i: u32)
    requires
        i < 4,
    ensures
        (x >> i) as int == x as int / (pow2(i as nat) as int),
        (2u32 << i) as int == pow2(i as nat) * 2,
{
    reveal_with_fuel(pow2, 4);
    assert(pow2(0) == 1 && pow2(1) == 2 && pow2(2) == 4 && pow2(3) == 8);
    let d: u32 = if i == 0 { 1 } else if i == 1 { 2 } else if i == 2 { 4 } else { 8 };
    assert(d as nat == pow2(i as nat));
    assert(x >> i == x / d && 2u32 << i == 2 * d) by (bit_vector)
        requires
            i < 4,
            d == (if i == 0 { 1u32 } else if i == 1 { 2u32 } else if i == 2 { 4u32 } else { 8u32 }),
    ;
}

/// A planned SSGI size chain in the shift form: the aligned size is a
/// multiple of 64 and the atlas an eighth of it; mip `i` has scale `2 << i`,
/// an atlas size of the atlas shifted right by `i` and a regular size of
/// half the aligned size shifted right by `i`, each at least 1.
pub proof fn lemma_planned_shift_form(r: SsgiResources, width: int, height: int)
    requires
        is_planned_for(r, width, height),
    ensures
        r.aligned_size[0] % 64 == 0,
        r.aligned_size[1] % 64 == 0,
        r.atlas_size[0] == r.aligned_size[0] / 8,
        r.atlas_size[1] == r.aligned_size[1] / 8,
        forall|i: u32|
            i < 4 ==> {
                let m = #[trigger] r.mip_chain[i as int];
                &&& m.scale == 2u32 << i
                &&& m.atlas_size[0] == max1((r.atlas_size[0] >> i) as int)
                &&& m.atlas_size[1] == max1((r.atlas_size[1] >> i) as int)
                &&& m.regular_size[0] == max1(((r.aligned_size[0] / 2) >> i) as int)
                &&& m.regular_size[1] == max1(((r.aligned_size[1] / 2) >> i) as int)
            },
{
    let q0 = div_ceil(r.target_size[0] as int, 64);
    let q1 = div_ceil(r.target_size[1] as int, 64);
    assert(r.aligned_size[0] == q0 * 64);
    assert(r.aligned_size[1] == q1 * 64);
    assert(q0 >= 1 && q1 >= 1) by {
        assert(r.target_size[0] >= 1 && r.target_size[1] >= 1);
    }
    assert((q0 * 64) % 64 == 0 && (q0 * 64) % 8 == 0 && (q0 * 64) / 8 == q0 * 8 && (q0 * 64) % 2 == 0
        && (q0 * 64) / 2 == q0 * 32) by (nonlinear_arith)
        requires q0 >= 1;
    assert((q1 * 64) % 64 == 0 && (q1 * 64) % 8 == 0 && (q1 * 64) / 8 == q1 * 8 && (q1 * 64) % 2 == 0
        && (q1 * 64) / 2 == q1 * 32) by (nonlinear_arith)
        requires q1 >= 1;
    assert forall|i: u32| i < 4 implies {
        let m = #[trigger] r.mip_chain[i as int];
        &&& m.scale == 2u32 << i
        &&& m.atlas_size[0] == max1((r.atlas_size[0] >> i) as int)
        &&& m.atlas_size[1] == max1((r.atlas_size[1] >> i) as int)
        &&& m.regular_size[0] == max1(((r.aligned_size[0] / 2) >> i) as int)
        &&& m.regular_size[1] == max1(((r.aligned_size[1] / 2) >> i) as int)
    } by {
        assert(is_mip_level(r.mip_chain[i as int], r.atlas_size, [
            max1(div_ceil(r.aligned_size[0] as int, 2)) as u32,
            max1(div_ceil(r.aligned_size[1] as int, 2)) as u32,
        ], i as nat));
        lemma_shift_is_division(r.atlas_size[0], i);
        lemma_shift_is_division(r.atlas_size[1], i);
        lemma_shift_is_division(r.aligned_size[0] / 2, i);
        lemma_shift_is_division(r.aligned_size[1] / 2, i);
    }
}

impl SsgiResources {
    pub fn target_size(&self) -> (r: [u32; 2])
        ensures
            r == self.target_size,
    {
        self.target_size
    }

    pub fn aligned_size(&self) -> (r: [u32; 2])
        ensures
            r == self.aligned_size,
    {
        self.aligned_size
    }

    pub fn atlas_size(&self) -> (r: [u32; 2])
        ensures
            r == self.atlas_size,
    {
        self.atlas_size
    }

    pub fn atlas_layers(&self) -> (r: u32)
        ensures
            r == SSGI_ATLAS_LAYERS,
    {
        SSGI_ATLAS_LAYERS
    }

    pub fn mip_level(&self, index: usize) -> (r: Option<SsgiMipLevel>)
        ensures
            r == if index < SSGI_MIP_COUNT {
                Some(self.mip_chain[index as int])
            } else {
                None
            },
    {
        if index < SSGI_MIP_COUNT {
            Some(self.mip_chain[index])
        } else {
            None
        }
    }

    /// Re-plans every size for a `width` x `height` target.
    pub fn resize(&mut self, width: u32, height: u32)
        requires
            width <= u32::MAX - SSGI_INTERNAL_ALIGNMENT,
            height <= u32::MAX - SSGI_INTERNAL_ALIGNMENT,
        ensures
            is_planned_for(*final(self), width as int, height as int),
    {
        let tw = if width >= 1 {
            width
        } else {
            1
        };
        let th = if height >= 1 {
            height
        } else {
            1
        };
        assert(spec_align_to(tw as int, 64) <= u32::MAX) by {
            assert(div_ceil(tw as int, 64) * 64 <= tw + 63);
        }
        assert(spec_align_to(th as int, 64) <= u32::MAX) by {
            assert(div_ceil(th as int, 64) * 64 <= th + 63);
        }
        let aw = align_to(tw, SSGI_INTERNAL_ALIGNMENT);
        let ah = align_to(th, SSGI_INTERNAL_ALIGNMENT);
        let atw = div_ceil_u32(aw, 8);
        let ath = div_ceil_u32(ah, 8);
        let atlas = [
            if atw >= 1 {
                atw
            } else {
                1
            },
            if ath >= 1 {
                ath
            } else {
                1
            },
        ];
        let rw = div_ceil_u32(aw, 2);
        let rh = div_ceil_u32(ah, 2);
        let regular = [
            if rw >= 1 {
                rw
            } else {
                1
            },
            if rh >= 1 {
                rh
            } else {
                1
            },
        ];
        let m0 = mip_level_for(atlas, regular, 0);
        let m1 = mip_level_for(atlas, regular, 1);
        let m2 = mip_level_for(atlas, regular, 2);
        let m3 = mip_level_for(atlas, regular, 3);
        self.target_size = [tw, th];
        self.aligned_size = [aw, ah];
        self.atlas_size = atlas;
        self.mip_chain = [m0, m1, m2, m3];
        assert(regular@ =~= [
            max1(div_ceil(self.aligned_size[0] as int, 2)) as u32,
            max1(div_ceil(self.aligned_size[1] as int, 2)) as u32,
        ]@);
    }

    /// The texture contract of the compute SSGI path.
    pub fn compute_texture_layout(&self) -> (r: SsgiComputeTextureLayout)
        ensures
            r.atlas_size[0] == max1(self.atlas_size[0] as int),
            r.atlas_size[1] == max1(self.atlas_size[1] as int),
            r.regular_mip_size[0] == max1(self.mip_chain[0].regular_size[0] as int),
            r.regular_mip_size[1] == max1(self.mip_chain[0].regular_size[1] as int),
            r.mip_level_count == SSGI_MIP_COUNT,
            r.atlas_layer_count == SSGI_ATLAS_LAYERS,
            r.atlas_color_format == TextureFormat::Rgba16Float,
            r.atlas_depth_format == TextureFormat::R32Float,
            r.depth_mip_format == TextureFormat::R32Float,
            r.normal_mip_format == TextureFormat::Rgba16Float,
            r.diffuse_mip_format == TextureFormat::Rgba16Float,
            r.usage.bits == SSGI_COMPUTE_TEXTURE_USAGE,
    {
        let level0 = self.mip_chain[0];
        SsgiComputeTextureLayout {
            atlas_size: [
                if self.atlas_size[0] >= 1 {
                    self.atlas_size[0]
                } else {
                    1
                },
                if self.atlas_size[1] >= 1 {
                    self.atlas_size[1]
                } else {
                    1
                },
            ],
            regular_mip_size: [
                if level0.regular_size[0] >= 1 {
                    level0.regular_size[0]
                } else {
                    1
                },
                if level0.regular_size[1] >= 1 {
                    level0.regular_size[1]
                } else {
                    1
                },
            ],
            mip_level_count: 4,
            atlas_layer_count: SSGI_ATLAS_LAYERS,
            atlas_color_format: TextureFormat::Rgba16Float,
            atlas_depth_format: TextureFormat::R32Float,
            depth_mip_format: TextureFormat::R32Float,
            normal_mip_format: TextureFormat::Rgba16Float,
            diffuse_mip_format: TextureFormat::Rgba16Float,
            usage: TextureUsages { bits: SSGI_COMPUTE_TEXTURE_USAGE },
        }
    }
}

/// Texture contract for the compute-backed SSGI path.
#[derive(Clone, Copy, Debug, PartialEq, Eq)]
pub struct SsgiComputeTextureLayout {
    pub atlas_size: [u32; 2],
    pub regular_mip_size: [u32; 2],
    pub mip_level_count: u32,
    pub atlas_layer_count: u32,
    pub atlas_color_format: TextureFormat,
    pub atlas_depth_format: TextureFormat,
    pub depth_mip_format: TextureFormat,
    pub normal_mip_format: TextureFormat,
    pub diffuse_mip_format: TextureFormat,
    pub usage: TextureUsages,
}

/// Graph names of the SSGI compute textures.
pub open spec fn ssgi_texture_name(k: int) -> Seq<char> {
    if k == 0 {
        "ssgi_texture_atlas_color"@
    } else if k == 1 {
        "ssgi_texture_atlas_depth"@
    } else if k == 2 {
        "ssgi_texture_depth_mips"@
    } else if k == 3 {
        "ssgi_texture_normal_mips"@
    } else {
        "ssgi_texture_diffuse_mips"@
    }
}

/// `t` is a texture named `name` of format `format`, exactly `size`
/// texels, with the SSGI compute usage and the given mip and layer counts.
pub open spec fn is_ssgi_texture(
    t: TextureSpec,
    name: Seq<char>,
    format: TextureFormat,
    size: [u32; 2],
    mips: u32,
    layers: u32,
) -> bool {
    &&& t.name@ == name
    &&& t.format == format
    &&& t.size == TargetSize::Exact(size[0], size[1])
    &&& t.usage.bits == SSGI_COMPUTE_TEXTURE_USAGE
    &&& t.mip_level_count == mips
    &&& t.array_layer_count == layers
}

/// The five SSGI compute textures: the color and depth atlases (array
/// textures of the atlas size), and the depth, normal and diffuse mip chains
/// (of the regular level-0 size).
pub struct SsgiComputeTextureSpecs {
    pub atlas_color: TextureSpec,
    pub atlas_depth: TextureSpec,
    pub depth_mips: TextureSpec,
    pub normal_mips: TextureSpec,
    pub diffuse_mips: TextureSpec,
}

pub open spec fn specs_match_layout(specs: SsgiComputeTextureSpecs, layout: SsgiComputeTextureLayout) -> bool {
    &&& is_ssgi_texture(specs.atlas_color, ssgi_texture_name(0), layout.atlas_color_format, layout.atlas_size, layout.mip_level_count, layout.atlas_layer_count)
    &&& is_ssgi_texture(specs.atlas_depth, ssgi_texture_name(1), layout.atlas_depth_format, layout.atlas_size, layout.mip_level_count, layout.atlas_layer_count)
    &&& is_ssgi_texture(specs.depth_mips, ssgi_texture_name(2), layout.depth_mip_format, layout.regular_mip_size, layout.mip_level_count, 1)
    &&& is_ssgi_texture(specs.normal_mips, ssgi_texture_name(3), layout.normal_mip_format, layout.regular_mip_size, layout.mip_level_count, 1)
    &&& is_ssgi_texture(specs.diffuse_mips, ssgi_texture_name(4), layout.diffuse_mip_format, layout.regular_mip_size, layout.mip_level_count, 1)
}

fn ssgi_texture_spec(
    name: &str,
    format: TextureFormat,
    size: [u32; 2],
    usage: TextureUsages,
    mips: u32,
    layers: u32,
) -> (t: TextureSpec)
    ensures
        t.name@ == name@,
        t.format == format,
        t.size == TargetSize::Exact(size[0], size[1]),
        t.usage == usage,
        t.mip_level_count == mips,
        t.array_layer_count == layers,
{
    TextureSpec::new(name, format).exact(size[0], size[1]).usage(usage).mips(mips).array_layers(
        layers,
    )
}

impl SsgiComputeTextureSpecs {
    pub fn from_layout(layout: SsgiComputeTextureLayout) -> (specs: SsgiComputeTextureSpecs)
        requires
            layout.usage.bits == SSGI_COMPUTE_TEXTURE_USAGE,
        ensures
            specs_match_layout(specs, layout),
    {
        let usage = layout.usage;
        SsgiComputeTextureSpecs {
            atlas_color: ssgi_texture_spec(
                "ssgi_texture_atlas_color",
                layout.atlas_color_format,
                layout.atlas_size,
                usage,
                layout.mip_level_count,
                layout.atlas_layer_count,
            ),
            atlas_depth: ssgi_texture_spec(
                "ssgi_texture_atlas_depth",
                layout.atlas_depth_format,
                layout.atlas_size,
                usage,
                layout.mip_level_count,
                layout.atlas_layer_count,
            ),
            depth_mips: ssgi_texture_spec(
                "ssgi_texture_depth_mips",
                layout.depth_mip_format,
                layout.regular_mip_size,
                usage,
                layout.mip_level_count,
                1,
            ),
            normal_mips: ssgi_texture_spec(
                "ssgi_texture_normal_mips",
                layout.normal_mip_format,
                layout.regular_mip_size,
                usage,
                layout.mip_level_count,
                1,
            ),
            diffuse_mips: ssgi_texture_spec(
                "ssgi_texture_diffuse_mips",
                layout.diffuse_mip_format,
                layout.regular_mip_size,
                usage,
                layout.mip_level_count,
                1,
            ),
        }
    }
}

/// The SSGI compute texture specs of `resources`' compute layout.
pub fn ssgi_compute_texture_specs(resources: SsgiResources) -> (specs: SsgiComputeTextureSpecs)
    ensures
        exists|layout: SsgiComputeTextureLayout|
            #![trigger specs_match_layout(specs, layout)]
            specs_match_layout(specs, layout) && layout.atlas_size[0] == max1(
                resources.atlas_size[0] as int,
            ) && layout.atlas_size[1] == max1(resources.atlas_size[1] as int)
                && layout.regular_mip_size[0] == max1(
                resources.mip_chain[0].regular_size[0] as int,
            ) && layout.regular_mip_size[1] == max1(resources.mip_chain[0].regular_size[1] as int)
                && layout.mip_level_count == SSGI_MIP_COUNT && layout.atlas_layer_count
                == SSGI_ATLAS_LAYERS && layout.atlas_color_format == TextureFormat::Rgba16Float
                && layout.atlas_depth_format == TextureFormat::R32Float && layout.depth_mip_format
                == TextureFormat::R32Float && layout.normal_mip_format == TextureFormat::Rgba16Float
                && layout.diffuse_mip_format == TextureFormat::Rgba16Float,
{
    let layout = resources.compute_texture_layout();
    let specs = SsgiComputeTextureSpecs::from_layout(layout);
    assert(specs_match_layout(specs, layout));
    specs
}

/// Handles of the SSGI compute textures in a render graph.
#[derive(Clone, Copy, Debug, PartialEq, Eq, Structural)]
pub struct SsgiComputeGraphResources {
    pub atlas_color: TextureHandle,
    pub atlas_depth: TextureHandle,
    pub depth_mips: TextureHandle,
    pub normal_mips: TextureHandle,
    pub diffuse_mips: TextureHandle,
}

pub open spec fn one_mip(texture: TextureHandle, mip: u32) -> TextureSubresource {
    TextureSubresource {
        texture,
        base_mip_level: mip,
        mip_level_count: 1,
        base_array_layer: 0,
        array_layer_count: 1,
    }
}

impl SsgiComputeGraphResources {
    /// One layer of one mip of the color atlas.
    pub fn atlas_color_layer(self, mip_level: u32, layer: u32) -> (r: TextureSubresource)
        ensures
            r == (TextureSubresource {
                texture: self.atlas_color,
                base_mip_level: mip_level,
                mip_level_count: 1,
                base_array_layer: layer,
                array_layer_count: 1,
            }),
    {
        TextureSubresource::new(self.atlas_color, mip_level, 1, layer, 1)
    }

    /// One layer of one mip of the depth atlas.
    pub fn atlas_depth_layer(self, mip_level: u32, layer: u32) -> (r: TextureSubresource)
        ensures
            r == (TextureSubresource {
                texture: self.atlas_depth,
                base_mip_level: mip_level,
                mip_level_count: 1,
                base_array_layer: layer,
                array_layer_count: 1,
            }),
    {
        TextureSubresource::new(self.atlas_depth, mip_level, 1, layer, 1)
    }

    pub fn depth_mip(self, mip_level: u32) -> (r: TextureSubresource)
        ensures
            r == one_mip(self.depth_mips, mip_level),
    {
        TextureSubresource::new(self.depth_mips, mip_level, 1, 0, 1)
    }

    pub fn normal_mip(self, mip_level: u32) -> (r: TextureSubresource)
        ensures
            r == one_mip(self.normal_mips, mip_level),
    {
        TextureSubresource::new(self.normal_mips, mip_level, 1, 0, 1)
    }

    pub fn diffuse_mip(self, mip_level: u32) -> (r: TextureSubresource)
        ensures
            r == one_mip(self.diffuse_mips, mip_level),
    {
        TextureSubresource::new(self.diffuse_mips, mip_level, 1, 0, 1)
    }
}

/// Creates the five SSGI compute textures of `resources` in `graph`, in the
/// order color atlas, depth atlas, depth, normal and diffuse mip chains.
pub fn create_ssgi_compute_resources(graph: &mut RenderGraph, resources: SsgiResources) -> (handles:
    SsgiComputeGraphResources)
    requires
        old(graph).textures.len() + 5 <= u32::MAX,
    ensures
        final(graph).passes@ == old(graph).passes@,
        final(graph).textures@.len() == old(graph).textures@.len() + 5,
        forall|i: int|
            0 <= i < old(graph).textures@.len() ==> final(graph).textures@[i] == old(
                graph,
            ).textures@[i],
        handles.atlas_color.0 == old(graph).textures@.len(),
        handles.atlas_depth.0 == old(graph).textures@.len() + 1,
        handles.depth_mips.0 == old(graph).textures@.len() + 2,
        handles.normal_mips.0 == old(graph).textures@.len() + 3,
        handles.diffuse_mips.0 == old(graph).textures@.len() + 4,
        exists|specs: SsgiComputeTextureSpecs|
            #![trigger specs.atlas_color]
            specs.atlas_color == final(graph).textures@[handles.atlas_color.0 as int]
                && specs.atlas_depth == final(graph).textures@[handles.atlas_depth.0 as int]
                && specs.depth_mips == final(graph).textures@[handles.depth_mips.0 as int]
                && specs.normal_mips == final(graph).textures@[handles.normal_mips.0 as int]
                && specs.diffuse_mips == final(graph).textures@[handles.diffuse_mips.0 as int]
                && exists|layout: SsgiComputeTextureLayout|
                #![trigger specs_match_layout(specs, layout)]
                specs_match_layout(specs, layout) && layout.atlas_size[0] == max1(
                    resources.atlas_size[0] as int,
                ) && layout.atlas_size[1] == max1(resources.atlas_size[1] as int)
                    && layout.regular_mip_size[0] == max1(
                    resources.mip_chain[0].regular_size[0] as int,
                ) && layout.regular_mip_size[1] == max1(
                    resources.mip_chain[0].regular_size[1] as int,
                ) && layout.mip_level_count == SSGI_MIP_COUNT && layout.atlas_layer_count
                    == SSGI_ATLAS_LAYERS && layout.atlas_color_format == TextureFormat::Rgba16Float
                    && layout.atlas_depth_format == TextureFormat::R32Float
                    && layout.depth_mip_format == TextureFormat::R32Float
                    && layout.normal_mip_format == TextureFormat::Rgba16Float
                    && layout.diffuse_mip_format == TextureFormat::Rgba16Float,
{
    let specs = ssgi_compute_texture_specs(resources);
    let ghost gspecs = specs;
    let ghost start = graph.textures@;
    let SsgiComputeTextureSpecs { atlas_color, atlas_depth, depth_mips, normal_mips, diffuse_mips } =
        specs;
    let a = graph.create_texture(atlas_color);
    let b = graph.create_texture(atlas_depth);
    let c = graph.create_texture(depth_mips);
    let d = graph.create_texture(normal_mips);
    let e = graph.create_texture(diffuse_mips);
    let handles = SsgiComputeGraphResources {
        atlas_color: a,
        atlas_depth: b,
        depth_mips: c,
        normal_mips: d,
        diffuse_mips: e,
    };
    assert(gspecs.atlas_color == graph.textures@[handles.atlas_color.0 as int]);
    handles
}

/// Name of the deinterleave pass of mip `mip` (2x to 16x).
pub open spec fn deinterleave_pass_name(mip: int) -> Seq<char> {
    if mip == 0 {
        "ssgi_compute_deinterleave_2x"@
    } else if mip == 1 {
        "ssgi_compute_deinterleave_4x"@
    } else if mip == 2 {
        "ssgi_compute_deinterleave_8x"@
    } else {
        "ssgi_compute_deinterleave_16x"@
    }
}

/// Name of the diffuse pass of mip `mip` (2x to 16x).
pub open spec fn diffuse_pass_name(mip: int) -> Seq<char> {
    if mip == 0 {
        "ssgi_compute_diffuse_2x"@
    } else if mip == 1 {
        "ssgi_compute_diffuse_4x"@
    } else if mip == 2 {
        "ssgi_compute_diffuse_8x"@
    } else {
        "ssgi_compute_diffuse_16x"@
    }
}

/// Name of upsample pass `pass_index`, from 16x to 8x down to 4x to 2x.
pub open spec fn upsample_pass_name(pass_index: int) -> Seq<char> {
    if pass_index == 0 {
        "ssgi_compute_upsample_16x_to_8x"@
    } else if pass_index == 1 {
        "ssgi_compute_upsample_8x_to_4x"@
    } else {
        "ssgi_compute_upsample_4x_to_2x"@
    }
}

fn deinterleave_pass_name_str(mip: usize) -> (r: &'static str)
    requires
        mip < SSGI_MIP_COUNT,
    ensures
        r@ == deinterleave_pass_name(mip as int),
{
    if mip == 0 {
        "ssgi_compute_deinterleave_2x"
    } else if mip == 1 {
        "ssgi_compute_deinterleave_4x"
    } else if mip == 2 {
        "ssgi_compute_deinterleave_8x"
    } else {
        "ssgi_compute_deinterleave_16x"
    }
}

fn diffuse_pass_name_str(mip: usize) -> (r: &'static str)
    requires
        mip < SSGI_MIP_COUNT,
    ensures
        r@ == diffuse_pass_name(mip as int),
{
    if mip == 0 {
        "ssgi_compute_diffuse_2x"
    } else if mip == 1 {
        "ssgi_compute_diffuse_4x"
    } else if mip == 2 {
        "ssgi_compute_diffuse_8x"
    } else {
        "ssgi_compute_diffuse_16x"
    }
}

fn upsample_pass_name_str(pass_index: usize) -> (r: &'static str)
    requires
        pass_index < SSGI_MIP_COUNT - 1,
    ensures
        r@ == upsample_pass_name(pass_index as int),
{
    if pass_index == 0 {
        "ssgi_compute_upsample_16x_to_8x"
    } else if pass_index == 1 {
        "ssgi_compute_upsample_8x_to_4x"
    } else {
        "ssgi_compute_upsample_4x_to_2x"
    }
}

/// All layers of mip `mip` of an SSGI atlas.
pub open spec fn atlas_mip(texture: TextureHandle, mip: u32) -> ResourceRef {
    ResourceRef::TextureSubresource(
        TextureSubresource {
            texture,
            base_mip_level: mip,
            mip_level_count: 1,
            base_array_layer: 0,
            array_layer_count: SSGI_ATLAS_LAYERS,
        },
    )
}

pub open spec fn mip_ref(texture: TextureHandle, mip: u32) -> ResourceRef {
    ResourceRef::TextureSubresource(one_mip(texture, mip))
}

/// Pass `k` of the SSGI compute chain, as (name, reads, writes, flags):
/// the deinterleave passes from 2x to 16x, the diffuse passes from 16x to
/// 2x, then the upsample passes from 16x to 8x down to 4x to 2x.
pub open spec fn ssgi_planned_pass(
    k: int,
    scene_color: TextureHandle,
    scene_depth: TextureHandle,
    scene_normal: TextureHandle,
    res: SsgiComputeGraphResources,
) -> (Seq<char>, Seq<ResourceRef>, Seq<ResourceRef>, u32) {
    if k < 4 {
        let mip = k as u32;
        (
            deinterleave_pass_name(k),
            seq![
                ResourceRef::Texture(scene_color),
                ResourceRef::Texture(scene_depth),
                ResourceRef::Texture(scene_normal),
            ],
            seq![
                atlas_mip(res.atlas_depth, mip),
                atlas_mip(res.atlas_color, mip),
                mip_ref(res.depth_mips, mip),
                mip_ref(res.normal_mips, mip),
            ],
            PASS_FLAG_PREFER_ASYNC_COMPUTE | PASS_FLAG_BANDWIDTH_INTENSIVE,
        )
    } else if k < 8 {
        let mip = (7 - k) as u32;
        (
            diffuse_pass_name(7 - k),
            seq![
                atlas_mip(res.atlas_depth, mip),
                atlas_mip(res.atlas_color, mip),
                mip_ref(res.normal_mips, mip),
            ],
            seq![mip_ref(res.diffuse_mips, mip)],
            PASS_FLAG_PREFER_ASYNC_COMPUTE | PASS_FLAG_COMPUTE_INTENSIVE,
        )
    } else {
        let source = (11 - k) as u32;
        let target = (10 - k) as u32;
        (
            upsample_pass_name(k - 8),
            seq![
                mip_ref(res.depth_mips, source),
                mip_ref(res.normal_mips, source),
                mip_ref(res.diffuse_mips, source),
                mip_ref(res.depth_mips, target),
                mip_ref(res.normal_mips, target),
            ],
            seq![mip_ref(res.diffuse_mips, target)],
            PASS_FLAG_PREFER_ASYNC_COMPUTE | PASS_FLAG_BANDWIDTH_INTENSIVE,
        )
    }
}

pub open spec fn pass_is(p: PassDecl, plan: (Seq<char>, Seq<ResourceRef>, Seq<ResourceRef>, u32)) -> bool {
    p.name@ == plan.0 && p.reads@ == plan.1 && p.writes@ == plan.2 && p.flags == plan.3
}

/// The texture a resource reference names.
pub open spec fn ref_texture(r: ResourceRef) -> TextureHandle {
    match r {
        ResourceRef::Texture(t) => t,
        ResourceRef::TextureSubresource(s) => s.texture,
    }
}

/// One of the five textures of the SSGI chain.
pub open spec fn is_chain_texture(t: TextureHandle, res: SsgiComputeGraphResources) -> bool {
    t == res.atlas_color || t == res.atlas_depth || t == res.depth_mips || t == res.normal_mips
        || t == res.diffuse_mips
}

/// The SSGI compute chain writes only its own five textures and never the
/// scene's color, depth or normal texture, which it only reads; so no pass
/// outside the chain reads anything the chain writes until one is wired to
/// read the diffuse mips.
pub proof fn lemma_ssgi_chain_writes_only_its_textures(
    k: int,
    scene_color: TextureHandle,
    scene_depth: TextureHandle,
    scene_normal: TextureHandle,
    res: SsgiComputeGraphResources,
)
    requires
        0 <= k < 11,
        !is_chain_texture(scene_color, res),
        !is_chain_texture(scene_depth, res),
        !is_chain_texture(scene_normal, res),
    ensures
        ({
            let plan = ssgi_planned_pass(k, scene_color, scene_depth, scene_normal, res);
            &&& plan.2.len() > 0
            &&& forall|w: int|
                0 <= w < plan.2.len() ==> is_chain_texture(ref_texture(#[trigger] plan.2[w]), res)
            &&& forall|w: int|
                0 <= w < plan.2.len() ==> ref_texture(#[trigger] plan.2[w]) != scene_color
                    && ref_texture(plan.2[w]) != scene_depth && ref_texture(plan.2[w]) != scene_normal
        }),
{
}

fn atlas_mip_ref(texture: TextureHandle, mip: u32) -> (r: ResourceRef)
    ensures
        r == atlas_mip(texture, mip),
{
    ResourceRef::TextureSubresource(TextureSubresource::new(texture, mip, 1, 0, SSGI_ATLAS_LAYERS))
}

fn mip_ref_of(texture: TextureHandle, mip: u32) -> (r: ResourceRef)
    ensures
        r == mip_ref(texture, mip),
{
    ResourceRef::TextureSubresource(TextureSubresource::new(texture, mip, 1, 0, 1))
}

/// Declares the SSGI compute chain in `graph`: for each mip from 2x to 16x a
/// pass that deinterleaves scene color, depth and normal into the atlases and
/// the regular depth and normal mips; for each mip from 16x to 2x a pass that
/// computes diffuse light from them; and three passes that upsample diffuse
/// light from 16x down to 2x.
pub fn declare_ssgi_compute_passes(
    graph: &mut RenderGraph,
    scene_color: TextureHandle,
    scene_depth: TextureHandle,
    scene_normal: TextureHandle,
    resources: SsgiComputeGraphResources,
)
    ensures
        final(graph).textures@ == old(graph).textures@,
        final(graph).passes@.len() == old(graph).passes@.len() + 11,
        forall|i: int|
            0 <= i < old(graph).passes@.len() ==> final(graph).passes@[i] == old(
                graph,
            ).passes@[i],
        forall|k: int|
            0 <= k < 11 ==> pass_is(
                #[trigger] final(graph).passes@[old(graph).passes@.len() + k],
                ssgi_planned_pass(k, scene_color, scene_depth, scene_normal, resources),
            ),
{
    let ghost start = graph.passes@;
    let mut mip: usize = 0;
    while mip < SSGI_MIP_COUNT
        invariant
            mip <= SSGI_MIP_COUNT,
            graph.textures@ == old(graph).textures@,
            graph.passes@.len() == start.len() + mip,
            start == old(graph).passes@,
            forall|i: int| 0 <= i < start.len() ==> graph.passes@[i] == start[i],
            forall|k: int|
                0 <= k < mip ==> pass_is(
                    #[trigger] graph.passes@[start.len() + k],
                    ssgi_planned_pass(k, scene_color, scene_depth, scene_normal, resources),
                ),
        decreases SSGI_MIP_COUNT - mip,
    {
        let m = mip as u32;
        let pass = PassDecl {
            name: deinterleave_pass_name_str(mip).to_owned(),
            reads: vec![
                ResourceRef::Texture(scene_color),
                ResourceRef::Texture(scene_depth),
                ResourceRef::Texture(scene_normal),
            ],
            writes: vec![
                atlas_mip_ref(resources.atlas_depth, m),
                atlas_mip_ref(resources.atlas_color, m),
                mip_ref_of(resources.depth_mips, m),
                mip_ref_of(resources.normal_mips, m),
            ],
            flags: PASS_FLAG_PREFER_ASYNC_COMPUTE | PASS_FLAG_BANDWIDTH_INTENSIVE,
        };
        assert(pass_is(pass, ssgi_planned_pass(mip as int, scene_color, scene_depth, scene_normal, resources)));
        graph.add_pass(pass);
        mip = mip + 1;
    }
    let mut step: usize = 0;
    while step < SSGI_MIP_COUNT
        invariant
            step <= SSGI_MIP_COUNT,
            graph.textures@ == old(graph).textures@,
            graph.passes@.len() == start.len() + 4 + step,
            start == old(graph).passes@,
            forall|i: int| 0 <= i < start.len() ==> graph.passes@[i] == start[i],
            forall|k: int|
                0 <= k < 4 + step ==> pass_is(
                    #[trigger] graph.passes@[start.len() + k],
                    ssgi_planned_pass(k, scene_color, scene_depth, scene_normal, resources),
                ),
        decreases SSGI_MIP_COUNT - step,
    {
        let mip = SSGI_MIP_COUNT - 1 - step;
        let m = mip as u32;
        let pass = PassDecl {
            name: diffuse_pass_name_str(mip).to_owned(),
            reads: vec![
                atlas_mip_ref(resources.atlas_depth, m),
                atlas_mip_ref(resources.atlas_color, m),
                mip_ref_of(resources.normal_mips, m),
            ],
            writes: vec![mip_ref_of(resources.diffuse_mips, m)],
            flags: PASS_FLAG_PREFER_ASYNC_COMPUTE | PASS_FLAG_COMPUTE_INTENSIVE,
        };
        assert(pass.name@ == ssgi_planned_pass(4 + step, scene_color, scene_depth, scene_normal, resources).0);
        assert(pass.reads@ == ssgi_planned_pass(4 + step, scene_color, scene_depth, scene_normal, resources).1);
        assert(pass.writes@ == ssgi_planned_pass(4 + step, scene_color, scene_depth, scene_normal, resources).2);
        assert(pass_is(pass, ssgi_planned_pass(4 + step, scene_color, scene_depth, scene_normal, resources)));
        graph.add_pass(pass);
        step = step + 1;
    }
    let mut pass_index: usize = 0;
    while pass_index < SSGI_MIP_COUNT - 1
        invariant
            pass_index <= SSGI_MIP_COUNT - 1,
            graph.textures@ == old(graph).textures@,
            graph.passes@.len() == start.len() + 8 + pass_index,
            start == old(graph).passes@,
            forall|i: int| 0 <= i < start.len() ==> graph.passes@[i] == start[i],
            forall|k: int|
                0 <= k < 8 + pass_index ==> pass_is(
                    #[trigger] graph.passes@[start.len() + k],
                    ssgi_planned_pass(k, scene_color, scene_depth, scene_normal, resources),
                ),
        decreases SSGI_MIP_COUNT - 1 - pass_index,
    {
        let source = (SSGI_MIP_COUNT - 1 - pass_index) as u32;
        let target = source - 1;
        let pass = PassDecl {
            name: upsample_pass_name_str(pass_index).to_owned(),
            reads: vec![
                mip_ref_of(resources.depth_mips, source),
                mip_ref_of(resources.normal_mips, source),
                mip_ref_of(resources.diffuse_mips, source),
                mip_ref_of(resources.depth_mips, target),
                mip_ref_of(resources.normal_mips, target),
            ],
            writes: vec![mip_ref_of(resources.diffuse_mips, target)],
            flags: PASS_FLAG_PREFER_ASYNC_COMPUTE | PASS_FLAG_BANDWIDTH_INTENSIVE,
        };
        assert(pass.name@ == ssgi_planned_pass(8 + pass_index, scene_color, scene_depth, scene_normal, resources).0);
        assert(pass.reads@ == ssgi_planned_pass(8 + pass_index, scene_color, scene_depth, scene_normal, resources).1);
        assert(pass.writes@ == ssgi_planned_pass(8 + pass_index, scene_color, scene_depth, scene_normal, resources).2);
        assert(pass_is(pass, ssgi_planned_pass(8 + pass_index, scene_color, scene_depth, scene_normal, resources)));
        graph.add_pass(pass);
        pass_index = pass_index + 1;
    }
}

/// What an SSGI compute pass does, and on which mips.
#[derive(Clone, Copy, Debug, PartialEq, Eq, Structural)]
pub enum SsgiComputePassKind {
    Deinterleave { mip_index: usize },
    Diffuse { mip_index: usize },
    Upsample { source_mip_index: usize, target_mip_index: usize, pass_index: usize },
}

impl SsgiComputePassKind {
    /// Downscale factor of the texels the pass writes: `2^(mip + 1)`.
    pub fn output_scale(self) -> (r: u32)
        requires
            match self {
                SsgiComputePassKind::Deinterleave { mip_index } => mip_index < 31,
                SsgiComputePassKind::Diffuse { mip_index } => mip_index < 31,
                SsgiComputePassKind::Upsample { target_mip_index, .. } => target_mip_index < 31,
            },
        ensures
            r == match self {
                SsgiComputePassKind::Deinterleave { mip_index } => pow2((mip_index + 1) as nat),
                SsgiComputePassKind::Diffuse { mip_index } => pow2((mip_index + 1) as nat),
                SsgiComputePassKind::Upsample { target_mip_index, .. } => pow2(
                    (target_mip_index + 1) as nat,
                ),
            },
    {
        match self {
            SsgiComputePassKind::Deinterleave { mip_index } => pow2_u32(mip_index as u32 + 1),
            SsgiComputePassKind::Diffuse { mip_index } => pow2_u32(mip_index as u32 + 1),
            SsgiComputePassKind::Upsample { target_mip_index, .. } => pow2_u32(
                target_mip_index as u32 + 1,
            ),
        }
    }

    /// Downscale factor of the texels the pass reads: `2^(mip + 1)`.
    pub fn source_scale(self) -> (r: u32)
        requires
            match self {
                SsgiComputePassKind::Deinterleave { mip_index } => mip_index < 31,
                SsgiComputePassKind::Diffuse { mip_index } => mip_index < 31,
                SsgiComputePassKind::Upsample { source_mip_index, .. } => source_mip_index < 31,
            },
        ensures
            r == match self {
                SsgiComputePassKind::Deinterleave { mip_index } => pow2((mip_index + 1) as nat),
                SsgiComputePassKind::Diffuse { mip_index } => pow2((mip_index + 1) as nat),
                SsgiComputePassKind::Upsample { source_mip_index, .. } => pow2(
                    (source_mip_index + 1) as nat,
                ),
            },
    {
        match self {
            SsgiComputePassKind::Deinterleave { mip_index } => pow2_u32(mip_index as u32 + 1),
            SsgiComputePassKind::Diffuse { mip_index } => pow2_u32(mip_index as u32 + 1),
            SsgiComputePassKind::Upsample { source_mip_index, .. } => pow2_u32(
                source_mip_index as u32 + 1,
            ),
        }
    }
}

/// The compute pass kind named `name`: the first deinterleave, then diffuse,
/// then upsample pass of that name.
pub open spec fn spec_ssgi_compute_pass_kind(name: Seq<char>) -> Option<SsgiComputePassKind> {
    if exists|m: int| 0 <= m < 4 && #[trigger] deinterleave_pass_name(m) == name {
        let m = choose|m: int| 0 <= m < 4 && #[trigger] deinterleave_pass_name(m) == name;
        Some(SsgiComputePassKind::Deinterleave { mip_index: m as usize })
    } else if exists|m: int| 0 <= m < 4 && #[trigger] diffuse_pass_name(m) == name {
        let m = choose|m: int| 0 <= m < 4 && #[trigger] diffuse_pass_name(m) == name;
        Some(SsgiComputePassKind::Diffuse { mip_index: m as usize })
    } else if exists|p: int| 0 <= p < 3 && #[trigger] upsample_pass_name(p) == name {
        let p = choose|p: int| 0 <= p < 3 && #[trigger] upsample_pass_name(p) == name;
        Some(
            SsgiComputePassKind::Upsample {
                source_mip_index: (3 - p) as usize,
                target_mip_index: (2 - p) as usize,
                pass_index: p as usize,
            },
        )
    } else {
        None
    }
}

proof fn lemma_ssgi_names_distinct()
    ensures
        forall|a: int, b: int|
            0 <= a < 4 && 0 <= b < 4 && a != b ==> deinterleave_pass_name(a)
                != deinterleave_pass_name(b) && diffuse_pass_name(a) != diffuse_pass_name(b),
        forall|a: int, b: int|
            0 <= a < 3 && 0 <= b < 3 && a != b ==> upsample_pass_name(a) != upsample_pass_name(b),
        forall|a: int, b: int|
            0 <= a < 4 && 0 <= b < 4 ==> deinterleave_pass_name(a) != diffuse_pass_name(b),
        forall|a: int, b: int|
            0 <= a < 4 && 0 <= b < 3 ==> deinterleave_pass_name(a) != upsample_pass_name(b)
                && diffuse_pass_name(a) != upsample_pass_name(b),
{
    reveal_strlit("ssgi_compute_deinterleave_2x");
    reveal_strlit("ssgi_compute_deinterleave_4x");
    reveal_strlit("ssgi_compute_deinterleave_8x");
    reveal_strlit("ssgi_compute_deinterleave_16x");
    reveal_strlit("ssgi_compute_diffuse_2x");
    reveal_strlit("ssgi_compute_diffuse_4x");
    reveal_strlit("ssgi_compute_diffuse_8x");
    reveal_strlit("ssgi_compute_diffuse_16x");
    reveal_strlit("ssgi_compute_upsample_16x_to_8x");
    reveal_strlit("ssgi_compute_upsample_8x_to_4x");
    reveal_strlit("ssgi_compute_upsample_4x_to_2x");
    assert forall|a: int, b: int|
        0 <= a < 4 && 0 <= b < 4 && a != b implies deinterleave_pass_name(a)
        != deinterleave_pass_name(b) && diffuse_pass_name(a) != diffuse_pass_name(b) by {
        if deinterleave_pass_name(a) == deinterleave_pass_name(b) {
            assert(deinterleave_pass_name(a)[26] != deinterleave_pass_name(b)[26]
                || deinterleave_pass_name(a).len() != deinterleave_pass_name(b).len());
        }
        if diffuse_pass_name(a) == diffuse_pass_name(b) {
            assert(diffuse_pass_name(a)[21] != diffuse_pass_name(b)[21]);
        }
    }
    assert forall|a: int, b: int|
        0 <= a < 3 && 0 <= b < 3 && a != b implies upsample_pass_name(a) != upsample_pass_name(
        b,
    ) by {
        if upsample_pass_name(a) == upsample_pass_name(b) {
            assert(upsample_pass_name(a)[22] != upsample_pass_name(b)[22]);
        }
    }
    assert forall|a: int, b: int|
        0 <= a < 4 && 0 <= b < 4 implies deinterleave_pass_name(a) != diffuse_pass_name(b) by {
        if deinterleave_pass_name(a) == diffuse_pass_name(b) {
            assert(deinterleave_pass_name(a)[14] != diffuse_pass_name(b)[14]);
        }
    }
    assert forall|a: int, b: int|
        0 <= a < 4 && 0 <= b < 3 implies deinterleave_pass_name(a) != upsample_pass_name(b)
        && diffuse_pass_name(a) != upsample_pass_name(b) by {
        if deinterleave_pass_name(a) == upsample_pass_name(b) {
            assert(deinterleave_pass_name(a)[14] != upsample_pass_name(b)[14]);
        }
        if diffuse_pass_name(a) == upsample_pass_name(b) {
            assert(diffuse_pass_name(a)[14] != upsample_pass_name(b)[14]);
        }
    }
}

/// The compute pass kind of the SSGI pass named `name`, if it is one.
pub fn ssgi_compute_pass_kind(name: &str) -> (r: Option<SsgiComputePassKind>)
    ensures
        r == spec_ssgi_compute_pass_kind(name@),
{
    proof {
        lemma_ssgi_names_distinct();
    }
    let mut mip: usize = 0;
    while mip < SSGI_MIP_COUNT
        invariant
            mip <= SSGI_MIP_COUNT,
            forall|m: int| 0 <= m < mip ==> deinterleave_pass_name(m) != name@,
        decreases SSGI_MIP_COUNT - mip,
    {
        if str_equal(deinterleave_pass_name_str(mip), name) {
            proof {
                lemma_ssgi_names_distinct();
                assert(deinterleave_pass_name(mip as int) == name@);
                let m = choose|m: int| 0 <= m < 4 && #[trigger] deinterleave_pass_name(m) == name@;
                if m != mip {
                    assert(deinterleave_pass_name(m) != deinterleave_pass_name(mip as int));
                }
            }
            return Some(SsgiComputePassKind::Deinterleave { mip_index: mip });
        }
        mip = mip + 1;
    }
    let mut mip: usize = 0;
    while mip < SSGI_MIP_COUNT
        invariant
            mip <= SSGI_MIP_COUNT,
            forall|m: int| 0 <= m < 4 ==> deinterleave_pass_name(m) != name@,
            forall|m: int| 0 <= m < mip ==> diffuse_pass_name(m) != name@,
        decreases SSGI_MIP_COUNT - mip,
    {
        if str_equal(diffuse_pass_name_str(mip), name) {
            proof {
                lemma_ssgi_names_distinct();
                assert(diffuse_pass_name(mip as int) == name@);
                assert(!exists|m: int| 0 <= m < 4 && #[trigger] deinterleave_pass_name(m) == name@);
                let m = choose|m: int| 0 <= m < 4 && #[trigger] diffuse_pass_name(m) == name@;
                if m != mip {
                    assert(diffuse_pass_name(m) != diffuse_pass_name(mip as int));
                }
            }
            return Some(SsgiComputePassKind::Diffuse { mip_index: mip });
        }
        mip = mip + 1;
    }
    let mut pass_index: usize = 0;
    while pass_index < SSGI_MIP_COUNT - 1
        invariant
            pass_index <= SSGI_MIP_COUNT - 1,
            forall|m: int| 0 <= m < 4 ==> deinterleave_pass_name(m) != name@,
            forall|m: int| 0 <= m < 4 ==> diffuse_pass_name(m) != name@,
            forall|p: int| 0 <= p < pass_index ==> upsample_pass_name(p) != name@,
        decreases SSGI_MIP_COUNT - 1 - pass_index,
    {
        if str_equal(upsample_pass_name_str(pass_index), name) {
            proof {
                lemma_ssgi_names_distinct();
                assert(upsample_pass_name(pass_index as int) == name@);
                assert(!exists|m: int| 0 <= m < 4 && #[trigger] deinterleave_pass_name(m) == name@);
                assert(!exists|m: int| 0 <= m < 4 && #[trigger] diffuse_pass_name(m) == name@);
                let p = choose|p: int| 0 <= p < 3 && #[trigger] upsample_pass_name(p) == name@;
                if p != pass_index {
                    assert(upsample_pass_name(p) != upsample_pass_name(pass_index as int));
                }
            }
            let source_mip_index = SSGI_MIP_COUNT - 1 - pass_index;
            return Some(
                SsgiComputePassKind::Upsample {
                    source_mip_index,
                    target_mip_index: source_mip_index - 1,
                    pass_index,
                },
            );
        }
        pass_index = pass_index + 1;
    }
    None
}

/// The texture subresources among `refs`, in order.
pub open spec fn subresources_of(refs: Seq<ResourceRef>) -> Seq<TextureSubresource>
    decreases refs.len(),
{
    if refs.len() == 0 {
        Seq::empty()
    } else {
        let rest = subresources_of(refs.drop_last());
        match refs.last() {
            ResourceRef::TextureSubresource(s) => rest.push(s),
            _ => rest,
        }
    }
}

proof fn lemma_subresources_prefix(s: Seq<ResourceRef>, k: int)
    requires
        0 <= k <= s.len(),
    ensures
        subresources_of(s.take(k)).len() <= subresources_of(s).len(),
        forall|j: int|
            0 <= j < subresources_of(s.take(k)).len() ==> subresources_of(s.take(k))[j]
                == subresources_of(s)[j],
    decreases s.len(),
{
    if k == s.len() {
        assert(s.take(k) =~= s);
    } else {
        let t = s.drop_last();
        assert(s.take(k) =~= t.take(k));
        lemma_subresources_prefix(t, k);
    }
}

fn nth_subresource(refs: &Vec<ResourceRef>, index: usize) -> (r: TextureSubresource)
    requires
        index < subresources_of(refs@).len(),
    ensures
        r == subresources_of(refs@)[index as int],
{
    let mut i: usize = 0;
    let mut seen: usize = 0;
    assert(refs@.take(0) =~= Seq::<ResourceRef>::empty());
    while i < refs.len()
        invariant
            i <= refs.len(),
            index < subresources_of(refs@).len(),
            seen == subresources_of(refs@.take(i as int)).len(),
            seen <= index,
        decreases refs.len() - i,
    {
        assert(refs@.take(i + 1).drop_last() =~= refs@.take(i as int));
        assert(refs@.take(i + 1).last() == refs@[i as int]);
        proof {
            lemma_subresources_prefix(refs@, i as int + 1);
        }
        match refs[i] {
            ResourceRef::TextureSubresource(s) => {
                if seen == index {
                    return s;
                }
                seen = seen + 1;
            },
            _ => {},
        }
        i = i + 1;
    }
    proof {
        assert(refs@.take(i as int) =~= refs@);
        assert(false);
    }
    TextureSubresource::new(TextureHandle(0), 0, 0, 0, 0)
}

/// The `index`-th texture subresource that `pass` reads.
pub fn pass_nth_read_subresource(pass: &PassDecl, index: usize) -> (r: TextureSubresource)
    requires
        index < subresources_of(pass.reads@).len(),
    ensures
        r == subresources_of(pass.reads@)[index as int],
{
    nth_subresource(&pass.reads, index)
}

/// The `index`-th texture subresource that `pass` writes.
pub fn pass_nth_write_subresource(pass: &PassDecl, index: usize) -> (r: TextureSubresource)
    requires
        index < subresources_of(pass.writes@).len(),
    ensures
        r == subresources_of(pass.writes@)[index as int],
{
    nth_subresource(&pass.writes, index)
}

/// Texel size of mip `subresource.base_mip_level` of a texture of
/// `texture_size` texels: each side divided by `2^mip` (by `u32::MAX` for
/// mips of 32 and beyond), rounded up, at least 1.
pub open spec fn spec_subresource_extent(texture_size: [u32; 2], mip: u32) -> (int, int) {
    let divisor = if mip < 32 {
        pow2(mip as nat) as int
    } else {
        u32::MAX as int
    };
    (max1(div_ceil(texture_size[0] as int, divisor)), max1(div_ceil(texture_size[1] as int, divisor)))
}

pub fn subresource_extent(texture_size: [u32; 2], subresource: TextureSubresource) -> (r: [u32; 2])
    ensures
        r[0] == spec_subresource_extent(texture_size, subresource.base_mip_level).0,
        r[1] == spec_subresource_extent(texture_size, subresource.base_mip_level).1,
{
    let mip = subresource.base_mip_level;
    let divisor: u32 = if mip < 32 {
        if mip == 31 {
            proof {
                lemma_pow2_bound(30);
                assert(pow2(31) == 2 * pow2(30));
            }
            0x8000_0000u32
        } else {
            pow2_u32(mip)
        }
    } else {
        u32::MAX
    };
    proof {
        if mip < 32 {
            lemma_pow2_positive(mip as nat);
            if mip == 31 {
                assert(pow2(30) == 0x4000_0000) by {
                    reveal_with_fuel(pow2, 31);
                }
            }
        }
    }
    let w = div_ceil_u32(texture_size[0], divisor);
    let h = div_ceil_u32(texture_size[1], divisor);
    [
        if w >= 1 {
            w
        } else {
            1
        },
        if h >= 1 {
            h
        } else {
            1
        },
    ]
}

/// Every pass of the SSGI provider, compute chain and composites.
#[derive(Clone, Copy, Debug, PartialEq, Eq, Structural)]
pub enum SsgiPassKind {
    Deinterleave { mip_index: usize },
    Diffuse { mip_index: usize },
    Upsample { source_mip_index: usize, target_mip_index: usize, pass_index: usize },
    FinalComposite,
    SceneComposite,
}

/// Name and kind of one SSGI pass.
#[derive(Clone, Copy, Debug)]
pub struct SsgiPassDescriptor {
    pub name: &'static str,
    pub kind: SsgiPassKind,
}

/// Name of descriptor `k`: the compute chain in declaration order, then the
/// final upsample and the scene composite.
pub open spec fn descriptor_name(k: int) -> Seq<char> {
    if k < 11 {
        ssgi_planned_pass(
            k,
            TextureHandle(0),
            TextureHandle(0),
            TextureHandle(0),
            SsgiComputeGraphResources {
                atlas_color: TextureHandle(0),
                atlas_depth: TextureHandle(0),
                depth_mips: TextureHandle(0),
                normal_mips: TextureHandle(0),
                diffuse_mips: TextureHandle(0),
            },
        ).0
    } else if k == 11 {
        "ssgi_final_upsample"@
    } else {
        "ssgi_scene_composite"@
    }
}

pub open spec fn descriptor_kind(k: int) -> SsgiPassKind {
    if k < 4 {
        SsgiPassKind::Deinterleave { mip_index: k as usize }
    } else if k < 8 {
        SsgiPassKind::Diffuse { mip_index: (7 - k) as usize }
    } else if k < 11 {
        SsgiPassKind::Upsample {
            source_mip_index: (11 - k) as usize,
            target_mip_index: (10 - k) as usize,
            pass_index: (k - 8) as usize,
        }
    } else if k == 11 {
        SsgiPassKind::FinalComposite
    } else {
        SsgiPassKind::SceneComposite
    }
}

pub open spec fn is_descriptor_table(d: Seq<SsgiPassDescriptor>) -> bool {
    &&& d.len() == 13
    &&& forall|k: int|
        0 <= k < 13 ==> (#[trigger] d[k]).name@ == descriptor_name(k) && d[k].kind
            == descriptor_kind(k)
}

/// The SSGI passes in the order the provider declares them.
pub fn ssgi_pass_descriptors() -> (d: Vec<SsgiPassDescriptor>)
    ensures
        is_descriptor_table(d@),
{
    let mut d: Vec<SsgiPassDescriptor> = Vec::new();
    let mut mip: usize = 0;
    while mip < SSGI_MIP_COUNT
        invariant
            mip <= SSGI_MIP_COUNT,
            d.len() == mip,
            forall|k: int|
                0 <= k < d.len() ==> (#[trigger] d@[k]).name@ == descriptor_name(k) && d@[k].kind
                    == descriptor_kind(k),
        decreases SSGI_MIP_COUNT - mip,
    {
        d.push(
            SsgiPassDescriptor {
                name: deinterleave_pass_name_str(mip),
                kind: SsgiPassKind::Deinterleave { mip_index: mip },
            },
        );
        mip = mip + 1;
    }
    let mut step: usize = 0;
    while step < SSGI_MIP_COUNT
        invariant
            step <= SSGI_MIP_COUNT,
            d.len() == 4 + step,
            forall|k: int|
                0 <= k < d.len() ==> (#[trigger] d@[k]).name@ == descriptor_name(k) && d@[k].kind
                    == descriptor_kind(k),
        decreases SSGI_MIP_COUNT - step,
    {
        let mip = SSGI_MIP_COUNT - 1 - step;
        d.push(
            SsgiPassDescriptor {
                name: diffuse_pass_name_str(mip),
                kind: SsgiPassKind::Diffuse { mip_index: mip },
            },
        );
        step = step + 1;
    }
    let mut pass_index: usize = 0;
    while pass_index < SSGI_MIP_COUNT - 1
        invariant
            pass_index <= SSGI_MIP_COUNT - 1,
            d.len() == 8 + pass_index,
            forall|k: int|
                0 <= k < d.len() ==> (#[trigger] d@[k]).name@ == descriptor_name(k) && d@[k].kind
                    == descriptor_kind(k),
        decreases SSGI_MIP_COUNT - 1 - pass_index,
    {
        let source_mip_index = SSGI_MIP_COUNT - 1 - pass_index;
        d.push(
            SsgiPassDescriptor {
                name: upsample_pass_name_str(pass_index),
                kind: SsgiPassKind::Upsample {
                    source_mip_index,
                    target_mip_index: source_mip_index - 1,
                    pass_index,
                },
            },
        );
        pass_index = pass_index + 1;
    }
    d.push(SsgiPassDescriptor { name: "ssgi_final_upsample", kind: SsgiPassKind::FinalComposite });
    d.push(SsgiPassDescriptor { name: "ssgi_scene_composite", kind: SsgiPassKind::SceneComposite });
    d
}

/// The descriptor of the SSGI pass named `name`, if there is one.
pub fn ssgi_pass_descriptor(name: &str) -> (r: Option<SsgiPassDescriptor>)
    ensures
        match r {
            Some(desc) => exists|k: int|
                0 <= k < 13 && #[trigger] descriptor_name(k) == name@ && desc.name@ == name@
                    && desc.kind == descriptor_kind(k) && forall|j: int|
                    0 <= j < k ==> #[trigger] descriptor_name(j) != name@,
            None => forall|k: int| 0 <= k < 13 ==> #[trigger] descriptor_name(k) != name@,
        },
{
    let table = ssgi_pass_descriptors();
    let mut i: usize = 0;
    while i < table.len()
        invariant
            is_descriptor_table(table@),
            i <= table.len(),
            forall|j: int| 0 <= j < i ==> #[trigger] descriptor_name(j) != name@,
        decreases table.len() - i,
    {
        if str_equal(table[i].name, name) {
            assert(table@[i as int].name@ == descriptor_name(i as int));
            return Some(table[i]);
        }
        assert(table@[i as int].name@ == descriptor_name(i as int));
        i = i + 1;
    }
    None
}

/// Law: the thirteen SSGI pass names are pairwise distinct, so looking a
/// descriptor up by its own name always finds that descriptor.
pub proof fn lemma_ssgi_pass_names_unique()
    ensures
        forall|a: int, b: int|
            0 <= a < 13 && 0 <= b < 13 && a != b ==> #[trigger] descriptor_name(a)
                != #[trigger] descriptor_name(b),
{
    lemma_ssgi_names_distinct();
    reveal_strlit("ssgi_final_upsample");
    reveal_strlit("ssgi_scene_composite");
    reveal_strlit("ssgi_compute_deinterleave_2x");
    reveal_strlit("ssgi_compute_deinterleave_4x");
    reveal_strlit("ssgi_compute_deinterleave_8x");
    reveal_strlit("ssgi_compute_deinterleave_16x");
    reveal_strlit("ssgi_compute_diffuse_2x");
    reveal_strlit("ssgi_compute_diffuse_4x");
    reveal_strlit("ssgi_compute_diffuse_8x");
    reveal_strlit("ssgi_compute_diffuse_16x");
    reveal_strlit("ssgi_compute_upsample_16x_to_8x");
    reveal_strlit("ssgi_compute_upsample_8x_to_4x");
    reveal_strlit("ssgi_compute_upsample_4x_to_2x");
    assert forall|a: int, b: int|
        0 <= a < 13 && 0 <= b < 13 && a != b implies #[trigger] descriptor_name(a)
        != #[trigger] descriptor_name(b) by {
        if a >= 11 || b >= 11 {
            if descriptor_name(a) == descriptor_name(b) {
                assert(descriptor_name(a)[5] != descriptor_name(b)[5] || descriptor_name(a)[6]
                    != descriptor_name(b)[6] || descriptor_name(a).len()
                    != descriptor_name(b).len());
            }
        }
    }
}

/// Law: the compute pass kind recognised from the name of each compute
/// descriptor is the descriptor's own kind.
pub proof fn lemma_compute_kind_matches_descriptor(k: int)
    requires
        0 <= k < 11,
    ensures
        match spec_ssgi_compute_pass_kind(descriptor_name(k)) {
            Some(SsgiComputePassKind::Deinterleave { mip_index }) => descriptor_kind(k)
                == SsgiPassKind::Deinterleave { mip_index },
            Some(SsgiComputePassKind::Diffuse { mip_index }) => descriptor_kind(k)
                == SsgiPassKind::Diffuse { mip_index },
            Some(
                SsgiComputePassKind::Upsample { source_mip_index, target_mip_index, pass_index },
            ) => descriptor_kind(k) == SsgiPassKind::Upsample {
                source_mip_index,
                target_mip_index,
                pass_index,
            },
            None => false,
        },
{
    lemma_ssgi_names_distinct();
    let name = descriptor_name(k);
    if k < 4 {
        assert(deinterleave_pass_name(k) == name);
        let m = choose|m: int| 0 <= m < 4 && #[trigger] deinterleave_pass_name(m) == name;
        if m != k {
            assert(deinterleave_pass_name(m) != deinterleave_pass_name(k));
        }
    } else if k < 8 {
        assert(diffuse_pass_name(7 - k) == name);
        assert(!exists|m: int| 0 <= m < 4 && #[trigger] deinterleave_pass_name(m) == name);
        let m = choose|m: int| 0 <= m < 4 && #[trigger] diffuse_pass_name(m) == name;
        if m != 7 - k {
            assert(diffuse_pass_name(m) != diffuse_pass_name(7 - k));
        }
    } else {
        assert(upsample_pass_name(k - 8) == name);
        assert(!exists|m: int| 0 <= m < 4 && #[trigger] deinterleave_pass_name(m) == name);
        assert(!exists|m: int| 0 <= m < 4 && #[trigger] diffuse_pass_name(m) == name);
        let p = choose|p: int| 0 <= p < 3 && #[trigger] upsample_pass_name(p) == name;
        if p != k - 8 {
            assert(upsample_pass_name(p) != upsample_pass_name(k - 8));
        }
    }
}

} // verus!
