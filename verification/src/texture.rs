//! Mipmap planning for imported images: which images get mipmaps, and the size of each
//! mip level

use vstd::prelude::*;
use vstd::arithmetic::power2::pow2;

verus! {

/// Whether the number is a power of two
pub open spec fn is_power_of_two(x: u32) -> bool {
    x > 0 && x & ((x - 1) as u32) == 0
}

/// The base-2 logarithm, rounded down (zero for zero and one)
pub open spec fn ilog2(x: nat) -> nat
    decreases x,
{
    if x < 2 { 0 } else { 1 + ilog2(x / 2) }
}

proof fn lemma_ilog2_bound(x: nat)
    requires
        x >= 1,
    ensures
        pow2(ilog2(x)) <= x,
    decreases x,
{
    if x >= 2 {
        lemma_ilog2_bound(x / 2);
        vstd::arithmetic::power2::lemma_pow2_unfold(ilog2(x / 2) + 1);
    } else {
        vstd::arithmetic::power2::lemma2_to64();
    }
}

/// Whether mipmaps are generated for an image of the size: both sides are powers of two
/// larger than one
pub fn wants_mips(width: u32, height: u32) -> (r: bool)
    ensures
        r == (is_power_of_two(width) && width > 1 && is_power_of_two(height) && height > 1),
{
    width > 1 && width & (width - 1) == 0 && height > 1 && height & (height - 1) == 0
}

/// The sizes of the mip levels below the base image: level `l` halves both sides `l` times.
/// The number of levels is the base-2 logarithm of the smaller side over `min_side_size`,
/// where the smaller side is taken to be the height
pub fn mip_sizes(base_width: u32, base_height: u32, min_side_size: u32) -> (r: Vec<(u32, u32)>)
    requires
        is_power_of_two(min_side_size),
        is_power_of_two(base_width),
        is_power_of_two(base_height),
        base_height / min_side_size >= 1,
    ensures
        r@.len() == ilog2((base_height / min_side_size) as nat),
        forall|i: int| 0 <= i < r@.len() ==> #[trigger] r@[i] == (
            (base_width as nat / pow2((i + 1) as nat)) as u32,
            (base_height as nat / pow2((i + 1) as nat)) as u32,
        ),
{
    let smallest_side = base_height;
    let ratio = smallest_side / min_side_size;
    let mut levels: u32 = 0;
    let mut x = ratio;
    proof {
        vstd::arithmetic::power2::lemma2_to64();
    }
    while x >= 2
        invariant
            1 <= x <= ratio,
            levels + ilog2(x as nat) == ilog2(ratio as nat),
            levels <= 32,
            pow2(levels as nat) * x <= ratio,
        decreases x,
    {
        proof {
            vstd::arithmetic::power2::lemma_pow2_unfold((levels + 1) as nat);
            vstd::arithmetic::div_mod::lemma_fundamental_div_mod(x as int, 2);
            assert(pow2((levels + 1) as nat) * (x / 2) <= pow2(levels as nat) * x) by (nonlinear_arith)
                requires
                    pow2((levels + 1) as nat) == 2 * pow2(levels as nat),
                    x == 2 * (x / 2) + x % 2,
                    x % 2 >= 0,
                    pow2(levels as nat) >= 0,
            ;
            vstd::arithmetic::power2::lemma_pow2_pos(levels as nat);
            vstd::arithmetic::power2::lemma2_to64();
            if levels >= 32 {
                if levels > 32 {
                    vstd::arithmetic::power2::lemma_pow2_strictly_increases(32, levels as nat);
                }
                assert(pow2(levels as nat) * x >= 2 * pow2(levels as nat)) by (nonlinear_arith)
                    requires
                        x >= 2,
                        pow2(levels as nat) >= 0,
                ;
            }
        }
        levels += 1;
        x = x / 2;
    }
    let mut mips: Vec<(u32, u32)> = Vec::new();
    let mut level: u32 = 1;
    let mut scale: u32 = 2;
    proof {
        vstd::arithmetic::power2::lemma2_to64();
    }
    while level <= levels
        invariant
            1 <= level <= levels + 1,
            levels == ilog2(ratio as nat),
            levels <= 32,
            ratio == base_height / min_side_size,
            ratio >= 1,
            mips@.len() == level - 1,
            level <= levels ==> scale == pow2(level as nat),
            forall|i: int| 0 <= i < mips@.len() ==> #[trigger] mips@[i] == (
                (base_width as nat / pow2((i + 1) as nat)) as u32,
                (base_height as nat / pow2((i + 1) as nat)) as u32,
            ),
        decreases levels + 1 - level,
    {
        proof {
            vstd::arithmetic::power2::lemma_pow2_pos(level as nat);
        }
        mips.push((base_width / scale, base_height / scale));
        if level < levels {
            proof {
                lemma_ilog2_bound(ratio as nat);
                vstd::arithmetic::power2::lemma_pow2_unfold((level + 1) as nat);
                if level + 1 < levels {
                    vstd::arithmetic::power2::lemma_pow2_strictly_increases((level + 1) as nat, levels as nat);
                }
                assert(ratio <= u32::MAX);
            }
            scale = scale * 2;
        }
        level += 1;
    }
    mips
}

/// The format of a texture
#[derive(Debug, Clone, Copy, PartialEq, Eq, Structural)]
pub enum TextureFormat {
    /// Four 8-bit components
    Rgba8,
    /// Four 8-bit components, sRGB encoded
    Rgba8Srgb,
    /// Four 32-bit floating-point components
    Rgba32,
}

/// The pixel layout of a decoded image
#[derive(Debug, Clone, Copy, PartialEq, Eq, Structural)]
pub enum DecodedPixels {
    /// Four 8-bit components, in the sRGB color space or not
    Rgba8 {
        /// Whether the color space is sRGB
        srgb: bool,
    },
    /// Four 32-bit floating-point components
    Rgba32F,
    /// Any other layout
    Other,
}

/// The texture format of an imported image: 8-bit RGBA images keep their color space, and
/// floating-point RGBA images become 32-bit textures. Other layouts are not supported
pub fn texture_format_for(pixels: DecodedPixels) -> (r: Option<TextureFormat>)
    ensures
        r == match pixels {
            DecodedPixels::Rgba8 { srgb } => Some(if srgb { TextureFormat::Rgba8Srgb } else { TextureFormat::Rgba8 }),
            DecodedPixels::Rgba32F => Some(TextureFormat::Rgba32),
            DecodedPixels::Other => None::<TextureFormat>,
        },
{
    match pixels {
        DecodedPixels::Rgba8 { srgb } => Some(if srgb { TextureFormat::Rgba8Srgb } else { TextureFormat::Rgba8 }),
        DecodedPixels::Rgba32F => Some(TextureFormat::Rgba32),
        DecodedPixels::Other => None,
    }
}

/// The number of mip levels of a serialized texture: the base level, plus one for each
/// stored extra level
pub fn mip_level_count(extra_mips: Option<usize>) -> (r: u32)
    requires
        extra_mips matches Some(n) ==> n < usize::MAX,
    ensures
        r == match extra_mips {
            Some(n) => ((n + 1) as u32),
            None => 1u32,
        },
{
    match extra_mips {
        Some(n) => (n + 1) as u32,
        None => 1,
    }
}

/// The size of a mip level of a texture: each side of the base size divided by two to the
/// power of the level, rounded down
pub fn mip_level_size(base_width: u32, base_height: u32, mip_level: u32) -> (r: (u32, u32))
    requires
        mip_level < 32,
    ensures
        r.0 == base_width as nat / pow2(mip_level as nat),
        r.1 == base_height as nat / pow2(mip_level as nat),
{
    proof {
        vstd::bits::lemma_u32_shr_is_div(base_width, mip_level);
        vstd::bits::lemma_u32_shr_is_div(base_height, mip_level);
    }
    (base_width >> mip_level, base_height >> mip_level)
}

/// The row pitch of a write of texel data into a mip level, or [None] where the write is
/// refused: a level above the texture's level count
pub fn write_bytes_per_row(mip_level: u32, mip_level_count: u32, bytes_per_pixel: u32, width: u32) -> (r: Option<u32>)
    requires
        bytes_per_pixel * width <= u32::MAX,
    ensures
        r == if mip_level > mip_level_count { None } else { Some((bytes_per_pixel * width) as u32) },
{
    if mip_level > mip_level_count {
        None
    } else {
        Some(bytes_per_pixel * width)
    }
}

} // verus!
