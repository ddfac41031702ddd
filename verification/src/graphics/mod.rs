//! Validation and layout of graphics resources: index buffers, meshes and the uniform
//! buffers of bind groups, and shader variant identifiers

use vstd::prelude::*;

pub mod bind_group;
pub mod index;
pub mod mesh;

verus! {

/// The alignment, in bytes, of the sizes of buffers that are copied to the GPU
pub const COPY_BUFFER_ALIGNMENT: u64 = 4;

/// The smallest multiple of `a` that is at least `n`
pub open spec fn round_up(n: int, a: int) -> int {
    if a <= 0 || n % a == 0 { n } else { n + a - n % a }
}

proof fn lemma_round_up(n: int, a: int)
    requires
        n >= 0,
        a > 0,
    ensures
        round_up(n, a) % a == 0,
        n <= round_up(n, a) < n + a,
{
    vstd::arithmetic::div_mod::lemma_fundamental_div_mod(n, a);
    vstd::arithmetic::div_mod::lemma_mod_pos_bound(n, a);
    let q = n / a;
    let m = n % a;
    if m != 0 {
        assert(n + a - m == (q + 1) * a) by (nonlinear_arith)
            requires
                n == a * q + m,
        ;
        vstd::arithmetic::div_mod::lemma_mod_multiples_basic(q + 1, a);
    }
}

/// Rounds `n` up to a multiple of `align`
pub fn next_multiple_of_u64(n: u64, align: u64) -> (r: u64)
    requires
        align > 0,
        n + align <= u64::MAX,
    ensures
        r == round_up(n as int, align as int),
        r % align == 0,
        n <= r < n + align,
{
    proof {
        lemma_round_up(n as int, align as int);
    }
    let rem = n % align;
    if rem == 0 { n } else { n + (align - rem) }
}

/// Rounds `n` up to a multiple of `align`
pub fn next_multiple_of_usize(n: usize, align: usize) -> (r: usize)
    requires
        align > 0,
        n + align <= usize::MAX,
    ensures
        r == round_up(n as int, align as int),
        r % align == 0,
        n <= r < n + align,
{
    proof {
        lemma_round_up(n as int, align as int);
    }
    let rem = n % align;
    if rem == 0 { n } else { n + (align - rem) }
}

/// The topology of a mesh: lists of triangles, lines or points
#[derive(Debug, Clone, Copy, PartialEq, Eq, Structural, Hash)]
pub enum MeshTopology {
    /// Each three indices form a triangle
    Triangle,
    /// Each two indices form a line
    Line,
    /// Each index is a point
    Point,
}

impl MeshTopology {
    /// The number of indices per primitive
    pub open spec fn spec_indices_per_primitive(self) -> nat {
        match self {
            MeshTopology::Triangle => 3,
            MeshTopology::Line => 2,
            MeshTopology::Point => 1,
        }
    }

    /// Returns the number of indices per primitive
    pub fn indices_per_primitive(self) -> (r: usize)
        ensures
            r == self.spec_indices_per_primitive(),
    {
        match self {
            MeshTopology::Triangle => 3,
            MeshTopology::Line => 2,
            MeshTopology::Point => 1,
        }
    }
}

/// The format of an index buffer
#[derive(Debug, Clone, Copy, PartialEq, Eq, Structural, Hash)]
pub enum IndexFormat {
    /// 16-bit indices
    U16,
    /// 32-bit indices
    U32,
}

impl IndexFormat {
    /// The stride in bytes per element
    pub open spec fn spec_stride(self) -> nat {
        match self {
            IndexFormat::U16 => 2,
            IndexFormat::U32 => 4,
        }
    }

    /// Returns the stride in bytes per element of this format
    pub fn stride(self) -> (r: usize)
        ensures
            r == self.spec_stride(),
    {
        match self {
            IndexFormat::U16 => 2,
            IndexFormat::U32 => 4,
        }
    }
}

} // verus!
