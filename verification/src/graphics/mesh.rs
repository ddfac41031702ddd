//! Meshes: validation of their indices against their vertices and topology

use vstd::prelude::*;

use super::{IndexFormat, MeshTopology, round_up, next_multiple_of_u64, COPY_BUFFER_ALIGNMENT};

verus! {

/// The indices of a mesh
pub enum MeshIndices {
    /// 16-bit indices
    U16(Vec<u16>),
    /// 32-bit indices
    U32(Vec<u32>),
}

impl MeshIndices {
    /// The number of indices
    pub open spec fn spec_len(&self) -> nat {
        match self {
            MeshIndices::U16(v) => v@.len(),
            MeshIndices::U32(v) => v@.len(),
        }
    }

    /// The format of the indices
    pub open spec fn spec_format(&self) -> IndexFormat {
        match self {
            MeshIndices::U16(_) => IndexFormat::U16,
            MeshIndices::U32(_) => IndexFormat::U32,
        }
    }

    /// Returns the number of indices
    pub fn len(&self) -> (r: usize)
        ensures
            r == self.spec_len(),
    {
        match self {
            MeshIndices::U16(v) => v.len(),
            MeshIndices::U32(v) => v.len(),
        }
    }

    /// Returns the format of the indices
    pub fn format(&self) -> (r: IndexFormat)
        ensures
            r == self.spec_format(),
    {
        match self {
            MeshIndices::U16(_) => IndexFormat::U16,
            MeshIndices::U32(_) => IndexFormat::U32,
        }
    }

    /// Every index is below the vertex count, the count taken in the width of the indices
    /// (truncated to 16 bits for 16-bit indices)
    pub open spec fn in_range(&self, vtx_count: usize) -> bool {
        match self {
            MeshIndices::U16(v) => forall|i: int| 0 <= i < v@.len() ==> (#[trigger] v@[i]) < (vtx_count as u16),
            MeshIndices::U32(v) => forall|i: int| 0 <= i < v@.len() ==> (#[trigger] v@[i]) < (vtx_count as u32),
        }
    }
}

/// Error while creating a [Mesh] from its data
#[derive(Debug, Clone, Copy, PartialEq, Eq, Structural)]
pub enum MeshFromDataErr {
    /// The mesh had no vertices or no indices
    Empty,
}

/// A mesh, as far as it is checked: its vertex and index counts, the format of its
/// indices, its topology, and the size in bytes of its index buffer
#[derive(Debug, Clone, Copy, PartialEq, Eq, Structural)]
pub struct Mesh {
    /// The amount of vertices
    pub vertex_count: usize,
    /// The amount of indices
    pub index_count: u32,
    /// The type of indices
    pub index_type: IndexFormat,
    /// The mesh topology
    pub topology: MeshTopology,
    /// The size in bytes of the index buffer, a multiple of the copy alignment
    pub index_buffer_size: u64,
}

/// Checks the indices of a mesh, and returns the size of its index buffer: their bytes,
/// rounded up to the copy alignment. `None` when there are no indices, or when an index is
/// out of range. The number of indices must be a multiple of the indices per primitive
pub fn index_buffer_size(indices: &MeshIndices, topology: MeshTopology, vtx_count: usize) -> (r: Option<u64>)
    requires
        indices.spec_len() % topology.spec_indices_per_primitive() == 0,
        indices.spec_len() * 4 + 4 <= u64::MAX,
    ensures
        r is None <==> (indices.spec_len() == 0 || !indices.in_range(vtx_count)),
        r matches Some(size) ==> size == round_up((indices.spec_len() * indices.spec_format().spec_stride()) as int, COPY_BUFFER_ALIGNMENT as int),
{
    if indices.len() == 0 {
        return None;
    }
    let bytes: u64 = match indices {
        MeshIndices::U16(items) => {
            let bound = #[verifier::truncate] (vtx_count as u16);
            let mut i: usize = 0;
            while i < items.len()
                invariant
                    0 <= i <= items@.len(),
                    bound == vtx_count as u16,
                    *indices == MeshIndices::U16(*items),
                    forall|j: int| 0 <= j < i ==> (#[trigger] items@[j]) < bound,
                decreases items.len() - i,
            {
                if items[i] >= bound {
                    return None;
                }
                i += 1;
            }
            items.len() as u64 * 2
        },
        MeshIndices::U32(items) => {
            let bound = #[verifier::truncate] (vtx_count as u32);
            let mut i: usize = 0;
            while i < items.len()
                invariant
                    0 <= i <= items@.len(),
                    bound == vtx_count as u32,
                    *indices == MeshIndices::U32(*items),
                    forall|j: int| 0 <= j < i ==> (#[trigger] items@[j]) < bound,
                decreases items.len() - i,
            {
                if items[i] >= bound {
                    return None;
                }
                i += 1;
            }
            items.len() as u64 * 4
        },
    };
    Some(next_multiple_of_u64(bytes, COPY_BUFFER_ALIGNMENT))
}

impl Mesh {
    /// The mesh checks pass: there are vertices and indices, and every index is in range
    pub open spec fn valid(vertex_count: usize, indices: MeshIndices) -> bool {
        vertex_count > 0 && indices.spec_len() > 0 && indices.in_range(vertex_count)
    }

    /// Creates a mesh from its vertex count, indices and topology. `None` when there are no
    /// vertices or no indices, or when an index is out of range
    pub fn new(vertex_count: usize, indices: &MeshIndices, topology: MeshTopology) -> (r: Option<Mesh>)
        requires
            vertex_count > 0 ==> indices.spec_len() % topology.spec_indices_per_primitive() == 0,
            indices.spec_len() * 4 + 4 <= u64::MAX,
            Self::valid(vertex_count, *indices) ==> indices.spec_len() <= u32::MAX,
        ensures
            r is None <==> !Self::valid(vertex_count, *indices),
            r matches Some(m) ==> m == (Mesh {
                vertex_count,
                index_count: indices.spec_len() as u32,
                index_type: indices.spec_format(),
                topology,
                index_buffer_size: round_up((indices.spec_len() * indices.spec_format().spec_stride()) as int, COPY_BUFFER_ALIGNMENT as int) as u64,
            }),
    {
        if vertex_count == 0 {
            return None;
        }
        let size = match index_buffer_size(indices, topology, vertex_count) {
            Some(s) => s,
            None => {
                return None;
            },
        };
        Some(Mesh {
            vertex_count,
            index_count: indices.len() as u32,
            index_type: indices.format(),
            topology,
            index_buffer_size: size,
        })
    }

    /// Creates a mesh from its data; fails with [MeshFromDataErr::Empty] exactly when
    /// [Mesh::new] gives `None`
    pub fn from_data(vertex_count: usize, indices: &MeshIndices, topology: MeshTopology) -> (r: Result<Mesh, MeshFromDataErr>)
        requires
            vertex_count > 0 ==> indices.spec_len() % topology.spec_indices_per_primitive() == 0,
            indices.spec_len() * 4 + 4 <= u64::MAX,
            Self::valid(vertex_count, *indices) ==> indices.spec_len() <= u32::MAX,
        ensures
            r is Err <==> !Self::valid(vertex_count, *indices),
            r matches Err(e) ==> e == MeshFromDataErr::Empty,
            r matches Ok(m) ==> m.vertex_count == vertex_count && m.index_count == indices.spec_len()
                && m.index_type == indices.spec_format() && m.topology == topology,
    {
        match Self::new(vertex_count, indices, topology) {
            Some(m) => Ok(m),
            None => Err(MeshFromDataErr::Empty),
        }
    }

    /// Returns the topology of this mesh
    pub fn topology(&self) -> (r: MeshTopology)
        ensures
            r == self.topology,
    {
        self.topology
    }
}

} // verus!
