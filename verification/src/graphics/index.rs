//! Index buffers: their validation on creation and on update, and the byte views of
//! index data

use vstd::prelude::*;

use super::{IndexFormat, MeshTopology};

verus! {

/// Whether two bytes encode the value, least significant byte first when `little_endian`,
/// else most significant byte first
pub open spec fn encodes_u16(little_endian: bool, b0: u8, b1: u8, v: u16) -> bool {
    if little_endian {
        b0 + 256 * b1 == v
    } else {
        b1 + 256 * b0 == v
    }
}

/// Whether four bytes encode the value, least significant byte first when `little_endian`,
/// else most significant byte first
pub open spec fn encodes_u32(little_endian: bool, b0: u8, b1: u8, b2: u8, b3: u8, v: u32) -> bool {
    if little_endian {
        b0 + 256 * b1 + 65536 * b2 + 16777216 * b3 == v
    } else {
        b3 + 256 * b2 + 65536 * b1 + 16777216 * b0 == v
    }
}

/// The bytes are the 16-bit values, two bytes each, in the given byte order
pub open spec fn u16s_in_order(little_endian: bool, bytes: Seq<u8>, values: Seq<u16>) -> bool {
    forall|i: int| 0 <= i < values.len() ==> encodes_u16(little_endian, #[trigger] bytes[2 * i], bytes[2 * i + 1], values[i])
}

/// The bytes are the 16-bit values, two bytes each, all in one byte order
pub open spec fn u16s_encoded(bytes: Seq<u8>, values: Seq<u16>) -> bool {
    u16s_in_order(true, bytes, values) || u16s_in_order(false, bytes, values)
}

/// The bytes are the 32-bit values, four bytes each, in the given byte order
pub open spec fn u32s_in_order(little_endian: bool, bytes: Seq<u8>, values: Seq<u32>) -> bool {
    forall|i: int| 0 <= i < values.len() ==> encodes_u32(
        little_endian,
        #[trigger] bytes[4 * i],
        bytes[4 * i + 1],
        bytes[4 * i + 2],
        bytes[4 * i + 3],
        values[i],
    )
}

/// The bytes are the 32-bit values, four bytes each, all in one byte order
pub open spec fn u32s_encoded(bytes: Seq<u8>, values: Seq<u32>) -> bool {
    u32s_in_order(true, bytes, values) || u32s_in_order(false, bytes, values)
}

/// The bytes of 16-bit indices, two per index, in the machine's byte order
/// (`bytemuck::must_cast_slice`). What is stated: the length, and that the pairs of bytes
/// encode their indices, all in one byte order; which one is the machine's
#[verifier::external_body]
fn cast_u16_bytes(data: &[u16]) -> (r: &[u8])
    ensures
        r@.len() == 2 * data@.len(),
        u16s_encoded(r@, data@),
{
    bytemuck::must_cast_slice::<u16, u8>(data)
}

/// The bytes of 32-bit indices, four per index, in the machine's byte order
/// (`bytemuck::must_cast_slice`). What is stated: the length, and that the groups of four
/// bytes encode their indices, all in one byte order; which one is the machine's
#[verifier::external_body]
fn cast_u32_bytes(data: &[u32]) -> (r: &[u8])
    ensures
        r@.len() == 4 * data@.len(),
        u32s_encoded(r@, data@),
{
    bytemuck::must_cast_slice::<u32, u8>(data)
}

/// A type that can be used as an index in an [IndexBuffer]
pub trait IndexDatatype: Sized {
    /// The format of this index type
    spec fn spec_format() -> IndexFormat;

    /// The value of the index
    spec fn spec_value(&self) -> nat;

    /// Whether the bytes are the indices, each encoded in its stride's worth of bytes in
    /// the machine's byte order
    spec fn bytes_encode(bytes: Seq<u8>, indices: Seq<Self>) -> bool;

    /// Returns the format of this index type
    fn format() -> (r: IndexFormat)
        ensures
            r == Self::spec_format(),
    ;

    /// Casts the slice into its bytes
    fn as_bytes(this: &[Self]) -> (r: &[u8])
        ensures
            r@.len() == this@.len() * Self::spec_format().spec_stride(),
            Self::bytes_encode(r@, this@),
    ;

    /// Returns the index as a usize for bounds checking
    fn as_usize(&self) -> (r: usize)
        ensures
            r == self.spec_value(),
    ;
}

impl IndexDatatype for u16 {
    open spec fn spec_format() -> IndexFormat {
        IndexFormat::U16
    }

    open spec fn spec_value(&self) -> nat {
        *self as nat
    }

    open spec fn bytes_encode(bytes: Seq<u8>, indices: Seq<u16>) -> bool {
        u16s_encoded(bytes, indices)
    }

    fn format() -> (r: IndexFormat) {
        IndexFormat::U16
    }

    fn as_bytes(this: &[u16]) -> (r: &[u8]) {
        let r = cast_u16_bytes(this);
        assert(this@.len() * IndexFormat::U16.spec_stride() == 2 * this@.len()) by (nonlinear_arith)
            requires
                IndexFormat::U16.spec_stride() == 2,
        ;
        r
    }

    fn as_usize(&self) -> (r: usize) {
        *self as usize
    }
}

impl IndexDatatype for u32 {
    open spec fn spec_format() -> IndexFormat {
        IndexFormat::U32
    }

    open spec fn spec_value(&self) -> nat {
        *self as nat
    }

    open spec fn bytes_encode(bytes: Seq<u8>, indices: Seq<u32>) -> bool {
        u32s_encoded(bytes, indices)
    }

    fn format() -> (r: IndexFormat) {
        IndexFormat::U32
    }

    fn as_bytes(this: &[u32]) -> (r: &[u8]) {
        let r = cast_u32_bytes(this);
        assert(this@.len() * IndexFormat::U32.spec_stride() == 4 * this@.len()) by (nonlinear_arith)
            requires
                IndexFormat::U32.spec_stride() == 4,
        ;
        r
    }

    fn as_usize(&self) -> (r: usize) {
        *self as usize
    }
}

/// An error while creating an [IndexBuffer]
#[derive(Debug, Clone, Copy, PartialEq, Eq, Structural, Hash)]
pub enum NewIndexBufferErr {
    /// Cannot create an empty index buffer
    Zero,
    /// The number of indices is not a multiple of the indices per primitive of the topology
    NotEnoughIndices {
        /// The given number of indices
        count: usize,
        /// The topology of the buffer
        topology: MeshTopology,
    },
}

/// An error while updating an [IndexBuffer]
#[derive(Debug, Clone, Copy, PartialEq, Eq, Structural, Hash)]
pub enum UpdateIndexBufferErr {
    /// Cannot update a non-dynamic index buffer
    NotDynamic,
    /// The update would go out of the buffer's bounds
    OutOfRange {
        /// Start index of the attempted write
        write_start: u64,
        /// Exclusive end index of the attempted write
        write_end: u64,
        /// Length of the buffer
        buf_len: u64,
    },
}

/// A mesh index buffer, as far as it is checked: its topology, the format and number of
/// its indices, whether it can be updated, and the copy of its data kept in main memory
pub struct IndexBuffer {
    /// The topology of the indices
    pub topology: MeshTopology,
    /// The format of each index
    pub format: IndexFormat,
    /// The amount of indices
    pub count: u64,
    /// Whether the buffer can be updated
    pub dynamic: bool,
    /// The bytes of the indices, when kept in main memory
    pub cpu_buffer: Option<Vec<u8>>,
}

/// A write into the GPU buffer: the offset and the number of bytes
#[derive(Debug, Clone, Copy, PartialEq, Eq, Structural)]
pub struct BufferWrite {
    /// The offset of the write
    pub offset: u64,
    /// The number of bytes written
    pub size: u64,
}

/// Checks the number of indices of a new buffer against its topology, and returns the
/// size in bytes of the buffer
pub fn alloc_size(count: u64, topology: MeshTopology, format: IndexFormat) -> (r: Result<u64, NewIndexBufferErr>)
    requires
        count * 4 <= u64::MAX,
    ensures
        match r {
            Ok(size) => (count as int) % (topology.spec_indices_per_primitive() as int) == 0 && size == count * format.spec_stride(),
            Err(e) => (count as int) % (topology.spec_indices_per_primitive() as int) != 0
                && e == (NewIndexBufferErr::NotEnoughIndices { count: count as usize, topology }),
        },
{
    let ipp = topology.indices_per_primitive() as u64;
    if count % ipp != 0 {
        return Err(NewIndexBufferErr::NotEnoughIndices { count: #[verifier::truncate] (count as usize), topology });
    }
    match format {
        IndexFormat::U16 => {
            assert(count * format.spec_stride() == 2 * count) by (nonlinear_arith)
                requires
                    format.spec_stride() == 2,
            ;
            Ok(2 * count)
        },
        IndexFormat::U32 => {
            assert(count * format.spec_stride() == 4 * count) by (nonlinear_arith)
                requires
                    format.spec_stride() == 4,
            ;
            Ok(4 * count)
        },
    }
}

impl IndexBuffer {
    /// A buffer of at least one index, a whole number of primitives
    pub open spec fn wf(&self) -> bool {
        &&& self.count > 0
        &&& (self.count as int) % (self.topology.spec_indices_per_primitive() as int) == 0
    }

    /// Creates a new index buffer with the given data and topology. Fails when there are no
    /// indices, or when their number is not a multiple of the indices per primitive
    pub fn new<T: IndexDatatype>(data: &[T], topology: MeshTopology, keep_on_cpu: bool, dynamic: bool) -> (r: Result<Self, NewIndexBufferErr>)
        requires
            data@.len() * 4 <= u64::MAX,
        ensures
            data@.len() == 0 ==> r == Err::<Self, NewIndexBufferErr>(NewIndexBufferErr::Zero),
            data@.len() > 0 && data@.len() % topology.spec_indices_per_primitive() != 0 ==> r
                == Err::<Self, NewIndexBufferErr>(NewIndexBufferErr::NotEnoughIndices { count: data@.len() as usize, topology }),
            data@.len() > 0 && data@.len() % topology.spec_indices_per_primitive() == 0 ==> (r matches Ok(b) && {
                &&& b.wf()
                &&& b.topology == topology
                &&& b.format == T::spec_format()
                &&& b.count == data@.len()
                &&& b.dynamic == dynamic
                &&& (b.cpu_buffer is Some) == keep_on_cpu
                &&& b.cpu_buffer matches Some(bytes) ==> bytes@.len() == data@.len() * T::spec_format().spec_stride()
                    && T::bytes_encode(bytes@, data@)
            }),
    {
        let n = data.len();
        if n == 0 {
            return Err(NewIndexBufferErr::Zero);
        }
        let format = T::format();
        let count = n as u64;
        match alloc_size(count, topology, format) {
            Ok(_) => {},
            Err(e) => {
                return Err(e);
            },
        }
        let cpu_buffer = if keep_on_cpu {
            Some(vstd::slice::slice_to_vec(T::as_bytes(data)))
        } else {
            None
        };
        Ok(IndexBuffer { topology, format, count, dynamic, cpu_buffer })
    }

    /// Creates a new index buffer of `count` indices that are written directly into the GPU
    /// buffer; `written` is the content of the buffer after the write. Fails when their
    /// number is not a multiple of the indices per primitive. When `keep_on_cpu` is set, the
    /// written content is kept in main memory too
    pub fn new_direct(
        count: u64,
        format: IndexFormat,
        topology: MeshTopology,
        keep_on_cpu: bool,
        dynamic: bool,
        written: Vec<u8>,
    ) -> (r: Result<Self, NewIndexBufferErr>)
        requires
            count > 0,
            count * 4 <= u64::MAX,
            written@.len() == count * format.spec_stride(),
        ensures
            (count as int) % (topology.spec_indices_per_primitive() as int) != 0 ==> r
                == Err::<Self, NewIndexBufferErr>(NewIndexBufferErr::NotEnoughIndices { count: count as usize, topology }),
            (count as int) % (topology.spec_indices_per_primitive() as int) == 0 ==> (r matches Ok(b) && {
                &&& b.wf()
                &&& b.topology == topology
                &&& b.format == format
                &&& b.count == count
                &&& b.dynamic == dynamic
                &&& b.cpu_buffer == if keep_on_cpu { Some(written) } else { None::<Vec<u8>> }
            }),
    {
        match alloc_size(count, topology, format) {
            Ok(_) => {
                let cpu_buffer = if keep_on_cpu { Some(written) } else { None };
                Ok(IndexBuffer { topology, format, count, dynamic, cpu_buffer })
            },
            Err(e) => Err(e),
        }
    }

    /// The size in bytes of the GPU buffer
    pub fn byte_size(&self) -> (r: u64)
        requires
            self.count * 4 <= u64::MAX,
        ensures
            r == self.count * self.format.spec_stride(),
    {
        match self.format {
            IndexFormat::U16 => {
                assert(self.count * self.format.spec_stride() == 2 * self.count) by (nonlinear_arith)
                requires
                    self.format.spec_stride() == 2,
            ;
                2 * self.count
            },
            IndexFormat::U32 => {
                assert(self.count * self.format.spec_stride() == 4 * self.count) by (nonlinear_arith)
                requires
                    self.format.spec_stride() == 4,
            ;
                4 * self.count
            },
        }
    }

    /// Checks an update of the buffer with `data` written at `offset`, and returns the write
    /// to make, if any: at `offset`, the bytes of `data`. Fails when the buffer is not
    /// dynamic, or when the indices would go past its end; writes nothing when `data` is empty
    pub fn update<T: IndexDatatype>(&self, offset: u64, data: &[T]) -> (r: Result<Option<BufferWrite>, Box<UpdateIndexBufferErr>>)
        requires
            offset + data@.len() <= u64::MAX,
            data@.len() * 4 <= u64::MAX,
        ensures
            !self.dynamic ==> r == Err::<Option<BufferWrite>, Box<UpdateIndexBufferErr>>(Box::new(UpdateIndexBufferErr::NotDynamic)),
            self.dynamic && data@.len() == 0 ==> r == Ok::<Option<BufferWrite>, Box<UpdateIndexBufferErr>>(None),
            self.dynamic && data@.len() > 0 && offset + data@.len() > self.count ==> r == Err::<Option<BufferWrite>, Box<UpdateIndexBufferErr>>(
                Box::new(UpdateIndexBufferErr::OutOfRange { write_start: offset, write_end: (offset + data@.len()) as u64, buf_len: self.count }),
            ),
            self.dynamic && data@.len() > 0 && offset + data@.len() <= self.count ==> r == Ok::<Option<BufferWrite>, Box<UpdateIndexBufferErr>>(
                Some(BufferWrite { offset, size: (data@.len() * T::spec_format().spec_stride()) as u64 }),
            ),
    {
        if !self.dynamic {
            return Err(Box::new(UpdateIndexBufferErr::NotDynamic));
        }
        let len = data.len() as u64;
        if len == 0 {
            return Ok(None);
        }
        if offset + len > self.count {
            return Err(Box::new(UpdateIndexBufferErr::OutOfRange { write_start: offset, write_end: offset + len, buf_len: self.count }));
        }
        let bytes = T::as_bytes(data);
        Ok(Some(BufferWrite { offset, size: bytes.len() as u64 }))
    }

    /// Checks an update of the buffer with `count` indices written directly at `offset`, and
    /// returns the write to make, if any. Fails when the buffer is not dynamic, or when the
    /// write goes past its end; writes nothing when there are no indices
    pub fn update_direct(&self, offset: u64, count: u64) -> (r: Result<Option<BufferWrite>, Box<UpdateIndexBufferErr>>)
        requires
            offset + count <= u64::MAX,
            count * 4 <= u64::MAX,
        ensures
            !self.dynamic ==> r == Err::<Option<BufferWrite>, Box<UpdateIndexBufferErr>>(Box::new(UpdateIndexBufferErr::NotDynamic)),
            self.dynamic && offset + count > self.count ==> r == Err::<Option<BufferWrite>, Box<UpdateIndexBufferErr>>(
                Box::new(UpdateIndexBufferErr::OutOfRange { write_start: offset, write_end: (offset + count) as u64, buf_len: self.count }),
            ),
            self.dynamic && offset + count <= self.count && count == 0 ==> r == Ok::<Option<BufferWrite>, Box<UpdateIndexBufferErr>>(None),
            self.dynamic && offset + count <= self.count && count > 0 ==> r == Ok::<Option<BufferWrite>, Box<UpdateIndexBufferErr>>(
                Some(BufferWrite { offset, size: (count * self.format.spec_stride()) as u64 }),
            ),
    {
        if !self.dynamic {
            return Err(Box::new(UpdateIndexBufferErr::NotDynamic));
        }
        if offset + count > self.count {
            return Err(Box::new(UpdateIndexBufferErr::OutOfRange { write_start: offset, write_end: offset + count, buf_len: self.count }));
        }
        if count == 0 {
            return Ok(None);
        }
        Ok(Some(BufferWrite { offset, size: count * self.format.stride() as u64 }))
    }

    /// Returns the topology of this buffer
    pub fn topology(&self) -> (r: MeshTopology)
        ensures
            r == self.topology,
    {
        self.topology
    }

    /// Returns the format of this buffer
    pub fn format(&self) -> (r: IndexFormat)
        ensures
            r == self.format,
    {
        self.format
    }

    /// Returns the amount of indices in this buffer
    pub fn len(&self) -> (r: u64)
        ensures
            r == self.count,
    {
        self.count
    }
}

} // verus!
