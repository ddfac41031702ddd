use wutengine::graphics::bind_group::uniform_buffer_size;
use wutengine::graphics::bind_group::{buffer_offset_size, total_buffer_size, BindGroupParams, ParamIndex, SetParamErr};
use wutengine::graphics::index::{BufferWrite, IndexBuffer, IndexDatatype, NewIndexBufferErr, UpdateIndexBufferErr};
use wutengine::graphics::mesh::{index_buffer_size, Mesh, MeshFromDataErr, MeshIndices};
use wutengine::graphics::{next_multiple_of_u64, IndexFormat, MeshTopology};

#[test]
fn index_buffer_creation_checks_counts() {
    let empty: [u16; 0] = [];
    assert_eq!(Err(NewIndexBufferErr::Zero), IndexBuffer::new(&empty, MeshTopology::Triangle, false, false).map(|b| b.count));
    assert_eq!(
        Err(NewIndexBufferErr::NotEnoughIndices { count: 4, topology: MeshTopology::Triangle }),
        IndexBuffer::new(&[0u16, 1, 2, 3], MeshTopology::Triangle, false, false).map(|b| b.count)
    );
    let b = IndexBuffer::new(&[0u32, 1, 2, 2, 1, 3], MeshTopology::Triangle, true, true).unwrap();
    assert_eq!(6, b.len());
    assert_eq!(IndexFormat::U32, b.format());
    assert_eq!(MeshTopology::Triangle, b.topology());
    assert_eq!(24, b.byte_size());
    assert_eq!(24, b.cpu_buffer.as_ref().unwrap().len());
    let expected: Vec<u8> = [0u32, 1, 2, 2, 1, 3].iter().flat_map(|i| i.to_ne_bytes()).collect();
    assert_eq!(&expected, b.cpu_buffer.as_ref().unwrap());
    let lines = IndexBuffer::new(&[0u16, 1, 1, 2], MeshTopology::Line, false, false).unwrap();
    assert!(lines.cpu_buffer.is_none());
    assert_eq!(8, lines.byte_size());
}

#[test]
fn index_bytes_are_native_endian() {
    let data = [0x0102u16, 0x0304];
    let bytes = u16::as_bytes(&data);
    assert_eq!(&[0x0102u16.to_ne_bytes(), 0x0304u16.to_ne_bytes()].concat()[..], bytes);
    assert_eq!(IndexFormat::U16, u16::format());
    assert_eq!(7, 7u32.as_usize());
}

#[test]
fn index_buffer_updates() {
    let fixed = IndexBuffer::new(&[0u16, 1, 2], MeshTopology::Triangle, false, false).unwrap();
    assert_eq!(Err(Box::new(UpdateIndexBufferErr::NotDynamic)), fixed.update(0, &[1u16]));

    let b = IndexBuffer::new(&[0u16, 1, 2, 3, 4, 5], MeshTopology::Triangle, false, true).unwrap();
    assert_eq!(Ok(None), b.update::<u16>(10, &[]));
    assert_eq!(Ok(Some(BufferWrite { offset: 2, size: 6 })), b.update(2, &[7u16, 8, 9]));
    assert_eq!(
        Err(Box::new(UpdateIndexBufferErr::OutOfRange { write_start: 5, write_end: 7, buf_len: 6 })),
        b.update(5, &[1u16, 2])
    );
    assert_eq!(
        Err(Box::new(UpdateIndexBufferErr::OutOfRange { write_start: 7, write_end: 7, buf_len: 6 })),
        b.update_direct(7, 0)
    );
    assert_eq!(Ok(None), b.update_direct(6, 0));
    assert_eq!(Ok(Some(BufferWrite { offset: 0, size: 12 })), b.update_direct(0, 6));
}

#[test]
fn direct_index_buffers() {
    assert_eq!(
        Err(NewIndexBufferErr::NotEnoughIndices { count: 5, topology: MeshTopology::Line }),
        IndexBuffer::new_direct(5, IndexFormat::U16, MeshTopology::Line, false, false, vec![0; 10]).map(|b| b.count)
    );
    let b = IndexBuffer::new_direct(5, IndexFormat::U32, MeshTopology::Point, false, true, vec![7; 20]).unwrap();
    assert_eq!(20, b.byte_size());
    assert!(b.cpu_buffer.is_none());
    let kept = IndexBuffer::new_direct(2, IndexFormat::U16, MeshTopology::Point, true, false, vec![1, 0, 2, 0]).unwrap();
    assert_eq!(Some(vec![1, 0, 2, 0]), kept.cpu_buffer);
}

#[test]
fn mesh_index_validation() {
    let tri = MeshIndices::U16(vec![0, 1, 2]);
    assert_eq!(Some(8), index_buffer_size(&tri, MeshTopology::Triangle, 3));
    assert_eq!(None, index_buffer_size(&tri, MeshTopology::Triangle, 2));
    let big = MeshIndices::U32(vec![0, 1, 2, 3, 4, 5]);
    assert_eq!(Some(24), index_buffer_size(&big, MeshTopology::Line, 6));
    assert_eq!(None, index_buffer_size(&MeshIndices::U32(vec![]), MeshTopology::Point, 6));

    let mesh = Mesh::new(3, &tri, MeshTopology::Triangle).unwrap();
    assert_eq!(3, mesh.index_count);
    assert_eq!(IndexFormat::U16, mesh.index_type);
    assert_eq!(8, mesh.index_buffer_size);
    assert_eq!(MeshTopology::Triangle, mesh.topology());
    assert_eq!(None, Mesh::new(0, &tri, MeshTopology::Triangle));
    assert_eq!(Err(MeshFromDataErr::Empty), Mesh::from_data(1, &tri, MeshTopology::Triangle));
}

#[test]
fn sixteen_bit_index_bound_wraps() {
    // The vertex count is taken in the width of the indices
    let idx = MeshIndices::U16(vec![0, 1, 2]);
    assert_eq!(None, index_buffer_size(&idx, MeshTopology::Point, 65536));
    assert_eq!(Some(8), index_buffer_size(&idx, MeshTopology::Point, 65539));
}

#[test]
fn uniform_buffer_layout() {
    let params = vec![(4usize, 4usize), (16, 12), (4, 4), (8, 8)];
    assert_eq!(40, total_buffer_size(&params));
    assert_eq!((0, 4), buffer_offset_size(&params, 0));
    assert_eq!((16, 12), buffer_offset_size(&params, 1));
    assert_eq!((28, 4), buffer_offset_size(&params, 2));
    assert_eq!((32, 8), buffer_offset_size(&params, 3));
    assert_eq!(0, total_buffer_size(&vec![]));
    assert_eq!(12, next_multiple_of_u64(9, 4));
    assert_eq!(8, next_multiple_of_u64(8, 4));
}

#[test]
fn bind_group_parameter_lookup() {
    let params = BindGroupParams::new(&vec![
        ("color".to_string(), true),
        ("texture".to_string(), false),
        ("scale".to_string(), true),
        ("sampler".to_string(), false),
    ]);
    assert_eq!(Ok(ParamIndex::Buffer(0)), params.lookup("color"));
    assert_eq!(Ok(ParamIndex::Opaque(0)), params.lookup("texture"));
    assert_eq!(Ok(ParamIndex::Buffer(1)), params.lookup("scale"));
    assert_eq!(Ok(ParamIndex::Opaque(1)), params.lookup("sampler"));
    assert_eq!(Err(SetParamErr::UnknownParameter("missing".to_string())), params.lookup("missing"));
}

#[test]
fn uniform_buffer_sizes() {
    assert_eq!(None, uniform_buffer_size(&vec![]));
    assert_eq!(None, uniform_buffer_size(&vec![(4, 0)]));
    assert_eq!(Some(8), uniform_buffer_size(&vec![(2, 2), (1, 3)]));
    assert_eq!(Some(40), uniform_buffer_size(&vec![(4usize, 4usize), (16, 12), (4, 4), (8, 8)]));
}
