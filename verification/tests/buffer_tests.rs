use render_core::buffer::{BufferKind, TypedBuffer, UpdateFrequency};
use render_core::bufferset::{BufferSet, BufferSpec};
use render_core::error::Error;
use render_core::layout::{ComponentType, FieldLayout, Record, RecordLayout};

fn field(count: u32, ct: ComponentType, offset: u32) -> FieldLayout {
    FieldLayout { component_count: count, component_type: ct, normalized: false, byte_offset: offset }
}

/// Two fields of three 32-bit floats each: position then color, 24 bytes.
fn vertex_layout() -> RecordLayout {
    RecordLayout::new(
        vec![field(3, ComponentType::Float32, 0), field(3, ComponentType::Float32, 12)],
        24,
    )
    .unwrap()
}

fn vertex(pos: [f32; 3], color: [f32; 3]) -> Record {
    Record {
        values: vec![
            pos.iter().map(|x| x.to_bits()).collect(),
            color.iter().map(|x| x.to_bits()).collect(),
        ],
    }
}

fn packed(records: &[([f32; 3], [f32; 3])]) -> Vec<u8> {
    let mut out = Vec::new();
    for (pos, color) in records {
        for x in pos {
            out.extend_from_slice(&x.to_le_bytes());
        }
        for x in color {
            out.extend_from_slice(&x.to_le_bytes());
        }
    }
    out
}

fn three_vertices() -> Vec<Record> {
    vec![
        vertex([-0.4, -0.4, 0.0], [1.0, 0.0, 0.0]),
        vertex([0.4, -0.4, 0.0], [0.0, 1.0, 0.0]),
        vertex([0.0, 0.4, 0.0], [0.0, 0.0, 1.0]),
    ]
}

#[test]
fn synchronized_bytes_match_packed_representation() {
    let buf = TypedBuffer::new(
        Some(1),
        vertex_layout(),
        three_vertices(),
        BufferKind::VertexData,
        UpdateFrequency::Dynamic,
    )
    .unwrap();
    let expected = packed(&[
        ([-0.4, -0.4, 0.0], [1.0, 0.0, 0.0]),
        ([0.4, -0.4, 0.0], [0.0, 1.0, 0.0]),
        ([0.0, 0.4, 0.0], [0.0, 0.0, 1.0]),
    ]);
    assert_eq!(expected.len(), 72);
    assert_eq!(buf.gpu_bytes().as_slice(), expected.as_slice());
}

#[test]
fn synchronize_is_idempotent() {
    let mut buf = TypedBuffer::new(
        Some(1),
        vertex_layout(),
        three_vertices(),
        BufferKind::VertexData,
        UpdateFrequency::Dynamic,
    )
    .unwrap();
    let first = buf.gpu_bytes().clone();
    buf.synchronize();
    assert_eq!(buf.gpu_bytes().as_slice(), first.as_slice());
    buf.synchronize();
    assert_eq!(buf.gpu_bytes().as_slice(), first.as_slice());
}

#[test]
fn host_mutation_does_not_touch_gpu_copy_until_synchronize() {
    let mut buf = TypedBuffer::new(
        Some(1),
        vertex_layout(),
        three_vertices(),
        BufferKind::VertexData,
        UpdateFrequency::Dynamic,
    )
    .unwrap();
    let before = buf.gpu_bytes().clone();
    buf.push_record(vertex([0.5, 0.5, 0.5], [1.0, 1.0, 1.0]));
    assert_eq!(buf.len(), 4);
    assert_eq!(buf.gpu_bytes().as_slice(), before.as_slice());
    buf.synchronize();
    assert_eq!(buf.gpu_bytes().len(), 96);
    assert_ne!(buf.gpu_bytes().as_slice(), before.as_slice());
}

#[test]
fn binding_addresses_each_field_byte_range() {
    // Round trip: upload, then read each field back out of the GPU copy
    // through the binding's stride and offset.
    let buf = TypedBuffer::new(
        Some(1),
        vertex_layout(),
        three_vertices(),
        BufferKind::VertexData,
        UpdateFrequency::Static,
    )
    .unwrap();
    let verts = [
        ([-0.4f32, -0.4, 0.0], [1.0f32, 0.0, 0.0]),
        ([0.4, -0.4, 0.0], [0.0, 1.0, 0.0]),
        ([0.0, 0.4, 0.0], [0.0, 0.0, 1.0]),
    ];
    for f in 0..2 {
        let b = buf.bind_field(f as u32, f).unwrap();
        assert_eq!(b.stride, 24);
        assert_eq!(b.byte_offset, 12 * f as u32);
        assert_eq!(b.component_count, 3);
        let gpu = buf.gpu_bytes();
        for (i, v) in verts.iter().enumerate() {
            let comps = if f == 0 { v.0 } else { v.1 };
            let start = i * b.stride as usize + b.byte_offset as usize;
            let mut expected = Vec::new();
            for x in comps.iter() {
                expected.extend_from_slice(&x.to_le_bytes());
            }
            assert_eq!(&gpu[start..start + 12], expected.as_slice());
        }
    }
}

#[test]
fn bind_field_rejects_out_of_range_index() {
    let buf = TypedBuffer::new(
        Some(1),
        vertex_layout(),
        Vec::new(),
        BufferKind::VertexData,
        UpdateFrequency::Static,
    )
    .unwrap();
    assert!(buf.bind_field(0, 2).is_none());
    assert!(buf.bind_field(0, 0).is_some());
}

#[test]
fn buffer_allocation_failure_is_reported() {
    let r = TypedBuffer::new(
        None,
        vertex_layout(),
        Vec::new(),
        BufferKind::VertexData,
        UpdateFrequency::Static,
    );
    assert_eq!(r.err(), Some(Error::BufferAllocation));
}

/// One unsigned byte per record: an element-index buffer.
fn index_layout() -> RecordLayout {
    RecordLayout::new(vec![field(1, ComponentType::Uint8, 0)], 1).unwrap()
}

fn index_records(indices: &[u8]) -> Vec<Record> {
    indices.iter().map(|i| Record { values: vec![vec![*i as u32]] }).collect()
}

#[test]
fn empty_index_buffer_reports_zero_length() {
    // A set whose vertex buffer has data but whose index buffer is empty:
    // the index buffer's length is 0, telling the caller to skip the draw.
    let set = BufferSet::new(
        Some(7),
        vec![
            BufferSpec {
                handle: Some(1),
                layout: vertex_layout(),
                records: three_vertices(),
                kind: BufferKind::VertexData,
                frequency: UpdateFrequency::Dynamic,
            },
            BufferSpec {
                handle: Some(2),
                layout: index_layout(),
                records: Vec::new(),
                kind: BufferKind::IndexData,
                frequency: UpdateFrequency::Static,
            },
        ],
    )
    .unwrap();
    assert_eq!(set.handle(), 7);
    assert_eq!(set.buffer_count(), 2);
    assert_eq!(set.buffer(0).len(), 3);
    assert_eq!(set.buffer(1).len(), 0);
}

#[test]
fn buffer_set_preserves_spec_order_and_contents() {
    let mut set = BufferSet::new(
        Some(9),
        vec![
            BufferSpec {
                handle: Some(1),
                layout: vertex_layout(),
                records: three_vertices(),
                kind: BufferKind::VertexData,
                frequency: UpdateFrequency::Dynamic,
            },
            BufferSpec {
                handle: Some(2),
                layout: index_layout(),
                records: index_records(&[0, 1, 2]),
                kind: BufferKind::IndexData,
                frequency: UpdateFrequency::Static,
            },
        ],
    )
    .unwrap();
    assert_eq!(set.buffer(0).handle(), 1);
    assert_eq!(set.buffer(0).kind(), BufferKind::VertexData);
    assert_eq!(set.buffer(1).handle(), 2);
    assert_eq!(set.buffer(1).kind(), BufferKind::IndexData);
    assert_eq!(set.buffer(1).gpu_bytes().as_slice(), &[0u8, 1, 2]);

    // Mutate the index buffer in place through the set.
    let idx = set.buffer_mut(1);
    idx.push_record(Record { values: vec![vec![3]] });
    idx.synchronize();
    assert_eq!(set.buffer(1).gpu_bytes().as_slice(), &[0u8, 1, 2, 3]);
    assert_eq!(set.buffer(0).len(), 3);
}

#[test]
fn buffer_set_reports_missing_allocation() {
    let r = BufferSet::new(
        Some(9),
        vec![BufferSpec {
            handle: None,
            layout: index_layout(),
            records: Vec::new(),
            kind: BufferKind::IndexData,
            frequency: UpdateFrequency::Static,
        }],
    );
    assert!(matches!(r, Err(Error::BufferAllocation)));
    let r = BufferSet::new(None, Vec::new());
    assert!(matches!(r, Err(Error::BufferAllocation)));
}

#[test]
fn set_record_replaces_one_record() {
    let mut buf = TypedBuffer::new(
        Some(1),
        index_layout(),
        index_records(&[5, 6, 7]),
        BufferKind::IndexData,
        UpdateFrequency::Dynamic,
    )
    .unwrap();
    buf.set_record(1, Record { values: vec![vec![9]] });
    buf.synchronize();
    assert_eq!(buf.gpu_bytes().as_slice(), &[5u8, 9, 7]);
}

#[test]
fn padding_bytes_are_zeroed() {
    // One byte of data, three bytes of padding, then a float.
    let layout = RecordLayout::new(
        vec![field(1, ComponentType::Uint8, 0), field(1, ComponentType::Float32, 4)],
        8,
    )
    .unwrap();
    let rec = Record { values: vec![vec![0xAB], vec![1.0f32.to_bits()]] };
    let buf = TypedBuffer::new(
        Some(1),
        layout,
        vec![rec],
        BufferKind::VertexData,
        UpdateFrequency::Static,
    )
    .unwrap();
    let mut expected = vec![0xABu8, 0, 0, 0];
    expected.extend_from_slice(&1.0f32.to_le_bytes());
    assert_eq!(buf.gpu_bytes().as_slice(), expected.as_slice());
}
