//! Typed GPU buffers: an ordered host-side record sequence, the byte image
//! it leaves on the GPU, and per-field attribute bindings derived from the
//! record layout.
//!
//! The GPU-resident copy is modeled by the `gpu` bytes a buffer carries:
//! they change only on an explicit [`TypedBuffer::synchronize`], which
//! replaces them wholesale with the packed image of the host records. The
//! embedder uploads exactly [`TypedBuffer::gpu_bytes`] after each
//! synchronize, so the model bytes and the backend's buffer agree.

use vstd::prelude::*;
use crate::error::Error;
use crate::layout::{
    ComponentType, FieldLayout, Record, RecordLayout, encode_record, field_bytes, layout_wf,
    lemma_record_bytes_len, lemma_record_bytes_field_slice, record_bytes, values_wf,
};

verus! {

/// Which binding point a buffer feeds: per-vertex attribute data or element
/// indices.
#[derive(Clone, Copy, Debug, PartialEq, Eq, Structural)]
pub enum BufferKind {
    VertexData,
    IndexData,
}

/// How often the host expects to rewrite the buffer; a hint the backend may
/// use to place the allocation.
#[derive(Clone, Copy, Debug, PartialEq, Eq, Structural)]
pub enum UpdateFrequency {
    Static,
    Dynamic,
}

/// Every record agrees with the layout's fields.
pub open spec fn records_wf(fields: Seq<FieldLayout>, records: Seq<Seq<Seq<u32>>>) -> bool {
    forall|i: int| 0 <= i < records.len() ==> values_wf(fields, #[trigger] records[i])
}

/// The packed byte image of a record sequence: each record's image in
/// order, `record_size` bytes apiece.
pub open spec fn packed_bytes(
    fields: Seq<FieldLayout>,
    record_size: nat,
    records: Seq<Seq<Seq<u32>>>,
) -> Seq<u8>
    decreases records.len(),
{
    if records.len() == 0 {
        Seq::empty()
    } else {
        record_bytes(fields, record_size, records[0])
            + packed_bytes(fields, record_size, records.skip(1))
    }
}

pub proof fn lemma_packed_bytes_len(
    fields: Seq<FieldLayout>,
    record_size: nat,
    records: Seq<Seq<Seq<u32>>>,
)
    requires
        layout_wf(fields, record_size),
        records_wf(fields, records),
    ensures
        packed_bytes(fields, record_size, records).len() == records.len() * record_size,
    decreases records.len(),
{
    if records.len() == 0 {
        assert(0 * record_size == 0) by (nonlinear_arith);
    } else {
        lemma_record_bytes_len(fields, record_size, records[0]);
        assert(records_wf(fields, records.skip(1)));
        lemma_packed_bytes_len(fields, record_size, records.skip(1));
        assert(records.len() * record_size == record_size + (records.len() - 1) * record_size)
            by (nonlinear_arith);
    }
}

pub proof fn lemma_packed_bytes_push(
    fields: Seq<FieldLayout>,
    record_size: nat,
    records: Seq<Seq<Seq<u32>>>,
    rec: Seq<Seq<u32>>,
)
    ensures
        packed_bytes(fields, record_size, records.push(rec))
            == packed_bytes(fields, record_size, records)
                + record_bytes(fields, record_size, rec),
    decreases records.len(),
{
    if records.len() == 0 {
        assert(records.push(rec).skip(1) =~= Seq::<Seq<Seq<u32>>>::empty());
        assert(records.push(rec)[0] == rec);
        assert(packed_bytes(fields, record_size, records.push(rec))
            == record_bytes(fields, record_size, rec)
                + packed_bytes(fields, record_size, records.push(rec).skip(1)));
        assert(packed_bytes(fields, record_size, Seq::<Seq<Seq<u32>>>::empty())
            == Seq::<u8>::empty());
        assert(packed_bytes(fields, record_size, records) == Seq::<u8>::empty());
        assert(record_bytes(fields, record_size, rec) + Seq::<u8>::empty()
            =~= packed_bytes(fields, record_size, records)
                + record_bytes(fields, record_size, rec));
    } else {
        assert(records.push(rec).skip(1) =~= records.skip(1).push(rec));
        assert(records.push(rec)[0] == records[0]);
        lemma_packed_bytes_push(fields, record_size, records.skip(1), rec);
        assert(packed_bytes(fields, record_size, records.push(rec))
            == record_bytes(fields, record_size, records[0])
                + packed_bytes(fields, record_size, records.skip(1).push(rec)));
        assert(packed_bytes(fields, record_size, records)
            == record_bytes(fields, record_size, records[0])
                + packed_bytes(fields, record_size, records.skip(1)));
        assert(record_bytes(fields, record_size, records[0])
            + (packed_bytes(fields, record_size, records.skip(1))
                + record_bytes(fields, record_size, rec))
            =~= (record_bytes(fields, record_size, records[0])
                + packed_bytes(fields, record_size, records.skip(1)))
                + record_bytes(fields, record_size, rec));
    }
}

/// Record `i` occupies exactly bytes `[i * record_size, (i + 1) * record_size)`
/// of the packed image.
pub proof fn lemma_packed_record_slice(
    fields: Seq<FieldLayout>,
    record_size: nat,
    records: Seq<Seq<Seq<u32>>>,
    i: int,
)
    requires
        layout_wf(fields, record_size),
        records_wf(fields, records),
        0 <= i < records.len(),
    ensures
        packed_bytes(fields, record_size, records).subrange(
            i * record_size,
            (i + 1) * record_size,
        ) == record_bytes(fields, record_size, records[i]),
    decreases i,
{
    let packed = packed_bytes(fields, record_size, records);
    let head = record_bytes(fields, record_size, records[0]);
    let tail = packed_bytes(fields, record_size, records.skip(1));
    lemma_record_bytes_len(fields, record_size, records[0]);
    assert(records_wf(fields, records.skip(1)));
    lemma_packed_bytes_len(fields, record_size, records);
    lemma_packed_bytes_len(fields, record_size, records.skip(1));
    if i == 0 {
        assert(packed.subrange(0, record_size as int) =~= head);
        assert(i * record_size == 0 && (i + 1) * record_size == record_size)
            by (nonlinear_arith)
            requires i == 0;
        assert(packed.subrange(i * record_size, (i + 1) * record_size)
            == record_bytes(fields, record_size, records[i]));
    } else {
        lemma_packed_record_slice(fields, record_size, records.skip(1), i - 1);
        lemma_record_bytes_len(fields, record_size, records[i]);
        let a = i * record_size;
        let b = (i - 1) * record_size;
        assert((i - 1) * record_size == i * record_size - record_size) by (nonlinear_arith);
        assert(i * record_size == (i + 1) * record_size - record_size) by (nonlinear_arith);
        assert((i - 1) * record_size >= 0) by (nonlinear_arith)
            requires i >= 1;
        assert((i + 1) * record_size <= records.len() * record_size) by (nonlinear_arith)
            requires 0 <= i < records.len();
        assert((records.len() - 1) * record_size == records.len() * record_size - record_size)
            by (nonlinear_arith);
        assert(records.skip(1)[i - 1] == records[i]);
        assert(forall|m: int|
            0 <= m < record_size ==> #[trigger] packed[a + m] == tail[b + m]);
        assert(packed.subrange(i * record_size, (i + 1) * record_size)
            =~= tail.subrange(b, b + record_size));
        assert(tail.subrange(b, b + record_size)
            == record_bytes(fields, record_size, records[i]));
    }
}

/// A resolved per-field binding: everything the backend needs to point an
/// attribute slot at one field of every record in a buffer.
#[derive(Clone, Copy, Debug, PartialEq, Eq, Structural)]
pub struct AttributeBinding {
    pub slot: u32,
    pub component_count: u32,
    pub component_type: ComponentType,
    pub normalized: bool,
    pub stride: u32,
    pub byte_offset: u32,
}

/// The mathematical state of a [`TypedBuffer`]: its layout, host records,
/// modeled GPU bytes, and construction-time parameters.
pub struct BufferModel {
    pub fields: Seq<FieldLayout>,
    pub record_size: nat,
    pub records: Seq<Seq<Seq<u32>>>,
    pub gpu: Seq<u8>,
    pub kind: BufferKind,
    pub frequency: UpdateFrequency,
    pub handle: u64,
}

impl BufferModel {
    pub open spec fn wf(self) -> bool {
        &&& layout_wf(self.fields, self.record_size)
        &&& records_wf(self.fields, self.records)
    }
}

/// What a synchronize does: replace the GPU bytes wholesale with the packed
/// image of the host records, touching nothing else.
pub open spec fn sync_model(m: BufferModel) -> BufferModel {
    BufferModel { gpu: packed_bytes(m.fields, m.record_size, m.records), ..m }
}

/// Law: synchronizing twice with no intervening mutation is the same as
/// synchronizing once — the second upload rewrites the GPU copy with
/// identical bytes.
pub proof fn lemma_synchronize_idempotent(m: BufferModel)
    ensures
        sync_model(sync_model(m)) == sync_model(m),
{
}

/// Law: after a synchronize, the byte range a resolved binding addresses
/// for record `i` — the binding's stride times `i` plus its byte offset,
/// for the field's width — holds exactly the encoded components of field
/// `f` of host record `i`. Reading the GPU copy back through the binding
/// recovers each field, so a binding derived from the layout never reads a
/// neighbouring field's bytes.
pub proof fn lemma_binding_reads_field(m: BufferModel, i: int, f: int)
    requires
        m.wf(),
        0 <= i < m.records.len(),
        0 <= f < m.fields.len(),
    ensures
        sync_model(m).gpu.subrange(
            i * m.record_size + m.fields[f].byte_offset,
            i * m.record_size + m.fields[f].end_offset(),
        ) == field_bytes(m.fields[f], m.records[i][f]),
{
    let rs = m.record_size;
    let packed = packed_bytes(m.fields, rs, m.records);
    let rb = record_bytes(m.fields, rs, m.records[i]);
    let off = m.fields[f].byte_offset as int;
    let end = m.fields[f].end_offset() as int;
    lemma_packed_record_slice(m.fields, rs, m.records, i);
    lemma_record_bytes_field_slice(m.fields, rs, m.records[i], f);
    lemma_record_bytes_len(m.fields, rs, m.records[i]);
    lemma_packed_bytes_len(m.fields, rs, m.records);
    assert((i + 1) * rs == i * rs + rs) by (nonlinear_arith);
    assert(i * rs >= 0 && (i + 1) * rs <= m.records.len() * rs) by (nonlinear_arith)
        requires 0 <= i < m.records.len();
    assert(forall|n: int|
        0 <= n < rs ==> packed[i * rs + n]
            == #[trigger] packed.subrange(i * rs, (i + 1) * rs)[n]);
    assert(forall|n: int| off <= n < end ==> #[trigger] packed[i * rs + n] == rb[n]);
    assert(packed.subrange(i * rs + off, i * rs + end) =~= rb.subrange(off, end));
}

/// A typed vertex or index buffer: the host-side record sequence is the
/// source of truth; the GPU copy is consistent with it only immediately
/// after [`TypedBuffer::synchronize`].
#[derive(Debug)]
pub struct TypedBuffer {
    layout: RecordLayout,
    records: Vec<Record>,
    kind: BufferKind,
    frequency: UpdateFrequency,
    handle: u64,
    gpu: Vec<u8>,
}

impl View for TypedBuffer {
    type V = BufferModel;

    closed spec fn view(&self) -> BufferModel {
        BufferModel {
            fields: self.layout.fields@,
            record_size: self.layout.record_size as nat,
            records: self.records.deep_view(),
            gpu: self.gpu@,
            kind: self.kind,
            frequency: self.frequency,
            handle: self.handle,
        }
    }
}

impl DeepView for TypedBuffer {
    type V = BufferModel;

    open spec fn deep_view(&self) -> BufferModel {
        self.view()
    }
}

impl TypedBuffer {
    /// Builds a buffer over a backend allocation and performs the initial
    /// synchronization. `handle` is the backend's allocation result: absent
    /// exactly when allocation failed, which is the one way construction
    /// fails.
    pub fn new(
        handle: Option<u64>,
        layout: RecordLayout,
        records: Vec<Record>,
        kind: BufferKind,
        frequency: UpdateFrequency,
    ) -> (r: Result<TypedBuffer, Error>)
        requires
            layout.wf(),
            records_wf(layout.fields@, records.deep_view()),
        ensures
            r is Ok <==> handle is Some,
            r matches Err(e) ==> e is BufferAllocation,
            r matches Ok(b) ==> {
                &&& b@.handle == handle->0
                &&& b@.fields == layout.fields@
                &&& b@.record_size == layout.record_size as nat
                &&& b@.records == records.deep_view()
                &&& b@.kind == kind
                &&& b@.frequency == frequency
                &&& b@.gpu == packed_bytes(layout.fields@, layout.record_size as nat,
                    records.deep_view())
                &&& b@.wf()
            },
    {
        match handle {
            None => Err(Error::BufferAllocation),
            Some(h) => {
                let mut b = TypedBuffer {
                    layout,
                    records,
                    kind,
                    frequency,
                    handle: h,
                    gpu: Vec::new(),
                };
                b.synchronize();
                Ok(b)
            },
        }
    }

    /// Number of records currently held; drives draw-call element counts.
    pub fn len(&self) -> (n: usize)
        ensures
            n == self@.records.len(),
    {
        self.records.len()
    }

    pub fn kind(&self) -> (k: BufferKind)
        ensures
            k == self@.kind,
    {
        self.kind
    }

    pub fn update_frequency(&self) -> (f: UpdateFrequency)
        ensures
            f == self@.frequency,
    {
        self.frequency
    }

    /// The backend handle of the GPU-side allocation.
    pub fn handle(&self) -> (h: u64)
        ensures
            h == self@.handle,
    {
        self.handle
    }

    pub fn layout(&self) -> (l: &RecordLayout)
        ensures
            l.fields@ == self@.fields,
            l.record_size as nat == self@.record_size,
    {
        &self.layout
    }

    /// The record at position `i`.
    pub fn record(&self, i: usize) -> (r: &Record)
        requires
            i < self@.records.len(),
        ensures
            r@ == self@.records[i as int],
    {
        &self.records[i]
    }

    /// The bytes of the modeled GPU copy, as of the last synchronize; what
    /// the embedder uploads, and what a mock readback returns.
    pub fn gpu_bytes(&self) -> (b: &Vec<u8>)
        ensures
            b@ == self@.gpu,
    {
        &self.gpu
    }

    /// Appends a record to the host sequence. The GPU copy is left alone:
    /// host mutation never implicitly uploads.
    pub fn push_record(&mut self, rec: Record)
        requires
            values_wf(old(self)@.fields, rec@),
        ensures
            final(self)@ == (BufferModel { records: old(self)@.records.push(rec@), ..old(self)@ }),
    {
        self.records.push(rec);
        proof {
            assert(self.records.deep_view() =~= old(self).records.deep_view().push(rec@));
        }
    }

    /// Replaces the record at position `i`. The GPU copy is left alone.
    pub fn set_record(&mut self, i: usize, rec: Record)
        requires
            i < old(self)@.records.len(),
            values_wf(old(self)@.fields, rec@),
        ensures
            final(self)@ == (BufferModel {
                records: old(self)@.records.update(i as int, rec@),
                ..old(self)@
            }),
    {
        self.records[i] = rec;
        proof {
            assert(self.records.deep_view()
                =~= old(self).records.deep_view().update(i as int, rec@));
        }
    }

    /// Re-uploads the entire host sequence: replaces the GPU copy wholesale
    /// with the packed byte image of the records. A whole-buffer replace,
    /// not a delta update.
    #[verifier::loop_isolation(false)]
    pub fn synchronize(&mut self)
        requires
            old(self)@.wf(),
        ensures
            final(self)@ == sync_model(old(self)@),
    {
        let ghost fields = self.layout.fields@;
        let ghost rs = self.layout.record_size as nat;
        let mut out: Vec<u8> = Vec::new();
        let mut i: usize = 0;
        proof {
            assert(self.records.deep_view().take(0) =~= Seq::<Seq<Seq<u32>>>::empty());
        }
        while i < self.records.len()
            invariant
                i <= self.records@.len(),
                out@ == packed_bytes(fields, rs, self.records.deep_view().take(i as int)),
            decreases self.records@.len() - i,
        {
            proof {
                assert(values_wf(fields, self.records.deep_view()[i as int]));
                assert(self.records.deep_view()[i as int] == self.records@[i as int]@);
            }
            encode_record(&self.layout, &self.records[i], &mut out);
            proof {
                lemma_packed_bytes_push(
                    fields,
                    rs,
                    self.records.deep_view().take(i as int),
                    self.records.deep_view()[i as int],
                );
                assert(self.records.deep_view().take(i + 1)
                    =~= self.records.deep_view().take(i as int)
                        .push(self.records.deep_view()[i as int]));
            }
            i = i + 1;
        }
        proof {
            assert(self.records.deep_view().take(self.records@.len() as int)
                =~= self.records.deep_view());
        }
        self.gpu = out;
    }

    /// Resolves the binding for field `field_index`: stride is the record
    /// size, the byte offset is the field's declared offset in the layout.
    /// Guards the layout arithmetic: yields nothing when the field index is
    /// out of range or the field's components would reach past the record.
    pub fn bind_field(&self, slot: u32, field_index: usize) -> (r: Option<AttributeBinding>)
        ensures
            r matches Some(b) ==> {
                &&& field_index < self@.fields.len()
                &&& b.slot == slot
                &&& b.component_count == self@.fields[field_index as int].component_count
                &&& b.component_type == self@.fields[field_index as int].component_type
                &&& b.normalized == self@.fields[field_index as int].normalized
                &&& b.byte_offset == self@.fields[field_index as int].byte_offset
                &&& b.stride as nat == self@.record_size
                &&& self@.fields[field_index as int].end_offset() <= self@.record_size
            },
            r is None <==> !(field_index < self@.fields.len()
                && self@.fields[field_index as int].end_offset() <= self@.record_size),
    {
        if field_index >= self.layout.fields.len() {
            return None;
        }
        let f = self.layout.fields[field_index];
        proof {
            assert((f.component_count as u64) * (f.component_type.width_spec() as u64)
                <= 0xffff_ffffu64 * 4) by (nonlinear_arith)
                requires f.component_count <= 0xffff_ffffu64 && f.component_type.width_spec() <= 4;
        }
        let width = (f.component_count as u64) * (f.component_type.width() as u64);
        if (f.byte_offset as u64) + width > (self.layout.record_size as u64) {
            return None;
        }
        Some(AttributeBinding {
            slot,
            component_count: f.component_count,
            component_type: f.component_type,
            normalized: f.normalized,
            stride: self.layout.record_size,
            byte_offset: f.byte_offset,
        })
    }
}

} // verus!
