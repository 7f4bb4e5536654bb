//! Record layouts: the declared byte-level shape of one host-side record,
//! validated against the record's size, and the byte image a record leaves
//! in a packed buffer.
//!
//! A layout is an ordered list of fields, each reading a run of fixed-width
//! components at a declared byte offset. Construction checks that the fields
//! stand in declared order, do not overlap, and fit inside the record size,
//! so a binding derived from the layout can never reach outside its record.

use vstd::prelude::*;
use crate::encoding::{le_bytes, lemma_le_bytes_len, push_le_bytes};

verus! {

/// The numeric type of one component of a field, as the GPU reads it.
/// A 32-bit float travels as its raw bit pattern; the core never interprets
/// it, only places it.
#[derive(Clone, Copy, Debug, PartialEq, Eq, Structural)]
pub enum ComponentType {
    Float32,
    Uint32,
    Uint16,
    Uint8,
}

impl ComponentType {
    /// Width of one component in bytes.
    pub open spec fn width_spec(self) -> nat {
        match self {
            ComponentType::Float32 => 4,
            ComponentType::Uint32 => 4,
            ComponentType::Uint16 => 2,
            ComponentType::Uint8 => 1,
        }
    }

    /// One past the largest raw value a component of this type can hold.
    pub open spec fn limit(self) -> nat {
        match self {
            ComponentType::Float32 => 0x1_0000_0000,
            ComponentType::Uint32 => 0x1_0000_0000,
            ComponentType::Uint16 => 0x1_0000,
            ComponentType::Uint8 => 0x100,
        }
    }

    /// Width of one component in bytes.
    pub fn width(&self) -> (n: u32)
        ensures
            n == self.width_spec(),
    {
        match self {
            ComponentType::Float32 => 4,
            ComponentType::Uint32 => 4,
            ComponentType::Uint16 => 2,
            ComponentType::Uint8 => 1,
        }
    }

    /// Whether the raw value `v` fits in a component of this type.
    pub fn fits(&self, v: u32) -> (ok: bool)
        ensures
            ok == ((v as nat) < self.limit()),
    {
        match self {
            ComponentType::Float32 => true,
            ComponentType::Uint32 => true,
            ComponentType::Uint16 => v < 0x1_0000,
            ComponentType::Uint8 => v < 0x100,
        }
    }
}

/// One field of a record: `component_count` components of `component_type`,
/// starting `byte_offset` bytes into the record.
#[derive(Clone, Copy, Debug, PartialEq, Eq, Structural)]
pub struct FieldLayout {
    pub component_count: u32,
    pub component_type: ComponentType,
    pub normalized: bool,
    pub byte_offset: u32,
}

impl FieldLayout {
    /// A field feeds one attribute slot, which takes one to four components.
    pub open spec fn wf(self) -> bool {
        1 <= self.component_count <= 4
    }

    /// The number of bytes the field's components occupy.
    pub open spec fn width_bytes(self) -> nat {
        (self.component_count * self.component_type.width_spec()) as nat
    }

    /// One past the last byte of the field within its record.
    pub open spec fn end_offset(self) -> nat {
        (self.byte_offset + self.width_bytes()) as nat
    }
}

/// One past the last byte claimed by the fields before index `k`.
pub open spec fn layout_prev_end(fields: Seq<FieldLayout>, k: int) -> nat {
    if k <= 0 {
        0
    } else {
        fields[k - 1].end_offset()
    }
}

/// Fields stand in declared order, never overlap, and fit in `record_size`.
pub open spec fn layout_wf(fields: Seq<FieldLayout>, record_size: nat) -> bool {
    forall|i: int|
        0 <= i < fields.len() ==> {
            &&& (#[trigger] fields[i]).wf()
            &&& layout_prev_end(fields, i) <= fields[i].byte_offset
            &&& fields[i].end_offset() <= record_size
        }
}

/// The declared byte-level shape of one record: an ordered field list and
/// the record's total size. A value of this type is only handed out by
/// [`RecordLayout::new`], which establishes [`layout_wf`].
#[derive(Clone, Debug)]
pub struct RecordLayout {
    pub fields: Vec<FieldLayout>,
    pub record_size: u32,
}

impl RecordLayout {
    pub open spec fn wf(self) -> bool {
        layout_wf(self.fields@, self.record_size as nat)
    }

    /// Validates a declared layout against the record size it claims:
    /// returns the layout exactly when every field is in declared order,
    /// free of overlap, and inside `record_size`.
    pub fn new(fields: Vec<FieldLayout>, record_size: u32) -> (r: Option<RecordLayout>)
        ensures
            r matches Some(l) ==> l.fields@ == fields@ && l.record_size == record_size
                && layout_wf(fields@, record_size as nat),
            r is None ==> !layout_wf(fields@, record_size as nat),
    {
        let mut i: usize = 0;
        while i < fields.len()
            invariant
                i <= fields@.len(),
                forall|j: int|
                    0 <= j < i ==> {
                        &&& (#[trigger] fields@[j]).wf()
                        &&& layout_prev_end(fields@, j) <= fields@[j].byte_offset
                        &&& fields@[j].end_offset() <= record_size as nat
                    },
            decreases fields@.len() - i,
        {
            let f = fields[i];
            if !(1 <= f.component_count && f.component_count <= 4) {
                assert(!(fields@[i as int]).wf());
                return None;
            }
            let prev: u32 = if i == 0 {
                0
            } else {
                let p = fields[i - 1];
                // The previous field passed its checks, so its end fits in u32.
                p.byte_offset + p.component_count * p.component_type.width()
            };
            if !(prev <= f.byte_offset) {
                assert(layout_prev_end(fields@, i as int) > fields@[i as int].byte_offset);
                return None;
            }
            let width: u32 = f.component_count * f.component_type.width();
            if !(f.byte_offset as u64 + width as u64 <= record_size as u64) {
                assert(fields@[i as int].end_offset() > record_size as nat);
                return None;
            }
            i = i + 1;
        }
        Some(RecordLayout { fields, record_size })
    }
}

/// One host-side record: the raw component values of each field, in the
/// layout's field order. Values of multi-byte components are raw bit
/// patterns (a 32-bit float travels as its bits).
#[derive(Clone, Debug, PartialEq, Eq)]
pub struct Record {
    pub values: Vec<Vec<u32>>,
}

impl View for Record {
    type V = Seq<Seq<u32>>;

    open spec fn view(&self) -> Seq<Seq<u32>> {
        self.values.deep_view()
    }
}

impl DeepView for Record {
    type V = Seq<Seq<u32>>;

    open spec fn deep_view(&self) -> Seq<Seq<u32>> {
        self.view()
    }
}

/// The record's component values agree with the layout: one value run per
/// field, of the field's component count, each value within its type's range.
pub open spec fn values_wf(fields: Seq<FieldLayout>, vals: Seq<Seq<u32>>) -> bool {
    &&& vals.len() == fields.len()
    &&& forall|i: int|
        0 <= i < fields.len() ==> (#[trigger] vals[i]).len() == fields[i].component_count
    &&& forall|i: int, j: int|
        0 <= i < fields.len() && 0 <= j < vals[i].len() ==> ((#[trigger] vals[i][j]) as nat)
            < fields[i].component_type.limit()
}

impl Record {
    /// Checks this record against `layout`, returning exactly whether its
    /// values agree with the layout's fields.
    pub fn matches_layout(&self, layout: &RecordLayout) -> (ok: bool)
        ensures
            ok == values_wf(layout.fields@, self@),
    {
        if self.values.len() != layout.fields.len() {
            return false;
        }
        let mut i: usize = 0;
        while i < layout.fields.len()
            invariant
                i <= layout.fields@.len(),
                self@.len() == layout.fields@.len(),
                forall|k: int|
                    0 <= k < i ==> (#[trigger] self@[k]).len()
                        == layout.fields@[k].component_count,
                forall|k: int, j: int|
                    0 <= k < i && 0 <= j < self@[k].len() ==> ((#[trigger] self@[k][j]) as nat)
                        < layout.fields@[k].component_type.limit(),
            decreases layout.fields@.len() - i,
        {
            let f = layout.fields[i];
            let comps = &self.values[i];
            assert(comps@ =~= self@[i as int]);
            if comps.len() != f.component_count as usize {
                return false;
            }
            let mut j: usize = 0;
            while j < comps.len()
                invariant
                    j <= comps@.len(),
                    i < layout.fields@.len(),
                    self@.len() == layout.fields@.len(),
                    f == layout.fields@[i as int],
                    comps@ == self@[i as int],
                    forall|m: int|
                        0 <= m < j ==> ((#[trigger] comps@[m]) as nat)
                            < f.component_type.limit(),
                decreases comps@.len() - j,
            {
                if !f.component_type.fits(comps[j]) {
                    assert((self@[i as int][j as int] as nat)
                        >= layout.fields@[i as int].component_type.limit());
                    return false;
                }
                j = j + 1;
            }
            assert(forall|m: int| 0 <= m < self@[i as int].len()
                ==> ((#[trigger] self@[i as int][m]) as nat)
                    < layout.fields@[i as int].component_type.limit());
            i = i + 1;
        }
        true
    }
}

/// The byte image of a run of components, each `width` bytes little-endian.
pub open spec fn comps_bytes(width: nat, comps: Seq<u32>) -> Seq<u8>
    decreases comps.len(),
{
    if comps.len() == 0 {
        Seq::empty()
    } else {
        le_bytes(comps[0] as nat, width) + comps_bytes(width, comps.skip(1))
    }
}

/// The byte image of one field's components.
pub open spec fn field_bytes(f: FieldLayout, comps: Seq<u32>) -> Seq<u8> {
    comps_bytes(f.component_type.width_spec(), comps)
}

/// `n` zero bytes: the image of padding between fields.
pub open spec fn zero_bytes(n: nat) -> Seq<u8> {
    Seq::new(n, |i: int| 0u8)
}

/// The byte image of the fields before index `k`: each field's components
/// at its declared offset, padding filled with zeros.
pub open spec fn encoded_prefix(fields: Seq<FieldLayout>, vals: Seq<Seq<u32>>, k: int) -> Seq<u8>
    decreases k,
{
    if k <= 0 {
        Seq::empty()
    } else {
        encoded_prefix(fields, vals, k - 1)
            + zero_bytes((fields[k - 1].byte_offset - layout_prev_end(fields, k - 1)) as nat)
            + field_bytes(fields[k - 1], vals[k - 1])
    }
}

/// The full byte image of one record: every field at its declared offset,
/// padding zeroed, `record_size` bytes in all.
pub open spec fn record_bytes(
    fields: Seq<FieldLayout>,
    record_size: nat,
    vals: Seq<Seq<u32>>,
) -> Seq<u8> {
    encoded_prefix(fields, vals, fields.len() as int)
        + zero_bytes((record_size - layout_prev_end(fields, fields.len() as int)) as nat)
}

pub proof fn lemma_comps_bytes_len(width: nat, comps: Seq<u32>)
    ensures
        comps_bytes(width, comps).len() == width * comps.len(),
    decreases comps.len(),
{
    if comps.len() == 0 {
        assert(width * 0 == 0) by (nonlinear_arith);
    } else {
        lemma_le_bytes_len(comps[0] as nat, width);
        lemma_comps_bytes_len(width, comps.skip(1));
        assert(width * comps.len() == width + width * (comps.len() - 1)) by (nonlinear_arith);
    }
}

pub proof fn lemma_encoded_prefix_len(
    fields: Seq<FieldLayout>,
    record_size: nat,
    vals: Seq<Seq<u32>>,
    k: int,
)
    requires
        layout_wf(fields, record_size),
        values_wf(fields, vals),
        0 <= k <= fields.len(),
    ensures
        encoded_prefix(fields, vals, k).len() == layout_prev_end(fields, k),
    decreases k,
{
    if k > 0 {
        lemma_encoded_prefix_len(fields, record_size, vals, k - 1);
        lemma_comps_bytes_len(fields[k - 1].component_type.width_spec(), vals[k - 1]);
        assert(fields[k - 1].component_type.width_spec() * vals[k - 1].len()
            == vals[k - 1].len() * fields[k - 1].component_type.width_spec())
            by (nonlinear_arith);
    }
}

pub proof fn lemma_record_bytes_len(
    fields: Seq<FieldLayout>,
    record_size: nat,
    vals: Seq<Seq<u32>>,
)
    requires
        layout_wf(fields, record_size),
        values_wf(fields, vals),
    ensures
        record_bytes(fields, record_size, vals).len() == record_size,
{
    lemma_encoded_prefix_len(fields, record_size, vals, fields.len() as int);
}

pub proof fn lemma_comps_bytes_push(width: nat, comps: Seq<u32>, x: u32)
    ensures
        comps_bytes(width, comps.push(x)) == comps_bytes(width, comps) + le_bytes(x as nat, width),
    decreases comps.len(),
{
    if comps.len() == 0 {
        assert(comps.push(x).skip(1) =~= Seq::<u32>::empty());
        assert(comps.push(x)[0] == x);
        assert(le_bytes(x as nat, width) + comps_bytes(width, Seq::empty())
            =~= comps_bytes(width, comps) + le_bytes(x as nat, width));
    } else {
        assert(comps.push(x).skip(1) =~= comps.skip(1).push(x));
        lemma_comps_bytes_push(width, comps.skip(1), x);
        assert(le_bytes(comps[0] as nat, width)
            + (comps_bytes(width, comps.skip(1)) + le_bytes(x as nat, width))
            =~= (le_bytes(comps[0] as nat, width) + comps_bytes(width, comps.skip(1)))
                + le_bytes(x as nat, width));
    }
}

/// `layout_prev_end` never decreases along the field list.
pub proof fn lemma_prev_end_monotonic(
    fields: Seq<FieldLayout>,
    record_size: nat,
    k: int,
    m: int,
)
    requires
        layout_wf(fields, record_size),
        0 <= k <= m <= fields.len(),
    ensures
        layout_prev_end(fields, k) <= layout_prev_end(fields, m),
    decreases m - k,
{
    if k < m {
        assert(layout_prev_end(fields, k) <= fields[k].byte_offset);
        assert(fields[k].byte_offset <= fields[k].end_offset());
        lemma_prev_end_monotonic(fields, record_size, k + 1, m);
    }
}

/// The encoded image of the first `k` fields is a prefix of the image of the
/// first `m` fields.
pub proof fn lemma_encoded_prefix_extends(
    fields: Seq<FieldLayout>,
    record_size: nat,
    vals: Seq<Seq<u32>>,
    k: int,
    m: int,
)
    requires
        layout_wf(fields, record_size),
        values_wf(fields, vals),
        0 <= k <= m <= fields.len(),
    ensures
        encoded_prefix(fields, vals, m).subrange(0, layout_prev_end(fields, k) as int)
            == encoded_prefix(fields, vals, k),
    decreases m - k,
{
    lemma_encoded_prefix_len(fields, record_size, vals, k);
    lemma_encoded_prefix_len(fields, record_size, vals, m);
    if k == m {
        assert(encoded_prefix(fields, vals, m)
            .subrange(0, layout_prev_end(fields, k) as int)
            =~= encoded_prefix(fields, vals, k));
    } else {
        lemma_encoded_prefix_extends(fields, record_size, vals, k, m - 1);
        lemma_encoded_prefix_len(fields, record_size, vals, m - 1);
        lemma_prev_end_monotonic(fields, record_size, k, m - 1);
        let shorter = encoded_prefix(fields, vals, m - 1);
        let longer = encoded_prefix(fields, vals, m);
        let cut = layout_prev_end(fields, k) as int;
        assert(longer.subrange(0, cut) =~= shorter.subrange(0, cut));
    }
}

/// Within a record's byte image, field `i` occupies exactly the bytes from
/// its declared offset to its end: the binding a layout resolves reads back
/// precisely the field's components.
pub proof fn lemma_record_bytes_field_slice(
    fields: Seq<FieldLayout>,
    record_size: nat,
    vals: Seq<Seq<u32>>,
    i: int,
)
    requires
        layout_wf(fields, record_size),
        values_wf(fields, vals),
        0 <= i < fields.len(),
    ensures
        record_bytes(fields, record_size, vals).subrange(
            fields[i].byte_offset as int,
            fields[i].end_offset() as int,
        ) == field_bytes(fields[i], vals[i]),
{
    let rb = record_bytes(fields, record_size, vals);
    let ep = encoded_prefix(fields, vals, i + 1);
    let front = encoded_prefix(fields, vals, i);
    let pad = zero_bytes((fields[i].byte_offset - layout_prev_end(fields, i)) as nat);
    let fb = field_bytes(fields[i], vals[i]);
    let off = fields[i].byte_offset as int;
    let end = fields[i].end_offset() as int;

    lemma_encoded_prefix_len(fields, record_size, vals, i);
    lemma_encoded_prefix_len(fields, record_size, vals, i + 1);
    lemma_comps_bytes_len(fields[i].component_type.width_spec(), vals[i]);
    assert(fields[i].component_type.width_spec() * vals[i].len()
        == vals[i].len() * fields[i].component_type.width_spec()) by (nonlinear_arith);
    assert(ep == front + pad + fb);
    assert(front.len() + pad.len() == off);
    assert(ep.len() == end);

    // The image of the first i + 1 fields is a prefix of the whole record
    // image, so the record's bytes in [off, end) are ep's bytes there.
    lemma_encoded_prefix_extends(fields, record_size, vals, i + 1, fields.len() as int);
    lemma_encoded_prefix_len(fields, record_size, vals, fields.len() as int);
    lemma_prev_end_monotonic(fields, record_size, i + 1, fields.len() as int);
    let whole = encoded_prefix(fields, vals, fields.len() as int);
    assert(whole.subrange(0, end) == ep);
    assert(forall|n: int| 0 <= n < end ==> rb[n] == whole[n]);
    assert(forall|n: int| 0 <= n < end ==> whole.subrange(0, end)[n] == whole[n]);
    assert(forall|n: int| off <= n < end ==> rb[n] == fb[n - off]);
    assert(rb.subrange(off, end) =~= fb);
}

/// Appends the `record_size`-byte image of `rec` to `out`: every field's
/// components little-endian at the field's declared offset, padding zeroed.
#[verifier::loop_isolation(false)]
pub fn encode_record(layout: &RecordLayout, rec: &Record, out: &mut Vec<u8>)
    requires
        layout.wf(),
        values_wf(layout.fields@, rec@),
    ensures
        final(out)@ == old(out)@
            + record_bytes(layout.fields@, layout.record_size as nat, rec@),
{
    let ghost fields = layout.fields@;
    let mut pos: u32 = 0;
    let mut i: usize = 0;
    while i < layout.fields.len()
        invariant
            i <= fields.len(),
            pos == layout_prev_end(fields, i as int),
            out@ == old(out)@ + encoded_prefix(fields, rec@, i as int),
        decreases fields.len() - i,
    {
        let f = layout.fields[i];
        proof {
            lemma_prev_end_monotonic(fields, layout.record_size as nat, i as int, fields.len() as int);
            assert(fields[i as int].end_offset() <= layout.record_size as nat);
            assert(out@ =~= old(out)@ + encoded_prefix(fields, rec@, i as int) + zero_bytes(0));
        }
        while pos < f.byte_offset
            invariant
                layout_prev_end(fields, i as int) <= pos <= f.byte_offset,
                out@ == old(out)@ + encoded_prefix(fields, rec@, i as int)
                    + zero_bytes((pos - layout_prev_end(fields, i as int)) as nat),
            decreases f.byte_offset - pos,
        {
            out.push(0u8);
            pos = pos + 1;
            proof {
                let n = (pos - layout_prev_end(fields, i as int)) as nat;
                assert(zero_bytes((n - 1) as nat).push(0u8) =~= zero_bytes(n));
                assert(out@ =~= old(out)@ + encoded_prefix(fields, rec@, i as int)
                    + zero_bytes(n));
            }
        }
        let comps = &rec.values[i];
        proof {
            assert(comps@ =~= rec@[i as int]);
        }
        let width = f.component_type.width();
        let ghost padded = old(out)@ + encoded_prefix(fields, rec@, i as int)
            + zero_bytes((fields[i as int].byte_offset - layout_prev_end(fields, i as int)) as nat);
        proof {
            assert(out@ =~= padded + comps_bytes(width as nat, comps@.take(0)));
        }
        let mut j: usize = 0;
        while j < comps.len()
            invariant
                j <= comps@.len(),
                out@ == padded + comps_bytes(width as nat, comps@.take(j as int)),
            decreases comps@.len() - j,
        {
            push_le_bytes(out, comps[j], width);
            proof {
                lemma_comps_bytes_push(width as nat, comps@.take(j as int), comps@[j as int]);
                assert(comps@.take(j + 1) =~= comps@.take(j as int).push(comps@[j as int]));
                assert(out@ =~= padded + comps_bytes(width as nat, comps@.take(j + 1)));
            }
            j = j + 1;
        }
        proof {
            assert(comps@.take(comps@.len() as int) =~= comps@);
            assert(out@ =~= old(out)@ + encoded_prefix(fields, rec@, i as int + 1));
        }
        pos = f.byte_offset + f.component_count * width;
        i = i + 1;
    }
    proof {
        assert(out@ =~= old(out)@ + encoded_prefix(fields, rec@, fields.len() as int)
            + zero_bytes(0));
    }
    while pos < layout.record_size
        invariant
            layout_prev_end(fields, fields.len() as int) <= pos <= layout.record_size,
            out@ == old(out)@ + encoded_prefix(fields, rec@, fields.len() as int)
                + zero_bytes((pos - layout_prev_end(fields, fields.len() as int)) as nat),
        decreases layout.record_size - pos,
    {
        out.push(0u8);
        pos = pos + 1;
        proof {
            let n = (pos - layout_prev_end(fields, fields.len() as int)) as nat;
            assert(zero_bytes((n - 1) as nat).push(0u8) =~= zero_bytes(n));
            assert(out@ =~= old(out)@ + encoded_prefix(fields, rec@, fields.len() as int)
                + zero_bytes(n));
        }
    }
}

} // verus!
