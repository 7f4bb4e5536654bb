//! Buffer sets: one vertex-array handle plus an ordered collection of typed
//! buffers, built in spec order and owned exclusively by the set. Activating
//! the set — binding its vertex-array handle on the backend — is the unit of
//! making its geometry current; the embedder binds [`BufferSet::handle`]
//! before any draw that reads the set's buffers.

use vstd::prelude::*;
use crate::buffer::{
    BufferKind, BufferModel, TypedBuffer, UpdateFrequency, packed_bytes, records_wf,
};
use crate::error::Error;
use crate::layout::{Record, RecordLayout};

verus! {

/// Everything needed to build one buffer of a set: the backend's allocation
/// result and the buffer's construction parameters.
pub struct BufferSpec {
    pub handle: Option<u64>,
    pub layout: RecordLayout,
    pub records: Vec<Record>,
    pub kind: BufferKind,
    pub frequency: UpdateFrequency,
}

impl BufferSpec {
    pub open spec fn wf(self) -> bool {
        &&& self.layout.wf()
        &&& records_wf(self.layout.fields@, self.records.deep_view())
    }
}

/// The buffer a spec describes, with its initial synchronization performed.
pub open spec fn spec_buffer_model(s: BufferSpec, h: u64) -> BufferModel {
    BufferModel {
        fields: s.layout.fields@,
        record_size: s.layout.record_size as nat,
        records: s.records.deep_view(),
        gpu: packed_bytes(
            s.layout.fields@,
            s.layout.record_size as nat,
            s.records.deep_view(),
        ),
        kind: s.kind,
        frequency: s.frequency,
        handle: h,
    }
}

/// The mathematical state of a [`BufferSet`].
pub struct BufferSetModel {
    pub handle: u64,
    pub buffers: Seq<BufferModel>,
}

/// One vertex-array handle and the buffers it bundles, addressed by the
/// position they were given at construction.
#[derive(Debug)]
pub struct BufferSet {
    handle: u64,
    buffers: Vec<TypedBuffer>,
}

impl View for BufferSet {
    type V = BufferSetModel;

    closed spec fn view(&self) -> BufferSetModel {
        BufferSetModel { handle: self.handle, buffers: self.buffers.deep_view() }
    }
}

impl BufferSet {
    /// Builds one typed buffer per spec, in spec order, under one
    /// vertex-array handle. `handle` is the backend's vertex-array
    /// allocation result; construction fails exactly when it or any spec's
    /// buffer allocation is absent, and every buffer starts synchronized.
    #[verifier::loop_isolation(false)]
    pub fn new(handle: Option<u64>, specs: Vec<BufferSpec>) -> (r: Result<BufferSet, Error>)
        requires
            forall|i: int| 0 <= i < specs@.len() ==> (#[trigger] specs@[i]).wf(),
        ensures
            r is Ok <==> (handle is Some && forall|i: int|
                0 <= i < specs@.len() ==> (#[trigger] specs@[i]).handle is Some),
            r matches Err(e) ==> e is BufferAllocation,
            r matches Ok(s) ==> {
                &&& s@.handle == handle->0
                &&& s@.buffers.len() == specs@.len()
                &&& forall|i: int|
                    0 <= i < specs@.len() ==> s@.buffers[i]
                        == spec_buffer_model(#[trigger] specs@[i], specs@[i].handle->0)
            },
    {
        let vao = match handle {
            None => {
                return Err(Error::BufferAllocation);
            },
            Some(h) => h,
        };
        let ghost all = specs@;
        let mut rest = specs;
        let mut buffers: Vec<TypedBuffer> = Vec::new();
        let ghost mut k: int = 0;
        while rest.len() > 0
            invariant
                0 <= k,
                k + rest@.len() == all.len(),
                rest@ == all.skip(k),
                forall|i: int| 0 <= i < all.len() ==> (#[trigger] all[i]).wf(),
                buffers.deep_view().len() == k,
                forall|i: int|
                    0 <= i < k ==> (#[trigger] all[i]).handle is Some
                        && buffers.deep_view()[i]
                            == spec_buffer_model(all[i], all[i].handle->0),
            decreases rest@.len(),
        {
            let s = rest.remove(0);
            proof {
                assert(s == all[k]);
                assert(rest@ =~= all.skip(k + 1));
            }
            match TypedBuffer::new(s.handle, s.layout, s.records, s.kind, s.frequency) {
                Err(e) => {
                    proof {
                        assert(0 <= k < all.len());
                        assert(all[k].handle is None);
                        assert(!(forall|i: int|
                            0 <= i < all.len() ==> (#[trigger] all[i]).handle is Some));
                    }
                    return Err(e);
                },
                Ok(b) => {
                    let ghost prev = buffers.deep_view();
                    buffers.push(b);
                    proof {
                        assert(buffers.deep_view() =~= prev.push(b@));
                        assert(b@ == spec_buffer_model(all[k], all[k].handle->0));
                    }
                },
            }
            proof {
                k = k + 1;
            }
        }
        proof {
            assert(all.skip(all.len() as int) =~= Seq::<BufferSpec>::empty());
        }
        Ok(BufferSet { handle: vao, buffers })
    }

    /// The backend handle of the set's vertex-array object; the embedder
    /// binds it to activate the set.
    pub fn handle(&self) -> (h: u64)
        ensures
            h == self@.handle,
    {
        self.handle
    }

    /// How many buffers the set bundles.
    pub fn buffer_count(&self) -> (n: usize)
        ensures
            n == self@.buffers.len(),
    {
        self.buffers.len()
    }

    /// The buffer at position `i`, in construction order.
    pub fn buffer(&self, i: usize) -> (b: &TypedBuffer)
        requires
            i < self@.buffers.len(),
        ensures
            b@ == self@.buffers[i as int],
    {
        &self.buffers[i]
    }

    /// Mutable access to the buffer at position `i`; the set's other buffers
    /// and its vertex-array handle are untouched.
    pub fn buffer_mut(&mut self, i: usize) -> (b: &mut TypedBuffer)
        requires
            i < old(self)@.buffers.len(),
        ensures
            (*b)@ == old(self)@.buffers[i as int],
            final(self)@.handle == old(self)@.handle,
            final(self)@.buffers =~= old(self)@.buffers.update(i as int, (*final(b))@),
    {
        &mut self.buffers[i]
    }
}

} // verus!
