//! Tensors: host-visible numeric vectors with a stable identity and a
//! readback flag. Pure data; a tensor owns no device resources.
//!
//! Elements are 32-bit words, four bytes each on the device; the embedder
//! converts its own element encoding (for example a float's bit pattern) to
//! and from these words.

use vstd::prelude::*;

use crate::ComputeManager;

verus! {

/// A host-resident numeric vector with a stable id and a readback flag.
pub struct Tensor {
    pub(crate) id: u32,
    pub(crate) readback_enabled: bool,
    pub(crate) local_data: Vec<u32>,
}

/// The mathematical value of a `Tensor`.
pub ghost struct TensorView {
    pub id: u32,
    pub readback_enabled: bool,
    pub data: Seq<u32>,
}

impl View for Tensor {
    type V = TensorView;

    closed spec fn view(&self) -> TensorView {
        TensorView { id: self.id, readback_enabled: self.readback_enabled, data: self.local_data@ }
    }
}

impl Tensor {
    /// The tensor's identity, the key under which a task's backing for it is
    /// held.
    pub fn id(&self) -> (r: u32)
        ensures
            r == self@.id,
    {
        self.id
    }

    /// Whether a task built with this tensor acquires a readback buffer for
    /// it.
    pub fn readback_enabled(&self) -> (r: bool)
        ensures
            r == self@.readback_enabled,
    {
        self.readback_enabled
    }

    /// The host storage.
    pub fn data(&self) -> (r: &Vec<u32>)
        ensures
            r@ == self@.data,
    {
        &self.local_data
    }

    /// Overwrites the host storage in place; identity and readback flag are
    /// untouched.
    pub(crate) fn set_data(&mut self, data: Vec<u32>)
        ensures
            final(self)@ == (TensorView { data: data@, ..old(self)@ }),
    {
        self.local_data = data;
    }

    /// Mutable access to the host storage; identity and readback flag are
    /// untouched.
    pub fn data_mut(&mut self) -> (r: &mut Vec<u32>)
        ensures
            r@ == old(self)@.data,
            final(self)@.data == final(r)@,
            final(self)@.id == old(self)@.id,
            final(self)@.readback_enabled == old(self)@.readback_enabled,
    {
        &mut self.local_data
    }
}

impl ComputeManager {
    /// Creates a tensor over `data` with the next id. Ids are assigned from a
    /// counter that wraps at `u32::MAX`; within one manager they are unique
    /// until the counter wraps.
    pub fn create_tensor(&mut self, data: Vec<u32>, enable_readback: bool) -> (t: Tensor)
        ensures
            t@.id == old(self)@.current_tensor_id,
            t@.readback_enabled == enable_readback,
            t@.data == data@,
            final(self)@ == (crate::ComputeManagerView {
                current_tensor_id: if old(self)@.current_tensor_id == u32::MAX {
                    0u32
                } else {
                    (old(self)@.current_tensor_id + 1) as u32
                },
                ..old(self)@
            }),
    {
        let id: u32 = self.current_tensor_id;
        self.current_tensor_id = if self.current_tensor_id == u32::MAX {
            0
        } else {
            self.current_tensor_id + 1
        };
        Tensor { id, readback_enabled: enable_readback, local_data: data }
    }
}

} // verus!
