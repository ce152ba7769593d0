//! Compute pipelines: a compiled shader bound to a descriptor-set layout of
//! `n_tensors` storage-buffer bindings, built once and reused across many
//! tasks. The pipeline owns a bounded descriptor pool; the number of
//! simultaneously open tasks built from one pipeline is capped by the pool.

use vstd::prelude::*;

use crate::errors::PipelineCreateError;
use crate::ComputeManager;

verus! {

/// How many descriptor sets one pipeline's pool can have outstanding at once.
pub const MAX_DESCRIPTOR_SETS: u32 = 10;

/// One slot of a descriptor-set layout: a storage buffer visible to the
/// compute stage, at a binding index.
#[derive(Debug, Clone, Copy, PartialEq, Eq, Structural)]
pub struct DescriptorSetLayoutBinding {
    pub binding: u32,
    pub descriptor_count: u32,
}

/// A compiled shader module together with its name, ready to be built into a
/// pipeline. The embedder compiles shader source to these words.
pub struct Program {
    pub(crate) spirv: Vec<u32>,
    pub(crate) shader_name: String,
}

/// The mathematical value of a `Program`.
pub ghost struct ProgramView {
    pub spirv: Seq<u32>,
    pub shader_name: Seq<char>,
}

impl View for Program {
    type V = ProgramView;

    closed spec fn view(&self) -> ProgramView {
        ProgramView { spirv: self.spirv@, shader_name: self.shader_name@ }
    }
}

impl Program {
    /// Wraps an already-compiled module. The words are the module's code; the
    /// name labels diagnostics.
    pub fn new(spirv: Vec<u32>, shader_name: String) -> (r: Program)
        ensures
            r@.spirv == spirv@,
            r@.shader_name == shader_name@,
    {
        Program { spirv, shader_name }
    }

    /// The compiled words of the module.
    pub fn spirv(&self) -> (r: &Vec<u32>)
        ensures
            r@ == self@.spirv,
    {
        &self.spirv
    }
}

/// A compute pipeline: the pipeline object, its layout, the descriptor-set
/// layout describing `n_tensors` storage-buffer bindings, and a bounded
/// descriptor pool.
pub struct Pipeline {
    pub(crate) pipeline_id: u64,
    pub(crate) pipeline_layout_id: u64,
    pub(crate) descriptor_set_layout: Vec<DescriptorSetLayoutBinding>,
    pub(crate) n_tensors: u32,
    pub(crate) pool_capacity: u32,
    pub(crate) sets_outstanding: u32,
    pub(crate) next_set_id: u64,
}

/// The mathematical value of a `Pipeline`.
pub ghost struct PipelineView {
    pub pipeline_id: u64,
    pub layout: Seq<DescriptorSetLayoutBinding>,
    pub n_tensors: u32,
    pub pool_capacity: u32,
    pub sets_outstanding: u32,
}

impl View for Pipeline {
    type V = PipelineView;

    closed spec fn view(&self) -> PipelineView {
        PipelineView {
            pipeline_id: self.pipeline_id,
            layout: self.descriptor_set_layout@,
            n_tensors: self.n_tensors,
            pool_capacity: self.pool_capacity,
            sets_outstanding: self.sets_outstanding,
        }
    }
}

impl Pipeline {
    /// The layout has one storage-buffer slot per binding index, in order,
    /// and the pool never has more sets outstanding than its capacity.
    pub open spec fn wf(&self) -> bool {
        &&& self@.layout.len() == self@.n_tensors
        &&& forall|i: int|
            0 <= i < self@.layout.len() ==> #[trigger] self@.layout[i] == (DescriptorSetLayoutBinding {
                binding: i as u32,
                descriptor_count: 1u32,
            })
        &&& self@.sets_outstanding <= self@.pool_capacity
    }

    /// Whether the pool can hand out one more descriptor set.
    pub open spec fn has_free_set(&self) -> bool {
        self@.sets_outstanding < self@.pool_capacity
    }

    /// The pipeline object's handle.
    pub fn pipeline_id(&self) -> (r: u64)
        ensures
            r == self@.pipeline_id,
    {
        self.pipeline_id
    }

    /// The number of bindings the pipeline was built for.
    pub fn n_tensors(&self) -> (r: u32)
        ensures
            r == self@.n_tensors,
    {
        self.n_tensors
    }

    /// How many descriptor sets are outstanding from the pool.
    pub fn sets_outstanding(&self) -> (r: u32)
        ensures
            r == self@.sets_outstanding,
    {
        self.sets_outstanding
    }

    /// Takes one descriptor set out of the pool, or reports exhaustion.
    pub(crate) fn allocate_descriptor_set(&mut self) -> (r: Option<u64>)
        requires
            old(self).wf(),
        ensures
            final(self).wf(),
            r matches Some(_) <==> old(self).has_free_set(),
            r matches Some(_) ==> final(self)@ == (PipelineView {
                sets_outstanding: (old(self)@.sets_outstanding + 1) as u32,
                ..old(self)@
            }),
            r matches None ==> final(self)@ == old(self)@,
    {
        if self.sets_outstanding < self.pool_capacity {
            let id: u64 = self.next_set_id;
            self.next_set_id = if self.next_set_id == u64::MAX {
                0
            } else {
                self.next_set_id + 1
            };
            self.sets_outstanding = self.sets_outstanding + 1;
            Some(id)
        } else {
            None
        }
    }

    /// Returns one descriptor set to the pool.
    pub(crate) fn release_descriptor_set(&mut self)
        requires
            old(self).wf(),
        ensures
            final(self).wf(),
            final(self)@ == (PipelineView {
                sets_outstanding: if old(self)@.sets_outstanding > 0 {
                    (old(self)@.sets_outstanding - 1) as u32
                } else {
                    0u32
                },
                ..old(self)@
            }),
    {
        if self.sets_outstanding > 0 {
            self.sets_outstanding = self.sets_outstanding - 1;
        }
    }
}

impl ComputeManager {
    /// Builds a compute pipeline from a compiled program and a binding count:
    /// a descriptor-set layout with `n_tensors` storage-buffer bindings at
    /// indices `0..n_tensors`, a pipeline layout over that single set, the
    /// pipeline itself, and a descriptor pool for `MAX_DESCRIPTOR_SETS`
    /// concurrently outstanding sets. The program's module is consumed. In
    /// this model the driver-side creations cannot fail; the
    /// `PipelineCreateError` kinds are reserved for the embedder's
    /// environment.
    pub fn build_pipeline(&mut self, program: Program, n_tensors: u32) -> (r: Result<
        Pipeline,
        PipelineCreateError,
    >)
        ensures
            final(self)@ == old(self)@,
            r matches Ok(p) && p.wf() && p@.n_tensors == n_tensors && p@.pool_capacity
                == MAX_DESCRIPTOR_SETS && p@.sets_outstanding == 0,
    {
        let mut descriptor_set_layout: Vec<DescriptorSetLayoutBinding> = Vec::new();
        let mut i: u32 = 0;
        while i < n_tensors
            invariant
                i <= n_tensors,
                descriptor_set_layout@.len() == i,
                forall|j: int|
                    0 <= j < i ==> #[trigger] descriptor_set_layout@[j] == (DescriptorSetLayoutBinding {
                        binding: j as u32,
                        descriptor_count: 1u32,
                    }),
            decreases n_tensors - i,
        {
            descriptor_set_layout.push(DescriptorSetLayoutBinding { binding: i, descriptor_count: 1 });
            i = i + 1;
        }

        let pipeline_id: u64 = self.fresh_object_id();
        let pipeline_layout_id: u64 = self.fresh_object_id();

        Ok(Pipeline {
            pipeline_id,
            pipeline_layout_id,
            descriptor_set_layout,
            n_tensors,
            pool_capacity: MAX_DESCRIPTOR_SETS,
            sets_outstanding: 0,
            next_set_id: 0,
        })
    }
}

} // verus!
