//! Tasks: one recorded, submittable unit of GPU work, with its command
//! buffer, descriptor set, and one buffer backing per bound tensor.
//!
//! The recorded command stream is given exact meaning by a small interpreter
//! over the task's buffers: buffer-to-buffer copies move words, barriers and
//! binds leave memory untouched, and a dispatch is the point where the
//! embedder's device applies the shader's effect (through the device hooks on
//! `GPUTask`). Submission runs the stream up to and including its first
//! dispatch; awaiting the completion handle runs the rest and then copies
//! readback regions into the awaited tensors.

use vstd::prelude::*;

use crate::allocator::{Buffer, BufferUsage, BufferView, MemoryLocation};
use crate::tensor::{Tensor, TensorView};

verus! {

/// Pipeline stages between which a barrier orders memory visibility.
#[derive(Debug, Clone, Copy, PartialEq, Eq, Structural)]
pub enum PipelineStage {
    Transfer,
    ComputeShader,
}

/// The memory-access kinds named on one side of a barrier.
#[derive(Debug, Clone, Copy, PartialEq, Eq, Structural)]
pub struct AccessMask {
    pub memory_read: bool,
    pub memory_write: bool,
}

/// One command of a task's command buffer, in recording order.
#[derive(Debug, Clone, Copy, PartialEq, Eq, Structural)]
pub enum Command {
    BindPipeline { pipeline: u64 },
    BindDescriptorSet { set: u64 },
    CopyBuffer { src: u64, dst: u64, words: usize },
    PipelineBarrier {
        src_stage: PipelineStage,
        dst_stage: PipelineStage,
        src_access: AccessMask,
        dst_access: AccessMask,
    },
    Dispatch { x: u32, y: u32, z: u32 },
}

/// The barrier recorded after staging copies: transfer before compute,
/// transitioning memory writes to writes and reads.
pub open spec fn upload_barrier() -> Command {
    Command::PipelineBarrier {
        src_stage: PipelineStage::Transfer,
        dst_stage: PipelineStage::ComputeShader,
        src_access: AccessMask { memory_read: false, memory_write: true },
        dst_access: AccessMask { memory_read: true, memory_write: true },
    }
}

/// The barrier recorded before readback copies: compute before transfer,
/// transitioning memory writes to reads.
pub open spec fn download_barrier() -> Command {
    Command::PipelineBarrier {
        src_stage: PipelineStage::ComputeShader,
        dst_stage: PipelineStage::Transfer,
        src_access: AccessMask { memory_read: false, memory_write: true },
        dst_access: AccessMask { memory_read: true, memory_write: false },
    }
}

/// One descriptor written into a task's descriptor set: the device-local
/// buffer standing at a binding index, with its byte offset and range.
#[derive(Debug, Clone, Copy, PartialEq, Eq, Structural)]
pub struct DescriptorWrite {
    pub binding: u32,
    pub buffer: u64,
    pub offset: u64,
    pub range: u64,
}

/// The backing triad of one tensor within one task: a device-local buffer, a
/// host-visible staging buffer, and, when readback was enabled at build time,
/// a host-visible readback buffer. The options are taken at teardown, so a
/// second teardown finds nothing to free.
pub struct TensorBufferBacking {
    pub(crate) tensor_id: u32,
    pub(crate) words: usize,
    pub(crate) readback_enabled: bool,
    pub(crate) gpu_buffer: Option<Buffer>,
    pub(crate) staging_buffer: Option<Buffer>,
    pub(crate) readback_buffer: Option<Buffer>,
}

/// The mathematical value of a backing triad.
#[verifier::ext_equal]
pub ghost struct BackingView {
    pub tensor_id: u32,
    pub words: usize,
    pub readback_enabled: bool,
    pub gpu: Option<BufferView>,
    pub staging: Option<BufferView>,
    pub readback: Option<BufferView>,
}

impl View for TensorBufferBacking {
    type V = BackingView;

    closed spec fn view(&self) -> BackingView {
        BackingView {
            tensor_id: self.tensor_id,
            words: self.words,
            readback_enabled: self.readback_enabled,
            gpu: match self.gpu_buffer {
                Some(b) => Some(b@),
                None => None,
            },
            staging: match self.staging_buffer {
                Some(b) => Some(b@),
                None => None,
            },
            readback: match self.readback_buffer {
                Some(b) => Some(b@),
                None => None,
            },
        }
    }
}

/// The usage flags of a device-local buffer: storage plus both transfer
/// directions.
pub open spec fn gpu_usage() -> BufferUsage {
    BufferUsage { storage_buffer: true, transfer_src: true, transfer_dst: true }
}

/// The usage flags of a staging buffer: transfer source only.
pub open spec fn staging_usage() -> BufferUsage {
    BufferUsage { storage_buffer: false, transfer_src: true, transfer_dst: false }
}

/// The usage flags of a readback buffer: transfer destination only.
pub open spec fn readback_usage() -> BufferUsage {
    BufferUsage { storage_buffer: false, transfer_src: false, transfer_dst: true }
}

impl BackingView {
    /// A backing is complete while the task holds it: the device-local and
    /// staging buffers are present and sized for `words` elements, the
    /// readback buffer is present exactly when readback was enabled, each
    /// buffer carries the usage and placement of its role, and the three
    /// handles differ.
    pub open spec fn complete(self) -> bool {
        &&& self.gpu matches Some(g) && g.size == 4 * self.words && g.data.len() == self.words
            && g.usage == gpu_usage() && g.location == MemoryLocation::GpuOnly
        &&& self.staging matches Some(s) && s.size == 4 * self.words && s.data.len() == self.words
            && s.usage == staging_usage() && s.location == MemoryLocation::CpuToGpu
        &&& if self.readback_enabled {
            self.readback matches Some(r) && r.size == 4 * self.words && r.data.len() == self.words
                && r.usage == readback_usage() && r.location == MemoryLocation::CpuToGpu
        } else {
            self.readback is None
        }
        &&& self.words > 0
        &&& match (self.gpu, self.staging, self.readback) {
            (Some(g), Some(s), Some(r)) => g.id != s.id && g.id != r.id && s.id != r.id,
            (Some(g), Some(s), None) => g.id != s.id,
            _ => true,
        }
    }

    /// A backing is cleared after teardown: every buffer has been taken and
    /// freed.
    pub open spec fn cleared(self) -> bool {
        &&& self.gpu is None
        &&& self.staging is None
        &&& self.readback is None
    }

    /// Whether this backing holds a buffer with the given handle.
    pub open spec fn owns_id(self, id: u64) -> bool {
        ||| self.gpu matches Some(g) && g.id == id
        ||| self.staging matches Some(s) && s.id == id
        ||| self.readback matches Some(r) && r.id == id
    }

    /// The bytes this backing still holds, counted for reclamation.
    pub open spec fn held_bytes(self) -> int {
        (match self.gpu {
            Some(g) => g.size as int,
            None => 0,
        }) + (match self.staging {
            Some(s) => s.size as int,
            None => 0,
        }) + (match self.readback {
            Some(r) => r.size as int,
            None => 0,
        })
    }
}

/// The views of a vector of backings, in order.
pub open spec fn backing_views(bufs: Seq<TensorBufferBacking>) -> Seq<BackingView> {
    bufs.map_values(|b: TensorBufferBacking| b@)
}

/// The views of the tensors bound or synced by a call, in order.
pub open spec fn tensor_views(ts: Seq<&Tensor>) -> Seq<TensorView> {
    ts.map_values(|t: &Tensor| t@)
}

/// The first position among `bufs` backing the tensor `id`, if any.
pub open spec fn find_backing_index(bufs: Seq<BackingView>, id: u32) -> Option<int>
    decreases bufs.len(),
{
    if bufs.len() == 0 {
        None::<int>
    } else if bufs[0].tensor_id == id {
        Some(0int)
    } else {
        match find_backing_index(bufs.skip(1), id) {
            Some(i) => Some(i + 1),
            None => None::<int>,
        }
    }
}

/// Copies the first `words` words of `src` over the front of `dst`.
pub open spec fn copy_words(src: Seq<u32>, dst: Seq<u32>, words: usize) -> Seq<u32> {
    Seq::new(dst.len(), |i: int| if i < words { src[i] } else { dst[i] })
}

/// What one recorded buffer copy does to one backing: a copy from the
/// backing's staging buffer to its device buffer, or from its device buffer
/// to its readback buffer, moves the words; a copy naming any other pair of
/// handles, or more words than either region holds, leaves the backing as it
/// is.
pub open spec fn is_staging_copy(b: BackingView, src: u64, dst: u64, words: usize) -> bool {
    &&& b.staging matches Some(s) && s.id == src && words <= s.data.len()
    &&& b.gpu matches Some(g) && g.id == dst && words <= g.data.len()
}

pub open spec fn is_readback_copy(b: BackingView, src: u64, dst: u64, words: usize) -> bool {
    &&& b.gpu matches Some(g) && g.id == src && words <= g.data.len()
    &&& b.readback matches Some(r) && r.id == dst && words <= r.data.len()
}

pub open spec fn backing_apply_copy(b: BackingView, src: u64, dst: u64, words: usize) -> BackingView {
    if is_staging_copy(b, src, dst, words) {
        match (b.staging, b.gpu) {
            (Some(s), Some(g)) => BackingView {
                gpu: Some(BufferView { data: copy_words(s.data, g.data, words), ..g }),
                ..b
            },
            _ => b,
        }
    } else if is_readback_copy(b, src, dst, words) {
        match (b.gpu, b.readback) {
            (Some(g), Some(r)) => BackingView {
                readback: Some(BufferView { data: copy_words(g.data, r.data, words), ..r }),
                ..b
            },
            _ => b,
        }
    } else {
        b
    }
}

/// What one command does to the buffers: a copy moves words; binds, barriers
/// and dispatches leave memory untouched (a dispatch's effect is supplied by
/// the device, not by the stream).
pub open spec fn apply_command(bufs: Seq<BackingView>, c: Command) -> Seq<BackingView> {
    match c {
        Command::CopyBuffer { src, dst, words } => bufs.map_values(
            |b: BackingView| backing_apply_copy(b, src, dst, words),
        ),
        _ => bufs,
    }
}

/// Runs a command sequence over the buffers, in order.
pub open spec fn run_commands(bufs: Seq<BackingView>, cmds: Seq<Command>) -> Seq<BackingView>
    decreases cmds.len(),
{
    if cmds.len() == 0 {
        bufs
    } else {
        run_commands(apply_command(bufs, cmds[0]), cmds.skip(1))
    }
}

/// The position just past the first dispatch at or after `from`, or the end
/// of the stream if no dispatch remains: how far submission runs before
/// handing the device its turn.
pub open spec fn exec_stop(cmds: Seq<Command>, from: int) -> int
    decreases cmds.len() - from,
{
    if from < 0 || from >= cmds.len() {
        cmds.len() as int
    } else if cmds[from] is Dispatch {
        from + 1
    } else {
        exec_stop(cmds, from + 1)
    }
}

/// Two buffer views agree in shape when they are both absent, or both present
/// with the same handle, size, usage, placement and region length: everything
/// but the words themselves.
pub open spec fn buffer_shape_eq(a: Option<BufferView>, b: Option<BufferView>) -> bool {
    match (a, b) {
        (Some(x), Some(y)) => x.id == y.id && x.size == y.size && x.usage == y.usage && x.location
            == y.location && x.queue_family == y.queue_family && x.data.len() == y.data.len(),
        (None, None) => true,
        _ => false,
    }
}

/// Two backings agree in shape when only buffer contents may differ.
pub open spec fn backing_shape_eq(a: BackingView, b: BackingView) -> bool {
    &&& a.tensor_id == b.tensor_id
    &&& a.words == b.words
    &&& a.readback_enabled == b.readback_enabled
    &&& buffer_shape_eq(a.gpu, b.gpu)
    &&& buffer_shape_eq(a.staging, b.staging)
    &&& buffer_shape_eq(a.readback, b.readback)
}

/// Two backing sequences agree in shape pointwise.
pub open spec fn same_shape(a: Seq<BackingView>, b: Seq<BackingView>) -> bool {
    &&& a.len() == b.len()
    &&& forall|k: int| 0 <= k < a.len() ==> backing_shape_eq(#[trigger] a[k], b[k])
}

/// Shape agreement carries completeness, emptiness and handle ownership.
pub proof fn lemma_shape_eq_preserves(a: BackingView, b: BackingView)
    requires
        backing_shape_eq(a, b),
    ensures
        a.complete() <==> b.complete(),
        a.cleared() <==> b.cleared(),
        forall|id: u64| #[trigger] a.owns_id(id) <==> b.owns_id(id),
        a.held_bytes() == b.held_bytes(),
{
}

/// Shape agreement carries ownership of one handle.
pub proof fn lemma_shape_eq_owns(a: BackingView, b: BackingView, id: u64)
    requires
        backing_shape_eq(a, b),
    ensures
        a.owns_id(id) <==> b.owns_id(id),
{
}

/// A recorded copy never changes a backing's shape.
pub proof fn lemma_apply_copy_shape(b: BackingView, src: u64, dst: u64, words: usize)
    ensures
        backing_shape_eq(b, backing_apply_copy(b, src, dst, words)),
{
}

/// No command changes the buffers' shape.
pub proof fn lemma_apply_command_shape(bufs: Seq<BackingView>, c: Command)
    ensures
        same_shape(bufs, apply_command(bufs, c)),
{
    match c {
        Command::CopyBuffer { src, dst, words } => {
            assert forall|k: int| 0 <= k < bufs.len() implies backing_shape_eq(
                #[trigger] bufs[k],
                apply_command(bufs, c)[k],
            ) by {
                lemma_apply_copy_shape(bufs[k], src, dst, words);
            }
        },
        _ => {},
    }
}

/// Shape agreement is transitive.
pub proof fn lemma_same_shape_trans(a: Seq<BackingView>, b: Seq<BackingView>, c: Seq<BackingView>)
    requires
        same_shape(a, b),
        same_shape(b, c),
    ensures
        same_shape(a, c),
{
}

/// Running any command stream never changes the buffers' shape.
pub proof fn lemma_run_commands_shape(bufs: Seq<BackingView>, cmds: Seq<Command>)
    ensures
        same_shape(bufs, run_commands(bufs, cmds)),
    decreases cmds.len(),
{
    if cmds.len() == 0 {
    } else {
        lemma_apply_command_shape(bufs, cmds[0]);
        lemma_run_commands_shape(apply_command(bufs, cmds[0]), cmds.skip(1));
        lemma_same_shape_trans(
            bufs,
            apply_command(bufs, cmds[0]),
            run_commands(apply_command(bufs, cmds[0]), cmds.skip(1)),
        );
    }
}

/// Running a stream extended by one command is running the stream, then the
/// command.
pub proof fn lemma_run_commands_snoc(bufs: Seq<BackingView>, cmds: Seq<Command>, c: Command)
    ensures
        run_commands(bufs, cmds.push(c)) == apply_command(run_commands(bufs, cmds), c),
    decreases cmds.len(),
{
    if cmds.len() == 0 {
        assert(cmds.push(c).skip(1) =~= Seq::<Command>::empty());
        assert(cmds.push(c)[0] == c);
        assert(run_commands(bufs, cmds.push(c)) == run_commands(apply_command(bufs, c), Seq::<
            Command,
        >::empty()));
    } else {
        let tail = cmds.skip(1);
        assert(cmds.push(c).skip(1) =~= tail.push(c));
        assert(cmds.push(c)[0] == cmds[0]);
        lemma_run_commands_snoc(apply_command(bufs, cmds[0]), tail, c);
        assert(run_commands(bufs, cmds.push(c)) == run_commands(
            apply_command(bufs, cmds[0]),
            tail.push(c),
        ));
        assert(run_commands(bufs, cmds) == run_commands(apply_command(bufs, cmds[0]), tail));
    }
}

/// Running a concatenation is running the halves in turn.
pub proof fn lemma_run_commands_append(bufs: Seq<BackingView>, a: Seq<Command>, b: Seq<Command>)
    ensures
        run_commands(bufs, a + b) == run_commands(run_commands(bufs, a), b),
    decreases b.len(),
{
    if b.len() == 0 {
        assert(a + b =~= a);
    } else {
        let b0 = b.subrange(0, b.len() - 1);
        assert(b =~= b0.push(b.last()));
        assert(a + b =~= (a + b0).push(b.last()));
        lemma_run_commands_append(bufs, a, b0);
        lemma_run_commands_snoc(bufs, a + b0, b.last());
        lemma_run_commands_snoc(run_commands(bufs, a), b0, b.last());
    }
}

} // verus!

use crate::errors::GPUTaskRecordingError;

verus! {

/// Where a task stands in its life: recorded and submittable, submitted and
/// in flight behind a fence, or completed.
#[derive(Debug, Clone, Copy, PartialEq, Eq, Structural)]
pub enum TaskPhase {
    Recorded,
    InFlight,
    Done,
}

/// One recorded, submittable unit of GPU work: a command buffer, one backing
/// triad per bound tensor, and a descriptor set taken from the pipeline's
/// pool.
pub struct GPUTask {
    pub(crate) task_id: u64,
    pub(crate) pipeline_id: u64,
    pub(crate) descriptor_set: u64,
    pub(crate) descriptor_writes: Vec<DescriptorWrite>,
    pub(crate) commands: Vec<Command>,
    pub(crate) buffers: Vec<TensorBufferBacking>,
    pub(crate) phase: TaskPhase,
    pub(crate) cursor: usize,
    pub(crate) released: bool,
}

/// The mathematical value of a task.
#[verifier::ext_equal]
pub ghost struct GPUTaskView {
    pub task_id: u64,
    pub pipeline_id: u64,
    pub descriptor_set: u64,
    pub writes: Seq<DescriptorWrite>,
    pub commands: Seq<Command>,
    pub buffers: Seq<BackingView>,
    pub phase: TaskPhase,
    pub cursor: usize,
    pub released: bool,
}

impl View for GPUTask {
    type V = GPUTaskView;

    closed spec fn view(&self) -> GPUTaskView {
        GPUTaskView {
            task_id: self.task_id,
            pipeline_id: self.pipeline_id,
            descriptor_set: self.descriptor_set,
            writes: self.descriptor_writes@,
            commands: self.commands@,
            buffers: backing_views(self.buffers@),
            phase: self.phase,
            cursor: self.cursor,
            released: self.released,
        }
    }
}

impl GPUTaskView {
    /// A task is well formed when: the execution cursor lies within the
    /// stream and at its start while still recording; each bound tensor has
    /// one backing; every backing is complete until the task is released and
    /// cleared afterwards; and no buffer handle is owned by two backings.
    pub open spec fn wf(self) -> bool {
        &&& self.cursor <= self.commands.len()
        &&& (self.phase is Recorded ==> self.cursor == 0)
        &&& forall|i: int, j: int|
            #![trigger self.buffers[i].tensor_id, self.buffers[j].tensor_id]
            0 <= i < j < self.buffers.len() ==> self.buffers[i].tensor_id
                != self.buffers[j].tensor_id
        &&& if self.released {
            forall|i: int| 0 <= i < self.buffers.len() ==> (#[trigger] self.buffers[i]).cleared()
        } else {
            forall|i: int| 0 <= i < self.buffers.len() ==> (#[trigger] self.buffers[i]).complete()
        }
        &&& forall|i: int, j: int, id: u64|
            #![trigger self.buffers[i].owns_id(id), self.buffers[j].owns_id(id)]
            0 <= i < self.buffers.len() && 0 <= j < self.buffers.len() && self.buffers[
                i
            ].owns_id(id) && self.buffers[j].owns_id(id) ==> i == j
    }

    /// The bytes of device memory the task's backings still hold.
    pub open spec fn held_bytes(self) -> int {
        backings_held_bytes(self.buffers)
    }
}

/// The bytes still held by a sequence of backings.
pub open spec fn backings_held_bytes(bufs: Seq<BackingView>) -> int
    decreases bufs.len(),
{
    if bufs.len() == 0 {
        0
    } else {
        backings_held_bytes(bufs.drop_last()) + bufs.last().held_bytes()
    }
}

impl GPUTask {
    /// See `GPUTaskView::wf`.
    pub open spec fn wf(&self) -> bool {
        self@.wf()
    }
}

/// The fence-backed completion handle returned on submission: the only way to
/// observe a task's completion and trigger readback.
pub struct GPUSyncPrimitive {
    pub(crate) fence: u64,
    pub(crate) task_id: u64,
}

/// The mathematical value of a completion handle.
pub ghost struct GPUSyncPrimitiveView {
    pub fence: u64,
    pub task_id: u64,
}

impl View for GPUSyncPrimitive {
    type V = GPUSyncPrimitiveView;

    closed spec fn view(&self) -> GPUSyncPrimitiveView {
        GPUSyncPrimitiveView { fence: self.fence, task_id: self.task_id }
    }
}

/// The task-recording builder: a tagged state machine, either still recording
/// a task or failed with the first error. Once failed, every further
/// recording step is a no-op, so calls can be chained blindly and only
/// `finalize` need be checked.
pub enum GPUTaskInProcess {
    Recording(GPUTask),
    Failed(GPUTaskRecordingError),
}

} // verus!

verus! {

/// Whether a staging upload for tensor `t` can land in backing `b`: both the
/// staging and device buffers are present and the staging region holds
/// exactly the tensor's length.
pub open spec fn can_upload(b: BackingView, t: TensorView) -> bool {
    match (b.staging, b.gpu) {
        (Some(s), Some(g)) => s.data.len() == t.data.len(),
        _ => false,
    }
}

/// The backing after the tensor's words were written into its mapped staging
/// region.
pub open spec fn uploaded_backing(b: BackingView, t: TensorView) -> BackingView {
    match b.staging {
        Some(s) => BackingView { staging: Some(BufferView { data: t.data, ..s }), ..b },
        None => b,
    }
}

/// The staging-to-device copy recorded for the tensor.
pub open spec fn upload_command(b: BackingView, t: TensorView) -> Command {
    match (b.staging, b.gpu) {
        (Some(s), Some(g)) => Command::CopyBuffer {
            src: s.id,
            dst: g.id,
            words: t.data.len() as usize,
        },
        _ => Command::BindPipeline { pipeline: 0 },
    }
}

/// One step of `op_local_sync_device`: when the tensor has a backing whose
/// staging region matches its length, its words move into the staging region
/// and a staging-to-device copy is recorded; otherwise the step is skipped
/// and reported.
pub open spec fn upload_step(st: (Seq<BackingView>, Seq<Command>), t: TensorView) -> (
    Seq<BackingView>,
    Seq<Command>,
) {
    match find_backing_index(st.0, t.id) {
        Some(i) => if can_upload(st.0[i], t) {
            (st.0.update(i, uploaded_backing(st.0[i], t)), st.1.push(upload_command(st.0[i], t)))
        } else {
            st
        },
        None => st,
    }
}

/// `upload_step`, folded over the tensors in call order.
pub open spec fn upload_fold(st: (Seq<BackingView>, Seq<Command>), ts: Seq<TensorView>) -> (
    Seq<BackingView>,
    Seq<Command>,
)
    decreases ts.len(),
{
    if ts.len() == 0 {
        st
    } else {
        upload_step(upload_fold(st, ts.drop_last()), ts.last())
    }
}

/// Whether a readback copy for tensor `t` can be recorded from backing `b`:
/// the device and readback buffers are present and sized for the tensor.
pub open spec fn can_download(b: BackingView, t: TensorView) -> bool {
    match (b.gpu, b.readback) {
        (Some(g), Some(r)) => g.data.len() == t.data.len() && r.data.len() == t.data.len(),
        _ => false,
    }
}

/// The device-to-readback copy recorded for the tensor.
pub open spec fn download_command(b: BackingView, t: TensorView) -> Command {
    match (b.gpu, b.readback) {
        (Some(g), Some(r)) => Command::CopyBuffer {
            src: g.id,
            dst: r.id,
            words: t.data.len() as usize,
        },
        _ => Command::BindPipeline { pipeline: 0 },
    }
}

/// One step of `op_device_sync_local`: a tensor with a backing that has a
/// readback buffer of its length gets a device-to-readback copy; a tensor
/// without a backing, or without a readback buffer, is reported and skipped
/// without failing the task.
pub open spec fn download_step(cmds: Seq<Command>, bufs: Seq<BackingView>, t: TensorView) -> Seq<
    Command,
> {
    match find_backing_index(bufs, t.id) {
        Some(i) => if can_download(bufs[i], t) {
            cmds.push(download_command(bufs[i], t))
        } else {
            cmds
        },
        None => cmds,
    }
}

/// `download_step`, folded over the tensors in call order.
pub open spec fn download_fold(cmds: Seq<Command>, bufs: Seq<BackingView>, ts: Seq<TensorView>) -> Seq<
    Command,
>
    decreases ts.len(),
{
    if ts.len() == 0 {
        cmds
    } else {
        download_step(download_fold(cmds, bufs, ts.drop_last()), bufs, ts.last())
    }
}

/// `find_backing_index` names the first backing of the id, if any.
pub proof fn lemma_find_backing_index_char(s: Seq<BackingView>, id: u32)
    ensures
        match find_backing_index(s, id) {
            Some(i) => 0 <= i < s.len() && s[i].tensor_id == id && (forall|j: int|
                0 <= j < i ==> (#[trigger] s[j]).tensor_id != id),
            None => forall|j: int| 0 <= j < s.len() ==> (#[trigger] s[j]).tensor_id != id,
        },
    decreases s.len(),
{
    if s.len() == 0 {
    } else if s[0].tensor_id == id {
    } else {
        lemma_find_backing_index_char(s.skip(1), id);
        assert(forall|j: int| 1 <= j < s.len() ==> s[j] == s.skip(1)[j - 1]);
    }
}

/// A first match pins `find_backing_index` down.
pub proof fn lemma_find_backing_index_unique(s: Seq<BackingView>, id: u32, i: int)
    requires
        0 <= i < s.len(),
        s[i].tensor_id == id,
        forall|j: int| 0 <= j < i ==> (#[trigger] s[j]).tensor_id != id,
    ensures
        find_backing_index(s, id) == Some(i),
    decreases s.len(),
{
    lemma_find_backing_index_char(s, id);
    match find_backing_index(s, id) {
        Some(k) => {
            if k < i {
                assert(s[k].tensor_id != id);
            } else if i < k {
                assert(s[i].tensor_id != id);
            }
        },
        None => {
            assert(s[i].tensor_id != id);
        },
    }
}

/// An upload step never changes the buffers' shape.
pub proof fn lemma_upload_step_shape(st: (Seq<BackingView>, Seq<Command>), t: TensorView)
    ensures
        same_shape(st.0, upload_step(st, t).0),
{
    lemma_find_backing_index_char(st.0, t.id);
    match find_backing_index(st.0, t.id) {
        Some(i) => {
            if can_upload(st.0[i], t) {
                assert(backing_shape_eq(st.0[i], uploaded_backing(st.0[i], t)));
                assert forall|k: int| 0 <= k < st.0.len() implies backing_shape_eq(
                    #[trigger] st.0[k],
                    upload_step(st, t).0[k],
                ) by {}
            }
        },
        None => {},
    }
}

/// An upload fold never changes the buffers' shape.
pub proof fn lemma_upload_fold_shape(st: (Seq<BackingView>, Seq<Command>), ts: Seq<TensorView>)
    ensures
        same_shape(st.0, upload_fold(st, ts).0),
    decreases ts.len(),
{
    if ts.len() == 0 {
    } else {
        lemma_upload_fold_shape(st, ts.drop_last());
        lemma_upload_step_shape(upload_fold(st, ts.drop_last()), ts.last());
        lemma_same_shape_trans(
            st.0,
            upload_fold(st, ts.drop_last()).0,
            upload_fold(st, ts).0,
        );
    }
}

/// Well-formedness follows the buffers' shape: a task whose buffers only
/// changed contents, and whose stream only grew, stays well formed.
pub proof fn lemma_wf_by_shape(t1: GPUTaskView, t2: GPUTaskView)
    requires
        t1.wf(),
        same_shape(t1.buffers, t2.buffers),
        t2.released == t1.released,
        t2.cursor <= t2.commands.len(),
        t2.phase is Recorded ==> t2.cursor == 0,
    ensures
        t2.wf(),
{
    assert forall|i: int| 0 <= i < t2.buffers.len() implies backing_shape_eq(
        t1.buffers[i],
        #[trigger] t2.buffers[i],
    ) by {}
    assert forall|i: int| 0 <= i < t2.buffers.len() implies (!t2.released ==> (
    #[trigger] t2.buffers[i]).complete()) && (t2.released ==> t2.buffers[i].cleared()) by {
        lemma_shape_eq_preserves(t1.buffers[i], t2.buffers[i]);
    }
    assert forall|i: int, j: int, id: u64|
        0 <= i < t2.buffers.len() && 0 <= j < t2.buffers.len() && #[trigger] t2.buffers[i].owns_id(
            id,
        ) && #[trigger] t2.buffers[j].owns_id(id) implies i == j by {
        lemma_shape_eq_owns(t1.buffers[i], t2.buffers[i], id);
        lemma_shape_eq_owns(t1.buffers[j], t2.buffers[j], id);
        assert(t1.buffers[i].owns_id(id) && t1.buffers[j].owns_id(id));
    }
}

/// Copies every word of `src` into a fresh vector.
fn clone_words(src: &Vec<u32>) -> (r: Vec<u32>)
    ensures
        r@ == src@,
{
    let mut r: Vec<u32> = Vec::new();
    let mut i: usize = 0;
    while i < src.len()
        invariant
            i <= src@.len(),
            r@ == src@.subrange(0, i as int),
        decreases src@.len() - i,
    {
        r.push(src[i]);
        proof {
            assert(r@ =~= src@.subrange(0, i + 1));
        }
        i = i + 1;
    }
    proof {
        assert(r@ =~= src@);
    }
    r
}

/// Finds the backing of a tensor id, reporting its position.
fn find_backing(bufs: &Vec<TensorBufferBacking>, id: u32) -> (r: Option<usize>)
    ensures
        match r {
            Some(i) => find_backing_index(backing_views(bufs@), id) == Some(i as int),
            None => find_backing_index(backing_views(bufs@), id) is None,
        },
{
    let ghost views = backing_views(bufs@);
    let n = bufs.len();
    let mut i: usize = 0;
    while i < n
        invariant
            n == bufs@.len(),
            i <= n,
            views == backing_views(bufs@),
            forall|j: int| 0 <= j < i ==> (#[trigger] views[j]).tensor_id != id,
        decreases n - i,
    {
        if bufs[i].tensor_id == id {
            proof {
                lemma_find_backing_index_unique(views, id, i as int);
            }
            return Some(i);
        }
        i = i + 1;
    }
    proof {
        lemma_find_backing_index_char(views, id);
        match find_backing_index(views, id) {
            Some(k) => {
                assert(views[k].tensor_id != id);
            },
            None => {},
        }
    }
    None
}

/// Writes the tensor's words into the backing's mapped staging region and
/// produces the staging-to-device copy to record, when the backing matches
/// the tensor's length; otherwise hands the backing back untouched.
fn upload_into_backing(b: TensorBufferBacking, t: &Tensor) -> (r: (
    TensorBufferBacking,
    Option<Command>,
))
    ensures
        can_upload(b@, t@) ==> r.0@ == uploaded_backing(b@, t@) && r.1 == Some(
            upload_command(b@, t@),
        ),
        !can_upload(b@, t@) ==> r.0@ == b@ && r.1 == None::<Command>,
{
    let TensorBufferBacking {
        tensor_id,
        words,
        readback_enabled,
        gpu_buffer,
        staging_buffer,
        readback_buffer,
    } = b;
    match (staging_buffer, gpu_buffer) {
        (Some(mut s), Some(g)) => {
            if s.contents().len() == t.data().len() {
                let new_words = clone_words(t.data());
                s.write_data(new_words);
                let c = Command::CopyBuffer { src: s.id(), dst: g.id(), words: t.data().len() };
                let nb = TensorBufferBacking {
                    tensor_id,
                    words,
                    readback_enabled,
                    gpu_buffer: Some(g),
                    staging_buffer: Some(s),
                    readback_buffer,
                };
                proof {
                    assert(nb@ =~~= uploaded_backing(b@, t@));
                }
                (nb, Some(c))
            } else {
                let nb = TensorBufferBacking {
                    tensor_id,
                    words,
                    readback_enabled,
                    gpu_buffer: Some(g),
                    staging_buffer: Some(s),
                    readback_buffer,
                };
                proof {
                    assert(nb@ =~~= b@);
                }
                (nb, None)
            }
        },
        (staging_buffer, gpu_buffer) => {
            let nb = TensorBufferBacking {
                tensor_id,
                words,
                readback_enabled,
                gpu_buffer,
                staging_buffer,
                readback_buffer,
            };
            proof {
                assert(nb@ =~~= b@);
            }
            (nb, None)
        },
    }
}

} // verus!

verus! {

/// The task value after `op_local_sync_device` with `ts`: each matched
/// tensor's words are in its staging region, the staging-to-device copies are
/// recorded in call order, and one upload barrier closes the step.
pub open spec fn local_sync_device_result(t: GPUTaskView, ts: Seq<TensorView>) -> GPUTaskView {
    let st = upload_fold((t.buffers, t.commands), ts);
    GPUTaskView { buffers: st.0, commands: st.1.push(upload_barrier()), ..t }
}

/// The task value after `op_pipeline_dispatch`: one dispatch recorded.
pub open spec fn pipeline_dispatch_result(t: GPUTaskView, x: u32, y: u32, z: u32) -> GPUTaskView {
    GPUTaskView { commands: t.commands.push(Command::Dispatch { x, y, z }), ..t }
}

/// The task value after `op_device_sync_local` with `ts`: one download
/// barrier, then a device-to-readback copy per matched tensor in call order.
pub open spec fn device_sync_local_result(t: GPUTaskView, ts: Seq<TensorView>) -> GPUTaskView {
    GPUTaskView {
        commands: download_fold(t.commands.push(download_barrier()), t.buffers, ts),
        ..t
    }
}

impl GPUTaskInProcess {
    /// Copies each tensor's host data into its mapped staging region and
    /// records a staging-to-device copy for it, then records one pipeline
    /// barrier: transfer before compute shader, memory writes made visible to
    /// reads and writes, so the dispatch cannot read a buffer before its
    /// upload completes. A tensor the task has no backing for, or whose
    /// length no longer matches its backing, is reported and skipped. On a
    /// failed builder the call is a no-op.
    pub fn op_local_sync_device(self, tensors: Vec<&Tensor>) -> (r: GPUTaskInProcess)
        ensures
            self matches GPUTaskInProcess::Failed(e) ==> r matches GPUTaskInProcess::Failed(f)
                && f == e,
            self matches GPUTaskInProcess::Recording(t) ==> r matches GPUTaskInProcess::Recording(
                t2,
            ) && t2@ == local_sync_device_result(t@, tensor_views(tensors@)) && (t.wf()
                ==> t2.wf()),
    {
        let mut task = match self {
            GPUTaskInProcess::Failed(e) => {
                return GPUTaskInProcess::Failed(e);
            },
            GPUTaskInProcess::Recording(t) => t,
        };
        let ghost tv0 = task@;
        let ghost ts = tensor_views(tensors@);
        let ghost st0 = (tv0.buffers, tv0.commands);

        let n = tensors.len();
        let mut k: usize = 0;
        while k < n
            invariant
                n == tensors@.len(),
                k <= n,
                ts == tensor_views(tensors@),
                (backing_views(task.buffers@), task.commands@) == upload_fold(
                    st0,
                    ts.subrange(0, k as int),
                ),
                task@ == (GPUTaskView {
                    buffers: backing_views(task.buffers@),
                    commands: task.commands@,
                    ..tv0
                }),
            decreases n - k,
        {
            let t = tensors[k];
            proof {
                assert(ts[k as int] == t@);
            }
            let ghost bufs_k = backing_views(task.buffers@);
            let ghost cmds_k = task.commands@;
            let found = find_backing(&task.buffers, t.id());
            match found {
                Some(i) => {
                    proof {
                        lemma_find_backing_index_char(bufs_k, t@.id);
                    }
                    let b = task.buffers.remove(i);
                    let (b2, cmd_opt) = upload_into_backing(b, t);
                    task.buffers.insert(i, b2);
                    proof {
                        assert(backing_views(task.buffers@) =~= bufs_k.update(i as int, b2@));
                        if !can_upload(b@, t@) {
                            assert(bufs_k.update(i as int, b2@) =~= bufs_k);
                        }
                    }
                    match cmd_opt {
                        Some(c) => {
                            task.commands.push(c);
                        },
                        None => {},
                    }
                },
                None => {},
            }
            k = k + 1;
            proof {
                assert(ts.subrange(0, k as int).drop_last() =~= ts.subrange(0, k as int - 1));
                assert(ts.subrange(0, k as int).last() == ts[k as int - 1]);
            }
        }

        task.commands.push(Command::PipelineBarrier {
            src_stage: PipelineStage::Transfer,
            dst_stage: PipelineStage::ComputeShader,
            src_access: AccessMask { memory_read: false, memory_write: true },
            dst_access: AccessMask { memory_read: true, memory_write: true },
        });

        proof {
            assert(ts.subrange(0, n as int) =~= ts);
            assert(task@ =~= local_sync_device_result(tv0, ts));
            if tv0.wf() {
                lemma_upload_fold_shape(st0, ts);
                lemma_upload_fold_cmds_len(st0, ts);
                lemma_wf_by_shape(tv0, task@);
            }
        }
        GPUTaskInProcess::Recording(task)
    }

    /// Records a dispatch with the given group counts. Group counts are not
    /// validated against data sizes; a mismatch is the caller's error and
    /// shows up as wrong results, not as a detected failure. On a failed
    /// builder the call is a no-op.
    pub fn op_pipeline_dispatch(self, work_group: crate::WorkGroupSize) -> (r: GPUTaskInProcess)
        ensures
            self matches GPUTaskInProcess::Failed(e) ==> r matches GPUTaskInProcess::Failed(f)
                && f == e,
            self matches GPUTaskInProcess::Recording(t) ==> r matches GPUTaskInProcess::Recording(
                t2,
            ) && t2@ == pipeline_dispatch_result(t@, work_group.x, work_group.y, work_group.z) && (
            t.wf() ==> t2.wf()),
    {
        let mut task = match self {
            GPUTaskInProcess::Failed(e) => {
                return GPUTaskInProcess::Failed(e);
            },
            GPUTaskInProcess::Recording(t) => t,
        };
        let ghost tv0 = task@;
        task.commands.push(Command::Dispatch { x: work_group.x, y: work_group.y, z: work_group.z });
        proof {
            assert(task@ =~= pipeline_dispatch_result(
                tv0,
                work_group.x,
                work_group.y,
                work_group.z,
            ));
        }
        GPUTaskInProcess::Recording(task)
    }

    /// Records one pipeline barrier — compute shader before transfer, memory
    /// writes made visible to reads, so no readback copy can run before the
    /// dispatch completes — then a device-to-readback copy per tensor. A
    /// tensor without a backing, or without a readback buffer because
    /// readback was not enabled at creation, is reported and skipped; the
    /// task does not fail. On a failed builder the call is a no-op.
    pub fn op_device_sync_local(self, tensors: Vec<&Tensor>) -> (r: GPUTaskInProcess)
        ensures
            self matches GPUTaskInProcess::Failed(e) ==> r matches GPUTaskInProcess::Failed(f)
                && f == e,
            self matches GPUTaskInProcess::Recording(t) ==> r matches GPUTaskInProcess::Recording(
                t2,
            ) && t2@ == device_sync_local_result(t@, tensor_views(tensors@)) && (t.wf()
                ==> t2.wf()),
    {
        let mut task = match self {
            GPUTaskInProcess::Failed(e) => {
                return GPUTaskInProcess::Failed(e);
            },
            GPUTaskInProcess::Recording(t) => t,
        };
        let ghost tv0 = task@;
        let ghost ts = tensor_views(tensors@);

        task.commands.push(Command::PipelineBarrier {
            src_stage: PipelineStage::ComputeShader,
            dst_stage: PipelineStage::Transfer,
            src_access: AccessMask { memory_read: false, memory_write: true },
            dst_access: AccessMask { memory_read: true, memory_write: false },
        });
        let ghost cmds0 = task.commands@;
        let ghost bufs0 = backing_views(task.buffers@);

        let n = tensors.len();
        let mut k: usize = 0;
        while k < n
            invariant
                n == tensors@.len(),
                k <= n,
                ts == tensor_views(tensors@),
                bufs0 == backing_views(task.buffers@),
                task.commands@ == download_fold(cmds0, bufs0, ts.subrange(0, k as int)),
                task@ == (GPUTaskView {
                    commands: task.commands@,
                    ..tv0
                }),
            decreases n - k,
        {
            let t = tensors[k];
            proof {
                assert(ts[k as int] == t@);
            }
            let found = find_backing(&task.buffers, t.id());
            match found {
                Some(i) => {
                    proof {
                        lemma_find_backing_index_char(bufs0, t@.id);
                    }
                    let cmd_opt: Option<Command> = {
                        let b = &task.buffers[i];
                        match (&b.gpu_buffer, &b.readback_buffer) {
                            (Some(g), Some(rb)) => {
                                if g.contents().len() == t.data().len() && rb.contents().len()
                                    == t.data().len() {
                                    Some(Command::CopyBuffer {
                                        src: g.id(),
                                        dst: rb.id(),
                                        words: t.data().len(),
                                    })
                                } else {
                                    None
                                }
                            },
                            _ => None,
                        }
                    };
                    match cmd_opt {
                        Some(c) => {
                            proof {
                                assert(c == download_command(bufs0[i as int], t@));
                            }
                            task.commands.push(c);
                        },
                        None => {},
                    }
                },
                None => {},
            }
            k = k + 1;
            proof {
                assert(ts.subrange(0, k as int).drop_last() =~= ts.subrange(0, k as int - 1));
                assert(ts.subrange(0, k as int).last() == ts[k as int - 1]);
            }
        }

        proof {
            assert(ts.subrange(0, n as int) =~= ts);
            assert(task@ =~= device_sync_local_result(tv0, ts));
            if tv0.wf() {
                lemma_download_fold_cmds_len(cmds0, bufs0, ts);
                lemma_wf_by_shape(tv0, task@);
            }
        }
        GPUTaskInProcess::Recording(task)
    }

    /// Ends the builder: the recorded task on success, or the first error
    /// recorded by any step. The builder is a tagged state machine, so a
    /// builder that neither holds a task nor an error cannot exist, and the
    /// `UnknownError` self-check kind is never produced.
    pub fn finalize(self) -> (r: Result<GPUTask, GPUTaskRecordingError>)
        ensures
            self matches GPUTaskInProcess::Recording(t) ==> r matches Ok(t2) && t2 == t,
            self matches GPUTaskInProcess::Failed(e) ==> r matches Err(f) && f == e,
    {
        match self {
            GPUTaskInProcess::Recording(t) => Ok(t),
            GPUTaskInProcess::Failed(e) => Err(e),
        }
    }
}

} // verus!

verus! {

/// Recording steps only append commands.
pub proof fn lemma_upload_fold_cmds_len(st: (Seq<BackingView>, Seq<Command>), ts: Seq<TensorView>)
    ensures
        upload_fold(st, ts).1.len() >= st.1.len(),
    decreases ts.len(),
{
    if ts.len() == 0 {
    } else {
        lemma_upload_fold_cmds_len(st, ts.drop_last());
    }
}

/// Readback recording only appends commands.
pub proof fn lemma_download_fold_cmds_len(
    cmds: Seq<Command>,
    bufs: Seq<BackingView>,
    ts: Seq<TensorView>,
)
    ensures
        download_fold(cmds, bufs, ts).len() >= cmds.len(),
    decreases ts.len(),
{
    if ts.len() == 0 {
    } else {
        lemma_download_fold_cmds_len(cmds, bufs, ts.drop_last());
    }
}

} // verus!

use crate::allocator::{Allocator, AllocatorView};
use crate::pipeline::{Pipeline, PipelineView};
use crate::{ComputeManager, ComputeManagerView};
use vstd::pervasive::unreached;

verus! {

/// Whether some tensor in `ts` carries the id.
pub open spec fn has_id(ts: Seq<TensorView>, id: u32) -> bool {
    exists|i: int| 0 <= i < ts.len() && (#[trigger] ts[i]).id == id
}

/// The bytes one tensor's triad takes: four bytes per element for the
/// device-local and the staging buffer each, and for the readback buffer when
/// readback is enabled.
pub open spec fn triad_bytes(t: TensorView) -> int {
    if t.readback_enabled {
        12 * t.data.len() as int
    } else {
        8 * t.data.len() as int
    }
}

/// The buffer handles one tensor's triad draws.
pub open spec fn triad_allocs(t: TensorView) -> int {
    if t.readback_enabled {
        3
    } else {
        2
    }
}

/// The device memory a task over `ts` must acquire: one triad per distinct
/// tensor id, counted at its first occurrence.
pub open spec fn task_bytes(ts: Seq<TensorView>) -> int
    decreases ts.len(),
{
    if ts.len() == 0 {
        0
    } else {
        task_bytes(ts.drop_last()) + (if has_id(ts.drop_last(), ts.last().id) {
            0int
        } else {
            triad_bytes(ts.last())
        })
    }
}

/// The buffer handles a task over `ts` must draw.
pub open spec fn task_allocs(ts: Seq<TensorView>) -> int
    decreases ts.len(),
{
    if ts.len() == 0 {
        0
    } else {
        task_allocs(ts.drop_last()) + (if has_id(ts.drop_last(), ts.last().id) {
            0int
        } else {
            triad_allocs(ts.last())
        })
    }
}

/// The number of distinct tensor ids in `ts`: how many backings a task over
/// `ts` holds.
pub open spec fn distinct_ids(ts: Seq<TensorView>) -> int
    decreases ts.len(),
{
    if ts.len() == 0 {
        0
    } else {
        distinct_ids(ts.drop_last()) + (if has_id(ts.drop_last(), ts.last().id) {
            0int
        } else {
            1int
        })
    }
}

/// A region of `n` zeroed words.
pub open spec fn zero_words(n: int) -> Seq<u32> {
    Seq::new(n as nat, |i: int| 0u32)
}

/// The backing built for one tensor from fresh handles starting at `next`:
/// device-local, staging, and, with readback enabled, readback buffer, each
/// sized for the tensor and zeroed.
pub open spec fn backing_for(t: TensorView, next: int, qf: u32) -> BackingView {
    BackingView {
        tensor_id: t.id,
        words: t.data.len() as usize,
        readback_enabled: t.readback_enabled,
        gpu: Some(
            BufferView {
                id: next as u64,
                size: (4 * t.data.len()) as u64,
                usage: gpu_usage(),
                location: MemoryLocation::GpuOnly,
                queue_family: qf,
                data: zero_words(t.data.len() as int),
            },
        ),
        staging: Some(
            BufferView {
                id: (next + 1) as u64,
                size: (4 * t.data.len()) as u64,
                usage: staging_usage(),
                location: MemoryLocation::CpuToGpu,
                queue_family: qf,
                data: zero_words(t.data.len() as int),
            },
        ),
        readback: if t.readback_enabled {
            Some(
                BufferView {
                    id: (next + 2) as u64,
                    size: (4 * t.data.len()) as u64,
                    usage: readback_usage(),
                    location: MemoryLocation::CpuToGpu,
                    queue_family: qf,
                    data: zero_words(t.data.len() as int),
                },
            )
        } else {
            None
        },
    }
}

/// The backings a successful task over `ts` holds: one per distinct tensor
/// id, in first-occurrence order, with handles drawn in order from `next0`.
pub open spec fn build_backings(ts: Seq<TensorView>, next0: int, qf: u32) -> Seq<BackingView>
    decreases ts.len(),
{
    if ts.len() == 0 {
        Seq::empty()
    } else {
        let prefix = ts.drop_last();
        let bb = build_backings(prefix, next0, qf);
        if has_id(prefix, ts.last().id) {
            bb
        } else {
            bb.push(backing_for(ts.last(), next0 + task_allocs(prefix), qf))
        }
    }
}

/// The handle of the device-local buffer backing the tensor id.
pub open spec fn backing_gpu_id(bufs: Seq<BackingView>, id: u32) -> u64 {
    match find_backing_index(bufs, id) {
        Some(i) => match bufs[i].gpu {
            Some(g) => g.id,
            None => 0,
        },
        None => 0,
    }
}

/// The descriptors a task writes: one storage buffer per binding, at the
/// binding index equal to the position in the binding list, pointing at that
/// tensor's device-local buffer at offset zero, ranging over the tensor's
/// bytes.
pub open spec fn descriptor_writes_for(bufs: Seq<BackingView>, ts: Seq<TensorView>) -> Seq<
    DescriptorWrite,
> {
    Seq::new(
        ts.len(),
        |i: int|
            DescriptorWrite {
                binding: i as u32,
                buffer: backing_gpu_id(bufs, ts[i].id),
                offset: 0,
                range: (4 * ts[i].data.len()) as u64,
            },
    )
}

/// The buffer-acquisition conditions of `new_task`: every binding has data,
/// the memory budget holds every triad, and enough fresh handles remain.
pub open spec fn buffers_ok(alloc: AllocatorView, ts: Seq<TensorView>) -> bool {
    &&& forall|i: int| 0 <= i < ts.len() ==> (#[trigger] ts[i]).data.len() > 0
    &&& alloc.used + task_bytes(ts) <= alloc.capacity
    &&& alloc.next_buffer_id + task_allocs(ts) <= u64::MAX
}

/// When `new_task` succeeds: the binding list matches the pipeline's binding
/// count, the buffers can be acquired, and the pipeline's descriptor pool has
/// a set left.
pub open spec fn new_task_ok(alloc: AllocatorView, pip: PipelineView, ts: Seq<TensorView>) -> bool {
    &&& ts.len() == pip.n_tensors
    &&& buffers_ok(alloc, ts)
    &&& pip.sets_outstanding < pip.pool_capacity
}

/// The error `new_task` reports, by the first failing acquisition step: a
/// binding count the descriptor-set layout cannot serve, then buffer
/// acquisition, then descriptor-pool exhaustion.
pub open spec fn new_task_err(alloc: AllocatorView, pip: PipelineView, ts: Seq<TensorView>) -> GPUTaskRecordingError {
    if ts.len() != pip.n_tensors {
        GPUTaskRecordingError::DescriptorSetAllocationFailure
    } else if !buffers_ok(alloc, ts) {
        GPUTaskRecordingError::BufferAllocationFailure
    } else {
        GPUTaskRecordingError::DescriptorSetAllocationFailure
    }
}

/// What `build_backings` guarantees: one complete backing per distinct
/// tensor id, holding exactly the handles drawn from `next0`.
pub open spec fn built_backings_ok(bb: Seq<BackingView>, ts: Seq<TensorView>, next0: int) -> bool {
    &&& bb.len() == distinct_ids(ts)
    &&& forall|k: int| 0 <= k < bb.len() ==> (#[trigger] bb[k]).complete()
    &&& forall|k1: int, k2: int|
        #![trigger bb[k1].tensor_id, bb[k2].tensor_id]
        0 <= k1 < k2 < bb.len() ==> bb[k1].tensor_id != bb[k2].tensor_id
    &&& forall|k: int, id: u64|
        0 <= k < bb.len() && (#[trigger] bb[k].owns_id(id)) ==> next0 <= id < next0 + task_allocs(
            ts,
        )
    &&& forall|k1: int, k2: int, id: u64|
        #![trigger bb[k1].owns_id(id), bb[k2].owns_id(id)]
        0 <= k1 < bb.len() && 0 <= k2 < bb.len() && bb[k1].owns_id(id) && bb[k2].owns_id(id)
            ==> k1 == k2
    &&& forall|id: u32| #[trigger]
        has_id(ts, id) <==> (exists|k: int| 0 <= k < bb.len() && (#[trigger] bb[k]).tensor_id == id)
}

/// Triad and task counts are never negative.
pub proof fn lemma_task_counts_nonneg(ts: Seq<TensorView>)
    ensures
        task_bytes(ts) >= 0,
        task_allocs(ts) >= 0,
        distinct_ids(ts) >= 0,
    decreases ts.len(),
{
    if ts.len() > 0 {
        lemma_task_counts_nonneg(ts.drop_last());
    }
}

/// A prefix of the bindings never needs more than the whole list.
pub proof fn lemma_task_counts_prefix(ts: Seq<TensorView>, i: int)
    requires
        0 <= i <= ts.len(),
    ensures
        task_bytes(ts.subrange(0, i)) <= task_bytes(ts),
        task_allocs(ts.subrange(0, i)) <= task_allocs(ts),
    decreases ts.len() - i,
{
    if i == ts.len() {
        assert(ts.subrange(0, i) =~= ts);
    } else {
        lemma_task_counts_prefix(ts, i + 1);
        assert(ts.subrange(0, i + 1).drop_last() =~= ts.subrange(0, i));
        assert(ts.subrange(0, i + 1).last() == ts[i]);
    }
}

/// `build_backings` delivers what it promises.
pub proof fn lemma_build_backings_props(ts: Seq<TensorView>, next0: int, qf: u32)
    requires
        forall|i: int| 0 <= i < ts.len() ==> (#[trigger] ts[i]).data.len() > 0,
        forall|i: int| 0 <= i < ts.len() ==> 4 * (#[trigger] ts[i]).data.len() <= u64::MAX,
        forall|i: int| 0 <= i < ts.len() ==> (#[trigger] ts[i]).data.len() <= usize::MAX,
        0 <= next0,
        next0 + task_allocs(ts) <= u64::MAX,
    ensures
        built_backings_ok(build_backings(ts, next0, qf), ts, next0),
    decreases ts.len(),
{
    lemma_task_counts_nonneg(ts);
    if ts.len() == 0 {
        assert forall|id: u32| #[trigger]
            has_id(ts, id) <==> (exists|k: int|
            0 <= k < build_backings(ts, next0, qf).len() && (#[trigger] build_backings(
                ts,
                next0,
                qf,
            )[k]).tensor_id == id) by {
            if has_id(ts, id) {
                let i = choose|i: int| 0 <= i < ts.len() && ts[i].id == id;
                assert(false);
            }
        }
    } else {
        let prefix = ts.drop_last();
        let t = ts.last();
        let bb0 = build_backings(prefix, next0, qf);
        let bb = build_backings(ts, next0, qf);
        assert(forall|i: int| 0 <= i < prefix.len() ==> prefix[i] == ts[i]);
        lemma_task_counts_nonneg(prefix);
        lemma_build_backings_props(prefix, next0, qf);
        assert(task_allocs(prefix) <= task_allocs(ts));

        // Relate ids of `ts` to ids of its prefix and last element.
        assert forall|id: u32| #[trigger] has_id(ts, id) implies (has_id(prefix, id) || t.id
            == id) by {
            let i = choose|i: int| 0 <= i < ts.len() && ts[i].id == id;
            if i < ts.len() - 1 {
                assert(prefix[i].id == id);
            }
        }
        assert forall|id: u32| has_id(prefix, id) || t.id == id implies #[trigger] has_id(
            ts,
            id,
        ) by {
            if has_id(prefix, id) {
                let i = choose|i: int| 0 <= i < prefix.len() && prefix[i].id == id;
                assert(ts[i].id == id);
            } else {
                assert(ts[ts.len() - 1].id == id);
            }
        }

        if has_id(prefix, t.id) {
            assert(bb == bb0);
        } else {
            let base = next0 + task_allocs(prefix);
            let nb = backing_for(t, base, qf);
            assert(bb == bb0.push(nb));
            assert(task_allocs(ts) == task_allocs(prefix) + triad_allocs(t));
            assert(t.data.len() > 0);
            assert(4 * t.data.len() <= u64::MAX);
            assert(t.data.len() <= usize::MAX);
            assert(0 <= base);
            assert(base + triad_allocs(t) <= u64::MAX);
            assert(zero_words(t.data.len() as int).len() == t.data.len());
            assert(nb.complete());
            // The new backing owns exactly the fresh handles.
            assert forall|id: u64| #[trigger] nb.owns_id(id) implies base <= id < base
                + triad_allocs(t) by {}
            // Its tensor id is new among the built backings.
            assert forall|k: int| 0 <= k < bb0.len() implies bb0[k].tensor_id != nb.tensor_id by {
                if bb0[k].tensor_id == nb.tensor_id {
                    assert(has_id(prefix, t.id));
                }
            }
        }
        assert forall|id: u32| #[trigger] has_id(ts, id) implies (exists|k: int|
            0 <= k < bb.len() && (#[trigger] bb[k]).tensor_id == id) by {
            if has_id(prefix, id) {
                let k = choose|k: int| 0 <= k < bb0.len() && (#[trigger] bb0[k]).tensor_id == id;
                assert(bb[k].tensor_id == id);
            } else {
                assert(t.id == id);
                assert(!has_id(prefix, t.id));
                assert(bb[bb.len() - 1].tensor_id == id);
            }
        }
    }
}

} // verus!

verus! {

/// Whether one of the first `upto` bindings already carries this tensor id.
fn id_in_prefix(bindings: &Vec<&Tensor>, upto: usize, id: u32) -> (r: bool)
    requires
        upto <= bindings@.len(),
    ensures
        r == has_id(tensor_views(bindings@).subrange(0, upto as int), id),
{
    let ghost ts = tensor_views(bindings@).subrange(0, upto as int);
    let mut j: usize = 0;
    while j < upto
        invariant
            upto <= bindings@.len(),
            j <= upto,
            ts == tensor_views(bindings@).subrange(0, upto as int),
            forall|j2: int| 0 <= j2 < j ==> (#[trigger] ts[j2]).id != id,
        decreases upto - j,
    {
        if bindings[j].id() == id {
            proof {
                assert(ts[j as int].id == id);
            }
            return true;
        }
        j = j + 1;
    }
    proof {
        if has_id(ts, id) {
            let i = choose|i: int| 0 <= i < ts.len() && (#[trigger] ts[i]).id == id;
            assert(ts[i].id != id);
        }
    }
    false
}

/// Checks, without acquiring anything, that every triad of the binding list
/// can be carved out of the allocator's remaining budget and handle space.
fn validate_bindings(allocator: &Allocator, bindings: &Vec<&Tensor>) -> (r: bool)
    requires
        allocator.wf(),
        forall|i: int|
            0 <= i < bindings@.len() ==> 4 * (#[trigger] bindings@[i]@).data.len() <= u64::MAX,
    ensures
        r == buffers_ok(allocator@, tensor_views(bindings@)),
{
    let ghost ts = tensor_views(bindings@);
    proof {
        lemma_task_counts_nonneg(ts);
    }
    let mut remaining: u64 = allocator.capacity() - allocator.used();
    let mut id_room: u64 = u64::MAX - allocator.peek_next_buffer_id();
    let ghost avail0 = remaining as int;
    let ghost room0 = id_room as int;

    let n = bindings.len();
    let mut i: usize = 0;
    while i < n
        invariant
            n == bindings@.len(),
            i <= n,
            ts == tensor_views(bindings@),
            forall|j: int|
                0 <= j < bindings@.len() ==> 4 * (#[trigger] bindings@[j]@).data.len() <= u64::MAX,
            avail0 == allocator@.capacity - allocator@.used,
            room0 == u64::MAX - allocator@.next_buffer_id,
            remaining as int == avail0 - task_bytes(ts.subrange(0, i as int)),
            id_room as int == room0 - task_allocs(ts.subrange(0, i as int)),
            forall|j: int| 0 <= j < i ==> (#[trigger] ts[j]).data.len() > 0,
        decreases n - i,
    {
        let t = bindings[i];
        proof {
            assert(ts[i as int] == t@);
            lemma_task_counts_nonneg(ts.subrange(0, i as int));
            assert(ts.subrange(0, i as int + 1).drop_last() =~= ts.subrange(0, i as int));
            assert(ts.subrange(0, i as int + 1).last() == ts[i as int]);
        }
        if t.data().len() == 0 {
            proof {
                assert(!buffers_ok(allocator@, ts));
            }
            return false;
        }
        if !id_in_prefix(&bindings, i, t.id()) {
            let len4: u64 = (t.data().len() as u64) * 4;
            let needed_allocs: u64 = if t.readback_enabled() {
                3
            } else {
                2
            };
            proof {
                lemma_task_counts_prefix(ts, i as int + 1);
            }
            if id_room < needed_allocs {
                proof {
                    assert(task_allocs(ts.subrange(0, i as int + 1)) == task_allocs(
                        ts.subrange(0, i as int),
                    ) + triad_allocs(ts[i as int]));
                    assert(room0 - task_allocs(ts) < 0);
                    assert(!buffers_ok(allocator@, ts));
                }
                return false;
            }
            id_room = id_room - needed_allocs;
            let triad: u64 = if t.readback_enabled() {
                if remaining < len4 || remaining - len4 < len4 || remaining - len4 - len4 < len4 {
                    proof {
                        assert(task_bytes(ts.subrange(0, i as int + 1)) == task_bytes(
                            ts.subrange(0, i as int),
                        ) + triad_bytes(ts[i as int]));
                        assert(avail0 - task_bytes(ts) < 0);
                        assert(!buffers_ok(allocator@, ts));
                    }
                    return false;
                }
                len4 * 3
            } else {
                if remaining < len4 || remaining - len4 < len4 {
                    proof {
                        assert(task_bytes(ts.subrange(0, i as int + 1)) == task_bytes(
                            ts.subrange(0, i as int),
                        ) + triad_bytes(ts[i as int]));
                        assert(avail0 - task_bytes(ts) < 0);
                        assert(!buffers_ok(allocator@, ts));
                    }
                    return false;
                }
                len4 * 2
            };
            remaining = remaining - triad;
        }
        i = i + 1;
    }
    proof {
        assert(ts.subrange(0, n as int) =~= ts);
        assert(task_bytes(ts) <= avail0);
        assert(task_allocs(ts) <= room0);
        assert forall|j: int| 0 <= j < ts.len() implies (#[trigger] ts[j]).data.len() > 0 by {}
    }
    true
}

} // verus!

verus! {

impl ComputeManager {
    /// Builds a task from a pipeline and an ordered binding list: acquires
    /// one buffer triad per distinct bound tensor (device-local buffer of the
    /// tensor's bytes with storage and both transfer usages; host-visible
    /// staging buffer; readback buffer when the tensor enables readback),
    /// takes a descriptor set from the pipeline's pool, writes one
    /// storage-buffer descriptor per binding — binding index equal to the
    /// position in the list, which must match the shader's binding
    /// declaration order — and begins the command buffer by binding the
    /// pipeline and the set.
    ///
    /// The first failing acquisition step wins and nothing stays acquired: a
    /// binding list that does not match the pipeline's binding count or an
    /// exhausted descriptor pool fails with `DescriptorSetAllocationFailure`,
    /// a triad the allocator cannot serve with `BufferAllocationFailure`, and
    /// the failed builder swallows every later recording call.
    pub fn new_task(&mut self, pipeline: &mut Pipeline, bindings: Vec<&Tensor>) -> (r: GPUTaskInProcess)
        requires
            old(self).wf(),
            old(pipeline).wf(),
            forall|i: int|
                0 <= i < bindings@.len() ==> 4 * (#[trigger] bindings@[i]@).data.len() <= u64::MAX,
            forall|i: int|
                0 <= i < bindings@.len() ==> (#[trigger] bindings@[i]@).data.len() <= usize::MAX,
        ensures
            final(self).wf(),
            final(pipeline).wf(),
            (r matches GPUTaskInProcess::Recording(_)) <==> new_task_ok(
                old(self)@.allocator,
                old(pipeline)@,
                tensor_views(bindings@),
            ),
            r matches GPUTaskInProcess::Failed(e) ==> e == new_task_err(
                old(self)@.allocator,
                old(pipeline)@,
                tensor_views(bindings@),
            ) && final(self)@ == old(self)@ && final(pipeline)@ == old(pipeline)@,
            r matches GPUTaskInProcess::Recording(t) ==> {
                &&& t.wf()
                &&& t@.buffers == build_backings(
                    tensor_views(bindings@),
                    old(self)@.allocator.next_buffer_id as int,
                    old(self)@.queue_family,
                )
                &&& t@.writes == descriptor_writes_for(t@.buffers, tensor_views(bindings@))
                &&& t@.commands == seq![
                    Command::BindPipeline { pipeline: old(pipeline)@.pipeline_id },
                    Command::BindDescriptorSet { set: t@.descriptor_set },
                ]
                &&& t@.pipeline_id == old(pipeline)@.pipeline_id
                &&& t@.phase is Recorded
                &&& t@.cursor == 0
                &&& !t@.released
                &&& final(self)@ == (ComputeManagerView {
                    allocator: AllocatorView {
                        capacity: old(self)@.allocator.capacity,
                        used: (old(self)@.allocator.used + task_bytes(tensor_views(bindings@))) as u64,
                        next_buffer_id: (old(self)@.allocator.next_buffer_id + task_allocs(
                            tensor_views(bindings@),
                        )) as u64,
                    },
                    ..old(self)@
                })
                &&& final(pipeline)@ == (PipelineView {
                    sets_outstanding: (old(pipeline)@.sets_outstanding + 1) as u32,
                    ..old(pipeline)@
                })
            },
    {
        let ghost ts = tensor_views(bindings@);
        let ghost m0 = self@;
        let ghost pip0 = pipeline@;
        proof {
            lemma_task_counts_nonneg(ts);
        }

        if bindings.len() != pipeline.n_tensors() as usize {
            return GPUTaskInProcess::Failed(GPUTaskRecordingError::DescriptorSetAllocationFailure);
        }
        if !validate_bindings(&self.allocator, &bindings) {
            return GPUTaskInProcess::Failed(GPUTaskRecordingError::BufferAllocationFailure);
        }
        let set_id: u64 = match pipeline.allocate_descriptor_set() {
            Some(s) => s,
            None => {
                return GPUTaskInProcess::Failed(
                    GPUTaskRecordingError::DescriptorSetAllocationFailure,
                );
            },
        };

        let qf: u32 = self.queue_family;
        let ghost next0 = m0.allocator.next_buffer_id as int;
        let ghost used0 = m0.allocator.used as int;
        let mut backings: Vec<TensorBufferBacking> = Vec::new();

        let n = bindings.len();
        let mut i: usize = 0;
        while i < n
            invariant
                n == bindings@.len(),
                i <= n,
                ts == tensor_views(bindings@),
                buffers_ok(m0.allocator, ts),
                forall|j: int|
                    0 <= j < bindings@.len() ==> 4 * (#[trigger] bindings@[j]@).data.len()
                        <= u64::MAX,
                next0 == m0.allocator.next_buffer_id as int,
                used0 == m0.allocator.used as int,
                qf == m0.queue_family,
                self@ == (ComputeManagerView {
                    allocator: AllocatorView {
                        capacity: m0.allocator.capacity,
                        used: (used0 + task_bytes(ts.subrange(0, i as int))) as u64,
                        next_buffer_id: (next0 + task_allocs(ts.subrange(0, i as int))) as u64,
                    },
                    ..m0
                }),
                backing_views(backings@) == build_backings(ts.subrange(0, i as int), next0, qf),
            decreases n - i,
        {
            let ghost prefix = ts.subrange(0, i as int);
            let t = bindings[i];
            proof {
                assert(ts[i as int] == t@);
                lemma_task_counts_nonneg(prefix);
                lemma_task_counts_prefix(ts, i as int + 1);
                assert(ts.subrange(0, i as int + 1).drop_last() =~= prefix);
                assert(ts.subrange(0, i as int + 1).last() == ts[i as int]);
            }
            if !id_in_prefix(&bindings, i, t.id()) {
                proof {
                    assert(task_bytes(ts.subrange(0, i as int + 1)) == task_bytes(prefix)
                        + triad_bytes(t@));
                    assert(task_allocs(ts.subrange(0, i as int + 1)) == task_allocs(prefix)
                        + triad_allocs(t@));
                    assert(t@.data.len() > 0);
                }
                let len: usize = t.data().len();
                let len4: u64 = (len as u64) * 4;
                let ghost base = next0 + task_allocs(prefix);

                let gpu_buffer = match self.allocator.allocate_buffer(
                    len4,
                    BufferUsage { storage_buffer: true, transfer_src: true, transfer_dst: true },
                    MemoryLocation::GpuOnly,
                    "device-local buffer",
                    qf,
                ) {
                    Ok(b) => b,
                    Err(_) => unreached(),
                };
                let staging_buffer = match self.allocator.allocate_buffer(
                    len4,
                    BufferUsage { storage_buffer: false, transfer_src: true, transfer_dst: false },
                    MemoryLocation::CpuToGpu,
                    "staging buffer",
                    qf,
                ) {
                    Ok(b) => b,
                    Err(_) => unreached(),
                };
                let readback_buffer = if t.readback_enabled() {
                    match self.allocator.allocate_buffer(
                        len4,
                        BufferUsage {
                            storage_buffer: false,
                            transfer_src: false,
                            transfer_dst: true,
                        },
                        MemoryLocation::CpuToGpu,
                        "readback buffer",
                        qf,
                    ) {
                        Ok(b) => Some(b),
                        Err(_) => unreached(),
                    }
                } else {
                    None
                };

                let backing = TensorBufferBacking {
                    tensor_id: t.id(),
                    words: len,
                    readback_enabled: t.readback_enabled(),
                    gpu_buffer: Some(gpu_buffer),
                    staging_buffer: Some(staging_buffer),
                    readback_buffer,
                };
                proof {
                    assert((4 * t@.data.len()) as int / 4 == t@.data.len() as int);
                    assert(backing@ =~~= backing_for(t@, base, qf));
                }
                backings.push(backing);
                proof {
                    assert(backing_views(backings@) =~= build_backings(
                        ts.subrange(0, i as int + 1),
                        next0,
                        qf,
                    ));
                }
            } else {
                proof {
                    assert(build_backings(ts.subrange(0, i as int + 1), next0, qf)
                        == build_backings(prefix, next0, qf));
                    assert(task_bytes(ts.subrange(0, i as int + 1)) == task_bytes(prefix));
                    assert(task_allocs(ts.subrange(0, i as int + 1)) == task_allocs(prefix));
                }
            }
            i = i + 1;
        }
        proof {
            assert(ts.subrange(0, n as int) =~= ts);
            lemma_build_backings_props(ts, next0, qf);
        }
        let ghost bb = build_backings(ts, next0, qf);

        let mut writes: Vec<DescriptorWrite> = Vec::new();
        let mut i: usize = 0;
        while i < n
            invariant
                n == bindings@.len(),
                i <= n,
                n == pip0.n_tensors,
                ts == tensor_views(bindings@),
                forall|j: int|
                    0 <= j < bindings@.len() ==> 4 * (#[trigger] bindings@[j]@).data.len()
                        <= u64::MAX,
                bb == backing_views(backings@),
                built_backings_ok(bb, ts, next0),
                writes@.len() == i,
                forall|j: int|
                    0 <= j < i ==> #[trigger] writes@[j] == descriptor_writes_for(bb, ts)[j],
            decreases n - i,
        {
            let t = bindings[i];
            proof {
                assert(ts[i as int] == t@);
                assert(has_id(ts, t@.id));
            }
            let idx: usize = match find_backing(&backings, t.id()) {
                Some(ix) => ix,
                None => {
                    proof {
                        lemma_find_backing_index_char(bb, t@.id);
                        let k = choose|k: int|
                            0 <= k < bb.len() && (#[trigger] bb[k]).tensor_id == t@.id;
                        assert(bb[k].tensor_id != t@.id);
                    }
                    unreached()
                },
            };
            proof {
                lemma_find_backing_index_char(bb, t@.id);
                assert(bb[idx as int].complete());
            }
            let gid: u64 = match &backings[idx].gpu_buffer {
                Some(g) => g.id(),
                None => {
                    proof {
                        assert(backings@[idx as int]@ == bb[idx as int]);
                        assert(false);
                    }
                    unreached()
                },
            };
            let len4: u64 = (t.data().len() as u64) * 4;
            writes.push(DescriptorWrite { binding: i as u32, buffer: gid, offset: 0, range: len4 });
            proof {
                assert(backings@[idx as int]@ == bb[idx as int]);
                assert(writes@[i as int] == descriptor_writes_for(bb, ts)[i as int]);
            }
            i = i + 1;
        }
        proof {
            assert(writes@ =~= descriptor_writes_for(bb, ts));
        }

        let mut commands: Vec<Command> = Vec::new();
        commands.push(Command::BindPipeline { pipeline: pipeline.pipeline_id() });
        commands.push(Command::BindDescriptorSet { set: set_id });

        let task_id: u64 = self.fresh_object_id();
        let task = GPUTask {
            task_id,
            pipeline_id: pipeline.pipeline_id(),
            descriptor_set: set_id,
            descriptor_writes: writes,
            commands,
            buffers: backings,
            phase: TaskPhase::Recorded,
            cursor: 0,
            released: false,
        };
        proof {
            assert(task@.commands =~= seq![
                Command::BindPipeline { pipeline: pip0.pipeline_id },
                Command::BindDescriptorSet { set: set_id },
            ]);
            assert(task.wf());
            assert(self@ =~= (ComputeManagerView {
                allocator: AllocatorView {
                    capacity: m0.allocator.capacity,
                    used: (used0 + task_bytes(ts)) as u64,
                    next_buffer_id: (next0 + task_allocs(ts)) as u64,
                },
                ..m0
            }));
        }
        GPUTaskInProcess::Recording(task)
    }
}

} // verus!

verus! {

/// Builds the copied region: the first `words` words of `src` over the front
/// of `dst`.
fn copied_region(src: &Vec<u32>, dst: &Vec<u32>, words: usize) -> (r: Vec<u32>)
    requires
        words <= src@.len(),
        words <= dst@.len(),
    ensures
        r@ == copy_words(src@, dst@, words),
{
    let mut r: Vec<u32> = Vec::new();
    let mut i: usize = 0;
    while i < words
        invariant
            words <= src@.len(),
            words <= dst@.len(),
            i <= words,
            r@.len() == i,
            forall|j: int| 0 <= j < i ==> r@[j] == src@[j],
        decreases words - i,
    {
        r.push(src[i]);
        i = i + 1;
    }
    let n = dst.len();
    while i < n
        invariant
            words <= src@.len(),
            words <= dst@.len(),
            n == dst@.len(),
            words <= i <= n,
            r@.len() == i,
            forall|j: int| 0 <= j < words ==> r@[j] == src@[j],
            forall|j: int| words <= j < i ==> r@[j] == dst@[j],
        decreases n - i,
    {
        r.push(dst[i]);
        i = i + 1;
    }
    proof {
        assert(r@ =~= copy_words(src@, dst@, words));
    }
    r
}

/// Applies one recorded buffer copy to one backing, exactly as the
/// interpreter reads it.
fn apply_copy_to_backing(b: TensorBufferBacking, src: u64, dst: u64, words: usize) -> (r: TensorBufferBacking)
    ensures
        r@ == backing_apply_copy(b@, src, dst, words),
{
    let TensorBufferBacking {
        tensor_id,
        words: w,
        readback_enabled,
        gpu_buffer,
        staging_buffer,
        readback_buffer,
    } = b;
    match (gpu_buffer, staging_buffer, readback_buffer) {
        (Some(mut g), Some(s), rb) => {
            if s.id() == src && g.id() == dst && words <= s.contents().len() && words
                <= g.contents().len() {
                let region = copied_region(s.contents(), g.contents(), words);
                g.write_data(region);
                let nb = TensorBufferBacking {
                    tensor_id,
                    words: w,
                    readback_enabled,
                    gpu_buffer: Some(g),
                    staging_buffer: Some(s),
                    readback_buffer: rb,
                };
                proof {
                    assert(is_staging_copy(b@, src, dst, words));
                    assert(nb@ =~~= backing_apply_copy(b@, src, dst, words));
                }
                nb
            } else {
                match rb {
                    Some(mut r) => {
                        if g.id() == src && r.id() == dst && words <= g.contents().len() && words
                            <= r.contents().len() {
                            let region = copied_region(g.contents(), r.contents(), words);
                            r.write_data(region);
                            let nb = TensorBufferBacking {
                                tensor_id,
                                words: w,
                                readback_enabled,
                                gpu_buffer: Some(g),
                                staging_buffer: Some(s),
                                readback_buffer: Some(r),
                            };
                            proof {
                                assert(!is_staging_copy(b@, src, dst, words));
                                assert(is_readback_copy(b@, src, dst, words));
                                assert(nb@ =~~= backing_apply_copy(b@, src, dst, words));
                            }
                            nb
                        } else {
                            let nb = TensorBufferBacking {
                                tensor_id,
                                words: w,
                                readback_enabled,
                                gpu_buffer: Some(g),
                                staging_buffer: Some(s),
                                readback_buffer: Some(r),
                            };
                            proof {
                                assert(!is_staging_copy(b@, src, dst, words));
                                assert(!is_readback_copy(b@, src, dst, words));
                                assert(nb@ =~~= b@);
                            }
                            nb
                        }
                    },
                    None => {
                        let nb = TensorBufferBacking {
                            tensor_id,
                            words: w,
                            readback_enabled,
                            gpu_buffer: Some(g),
                            staging_buffer: Some(s),
                            readback_buffer: None,
                        };
                        proof {
                            assert(!is_staging_copy(b@, src, dst, words));
                            assert(!is_readback_copy(b@, src, dst, words));
                            assert(nb@ =~~= b@);
                        }
                        nb
                    },
                }
            }
        },
        (Some(mut g), None, Some(rb)) => {
            let mut rb = rb;
            if g.id() == src && rb.id() == dst && words <= g.contents().len() && words
                <= rb.contents().len() {
                let region = copied_region(g.contents(), rb.contents(), words);
                rb.write_data(region);
                let nb = TensorBufferBacking {
                    tensor_id,
                    words: w,
                    readback_enabled,
                    gpu_buffer: Some(g),
                    staging_buffer: None,
                    readback_buffer: Some(rb),
                };
                proof {
                    assert(!is_staging_copy(b@, src, dst, words));
                    assert(is_readback_copy(b@, src, dst, words));
                    assert(nb@ =~~= backing_apply_copy(b@, src, dst, words));
                }
                nb
            } else {
                let nb = TensorBufferBacking {
                    tensor_id,
                    words: w,
                    readback_enabled,
                    gpu_buffer: Some(g),
                    staging_buffer: None,
                    readback_buffer: Some(rb),
                };
                proof {
                    assert(!is_staging_copy(b@, src, dst, words));
                    assert(!is_readback_copy(b@, src, dst, words));
                    assert(nb@ =~~= b@);
                }
                nb
            }
        },
        (gpu_buffer, staging_buffer, readback_buffer) => {
            let nb = TensorBufferBacking {
                tensor_id,
                words: w,
                readback_enabled,
                gpu_buffer,
                staging_buffer,
                readback_buffer,
            };
            proof {
                assert(!is_staging_copy(b@, src, dst, words));
                assert(!is_readback_copy(b@, src, dst, words));
                assert(nb@ =~~= b@);
            }
            nb
        },
    }
}

/// Applies one recorded buffer copy to every backing, as the interpreter's
/// `apply_command` does.
fn apply_copy_all(bufs: &mut Vec<TensorBufferBacking>, src: u64, dst: u64, words: usize)
    ensures
        backing_views(final(bufs)@) == apply_command(
            backing_views(old(bufs)@),
            Command::CopyBuffer { src, dst, words },
        ),
{
    let ghost views0 = backing_views(bufs@);
    let n = bufs.len();
    let mut i: usize = 0;
    while i < n
        invariant
            n == bufs@.len(),
            i <= n,
            views0.len() == n,
            forall|j: int|
                0 <= j < i ==> backing_views(bufs@)[j] == backing_apply_copy(
                    #[trigger] views0[j],
                    src,
                    dst,
                    words,
                ),
            forall|j: int| i <= j < n ==> backing_views(bufs@)[j] == #[trigger] views0[j],
        decreases n - i,
    {
        let b = bufs.remove(i);
        let ghost views_pre = backing_views(bufs@);
        let b2 = apply_copy_to_backing(b, src, dst, words);
        bufs.insert(i, b2);
        proof {
            assert(backing_views(bufs@) =~= views_pre.insert(i as int, b2@));
        }
        i = i + 1;
    }
    proof {
        assert(backing_views(bufs@) =~= views0.map_values(
            |b: BackingView| backing_apply_copy(b, src, dst, words),
        ));
    }
}

} // verus!

verus! {

/// Scans for the position just past the first dispatch at or after `from`.
fn find_stop(commands: &Vec<Command>, from: usize) -> (r: usize)
    requires
        from <= commands@.len(),
    ensures
        r as int == exec_stop(commands@, from as int),
        from <= r <= commands@.len(),
{
    let n = commands.len();
    let mut k: usize = from;
    while k < n
        invariant
            from <= k <= n,
            n == commands@.len(),
            exec_stop(commands@, from as int) == exec_stop(commands@, k as int),
        decreases n - k,
    {
        let is_dispatch = match commands[k] {
            Command::Dispatch { .. } => true,
            _ => false,
        };
        if is_dispatch {
            return k + 1;
        }
        k = k + 1;
    }
    k
}

/// Runs the commands in `[from, to)` over the backings, in order.
fn run_range(
    bufs: &mut Vec<TensorBufferBacking>,
    commands: &Vec<Command>,
    from: usize,
    to: usize,
)
    requires
        from <= to <= commands@.len(),
    ensures
        backing_views(final(bufs)@) == run_commands(
            backing_views(old(bufs)@),
            commands@.subrange(from as int, to as int),
        ),
{
    let ghost views0 = backing_views(bufs@);
    let mut k: usize = from;
    proof {
        assert(commands@.subrange(from as int, from as int) =~= Seq::<Command>::empty());
    }
    while k < to
        invariant
            from <= k <= to <= commands@.len(),
            views0.len() == bufs@.len() || true,
            backing_views(bufs@) == run_commands(
                views0,
                commands@.subrange(from as int, k as int),
            ),
        decreases to - k,
    {
        let c = commands[k];
        let ghost pre = backing_views(bufs@);
        match c {
            Command::CopyBuffer { src, dst, words } => {
                apply_copy_all(bufs, src, dst, words);
            },
            _ => {},
        }
        proof {
            assert(backing_views(bufs@) == apply_command(pre, c));
            assert(commands@.subrange(from as int, k as int + 1) =~= commands@.subrange(
                from as int,
                k as int,
            ).push(c));
            lemma_run_commands_snoc(views0, commands@.subrange(from as int, k as int), c);
        }
        k = k + 1;
    }
}

/// The words of the tensor's device-local buffer among the backings, if it
/// has one.
pub open spec fn device_words(bufs: Seq<BackingView>, id: u32) -> Option<Seq<u32>> {
    match find_backing_index(bufs, id) {
        Some(i) => match bufs[i].gpu {
            Some(g) => Some(g.data),
            None => None,
        },
        None => None,
    }
}

/// The backings after the tensor's device-local buffer was overwritten with
/// `data`.
pub open spec fn written_device(bufs: Seq<BackingView>, id: u32, data: Seq<u32>) -> Seq<
    BackingView,
> {
    match find_backing_index(bufs, id) {
        Some(i) => match bufs[i].gpu {
            Some(g) => bufs.update(
                i,
                BackingView { gpu: Some(BufferView { data, ..g }), ..bufs[i] },
            ),
            None => bufs,
        },
        None => bufs,
    }
}

/// A tensor after readback from the backings: when its backing holds a
/// readback buffer of its length, its data is overwritten in place with that
/// buffer's words; otherwise — no backing, no readback buffer, or a length
/// mismatch — the tensor is left untouched, with no partial copy.
pub open spec fn sync_tensor_view(bufs: Seq<BackingView>, t: TensorView) -> TensorView {
    match find_backing_index(bufs, t.id) {
        Some(i) => match bufs[i].readback {
            Some(r) => if r.data.len() == t.data.len() {
                TensorView { data: r.data, ..t }
            } else {
                t
            },
            None => t,
        },
        None => t,
    }
}

/// The backings of a task after teardown: every buffer taken and freed.
pub open spec fn cleared_backings(bufs: Seq<BackingView>) -> Seq<BackingView> {
    bufs.map_values(
        |b: BackingView| BackingView { gpu: None, staging: None, readback: None, ..b },
    )
}

impl GPUTask {
    /// Device hook: the words currently in the tensor's device-local buffer.
    /// Between submission and await, the embedder's runner reads the
    /// dispatch's inputs here.
    pub fn device_buffer_contents(&self, tensor_id: u32) -> (r: Option<&Vec<u32>>)
        ensures
            match r {
                Some(v) => device_words(self@.buffers, tensor_id) == Some(v@),
                None => device_words(self@.buffers, tensor_id) is None,
            },
    {
        match find_backing(&self.buffers, tensor_id) {
            Some(i) => {
                proof {
                    lemma_find_backing_index_char(backing_views(self.buffers@), tensor_id);
                }
                match &self.buffers[i].gpu_buffer {
                    Some(g) => Some(g.contents()),
                    None => None,
                }
            },
            None => None,
        }
    }

    /// Device hook: overwrites the tensor's device-local buffer with the
    /// shader's output, while the task is in flight. This is how the
    /// embedder's device hands the dispatch's effect back to the model;
    /// without it a dispatch leaves device memory unchanged. Reports whether
    /// the write landed: the task must be in flight and not torn down, the
    /// tensor backed, and the length exact.
    pub fn write_device_buffer(&mut self, tensor_id: u32, values: &Vec<u32>) -> (r: bool)
        requires
            old(self).wf(),
        ensures
            final(self).wf(),
            r <==> (old(self)@.phase is InFlight && !old(self)@.released && (device_words(
                old(self)@.buffers,
                tensor_id,
            ) matches Some(d) && d.len() == values@.len())),
            r ==> final(self)@ == (GPUTaskView {
                buffers: written_device(old(self)@.buffers, tensor_id, values@),
                ..old(self)@
            }),
            !r ==> final(self)@ == old(self)@,
    {
        let in_flight = match self.phase {
            TaskPhase::InFlight => true,
            _ => false,
        };
        if !in_flight || self.released {
            return false;
        }
        let found = match find_backing(&self.buffers, tensor_id) {
            Some(i) => i,
            None => {
                return false;
            },
        };
        let ghost views0 = backing_views(self.buffers@);
        proof {
            lemma_find_backing_index_char(views0, tensor_id);
        }
        let b = self.buffers.remove(found);
        let TensorBufferBacking {
            tensor_id: tid,
            words,
            readback_enabled,
            gpu_buffer,
            staging_buffer,
            readback_buffer,
        } = b;
        match gpu_buffer {
            Some(mut g) => {
                if g.contents().len() == values.len() {
                    let new_words = clone_words(values);
                    g.write_data(new_words);
                    let nb = TensorBufferBacking {
                        tensor_id: tid,
                        words,
                        readback_enabled,
                        gpu_buffer: Some(g),
                        staging_buffer,
                        readback_buffer,
                    };
                    self.buffers.insert(found, nb);
                    proof {
                        assert(backing_views(self.buffers@) =~= written_device(
                            views0,
                            tensor_id,
                            values@,
                        ));
                        assert(backing_shape_eq(views0[found as int], nb@));
                        assert forall|j: int|
                            0 <= j < backing_views(self.buffers@).len() implies backing_shape_eq(
                            views0[j],
                            #[trigger] backing_views(self.buffers@)[j],
                        ) by {}
                        lemma_wf_by_shape(old(self)@, self@);
                    }
                    true
                } else {
                    let nb = TensorBufferBacking {
                        tensor_id: tid,
                        words,
                        readback_enabled,
                        gpu_buffer: Some(g),
                        staging_buffer,
                        readback_buffer,
                    };
                    self.buffers.insert(found, nb);
                    proof {
                        assert(nb@ =~~= views0[found as int]);
                        assert(backing_views(self.buffers@) =~= views0);
                        assert(self@ =~= old(self)@);
                    }
                    false
                }
            },
            None => {
                let nb = TensorBufferBacking {
                    tensor_id: tid,
                    words,
                    readback_enabled,
                    gpu_buffer: None,
                    staging_buffer,
                    readback_buffer,
                };
                self.buffers.insert(found, nb);
                proof {
                    assert(nb@ =~~= views0[found as int]);
                    assert(backing_views(self.buffers@) =~= views0);
                    assert(self@ =~= old(self)@);
                }
                false
            },
        }
    }
}

} // verus!

verus! {

/// Held bytes are never negative, and a prefix never holds more than the
/// whole.
pub proof fn lemma_held_bytes_prefix(bufs: Seq<BackingView>, i: int)
    requires
        0 <= i <= bufs.len(),
    ensures
        0 <= backings_held_bytes(bufs.subrange(0, i)),
        backings_held_bytes(bufs.subrange(0, i)) <= backings_held_bytes(bufs),
    decreases bufs.len() - i, bufs.len(),
{
    lemma_held_bytes_nonneg(bufs.subrange(0, i));
    if i == bufs.len() {
        assert(bufs.subrange(0, i) =~= bufs);
    } else {
        lemma_held_bytes_prefix(bufs, i + 1);
        assert(bufs.subrange(0, i + 1).drop_last() =~= bufs.subrange(0, i));
        assert(bufs.subrange(0, i + 1).last() == bufs[i]);
    }
}

/// Held bytes are never negative.
pub proof fn lemma_held_bytes_nonneg(bufs: Seq<BackingView>)
    ensures
        0 <= backings_held_bytes(bufs),
    decreases bufs.len(),
{
    if bufs.len() > 0 {
        lemma_held_bytes_nonneg(bufs.drop_last());
    }
}

impl ComputeManager {
    /// Ends the task's recording and submits its command buffer to the
    /// compute queue behind a fresh fence. The submission runs the stream up
    /// to and including its first dispatch; the dispatch's own effect is the
    /// device's, applied through the task's device hooks while the returned
    /// handle is outstanding. Returns `None`, with nothing submitted and
    /// nothing changed, when the task is not in its recorded phase or has
    /// been torn down — the fail-fast signal of a submission failure.
    pub fn exec_task(&mut self, task: &mut GPUTask) -> (r: Option<GPUSyncPrimitive>)
        requires
            old(task).wf(),
        ensures
            final(self)@ == old(self)@,
            final(task).wf(),
            (r matches Some(_)) <==> (old(task)@.phase is Recorded && !old(task)@.released),
            r matches None ==> final(task)@ == old(task)@,
            r matches Some(s) ==> {
                &&& s@.task_id == old(task)@.task_id
                &&& final(task)@ == (GPUTaskView {
                    buffers: run_commands(
                        old(task)@.buffers,
                        old(task)@.commands.subrange(
                            0,
                            exec_stop(old(task)@.commands, 0),
                        ),
                    ),
                    phase: TaskPhase::InFlight,
                    cursor: exec_stop(old(task)@.commands, 0) as usize,
                    ..old(task)@
                })
            },
    {
        let is_recorded = match task.phase {
            TaskPhase::Recorded => true,
            _ => false,
        };
        if !is_recorded || task.released {
            return None;
        }
        let stop = find_stop(&task.commands, 0);
        run_range(&mut task.buffers, &task.commands, 0, stop);
        task.cursor = stop;
        task.phase = TaskPhase::InFlight;
        let fence: u64 = self.fresh_object_id();
        proof {
            lemma_run_commands_shape(
                old(task)@.buffers,
                old(task)@.commands.subrange(0, stop as int),
            );
            lemma_wf_by_shape(old(task)@, task@);
        }
        Some(GPUSyncPrimitive { fence, task_id: task.task_id })
    }

    /// Blocks on the task's fence, destroys it, finishes the recorded stream
    /// — the barrier-ordered copies from device-local buffers into readback
    /// buffers — and then overwrites each listed tensor's data in place with
    /// its readback buffer's words. A listed tensor with no backing in this
    /// task, no readback buffer, or a changed length is reported and left
    /// untouched, with no partial copy. The handle is consumed: it was the
    /// only way to observe this completion. A handle belonging to another
    /// task, or a task not in flight, is reported misuse and changes
    /// nothing.
    pub fn await_task(&self, sync: GPUSyncPrimitive, task: &mut GPUTask, tensors: &mut Vec<Tensor>)
        requires
            old(task).wf(),
        ensures
            final(task).wf(),
            !(sync@.task_id == old(task)@.task_id && old(task)@.phase is InFlight && !old(task)@.released) ==> final(task)@ == old(task)@ && final(tensors)@ == old(tensors)@,
            (sync@.task_id == old(task)@.task_id && old(task)@.phase is InFlight && !old(task)@.released) ==> {
                &&& final(task)@ == (GPUTaskView {
                    buffers: run_commands(
                        old(task)@.buffers,
                        old(task)@.commands.subrange(
                            old(task)@.cursor as int,
                            old(task)@.commands.len() as int,
                        ),
                    ),
                    phase: TaskPhase::Done,
                    cursor: old(task)@.commands.len() as usize,
                    ..old(task)@
                })
                &&& final(tensors)@.len() == old(tensors)@.len()
                &&& forall|j: int|
                    0 <= j < old(tensors)@.len() ==> (#[trigger] final(tensors)@[j])@
                        == sync_tensor_view(final(task)@.buffers, old(tensors)@[j]@)
            },
    {
        let in_flight = match task.phase {
            TaskPhase::InFlight => true,
            _ => false,
        };
        if sync.task_id != task.task_id || !in_flight || task.released {
            return;
        }
        let end = task.commands.len();
        let from = task.cursor;
        run_range(&mut task.buffers, &task.commands, from, end);
        task.cursor = end;
        task.phase = TaskPhase::Done;
        proof {
            lemma_run_commands_shape(
                old(task)@.buffers,
                old(task)@.commands.subrange(from as int, end as int),
            );
            lemma_wf_by_shape(old(task)@, task@);
        }
        let ghost tv1 = task@;
        let ghost tens0 = tensors@;

        let n_t = tensors.len();
        let mut k: usize = 0;
        while k < n_t
            invariant
                n_t == tensors@.len(),
                tens0.len() == n_t,
                task@ == tv1,
                task.wf(),
                forall|j: int|
                    0 <= j < k ==> (#[trigger] tensors@[j])@ == sync_tensor_view(
                        tv1.buffers,
                        tens0[j]@,
                    ),
                forall|j: int| k <= j < n_t ==> #[trigger] tensors@[j] == tens0[j],
            decreases n_t - k,
        {
            let tid = tensors[k].id();
            let tlen = tensors[k].data().len();
            let new_data_opt: Option<Vec<u32>> = match find_backing(&task.buffers, tid) {
                Some(i) => {
                    proof {
                        lemma_find_backing_index_char(backing_views(task.buffers@), tid);
                    }
                    match &task.buffers[i].readback_buffer {
                        Some(rb) => {
                            if rb.contents().len() == tlen {
                                Some(clone_words(rb.contents()))
                            } else {
                                None
                            }
                        },
                        None => None,
                    }
                },
                None => None,
            };
            match new_data_opt {
                Some(d) => {
                    let tref = &mut tensors[k];
                    tref.set_data(d);
                },
                None => {},
            }
            proof {
                assert(tensors@[k as int]@ == sync_tensor_view(tv1.buffers, tens0[k as int]@));
            }
            k = k + 1;
        }
    }

    /// Tears the task down deterministically, in dependency order: the
    /// command buffer is freed, the descriptor set goes back to its
    /// pipeline's pool, and every backing buffer is taken out of its record
    /// and freed through the allocator exactly once. A second teardown of the
    /// same task finds the records empty and is a no-op, never a double free.
    /// The pipeline is recognized by its handle: handles come from a wrapping
    /// counter, so, as with any driver handle, the embedder keeps at most one
    /// live pipeline per handle; a pipeline that does not match is left
    /// untouched and the mismatch is reported.
    pub fn teardown_task(&mut self, task: &mut GPUTask, pipeline: &mut Pipeline)
        requires
            old(self).wf(),
            old(task).wf(),
            old(pipeline).wf(),
        ensures
            final(self).wf(),
            final(task).wf(),
            final(pipeline).wf(),
            old(task)@.released ==> final(self)@ == old(self)@ && final(task)@ == old(task)@
                && final(pipeline)@ == old(pipeline)@,
            !old(task)@.released ==> {
                &&& final(task)@ == (GPUTaskView {
                    buffers: cleared_backings(old(task)@.buffers),
                    commands: Seq::empty(),
                    cursor: 0usize,
                    released: true,
                    ..old(task)@
                })
                &&& final(self)@.allocator.capacity == old(self)@.allocator.capacity
                &&& final(self)@.allocator.next_buffer_id == old(self)@.allocator.next_buffer_id
                &&& final(self)@.allocator.used <= old(self)@.allocator.used
                &&& final(self)@.queue_family == old(self)@.queue_family
                &&& final(self)@.current_tensor_id == old(self)@.current_tensor_id
                &&& old(task)@.held_bytes() <= old(self)@.allocator.used ==> final(self)@.allocator.used == old(self)@.allocator.used - old(task)@.held_bytes()
                &&& final(pipeline)@ == (PipelineView {
                    sets_outstanding: if old(task)@.pipeline_id == old(pipeline)@.pipeline_id
                        && old(pipeline)@.sets_outstanding > 0 {
                        (old(pipeline)@.sets_outstanding - 1) as u32
                    } else {
                        old(pipeline)@.sets_outstanding
                    },
                    ..old(pipeline)@
                })
            },
    {
        if task.released {
            return;
        }
        task.released = true;
        task.commands.clear();
        task.cursor = 0;
        if task.pipeline_id == pipeline.pipeline_id() {
            pipeline.release_descriptor_set();
        }

        let ghost bufs0 = backing_views(task.buffers@);
        let ghost used0 = self@.allocator.used as int;
        let ghost m0 = self@;
        let ghost tv_pre = task@;
        proof {
            lemma_held_bytes_prefix(bufs0, 0);
            assert(bufs0.subrange(0, 0) =~= Seq::<BackingView>::empty());
        }

        let n = task.buffers.len();
        let mut i: usize = 0;
        while i < n
            invariant
                n == task.buffers@.len(),
                i <= n,
                bufs0.len() == n,
                task@ == (GPUTaskView { buffers: backing_views(task.buffers@), ..tv_pre }),
                used0 == m0.allocator.used as int,
                self@.allocator.capacity == m0.allocator.capacity,
                self@.allocator.next_buffer_id == m0.allocator.next_buffer_id,
                self@.allocator.used <= m0.allocator.used,
                self@.queue_family == m0.queue_family,
                self@.current_tensor_id == m0.current_tensor_id,
                self.wf(),
                backings_held_bytes(bufs0) <= used0 ==> self@.allocator.used as int == used0
                    - backings_held_bytes(bufs0.subrange(0, i as int)),
                forall|j: int|
                    0 <= j < i ==> #[trigger] backing_views(task.buffers@)[j] == (BackingView {
                        gpu: None,
                        staging: None,
                        readback: None,
                        ..bufs0[j]
                    }),
                forall|j: int|
                    i <= j < n ==> #[trigger] backing_views(task.buffers@)[j] == bufs0[j],
            decreases n - i,
        {
            proof {
                lemma_held_bytes_prefix(bufs0, i as int);
                lemma_held_bytes_prefix(bufs0, i as int + 1);
                assert(bufs0.subrange(0, i as int + 1).drop_last() =~= bufs0.subrange(0, i as int));
                assert(bufs0.subrange(0, i as int + 1).last() == bufs0[i as int]);
            }
            let ghost views_before = backing_views(task.buffers@);
            let ghost pre_vec = task.buffers@;
            let b = task.buffers.remove(i);
            proof {
                assert(views_before[i as int] == pre_vec[i as int]@);
                assert(b == pre_vec[i as int]);
                assert(b@ == bufs0[i as int]);
                assert(backing_views(task.buffers@) =~= views_before.remove(i as int));
            }
            let ghost held_i = bufs0[i as int].held_bytes();
            let ghost used_at_entry = self@.allocator.used as int;
            let TensorBufferBacking {
                tensor_id,
                words,
                readback_enabled,
                gpu_buffer,
                staging_buffer,
                readback_buffer,
            } = b;
            proof {
                if backings_held_bytes(bufs0) <= used0 {
                    assert(backings_held_bytes(bufs0.subrange(0, i as int)) + held_i
                        == backings_held_bytes(bufs0.subrange(0, i as int + 1)));
                    assert(backings_held_bytes(bufs0.subrange(0, i as int + 1))
                        <= backings_held_bytes(bufs0));
                    assert(held_i <= used_at_entry);
                }
            }
            match gpu_buffer {
                Some(buf) => {
                    self.allocator.free_buffer(buf);
                },
                None => {},
            }
            match staging_buffer {
                Some(buf) => {
                    self.allocator.free_buffer(buf);
                },
                None => {},
            }
            match readback_buffer {
                Some(buf) => {
                    self.allocator.free_buffer(buf);
                },
                None => {},
            }
            proof {
                if backings_held_bytes(bufs0) <= used0 {
                    assert(self@.allocator.used as int == used_at_entry - held_i);
                }
            }
            let nb = TensorBufferBacking {
                tensor_id,
                words,
                readback_enabled,
                gpu_buffer: None,
                staging_buffer: None,
                readback_buffer: None,
            };
            task.buffers.insert(i, nb);
            proof {
                assert(nb@ =~~= (BackingView {
                    gpu: None,
                    staging: None,
                    readback: None,
                    ..bufs0[i as int]
                }));
                assert(backing_views(task.buffers@) =~= views_before.update(i as int, nb@));
            }
            i = i + 1;
        }
        proof {
            assert(bufs0.subrange(0, n as int) =~= bufs0);
            assert(bufs0 == old(task)@.buffers);
            assert(backing_views(task.buffers@) =~= cleared_backings(bufs0));
            assert(task@.buffers =~= cleared_backings(old(task)@.buffers));
            assert(task@.commands =~= Seq::<Command>::empty());
            assert(task@.cursor == 0usize);
            assert(task@.released);
            assert(task@.task_id == old(task)@.task_id);
            assert(task@.pipeline_id == old(task)@.pipeline_id);
            assert(task@.descriptor_set == old(task)@.descriptor_set);
            assert(task@.writes == old(task)@.writes);
            assert(task@.phase == old(task)@.phase);
            assert(task@ =~~= (GPUTaskView {
                buffers: cleared_backings(old(task)@.buffers),
                commands: Seq::empty(),
                cursor: 0usize,
                released: true,
                ..old(task)@
            }));
            assert forall|j: int|
                0 <= j < task@.buffers.len() implies (#[trigger] task@.buffers[j]).cleared() by {}
            assert(task.wf());
        }
    }
}

} // verus!

verus! {

impl GPUTask {
    /// How many backings the task holds: one per distinct bound tensor id.
    pub fn backing_count(&self) -> (r: usize)
        ensures
            r == self@.buffers.len(),
    {
        self.buffers.len()
    }

    /// Whether the task holds a backing for the tensor id.
    pub fn has_backing(&self, tensor_id: u32) -> (r: bool)
        ensures
            r == (find_backing_index(self@.buffers, tensor_id) is Some),
    {
        match find_backing(&self.buffers, tensor_id) {
            Some(_) => true,
            None => false,
        }
    }

    /// Whether the tensor's backing holds a readback buffer.
    pub fn has_readback_buffer(&self, tensor_id: u32) -> (r: bool)
        ensures
            r == match find_backing_index(self@.buffers, tensor_id) {
                Some(i) => self@.buffers[i].readback is Some,
                None => false,
            },
    {
        match find_backing(&self.buffers, tensor_id) {
            Some(i) => {
                proof {
                    lemma_find_backing_index_char(backing_views(self.buffers@), tensor_id);
                }
                self.buffers[i].readback_buffer.is_some()
            },
            None => false,
        }
    }

    /// How many commands the task has recorded.
    pub fn command_count(&self) -> (r: usize)
        ensures
            r == self@.commands.len(),
    {
        self.commands.len()
    }

    /// The descriptors written into the task's set, in binding order.
    pub fn descriptor_writes(&self) -> (r: &Vec<DescriptorWrite>)
        ensures
            r@ == self@.writes,
    {
        &self.descriptor_writes
    }

    /// Whether the task has been torn down.
    pub fn released(&self) -> (r: bool)
        ensures
            r == self@.released,
    {
        self.released
    }
}

} // verus!

verus! {

impl GPUSyncPrimitive {
    /// The fence behind this handle.
    pub fn fence(&self) -> (r: u64)
        ensures
            r == self@.fence,
    {
        self.fence
    }

    /// The task this handle completes.
    pub fn task_id(&self) -> (r: u64)
        ensures
            r == self@.task_id,
    {
        self.task_id
    }
}

} // verus!
