//! The laws of the task lifecycle, stated over the same model the functions'
//! contracts use: what a built task holds for each bound tensor, which
//! tensors readback can touch, and the identity round trip through upload,
//! dispatch and download.

use vstd::prelude::*;

use crate::task::{
    apply_command, backing_apply_copy, backing_for, build_backings, can_download, can_upload,
    device_sync_local_result, distinct_ids, download_fold, download_step, find_backing_index,
    has_id, is_readback_copy, is_staging_copy, lemma_apply_command_shape,
    lemma_build_backings_props, lemma_find_backing_index_char, lemma_find_backing_index_unique,
    lemma_run_commands_append, lemma_run_commands_shape, lemma_run_commands_snoc,
    lemma_same_shape_trans, lemma_shape_eq_owns, lemma_task_counts_nonneg,
    lemma_task_counts_prefix, local_sync_device_result, pipeline_dispatch_result, run_commands,
    same_shape, sync_tensor_view, task_allocs, upload_barrier, upload_command, upload_fold,
    upload_step, uploaded_backing, BackingView, Command, GPUTaskView,
};
use crate::allocator::BufferView;
use crate::tensor::TensorView;

verus! {

/// The backing a task holds for the first occurrence of a tensor id is
/// exactly the triad built for that tensor.
pub proof fn lemma_backing_of_first_occurrence(ts: Seq<TensorView>, next0: int, qf: u32, i: int)
    requires
        forall|j: int| 0 <= j < ts.len() ==> (#[trigger] ts[j]).data.len() > 0,
        forall|j: int| 0 <= j < ts.len() ==> 4 * (#[trigger] ts[j]).data.len() <= u64::MAX,
        forall|j: int| 0 <= j < ts.len() ==> (#[trigger] ts[j]).data.len() <= usize::MAX,
        0 <= next0,
        next0 + task_allocs(ts) <= u64::MAX,
        0 <= i < ts.len(),
        !has_id(ts.subrange(0, i), ts[i].id),
    ensures
        exists|k: int|
            0 <= k < build_backings(ts, next0, qf).len() && #[trigger] build_backings(
                ts,
                next0,
                qf,
            )[k] == backing_for(ts[i], next0 + task_allocs(ts.subrange(0, i)), qf),
    decreases ts.len(),
{
    let bb = build_backings(ts, next0, qf);
    let prefix = ts.drop_last();
    lemma_task_counts_nonneg(ts);
    if i == ts.len() - 1 {
        assert(ts.subrange(0, i) =~= prefix);
        if has_id(prefix, ts[i].id) {
            assert(false);
        }
        let k = build_backings(prefix, next0, qf).len() as int;
        assert(bb[k] == backing_for(ts[i], next0 + task_allocs(prefix), qf));
    } else {
        assert(forall|j: int| 0 <= j < prefix.len() ==> prefix[j] == ts[j]);
        assert(prefix.subrange(0, i) =~= ts.subrange(0, i));
        lemma_task_counts_prefix(prefix, i);
        lemma_backing_of_first_occurrence(prefix, next0, qf, i);
        let k = choose|k: int|
            0 <= k < build_backings(prefix, next0, qf).len() && #[trigger] build_backings(
                prefix,
                next0,
                qf,
            )[k] == backing_for(prefix[i], next0 + task_allocs(prefix.subrange(0, i)), qf);
        if has_id(prefix, ts.last().id) {
            assert(bb == build_backings(prefix, next0, qf));
            assert(bb[k] == backing_for(ts[i], next0 + task_allocs(ts.subrange(0, i)), qf));
        } else {
            assert(bb == build_backings(prefix, next0, qf).push(
                backing_for(ts.last(), next0 + task_allocs(prefix), qf),
            ));
            assert(bb[k] == backing_for(ts[i], next0 + task_allocs(ts.subrange(0, i)), qf));
        }
    }
}

/// A tensor bound with readback disabled gets no readback buffer: the backing
/// a task builds for it holds a device-local and a staging buffer and nothing
/// else.
pub proof fn lemma_readback_disabled_no_buffer(ts: Seq<TensorView>, next0: int, qf: u32, i: int)
    requires
        forall|j: int| 0 <= j < ts.len() ==> (#[trigger] ts[j]).data.len() > 0,
        forall|j: int| 0 <= j < ts.len() ==> 4 * (#[trigger] ts[j]).data.len() <= u64::MAX,
        forall|j: int| 0 <= j < ts.len() ==> (#[trigger] ts[j]).data.len() <= usize::MAX,
        0 <= next0,
        next0 + task_allocs(ts) <= u64::MAX,
        0 <= i < ts.len(),
        !has_id(ts.subrange(0, i), ts[i].id),
        !ts[i].readback_enabled,
    ensures
        exists|k: int|
            0 <= k < build_backings(ts, next0, qf).len() && (#[trigger] build_backings(
                ts,
                next0,
                qf,
            )[k]).tensor_id == ts[i].id && build_backings(ts, next0, qf)[k].readback is None
                && build_backings(ts, next0, qf)[k].gpu is Some && build_backings(
                ts,
                next0,
                qf,
            )[k].staging is Some,
{
    lemma_backing_of_first_occurrence(ts, next0, qf, i);
    let k = choose|k: int|
        0 <= k < build_backings(ts, next0, qf).len() && #[trigger] build_backings(ts, next0, qf)[k]
            == backing_for(ts[i], next0 + task_allocs(ts.subrange(0, i)), qf);
    assert(build_backings(ts, next0, qf)[k].readback is None);
}

/// A task holds exactly one backing per distinct bound tensor id, each with
/// its device-local and staging buffer present.
pub proof fn lemma_task_backing_count(ts: Seq<TensorView>, next0: int, qf: u32)
    requires
        forall|j: int| 0 <= j < ts.len() ==> (#[trigger] ts[j]).data.len() > 0,
        forall|j: int| 0 <= j < ts.len() ==> 4 * (#[trigger] ts[j]).data.len() <= u64::MAX,
        forall|j: int| 0 <= j < ts.len() ==> (#[trigger] ts[j]).data.len() <= usize::MAX,
        0 <= next0,
        next0 + task_allocs(ts) <= u64::MAX,
    ensures
        build_backings(ts, next0, qf).len() == distinct_ids(ts),
        forall|k: int|
            0 <= k < build_backings(ts, next0, qf).len() ==> (#[trigger] build_backings(
                ts,
                next0,
                qf,
            )[k]).gpu is Some && build_backings(ts, next0, qf)[k].staging is Some,
        forall|id: u32| #[trigger]
            has_id(ts, id) <==> (exists|k: int|
                0 <= k < build_backings(ts, next0, qf).len() && (#[trigger] build_backings(
                    ts,
                    next0,
                    qf,
                )[k]).tensor_id == id),
    {
    lemma_build_backings_props(ts, next0, qf);
    assert forall|k: int|
        0 <= k < build_backings(ts, next0, qf).len() implies (#[trigger] build_backings(
        ts,
        next0,
        qf,
    )[k]).gpu is Some && build_backings(ts, next0, qf)[k].staging is Some by {
        assert(build_backings(ts, next0, qf)[k].complete());
    }
}

/// A readback sync that names a tensor whose backing has no readback buffer
/// records nothing for it: the step reports and skips.
pub proof fn lemma_no_readback_no_copy(cmds: Seq<Command>, bufs: Seq<BackingView>, t: TensorView)
    requires
        find_backing_index(bufs, t.id) matches Some(i) ==> bufs[i].readback is None,
    ensures
        download_step(cmds, bufs, t) == cmds,
{
}

/// A readback sync that names a tensor with no backing in the task records
/// nothing for it: the step reports and skips, and cannot fail.
pub proof fn lemma_missing_backing_no_copy(cmds: Seq<Command>, bufs: Seq<BackingView>, t: TensorView)
    requires
        find_backing_index(bufs, t.id) is None,
    ensures
        download_step(cmds, bufs, t) == cmds,
{
}

/// No recorded command ever writes a staging buffer: whatever runs, each
/// backing keeps its staging words, its identity and its shape.
pub proof fn lemma_run_preserves_staging(bufs: Seq<BackingView>, cmds: Seq<Command>)
    ensures
        run_commands(bufs, cmds).len() == bufs.len(),
        forall|k: int|
            0 <= k < bufs.len() ==> (#[trigger] run_commands(bufs, cmds)[k]).staging == bufs[
                k
            ].staging && run_commands(bufs, cmds)[k].tensor_id == bufs[k].tensor_id,
    decreases cmds.len(),
{
    if cmds.len() == 0 {
    } else {
        lemma_apply_command_shape(bufs, cmds[0]);
        lemma_run_preserves_staging(apply_command(bufs, cmds[0]), cmds.skip(1));
        assert forall|k: int|
            0 <= k < bufs.len() implies (#[trigger] apply_command(bufs, cmds[0])[k]).staging
            == bufs[k].staging && apply_command(bufs, cmds[0])[k].tensor_id == bufs[
            k
        ].tensor_id by {
            match cmds[0] {
                Command::CopyBuffer { src, dst, words } => {
                    assert(apply_command(bufs, cmds[0])[k] == backing_apply_copy(
                        bufs[k],
                        src,
                        dst,
                        words,
                    ));
                },
                _ => {},
            }
        }
    }
}

/// A copy whose source handle a backing does not own leaves that backing as
/// it is.
pub proof fn lemma_copy_elsewhere(b: BackingView, src: u64, dst: u64, words: usize)
    requires
        !b.owns_id(src),
    ensures
        backing_apply_copy(b, src, dst, words) == b,
{
}

} // verus!

verus! {

/// Identity round trip: on a task holding a backing for tensor `x` with
/// readback enabled and sized for it, recording an upload of `x`, a dispatch,
/// and a download of `x`, and then running the whole recorded stream, leaves
/// `x`'s words in the readback buffer, so that awaiting restores data equal
/// to `x`'s — whatever was recorded before, since no recorded command ever
/// writes a staging region, and an unchanged device buffer is exactly what an
/// identity shader leaves.
pub proof fn lemma_identity_round_trip(
    tv: GPUTaskView,
    x: TensorView,
    i: int,
    wx: u32,
    wy: u32,
    wz: u32,
)
    requires
        tv.wf(),
        !tv.released,
        find_backing_index(tv.buffers, x.id) == Some(i),
        0 <= i < tv.buffers.len(),
        tv.buffers[i].readback_enabled,
        tv.buffers[i].words == x.data.len(),
    ensures
        ({
            let done = device_sync_local_result(
                pipeline_dispatch_result(local_sync_device_result(tv, seq![x]), wx, wy, wz),
                seq![x],
            );
            sync_tensor_view(run_commands(done.buffers, done.commands), x).data == x.data
        }),
{
    let b0 = tv.buffers;
    lemma_find_backing_index_char(b0, x.id);
    assert(b0[i].tensor_id == x.id);
    assert(b0[i].complete());
    let s = b0[i].staging.unwrap();
    let g = b0[i].gpu.unwrap();
    let r = b0[i].readback.unwrap();
    let words = x.data.len() as usize;
    assert(s.data.len() == x.data.len());
    assert(g.data.len() == x.data.len());
    assert(r.data.len() == x.data.len());

    // One upload step: x's words land in its staging region and one
    // staging-to-device copy is recorded.
    let xs = seq![x];
    assert(xs.drop_last() =~= Seq::<TensorView>::empty());
    assert(xs.last() == x);
    let st0 = (tv.buffers, tv.commands);
    assert(upload_fold(st0, Seq::<TensorView>::empty()) == st0);
    assert(upload_fold(st0, xs) == upload_step(st0, x));
    assert(can_upload(b0[i], x));
    let bufs1 = b0.update(i, uploaded_backing(b0[i], x));
    let cmd_up = upload_command(b0[i], x);
    assert(cmd_up == Command::CopyBuffer { src: s.id, dst: g.id, words });
    assert(upload_step(st0, x) == (bufs1, tv.commands.push(cmd_up)));

    let tv1 = local_sync_device_result(tv, xs);
    assert(tv1.buffers == bufs1);
    assert(tv1.commands == tv.commands.push(cmd_up).push(upload_barrier()));

    let tv2 = pipeline_dispatch_result(tv1, wx, wy, wz);
    let disp = Command::Dispatch { x: wx, y: wy, z: wz };

    // One download step: one device-to-readback copy is recorded.
    assert(bufs1[i].tensor_id == x.id);
    assert(forall|j: int| 0 <= j < b0.len() ==> (#[trigger] bufs1[j]).tensor_id == b0[j].tensor_id);
    lemma_find_backing_index_char(b0, x.id);
    lemma_find_backing_index_unique(bufs1, x.id, i);
    assert(bufs1[i].gpu == Some(g));
    assert(bufs1[i].readback == Some(r));
    assert(can_download(bufs1[i], x));
    let cmd_down = Command::CopyBuffer { src: g.id, dst: r.id, words };
    let tv3 = device_sync_local_result(tv2, xs);
    let cmds_before_down = tv2.commands.push(crate::task::download_barrier());
    assert(download_fold(cmds_before_down, bufs1, Seq::<TensorView>::empty()) == cmds_before_down);
    assert(download_fold(cmds_before_down, bufs1, xs) == download_step(
        cmds_before_down,
        bufs1,
        x,
    ));
    assert(tv3.commands == cmds_before_down.push(cmd_down));
    assert(tv3.buffers == bufs1);

    // The whole stream is the prior recording followed by the five commands.
    let tail = seq![cmd_up, upload_barrier(), disp, crate::task::download_barrier(), cmd_down];
    assert(tv3.commands =~= tv.commands + tail);
    lemma_run_commands_append(bufs1, tv.commands, tail);
    let s1 = run_commands(bufs1, tv.commands);

    // The prior recording cannot touch any staging region, nor any shape.
    crate::laws::lemma_run_preserves_staging(bufs1, tv.commands);
    lemma_run_commands_shape(bufs1, tv.commands);
    assert(s1[i].staging == Some(BufferView { data: x.data, ..s }));

    // Shapes agree all the way back to the buffers the task was built with.
    assert(same_shape(b0, bufs1));
    lemma_same_shape_trans(b0, bufs1, s1);

    // Only backing `i` owns the handles the two copies name.
    assert(b0[i].owns_id(s.id));
    assert(b0[i].owns_id(g.id));
    assert(b0[i].owns_id(r.id));
    assert forall|j: int| 0 <= j < b0.len() && j != i implies !(#[trigger] s1[j]).owns_id(s.id)
        && !s1[j].owns_id(g.id) by {
        lemma_shape_eq_owns(b0[j], s1[j], s.id);
        lemma_shape_eq_owns(b0[j], s1[j], g.id);
        if b0[j].owns_id(s.id) {
            assert(false);
        }
        if b0[j].owns_id(g.id) {
            assert(false);
        }
    }

    // The upload copy lands x's words in the device-local buffer.
    let a1 = apply_command(s1, cmd_up);
    assert(is_staging_copy(s1[i], s.id, g.id, words));
    assert(a1[i] == backing_apply_copy(s1[i], s.id, g.id, words));
    assert(a1[i].gpu.unwrap().data =~= x.data);
    assert forall|j: int| 0 <= j < b0.len() && j != i implies #[trigger] a1[j] == s1[j] by {
        lemma_copy_elsewhere(s1[j], s.id, g.id, words);
    }
    assert(a1[i].staging == s1[i].staging);
    assert(a1[i].readback == s1[i].readback);
    assert(a1[i].tensor_id == x.id);

    // Barriers and the dispatch leave memory untouched.
    lemma_run_commands_snoc(bufs1, tv.commands + seq![cmd_up], upload_barrier());
    lemma_run_commands_snoc(
        bufs1,
        tv.commands + seq![cmd_up, upload_barrier()],
        disp,
    );
    lemma_run_commands_snoc(
        bufs1,
        tv.commands + seq![cmd_up, upload_barrier(), disp],
        crate::task::download_barrier(),
    );
    lemma_run_commands_snoc(
        bufs1,
        tv.commands + seq![cmd_up, upload_barrier(), disp, crate::task::download_barrier()],
        cmd_down,
    );

    // Stitch the runs together step by step.
    let p1 = tv.commands + seq![cmd_up];
    let p2 = tv.commands + seq![cmd_up, upload_barrier()];
    let p3 = tv.commands + seq![cmd_up, upload_barrier(), disp];
    let p4 = tv.commands + seq![cmd_up, upload_barrier(), disp, crate::task::download_barrier()];
    let p5 = tv.commands + tail;
    assert(p2 =~= p1.push(upload_barrier()));
    assert(p3 =~= p2.push(disp));
    assert(p4 =~= p3.push(crate::task::download_barrier()));
    assert(p5 =~= p4.push(cmd_down));
    assert(p1 =~= tv.commands.push(cmd_up));
    lemma_run_commands_snoc(bufs1, tv.commands, cmd_up);
    assert(run_commands(bufs1, p1) == a1);
    lemma_run_commands_snoc(bufs1, p1, upload_barrier());
    assert(run_commands(bufs1, p2) == a1);
    lemma_run_commands_snoc(bufs1, p2, disp);
    assert(run_commands(bufs1, p3) == a1);
    lemma_run_commands_snoc(bufs1, p3, crate::task::download_barrier());
    assert(run_commands(bufs1, p4) == a1);
    lemma_run_commands_snoc(bufs1, p4, cmd_down);
    let a2 = apply_command(a1, cmd_down);
    assert(run_commands(bufs1, p5) == a2);

    // The download copy moves them on into the readback buffer.
    assert(s.id != g.id && g.id != r.id && s.id != r.id);
    assert(!is_staging_copy(a1[i], g.id, r.id, words));
    assert(is_readback_copy(a1[i], g.id, r.id, words));
    assert(a2[i] == backing_apply_copy(a1[i], g.id, r.id, words));
    assert(a2[i].readback.unwrap().data =~= x.data);
    assert forall|j: int| 0 <= j < b0.len() && j != i implies #[trigger] a2[j] == a1[j] by {
        lemma_shape_eq_owns(b0[j], s1[j], g.id);
        lemma_copy_elsewhere(a1[j], g.id, r.id, words);
    }

    // Awaiting finds the backing and restores the tensor in place.
    assert(forall|j: int| 0 <= j < b0.len() ==> (#[trigger] a2[j]).tensor_id == b0[j].tensor_id);
    lemma_find_backing_index_unique(a2, x.id, i);
    assert(a2[i].readback.unwrap().data.len() == x.data.len());
    assert(sync_tensor_view(a2, x).data == a2[i].readback.unwrap().data);
}

} // verus!

verus! {

/// Submission and completion together run exactly the recorded stream:
/// running up to any split point and then running the rest is running the
/// whole, so what `exec_task` leaves for `await_task` composes to one pass
/// over the task's commands in recording order.
pub proof fn lemma_split_run(bufs: Seq<BackingView>, cmds: Seq<Command>, s: int)
    requires
        0 <= s <= cmds.len(),
    ensures
        run_commands(
            run_commands(bufs, cmds.subrange(0, s)),
            cmds.subrange(s, cmds.len() as int),
        ) == run_commands(bufs, cmds),
{
    assert(cmds.subrange(0, s) + cmds.subrange(s, cmds.len() as int) =~= cmds);
    lemma_run_commands_append(bufs, cmds.subrange(0, s), cmds.subrange(s, cmds.len() as int));
}

} // verus!
