//! Device and queue-family selection: the decisions behind one-shot device
//! initialization. The embedder queries the driver for each physical device's
//! kind and queue families and hands them in as plain values; these functions
//! pick the device and the queue family, and the embedder creates the device
//! and queue they name.

use vstd::prelude::*;

use crate::errors::InitError;

verus! {

/// What kind of physical device the driver reports.
#[derive(Debug, Clone, Copy, PartialEq, Eq, Structural)]
pub enum PhysicalDeviceKind {
    DiscreteGpu,
    IntegratedGpu,
    Other,
}

/// One queue family as the driver reports it.
#[derive(Debug, Clone, Copy, PartialEq, Eq, Structural)]
pub struct QueueFamilyDescription {
    pub queue_count: u32,
    pub supports_compute: bool,
    pub supports_graphics: bool,
}

/// One physical device as the driver reports it.
pub struct PhysicalDeviceDescription {
    pub kind: PhysicalDeviceKind,
    pub queue_families: Vec<QueueFamilyDescription>,
}

/// The mathematical value of a device description.
#[verifier::ext_equal]
pub ghost struct PhysicalDeviceView {
    pub kind: PhysicalDeviceKind,
    pub queue_families: Seq<QueueFamilyDescription>,
}

impl View for PhysicalDeviceDescription {
    type V = PhysicalDeviceView;

    closed spec fn view(&self) -> PhysicalDeviceView {
        PhysicalDeviceView { kind: self.kind, queue_families: self.queue_families@ }
    }
}

/// The queue family chosen for compute work, if any.
#[derive(Debug, Clone, Copy, PartialEq, Eq, Structural)]
pub struct QueueFamilyInfo {
    pub compute_queue: Option<u32>,
}

impl QueueFamilyInfo {
    /// Whether a compute queue family was chosen.
    pub fn complete(&self) -> (r: bool)
        ensures
            r == (self.compute_queue is Some),
    {
        self.compute_queue.is_some()
    }
}

/// The base points a device kind scores: discrete over integrated over the
/// rest.
pub open spec fn kind_points(kind: PhysicalDeviceKind) -> int {
    match kind {
        PhysicalDeviceKind::DiscreteGpu => 10,
        PhysicalDeviceKind::IntegratedGpu => 5,
        PhysicalDeviceKind::Other => 0,
    }
}

/// How many families with at least one queue support compute.
pub open spec fn compute_family_count(fams: Seq<QueueFamilyDescription>) -> int
    decreases fams.len(),
{
    if fams.len() == 0 {
        0
    } else {
        compute_family_count(fams.drop_last()) + (if fams.last().queue_count > 0
            && fams.last().supports_compute {
            1int
        } else {
            0int
        })
    }
}

/// A device's score: kind points plus five per compute-capable family.
pub open spec fn device_score_val(d: PhysicalDeviceView) -> int {
    kind_points(d.kind) + 5 * compute_family_count(d.queue_families)
}

/// A device's score, or nothing for a device with no compute-capable family.
pub open spec fn device_score(d: PhysicalDeviceView) -> Option<int> {
    if compute_family_count(d.queue_families) == 0 {
        None
    } else {
        Some(device_score_val(d))
    }
}

/// The compute-family count never drops below zero nor exceeds the family
/// count.
pub proof fn lemma_compute_family_count_bounds(fams: Seq<QueueFamilyDescription>)
    ensures
        0 <= compute_family_count(fams) <= fams.len(),
    decreases fams.len(),
{
    if fams.len() > 0 {
        lemma_compute_family_count_bounds(fams.drop_last());
    }
}

/// Scores a device: ten points for a discrete device, five for an integrated
/// one, plus five per queue family that has queues and supports compute; a
/// device with no such family scores nothing and cannot be used.
pub fn score_device(device: &PhysicalDeviceDescription) -> (r: Option<u32>)
    requires
        10 + 5 * device@.queue_families.len() <= u32::MAX,
    ensures
        r matches Some(v) ==> device_score(device@) == Some(v as int),
        r is None <==> device_score(device@) is None,
{
    proof {
        lemma_compute_family_count_bounds(device@.queue_families);
    }
    let points: u32 = match device.kind {
        PhysicalDeviceKind::DiscreteGpu => 10,
        PhysicalDeviceKind::IntegratedGpu => 5,
        PhysicalDeviceKind::Other => 0,
    };
    let ghost fams = device@.queue_families;
    let n = device.queue_families.len();
    let mut count: u32 = 0;
    let mut i: usize = 0;
    while i < n
        invariant
            n == fams.len(),
            i <= n,
            fams == device@.queue_families,
            10 + 5 * fams.len() <= u32::MAX,
            count as int == compute_family_count(fams.subrange(0, i as int)),
            count <= i,
        decreases n - i,
    {
        proof {
            lemma_compute_family_count_bounds(fams.subrange(0, i as int));
            assert(fams.subrange(0, i as int + 1).drop_last() =~= fams.subrange(0, i as int));
            assert(fams.subrange(0, i as int + 1).last() == fams[i as int]);
        }
        let f = device.queue_families[i];
        if f.queue_count > 0 && f.supports_compute {
            count = count + 1;
        }
        i = i + 1;
    }
    proof {
        assert(fams.subrange(0, n as int) =~= fams);
    }
    if count == 0 {
        return None;
    }
    Some(points + count * 5)
}

/// How desirable a queue family is for compute work: a dedicated compute
/// family beats one shared with graphics, which beats one without compute.
pub open spec fn family_priority(f: QueueFamilyDescription) -> int {
    if f.supports_compute {
        if f.supports_graphics {
            1
        } else {
            2
        }
    } else {
        0
    }
}

/// The index of the queue family chosen for compute work: the last
/// compute-capable family of highest priority, or nothing when no family
/// supports compute at all. Families without compute support are never
/// eligible: the core must get a compute-capable queue, and its absence is a
/// fatal initialization condition, not a silent fallback.
pub open spec fn best_family(fams: Seq<QueueFamilyDescription>) -> Option<int>
    decreases fams.len(),
{
    if fams.len() == 0 {
        None
    } else {
        match best_family(fams.drop_last()) {
            Some(b) => if fams.last().supports_compute && family_priority(fams.last())
                >= family_priority(fams[b]) {
                Some(fams.len() - 1)
            } else {
                Some(b)
            },
            None => if fams.last().supports_compute {
                Some(fams.len() - 1)
            } else {
                None
            },
        }
    }
}

/// The best family supports compute, is of maximal priority, and is the last
/// among the maximal ones; none exists exactly when no family supports
/// compute.
pub proof fn lemma_best_family_char(fams: Seq<QueueFamilyDescription>)
    ensures
        best_family(fams) is None <==> (forall|j: int|
            0 <= j < fams.len() ==> !(#[trigger] fams[j]).supports_compute),
        best_family(fams) matches Some(b) ==> 0 <= b < fams.len() && fams[b].supports_compute && (
        forall|j: int|
            0 <= j < fams.len() ==> family_priority(#[trigger] fams[j]) <= family_priority(
                fams[b],
            )) && (forall|j: int|
            b < j < fams.len() ==> family_priority(#[trigger] fams[j]) < family_priority(fams[b])),
    decreases fams.len(),
{
    if fams.len() > 0 {
        lemma_best_family_char(fams.drop_last());
        assert(forall|j: int| 0 <= j < fams.len() - 1 ==> fams.drop_last()[j] == fams[j]);
    }
}

/// Chooses the queue family for compute work: the last compute-capable family
/// of highest priority, preferring dedicated compute families over ones
/// shared with graphics. When no family supports compute — in particular when
/// there are no families at all — none is chosen and initialization cannot
/// proceed.
pub fn load_queue_family_info(families: &Vec<QueueFamilyDescription>) -> (r: QueueFamilyInfo)
    requires
        families@.len() <= u32::MAX,
    ensures
        match r.compute_queue {
            Some(q) => best_family(families@) == Some(q as int) && q < families@.len()
                && families@[q as int].supports_compute,
            None => best_family(families@) is None && (forall|j: int|
                0 <= j < families@.len() ==> !(#[trigger] families@[j]).supports_compute),
        },
{
    let ghost fams = families@;
    let n = families.len();
    let mut best: Option<usize> = None;
    let mut i: usize = 0;
    proof {
        assert(fams.subrange(0, 0) =~= Seq::<QueueFamilyDescription>::empty());
    }
    while i < n
        invariant
            i <= n,
            n == fams.len(),
            fams == families@,
            match best {
                Some(b) => best_family(fams.subrange(0, i as int)) == Some(b as int) && b < i
                    && fams[b as int].supports_compute,
                None => best_family(fams.subrange(0, i as int)) is None,
            },
        decreases n - i,
    {
        proof {
            assert(fams.subrange(0, i as int + 1).drop_last() =~= fams.subrange(0, i as int));
            assert(fams.subrange(0, i as int + 1).last() == fams[i as int]);
            match best {
                Some(b) => {
                    assert(fams.subrange(0, i as int)[b as int] == fams[b as int]);
                },
                None => {},
            }
        }
        let fi = families[i];
        if fi.supports_compute {
            let pi: u32 = if fi.supports_graphics {
                1
            } else {
                2
            };
            let take_new = match best {
                Some(b) => {
                    let fb = families[b];
                    let pb: u32 = if fb.supports_compute {
                        if fb.supports_graphics {
                            1
                        } else {
                            2
                        }
                    } else {
                        0
                    };
                    pi >= pb
                },
                None => true,
            };
            if take_new {
                best = Some(i);
            }
        }
        i = i + 1;
    }
    proof {
        assert(fams.subrange(0, n as int) =~= fams);
        lemma_best_family_char(fams);
    }
    match best {
        Some(b) => QueueFamilyInfo { compute_queue: Some(b as u32) },
        None => QueueFamilyInfo { compute_queue: None },
    }
}

/// Whether score `a` is at most score `b`, scoreless devices ranking below
/// every scored one.
pub open spec fn score_le(a: Option<int>, b: Option<int>) -> bool {
    match (a, b) {
        (None, _) => true,
        (Some(x), Some(y)) => x <= y,
        (Some(_), None) => false,
    }
}

/// The index of the chosen physical device: the last one of highest score,
/// scoreless devices ranking lowest, or nothing when there are no devices.
pub open spec fn best_device(ds: Seq<PhysicalDeviceView>) -> Option<int>
    decreases ds.len(),
{
    if ds.len() == 0 {
        None
    } else {
        match best_device(ds.drop_last()) {
            Some(b) => if score_le(device_score(ds[b]), device_score(ds.last())) {
                Some(ds.len() - 1)
            } else {
                Some(b)
            },
            None => Some(ds.len() - 1),
        }
    }
}

/// The chosen device has a maximal score, and is the last with it.
pub proof fn lemma_best_device_char(ds: Seq<PhysicalDeviceView>)
    ensures
        best_device(ds) is None <==> ds.len() == 0,
        best_device(ds) matches Some(b) ==> 0 <= b < ds.len() && (forall|j: int|
            0 <= j < ds.len() ==> score_le(device_score(#[trigger] ds[j]), device_score(ds[b])))
            && (forall|j: int|
            b < j < ds.len() ==> !score_le(device_score(ds[b]), device_score(#[trigger] ds[j]))),
    decreases ds.len(),
{
    if ds.len() > 0 {
        lemma_best_device_char(ds.drop_last());
        assert(forall|j: int| 0 <= j < ds.len() - 1 ==> ds.drop_last()[j] == ds[j]);
    }
}

/// The views of the reported devices, in order.
pub open spec fn device_views(ds: Seq<PhysicalDeviceDescription>) -> Seq<PhysicalDeviceView> {
    ds.map_values(|d: PhysicalDeviceDescription| d@)
}

/// Picks the physical device to initialize: the last device of highest
/// score; a device without a compute-capable queue family scores below every
/// scored device. Nothing is picked from an empty report.
pub fn select_physical_device(devices: &Vec<PhysicalDeviceDescription>) -> (r: Option<usize>)
    requires
        forall|j: int|
            0 <= j < devices@.len() ==> 10 + 5 * (#[trigger] devices@[j]@).queue_families.len()
                <= u32::MAX,
    ensures
        match r {
            Some(b) => best_device(device_views(devices@)) == Some(b as int),
            None => devices@.len() == 0,
        },
{
    let ghost ds = device_views(devices@);
    let n = devices.len();
    if n == 0 {
        return None;
    }
    let mut best: usize = 0;
    let mut best_score: Option<u32> = score_device(&devices[0]);
    let mut i: usize = 1;
    proof {
        assert(ds.subrange(0, 1).drop_last() =~= Seq::<PhysicalDeviceView>::empty());
        assert(best_device(Seq::<PhysicalDeviceView>::empty()) is None);
        assert(ds.subrange(0, 1)[0] == ds[0]);
        assert(best_device(ds.subrange(0, 1)) == Some(0int));
    }
    while i < n
        invariant
            1 <= i <= n,
            n == ds.len(),
            ds == device_views(devices@),
            forall|j: int|
                0 <= j < devices@.len() ==> 10 + 5 * (#[trigger] devices@[j]@).queue_families.len()
                    <= u32::MAX,
            best < i,
            best_device(ds.subrange(0, i as int)) == Some(best as int),
            match best_score {
                Some(v) => device_score(ds[best as int]) == Some(v as int),
                None => device_score(ds[best as int]) is None,
            },
        decreases n - i,
    {
        proof {
            assert(ds.subrange(0, i as int + 1).drop_last() =~= ds.subrange(0, i as int));
            assert(ds.subrange(0, i as int + 1).last() == ds[i as int]);
            assert(ds.subrange(0, i as int)[best as int] == ds[best as int]);
        }
        let score_i: Option<u32> = score_device(&devices[i]);
        let take_new: bool = match (&best_score, &score_i) {
            (None, _) => true,
            (Some(b), Some(x)) => *b <= *x,
            (Some(_), None) => false,
        };
        if take_new {
            best = i;
            best_score = score_i;
        }
        i = i + 1;
    }
    proof {
        assert(ds.subrange(0, n as int) =~= ds);
    }
    Some(best)
}

/// The device and queue-family indices initialization will use.
#[derive(Debug, Clone, Copy, PartialEq, Eq, Structural)]
pub struct DeviceInitPlan {
    pub device_index: usize,
    pub queue_family_index: u32,
}

/// Decides device initialization from the driver's report: picks the
/// best-scoring device, then the best compute-capable queue family on it. An
/// empty report fails with `NoDevices`; a chosen device none of whose queue
/// families supports compute fails with `NoComputeQueue` — a missing compute
/// queue is detected, never papered over with an unusable family. The
/// embedder performs the driver calls this plan names.
pub fn plan_device_initialization(devices: &Vec<PhysicalDeviceDescription>) -> (r: Result<
    DeviceInitPlan,
    InitError,
>)
    requires
        forall|j: int|
            0 <= j < devices@.len() ==> 10 + 5 * (#[trigger] devices@[j]@).queue_families.len()
                <= u32::MAX,
    ensures
        r matches Err(e) ==> (e == InitError::NoDevices <==> devices@.len() == 0),
        (r matches Err(e) && e == InitError::NoComputeQueue) ==> (best_device(
            device_views(devices@),
        ) matches Some(b) && (forall|j: int|
            0 <= j < device_views(devices@)[b].queue_families.len() ==> !(
            #[trigger] device_views(devices@)[b].queue_families[j]).supports_compute)),
        r matches Ok(p) ==> {
            &&& best_device(device_views(devices@)) == Some(p.device_index as int)
            &&& p.device_index < devices@.len()
            &&& best_family(device_views(devices@)[p.device_index as int].queue_families) == Some(
                p.queue_family_index as int,
            )
            &&& p.queue_family_index < device_views(
                devices@,
            )[p.device_index as int].queue_families.len()
            &&& device_views(devices@)[p.device_index as int].queue_families[p.queue_family_index as int].supports_compute
        },
        (r matches Ok(_)) <==> (devices@.len() > 0 && (best_device(device_views(devices@))
            matches Some(b) && best_family(device_views(devices@)[b].queue_families) is Some)),
{
    let idx = match select_physical_device(devices) {
        Some(i) => i,
        None => {
            return Err(InitError::NoDevices);
        },
    };
    proof {
        lemma_best_device_char(device_views(devices@));
        assert(device_views(devices@)[idx as int] == devices@[idx as int]@);
    }
    let chosen = &devices[idx];
    let info = load_queue_family_info(&chosen.queue_families);
    proof {
        lemma_best_family_char(devices@[idx as int]@.queue_families);
    }
    match info.compute_queue {
        Some(q) => Ok(DeviceInitPlan { device_index: idx, queue_family_index: q }),
        None => Err(InitError::NoComputeQueue),
    }
}

} // verus!
