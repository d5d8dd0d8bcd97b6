//! The write surface: the one gateway for writes to the source buffer.
//!
//! A producer asks for a guard over a region, writes to the guard's own copy
//! of the region and commits it. The commit moves the copy into the staging
//! copy of the buffer and hands out the handle of the transfer that carries
//! it to the device. Guards that are live at one time never share an index.
//!
//! [`SurfaceView`] holds the state of a surface as plain values, with one
//! function for each step; the executable functions are stated over it, and
//! so are the rules of the guard discipline.

use vstd::prelude::*;
use vstd::slice::slice_subrange;
use crate::buffer::{copy_range, overwrite, store_at, DeviceBuffer, MemAccess};
use crate::error::PipelineError;
use crate::region::{lemma_overlap_bounds, lemma_overlap_symmetric, Region};

verus! {

/// Whether some region of `regions` contains index `i`.
pub open spec fn covers(regions: Seq<Region>, i: int) -> bool {
    exists|k: int| 0 <= k < regions.len() && (#[trigger] regions[k]).contains(i)
}

/// Whether no region of `regions` has an index in common with `r`.
pub open spec fn clear_of(regions: Seq<Region>, r: Region) -> bool {
    forall|k: int| 0 <= k < regions.len() ==> !(#[trigger] regions[k]).overlaps(r)
}

/// Whether no two regions of `regions` have an index in common.
pub open spec fn pairwise_disjoint(regions: Seq<Region>) -> bool {
    forall|j: int, k: int|
        0 <= j < k < regions.len() ==> !(#[trigger] regions[j]).overlaps(#[trigger] regions[k])
}

/// Whether every region of `regions` lies inside a buffer of `length` elements.
pub open spec fn all_within(regions: Seq<Region>, length: int) -> bool {
    forall|k: int| 0 <= k < regions.len() ==> (#[trigger] regions[k]).within(length)
}

/// The reason for which a write of `data` over `r` to a buffer of `length`
/// elements is refused, if there is one: the region reaches past the end of
/// the buffer, or, where it does not, `data` has not one element for each
/// index of the region.
pub open spec fn write_fault(r: Region, data: Seq<i32>, length: int) -> Option<PipelineError> {
    if !r.within(length) {
        Some(PipelineError::RegionOutOfBounds)
    } else if data.len() != r.len {
        Some(PipelineError::LengthMismatch)
    } else {
        None
    }
}

/// The state of a write surface as plain values.
pub struct SurfaceView {
    /// The host-visible staging copy of the source buffer.
    pub staged: Seq<i32>,
    /// The source buffer as the device holds it.
    pub flushed: Seq<i32>,
    /// The regions of the guards that are live, in the order of their grant.
    pub live: Seq<Region>,
    /// The regions of the committed writes whose transfer is not yet confirmed.
    pub pending: Seq<Region>,
}

impl SurfaceView {
    /// The number of elements of the source buffer.
    pub open spec fn len(self) -> int {
        self.staged.len() as int
    }

    /// The invariant of a surface: both copies have one length, live guards lie
    /// inside the buffer and never share an index, and wherever the device
    /// copy differs from the staging copy a transfer is still pending.
    pub open spec fn wf(self) -> bool {
        &&& self.staged.len() == self.flushed.len()
        &&& all_within(self.live, self.len())
        &&& pairwise_disjoint(self.live)
        &&& all_within(self.pending, self.len())
        &&& forall|i: int|
            0 <= i < self.len() && #[trigger] self.staged[i] != self.flushed[i] ==> covers(
                self.pending,
                i,
            )
    }

    /// Whether a guard over `r` is granted at once: `r` lies inside the buffer
    /// and no live guard shares an index with it.
    pub open spec fn grants(self, r: Region) -> bool {
        r.within(self.len()) && clear_of(self.live, r)
    }

    /// The surface after a guard over `r` was granted.
    pub open spec fn acquire(self, r: Region) -> SurfaceView {
        SurfaceView { live: self.live.push(r), ..self }
    }

    /// The surface after the guard over `r` committed `data`.
    pub open spec fn commit(self, r: Region, data: Seq<i32>) -> SurfaceView {
        SurfaceView {
            staged: overwrite(self.staged, r.start as int, data),
            live: self.live.remove_value(r),
            pending: self.pending.push(r),
            ..self
        }
    }

    /// The surface after the transfer of a committed write over `r` was confirmed.
    pub open spec fn confirm(self, r: Region) -> SurfaceView {
        SurfaceView {
            flushed: overwrite(
                self.flushed,
                r.start as int,
                self.staged.subrange(r.start as int, r.end()),
            ),
            pending: self.pending.remove_value(r),
            ..self
        }
    }

    /// Whether no committed write is still in flight.
    pub open spec fn synced(self) -> bool {
        self.pending.len() == 0
    }
}

/// A guard as plain values.
pub struct GuardView {
    /// The region the guard has exclusive access to.
    pub region: Region,
    /// The guard's private view of that region: one element per index.
    pub data: Seq<i32>,
    /// Whether the guard was committed.
    pub released: bool,
}

impl GuardView {
    /// Whether the guard can be committed to `surface`: it was not committed
    /// before, and its region is live there.
    pub open spec fn committable(self, surface: SurfaceView) -> bool {
        !self.released && surface.live.contains(self.region)
    }

    /// The guard after its commit.
    pub open spec fn committed(self) -> GuardView {
        GuardView { released: true, ..self }
    }
}

/// The handle of one transfer as plain values.
pub struct FlushView {
    /// The region that the transfer carries to the device.
    pub region: Region,
    /// Whether the transfer is known to be complete.
    pub confirmed: bool,
}

/// Exclusive access to one region of the staging copy.
///
/// A guard holds its own copy of the region, filled from the staging copy when
/// the guard is granted. Writes go to that copy until `commit` moves it into
/// the staging copy and ends the exclusivity.
#[derive(Debug)]
pub struct WriteGuard {
    region: Region,
    data: Vec<i32>,
    released: bool,
}

/// The handle of the transfer that carries one committed write to the device.
#[derive(Debug)]
pub struct PendingFlush {
    region: Region,
    confirmed: bool,
}

/// What a request for a guard comes to when the region lies inside the buffer.
#[derive(Debug)]
pub enum Acquisition {
    /// The region was free: the guard is live from now on.
    Granted(WriteGuard),
    /// A live guard shares an index with the region: ask again after a commit.
    MustWait,
}

/// The one gateway for writes to the source buffer.
///
/// It keeps the staging copy that producers write through guards, the source
/// buffer on the device, the regions of the live guards and the regions of the
/// transfers that are still in flight.
#[derive(Debug)]
pub struct WriteSurface {
    staging: Vec<i32>,
    device: DeviceBuffer,
    live: Vec<Region>,
    pending: Vec<Region>,
}

impl View for WriteGuard {
    type V = GuardView;

    closed spec fn view(&self) -> GuardView {
        GuardView { region: self.region, data: self.data@, released: self.released }
    }
}

impl View for PendingFlush {
    type V = FlushView;

    closed spec fn view(&self) -> FlushView {
        FlushView { region: self.region, confirmed: self.confirmed }
    }
}

impl View for WriteSurface {
    type V = SurfaceView;

    closed spec fn view(&self) -> SurfaceView {
        SurfaceView {
            staged: self.staging@,
            flushed: self.device@,
            live: self.live@,
            pending: self.pending@,
        }
    }
}

/// What stands at each position once the region at position `k` is taken out.
proof fn lemma_remove_index(regions: Seq<Region>, k: int, j: int)
    requires
        0 <= k < regions.len(),
        0 <= j < regions.len() - 1,
    ensures
        regions.remove(k).len() == regions.len() - 1,
        regions.remove(k)[j] == regions[if j < k {
            j
        } else {
            j + 1
        }],
{
}

/// Taking one region out keeps the others inside the buffer.
proof fn lemma_remove_within(regions: Seq<Region>, k: int, length: int)
    requires
        0 <= k < regions.len(),
        all_within(regions, length),
    ensures
        all_within(regions.remove(k), length),
{
    let rest = regions.remove(k);
    assert forall|j: int| 0 <= j < rest.len() implies (#[trigger] rest[j]).within(length) by {
        lemma_remove_index(regions, k, j);
        assert(regions[if j < k { j } else { j + 1 }].within(length));
    }
}

/// Taking one region out keeps the others disjoint.
proof fn lemma_remove_disjoint(regions: Seq<Region>, k: int)
    requires
        0 <= k < regions.len(),
        pairwise_disjoint(regions),
    ensures
        pairwise_disjoint(regions.remove(k)),
{
    let rest = regions.remove(k);
    assert forall|i: int, j: int| 0 <= i < j < rest.len() implies !(#[trigger] rest[i]).overlaps(
        #[trigger] rest[j],
    ) by {
        lemma_remove_index(regions, k, i);
        lemma_remove_index(regions, k, j);
        let a = if i < k { i } else { i + 1 };
        let b = if j < k { j } else { j + 1 };
        assert(!regions[a].overlaps(regions[b]));
    }
}

/// An index that a region other than the one taken out contains stays covered.
proof fn lemma_remove_covers(regions: Seq<Region>, k: int, i: int)
    requires
        0 <= k < regions.len(),
        covers(regions, i),
        !regions[k].contains(i),
    ensures
        covers(regions.remove(k), i),
{
    let w = choose|w: int| 0 <= w < regions.len() && (#[trigger] regions[w]).contains(i);
    let j = if w < k { w } else { w - 1 };
    lemma_remove_index(regions, k, j);
    assert(regions.remove(k)[j].contains(i));
}

/// The position of the first occurrence of a region that occurs.
proof fn lemma_occurrence(regions: Seq<Region>, r: Region) -> (k: int)
    requires
        regions.contains(r),
    ensures
        0 <= k < regions.len(),
        regions[k] == r,
        regions.remove_value(r) == regions.remove(k),
{
    regions.index_of_first_ensures(r);
    regions.index_of_first(r).unwrap()
}

/// The index at which `remove_value` takes `r` out of `regions`.
pub(crate) proof fn lemma_first_occurrence(regions: Seq<Region>, r: Region, k: int)
    requires
        0 <= k < regions.len(),
        regions[k] == r,
        forall|j: int| 0 <= j < k ==> regions[j] != r,
    ensures
        regions.remove_value(r) == regions.remove(k),
{
    regions.index_of_first_ensures(r);
    assert(regions.contains(r));
    let idx = regions.index_of_first(r).unwrap();
    if idx < k {
        assert(regions[idx] != r);
    }
    if k < idx {
        assert(regions[k] != r);
    }
}

/// Granting a guard keeps the invariant of the surface.
pub proof fn lemma_acquire_keeps_wf(v: SurfaceView, r: Region)
    requires
        v.wf(),
        v.grants(r),
    ensures
        v.acquire(r).wf(),
{
    let after = v.acquire(r);
    assert forall|j: int, k: int| 0 <= j < k < after.live.len() implies !(
    #[trigger] after.live[j]).overlaps(#[trigger] after.live[k]) by {
        if k == v.live.len() {
            assert(!v.live[j].overlaps(r));
        } else {
            assert(!v.live[j].overlaps(v.live[k]));
        }
    }
    assert forall|j: int| 0 <= j < after.live.len() implies (#[trigger] after.live[j]).within(
        after.len(),
    ) by {
        if j < v.live.len() {
            assert(v.live[j].within(v.len()));
        }
    }
}

/// Committing a live guard keeps the invariant of the surface.
pub proof fn lemma_commit_keeps_wf(v: SurfaceView, r: Region, data: Seq<i32>)
    requires
        v.wf(),
        v.live.contains(r),
        data.len() == r.len,
    ensures
        v.commit(r, data).wf(),
{
    let after = v.commit(r, data);
    let k = lemma_occurrence(v.live, r);
    lemma_remove_within(v.live, k, v.len());
    lemma_remove_disjoint(v.live, k);
    assert forall|j: int| 0 <= j < after.pending.len() implies (#[trigger] after.pending[j]).within(
        after.len(),
    ) by {
        if j < v.pending.len() {
            assert(v.pending[j].within(v.len()));
        } else {
            assert(v.live[k].within(v.len()));
        }
    }
    assert forall|i: int|
        0 <= i < after.len() && #[trigger] after.staged[i] != after.flushed[i] implies covers(
        after.pending,
        i,
    ) by {
        if r.contains(i) {
            assert(after.pending[v.pending.len() as int].contains(i));
        } else {
            assert(v.staged[i] != v.flushed[i]);
            let w = choose|w: int| 0 <= w < v.pending.len() && (#[trigger] v.pending[w]).contains(i);
            assert(after.pending[w].contains(i));
        }
    }
}

/// What the device holds at index `i` once the transfer over `r` is confirmed:
/// the staged element inside `r`, and what it held before elsewhere.
pub proof fn lemma_confirm_element(v: SurfaceView, r: Region, i: int)
    requires
        v.staged.len() == v.flushed.len(),
        r.within(v.len()),
        0 <= i < v.len(),
    ensures
        v.confirm(r).flushed.len() == v.flushed.len(),
        v.confirm(r).flushed[i] == if r.contains(i) {
            v.staged[i]
        } else {
            v.flushed[i]
        },
{
}

/// Confirming a pending transfer keeps the invariant of the surface.
pub proof fn lemma_confirm_keeps_wf(v: SurfaceView, r: Region)
    requires
        v.wf(),
        v.pending.contains(r),
    ensures
        v.confirm(r).wf(),
{
    let after = v.confirm(r);
    let k = lemma_occurrence(v.pending, r);
    let rest = v.pending.remove(k);
    assert(after.pending == rest);
    assert(v.pending[k].within(v.len()));
    assert(all_within(rest, v.len())) by {
        lemma_remove_within(v.pending, k, v.len());
    }
    assert(after.flushed.len() == v.flushed.len()) by {
        if v.len() > 0 {
            lemma_confirm_element(v, r, 0);
        }
    }
    assert forall|i: int|
        0 <= i < after.len() && #[trigger] after.staged[i] != after.flushed[i] implies covers(
        rest,
        i,
    ) by {
        lemma_confirm_element(v, r, i);
        assert(v.staged[i] != v.flushed[i]);
        assert(covers(v.pending, i));
        lemma_remove_covers(v.pending, k, i);
    }
}

/// Once no committed write is in flight, the device holds exactly what was
/// staged: every write committed so far is visible to a dispatch.
pub proof fn lemma_synced_surface_agrees(v: SurfaceView)
    requires
        v.wf(),
        v.synced(),
    ensures
        v.flushed == v.staged,
{
    assert(v.flushed =~= v.staged);
}

/// Commits over regions that share no index leave the same staging copy in
/// either order: no producer's data is torn or lost to another's.
pub proof fn lemma_disjoint_commits_commute(
    v: SurfaceView,
    a: Region,
    data_a: Seq<i32>,
    b: Region,
    data_b: Seq<i32>,
)
    requires
        !a.overlaps(b),
        data_a.len() == a.len,
        data_b.len() == b.len,
    ensures
        v.commit(a, data_a).commit(b, data_b).staged == v.commit(b, data_b).commit(
            a,
            data_a,
        ).staged,
{
    let one = v.commit(a, data_a).commit(b, data_b).staged;
    let other = v.commit(b, data_b).commit(a, data_a).staged;
    assert forall|i: int| 0 <= i < one.len() implies one[i] == other[i] by {
        if a.contains(i) && b.contains(i) {
            assert(a.overlaps(b));
        }
    }
    assert(one =~= other);
}

/// A guard is committed at most once: after its commit was accepted, no
/// surface accepts it again.
pub proof fn lemma_commit_only_once(guard: GuardView, first: SurfaceView, second: SurfaceView)
    requires
        guard.committable(first),
    ensures
        !guard.committed().committable(second),
{
}

/// Guards over regions that share no index never block each other: where each
/// of two such guards would be granted by itself, each is still granted while
/// the other one is live, and both may be live at once.
pub proof fn lemma_disjoint_guards_coexist(v: SurfaceView, a: Region, b: Region)
    requires
        v.wf(),
        v.grants(a),
        v.grants(b),
        !a.overlaps(b),
    ensures
        v.acquire(a).grants(b),
        v.acquire(b).grants(a),
        v.acquire(a).acquire(b).wf(),
        v.acquire(b).acquire(a).wf(),
{
    lemma_overlap_symmetric(a, b);
    let with_a = v.acquire(a);
    let with_b = v.acquire(b);
    assert forall|k: int| 0 <= k < with_a.live.len() implies !(#[trigger] with_a.live[k]).overlaps(
        b,
    ) by {
        if k < v.live.len() {
            assert(!v.live[k].overlaps(b));
        }
    }
    assert forall|k: int| 0 <= k < with_b.live.len() implies !(#[trigger] with_b.live[k]).overlaps(
        a,
    ) by {
        if k < v.live.len() {
            assert(!v.live[k].overlaps(a));
        }
    }
    lemma_acquire_keeps_wf(v, a);
    lemma_acquire_keeps_wf(v, b);
    lemma_acquire_keeps_wf(with_a, b);
    lemma_acquire_keeps_wf(with_b, a);
}

/// Guards over regions that share an index are serialized: while the first
/// is live the second is not granted, and once the first has committed the
/// second is granted exactly as if the first had never been there.
pub proof fn lemma_overlapping_guards_serialize(
    v: SurfaceView,
    a: Region,
    b: Region,
    data: Seq<i32>,
)
    requires
        v.wf(),
        v.grants(a),
        a.overlaps(b),
        data.len() == a.len,
    ensures
        !v.acquire(a).grants(b),
        v.acquire(a).commit(a, data).live == v.live,
        v.acquire(a).commit(a, data).grants(b) == v.grants(b),
{
    let with_a = v.acquire(a);
    let last = v.live.len() as int;
    assert(with_a.live[last].overlaps(b));
    lemma_overlap_bounds(a, b);
    lemma_overlap_bounds(a, a);
    assert forall|j: int| 0 <= j < last implies with_a.live[j] != a by {
        assert(!v.live[j].overlaps(a));
    }
    lemma_first_occurrence(with_a.live, a, last);
    assert(with_a.live.remove(last) == v.live);
}

impl WriteGuard {
    /// A guard's private copy has one element for each index of its region.
    pub open spec fn wf(&self) -> bool {
        self@.data.len() == self@.region.len
    }

    /// The region the guard has exclusive access to.
    pub fn region(&self) -> (r: Region)
        ensures
            r == self@.region,
    {
        self.region
    }

    /// The number of elements the guard gives access to.
    pub fn len(&self) -> (n: usize)
        ensures
            n == self@.data.len(),
    {
        self.data.len()
    }

    /// Whether the guard was committed.
    pub fn is_released(&self) -> (b: bool)
        ensures
            b == self@.released,
    {
        self.released
    }

    /// The element at `offset` of the guard's copy, if the guard has one there.
    pub fn get(&self, offset: usize) -> (r: Option<i32>)
        ensures
            r == if offset < self@.data.len() {
                Some(self@.data[offset as int])
            } else {
                None
            },
    {
        if offset < self.data.len() {
            Some(self.data[offset])
        } else {
            None
        }
    }

    /// Writes `value` at `offset` of the guard's copy.
    ///
    /// A committed guard refuses with `GuardAlreadyReleased`; an offset past
    /// the guard's region is refused with `RegionOutOfBounds`. A refused write
    /// changes nothing.
    pub fn write(&mut self, offset: usize, value: i32) -> (r: Result<(), PipelineError>)
        requires
            old(self).wf(),
        ensures
            final(self).wf(),
            final(self)@.region == old(self)@.region,
            final(self)@.released == old(self)@.released,
            old(self)@.released ==> r == Err::<(), PipelineError>(
                PipelineError::GuardAlreadyReleased,
            ) && final(self)@ == old(self)@,
            !old(self)@.released && offset >= old(self)@.data.len() ==> r == Err::<
                (),
                PipelineError,
            >(PipelineError::RegionOutOfBounds) && final(self)@ == old(self)@,
            !old(self)@.released && offset < old(self)@.data.len() ==> r is Ok && final(self)@.data
                == old(self)@.data.update(offset as int, value),
    {
        if self.released {
            return Err(PipelineError::GuardAlreadyReleased);
        }
        if offset >= self.data.len() {
            return Err(PipelineError::RegionOutOfBounds);
        }
        self.data.set(offset, value);
        Ok(())
    }

    /// Replaces the guard's whole copy by `src`.
    ///
    /// A committed guard refuses with `GuardAlreadyReleased`; a `src` of
    /// another length than the guard's region is refused with
    /// `LengthMismatch`. A refused copy changes nothing.
    pub fn copy_from_slice(&mut self, src: &[i32]) -> (r: Result<(), PipelineError>)
        requires
            old(self).wf(),
        ensures
            final(self).wf(),
            final(self)@.region == old(self)@.region,
            final(self)@.released == old(self)@.released,
            old(self)@.released ==> r == Err::<(), PipelineError>(
                PipelineError::GuardAlreadyReleased,
            ) && final(self)@ == old(self)@,
            !old(self)@.released && src@.len() != old(self)@.data.len() ==> r == Err::<
                (),
                PipelineError,
            >(PipelineError::LengthMismatch) && final(self)@ == old(self)@,
            !old(self)@.released && src@.len() == old(self)@.data.len() ==> r is Ok
                && final(self)@.data == src@,
    {
        if self.released {
            return Err(PipelineError::GuardAlreadyReleased);
        }
        if src.len() != self.data.len() {
            return Err(PipelineError::LengthMismatch);
        }
        store_at(&mut self.data, 0, src);
        assert(self.data@ =~= src@);
        Ok(())
    }

    /// Moves the guard's copy into the staging copy, ends the guard's
    /// exclusivity and hands out the handle of the transfer to the device.
    ///
    /// This succeeds once per guard: a guard that was committed before, or
    /// whose region is not live on `surface`, is refused with
    /// `GuardAlreadyReleased`, and neither the guard nor the surface changes.
    pub fn commit(&mut self, surface: &mut WriteSurface) -> (r: Result<
        PendingFlush,
        PipelineError,
    >)
        requires
            old(self).wf(),
            old(surface).wf(),
        ensures
            final(self).wf(),
            final(surface).wf(),
            final(surface).source_access() == old(surface).source_access(),
            if old(self)@.committable(old(surface)@) {
                &&& r matches Ok(flush)
                &&& flush@ == (FlushView { region: old(self)@.region, confirmed: false })
                &&& final(self)@ == old(self)@.committed()
                &&& final(surface)@ == old(surface)@.commit(old(self)@.region, old(self)@.data)
            } else {
                &&& r == Err::<PendingFlush, PipelineError>(PipelineError::GuardAlreadyReleased)
                &&& final(self)@ == old(self)@
                &&& final(surface)@ == old(surface)@
            },
    {
        if self.released {
            return Err(PipelineError::GuardAlreadyReleased);
        }
        let found = first_position(&surface.live, &self.region);
        match found {
            None => Err(PipelineError::GuardAlreadyReleased),
            Some(k) => {
                let ghost before = surface@;
                proof {
                    lemma_first_occurrence(before.live, self.region, k as int);
                    lemma_commit_keeps_wf(before, self.region, self.data@);
                    assert(before.live[k as int].within(before.len()));
                }
                surface.live.remove(k);
                store_at(&mut surface.staging, self.region.start, self.data.as_slice());
                surface.pending.push(self.region);
                self.released = true;
                assert(surface@ == before.commit(self.region, self.data@));
                Ok(PendingFlush { region: self.region, confirmed: false })
            },
        }
    }
}

impl PendingFlush {
    /// The region that the transfer carries to the device.
    pub fn region(&self) -> (r: Region)
        ensures
            r == self@.region,
    {
        self.region
    }

    /// Whether the transfer is known to be complete.
    pub fn is_confirmed(&self) -> (b: bool)
        ensures
            b == self@.confirmed,
    {
        self.confirmed
    }

    /// Sees the transfer through: when this returns, the device holds what
    /// the staging copy holds over the region, and the handle is confirmed.
    ///
    /// Waiting again, or on a surface that has no transfer over the region in
    /// flight, finds nothing left to do and leaves the surface as it is.
    pub fn wait(&mut self, surface: &mut WriteSurface)
        requires
            old(surface).wf(),
        ensures
            final(surface).wf(),
            final(surface).source_access() == old(surface).source_access(),
            final(self)@ == (FlushView { region: old(self)@.region, confirmed: true }),
            final(surface)@ == if !old(self)@.confirmed && old(surface)@.pending.contains(
                old(self)@.region,
            ) {
                old(surface)@.confirm(old(self)@.region)
            } else {
                old(surface)@
            },
    {
        if self.confirmed {
            return ;
        }
        self.confirmed = true;
        let found = first_position(&surface.pending, &self.region);
        match found {
            None => {},
            Some(k) => {
                let ghost before = surface@;
                let region = self.region;
                let total: usize = surface.staging.len();
                proof {
                    lemma_first_occurrence(before.pending, region, k as int);
                    lemma_confirm_keeps_wf(before, region);
                    assert(before.pending[k as int].within(total as int));
                }
                surface.pending.remove(k);
                let staged = slice_subrange(
                    surface.staging.as_slice(),
                    region.start,
                    region.start + region.len,
                );
                surface.device.store(region.start, staged);
                assert(surface@ == before.confirm(region));
            },
        }
    }
}

impl WriteSurface {
    /// The invariant of the surface, stated on its view.
    pub open spec fn wf(&self) -> bool {
        self@.wf()
    }

    /// How kernels may use the source buffer.
    pub closed spec fn source_access(&self) -> MemAccess {
        self.device.access_flags()
    }

    /// A surface over a source buffer that holds a copy of `initial` on both
    /// sides, with no guard live and no transfer in flight.
    pub fn new(initial: &[i32]) -> (s: WriteSurface)
        ensures
            s.wf(),
            s@ == (SurfaceView {
                staged: initial@,
                flushed: initial@,
                live: Seq::empty(),
                pending: Seq::empty(),
            }),
            s.source_access() == MemAccess::ReadWrite,
    {
        let device = DeviceBuffer::from_slice(initial);
        let mut staging: Vec<i32> = Vec::new();
        let mut i: usize = 0;
        while i < initial.len()
            invariant
                i <= initial@.len(),
                staging@ == initial@.subrange(0, i as int),
            decreases initial@.len() - i,
        {
            staging.push(initial[i]);
            i = i + 1;
        }
        assert(staging@ == initial@);
        WriteSurface { staging, device, live: Vec::new(), pending: Vec::new() }
    }

    /// A surface over the source buffer `device`, with a staging copy of what
    /// it holds, no guard live and no transfer in flight.
    pub(crate) fn from_buffer(device: DeviceBuffer) -> (s: WriteSurface)
        ensures
            s.wf(),
            s@ == (SurfaceView {
                staged: device@,
                flushed: device@,
                live: Seq::empty(),
                pending: Seq::empty(),
            }),
            s.source_access() == device.access_flags(),
    {
        let mut staging: Vec<i32> = Vec::new();
        let n: usize = device.len();
        let mut i: usize = 0;
        while i < n
            invariant
                i <= n,
                n == device@.len(),
                staging@ == device@.subrange(0, i as int),
            decreases n - i,
        {
            let value = device.get(i);
            match value {
                Some(x) => {
                    staging.push(x);
                },
                None => {},
            }
            i = i + 1;
        }
        assert(staging@ == device@);
        WriteSurface { staging, device, live: Vec::new(), pending: Vec::new() }
    }

    /// The number of elements of the source buffer.
    pub fn len(&self) -> (n: usize)
        ensures
            n == self@.len(),
    {
        self.staging.len()
    }

    /// The number of guards that are live.
    pub fn live_guards(&self) -> (n: usize)
        ensures
            n == self@.live.len(),
    {
        self.live.len()
    }

    /// The number of committed writes whose transfer is not yet confirmed.
    pub fn pending_flushes(&self) -> (n: usize)
        ensures
            n == self@.pending.len(),
    {
        self.pending.len()
    }

    /// Whether no committed write is still in flight.
    pub fn is_synced(&self) -> (b: bool)
        ensures
            b == self@.synced(),
    {
        self.pending.len() == 0
    }

    /// Whether a guard over `region` would be granted at once.
    pub fn is_free(&self, region: &Region) -> (b: bool)
        ensures
            b == self@.grants(*region),
    {
        region.fits(self.staging.len()) && self.clear_of_live(region)
    }

    /// The element at `index` of the staging copy, if there is one.
    pub fn staged_at(&self, index: usize) -> (r: Option<i32>)
        ensures
            r == if index < self@.staged.len() {
                Some(self@.staged[index as int])
            } else {
                None
            },
    {
        if index < self.staging.len() {
            Some(self.staging[index])
        } else {
            None
        }
    }

    /// The source buffer as the device holds it.
    pub fn source(&self) -> (b: &DeviceBuffer)
        ensures
            b@ == self@.flushed,
            b.access_flags() == self.source_access(),
    {
        &self.device
    }

    /// Asks for exclusive access to `region`.
    ///
    /// A region that reaches past the end of the buffer is refused with
    /// `RegionOutOfBounds`. Otherwise the guard is granted exactly when no
    /// live guard shares an index with the region; its copy starts out as the
    /// staging copy's elements over the region. While such a guard is live the
    /// answer is `MustWait`, and the surface stays as it is.
    pub fn acquire_write(&mut self, region: Region) -> (r: Result<Acquisition, PipelineError>)
        requires
            old(self).wf(),
        ensures
            final(self).wf(),
            final(self).source_access() == old(self).source_access(),
            match r {
                Err(e) => {
                    &&& e == PipelineError::RegionOutOfBounds
                    &&& !region.within(old(self)@.len())
                    &&& final(self)@ == old(self)@
                },
                Ok(Acquisition::MustWait) => {
                    &&& region.within(old(self)@.len())
                    &&& !clear_of(old(self)@.live, region)
                    &&& final(self)@ == old(self)@
                },
                Ok(Acquisition::Granted(guard)) => {
                    &&& old(self)@.grants(region)
                    &&& final(self)@ == old(self)@.acquire(region)
                    &&& guard.wf()
                    &&& guard@ == (GuardView {
                        region,
                        data: old(self)@.staged.subrange(region.start as int, region.end()),
                        released: false,
                    })
                },
            },
    {
        if !region.fits(self.staging.len()) {
            return Err(PipelineError::RegionOutOfBounds);
        }
        if !self.clear_of_live(&region) {
            return Ok(Acquisition::MustWait);
        }
        let data = copy_range(&self.staging, region.start, region.len);
        let ghost before = self@;
        proof {
            lemma_acquire_keeps_wf(before, region);
        }
        self.live.push(region);
        assert(self@ == before.acquire(region));
        Ok(Acquisition::Granted(WriteGuard { region, data, released: false }))
    }

    /// One whole write in a single step: a guard over `region` is acquired,
    /// filled with `data` and committed before this returns.
    ///
    /// A region that reaches past the end of the buffer is refused with
    /// `RegionOutOfBounds`, and `data` of another length than the region with
    /// `LengthMismatch`. While a live guard shares an index with the region
    /// nothing is written and `None` is returned: the caller asks again after
    /// a commit.
    pub fn write_region(&mut self, region: Region, data: &[i32]) -> (r: Result<
        Option<PendingFlush>,
        PipelineError,
    >)
        requires
            old(self).wf(),
        ensures
            final(self).wf(),
            final(self).source_access() == old(self).source_access(),
            match write_fault(region, data@, old(self)@.len()) {
                Some(e) => r == Err::<Option<PendingFlush>, PipelineError>(e) && final(self)@
                    == old(self)@,
                None => if clear_of(old(self)@.live, region) {
                    &&& r matches Ok(Some(flush))
                    &&& flush@ == (FlushView { region, confirmed: false })
                    &&& final(self)@ == old(self)@.acquire(region).commit(region, data@)
                } else {
                    &&& r matches Ok(None)
                    &&& final(self)@ == old(self)@
                },
            },
    {
        if !region.fits(self.staging.len()) {
            return Err(PipelineError::RegionOutOfBounds);
        }
        if data.len() != region.len {
            return Err(PipelineError::LengthMismatch);
        }
        match self.acquire_write(region) {
            Ok(Acquisition::Granted(guard)) => {
                let mut guard = guard;
                assert(self@.live[self@.live.len() - 1] == region);
                match guard.copy_from_slice(data) {
                    Ok(()) => match guard.commit(self) {
                        Ok(flush) => Ok(Some(flush)),
                        // The guard was granted a moment ago and is live.
                        Err(_) => unreached(),
                    },
                    // The data was found to have the length of the region.
                    Err(_) => unreached(),
                }
            },
            Ok(Acquisition::MustWait) => Ok(None),
            // The region was found to fit.
            Err(_) => unreached(),
        }
    }

    /// Whether no live guard shares an index with `region`.
    fn clear_of_live(&self, region: &Region) -> (b: bool)
        ensures
            b == clear_of(self@.live, *region),
    {
        let mut k: usize = 0;
        while k < self.live.len()
            invariant
                k <= self.live@.len(),
                forall|j: int| 0 <= j < k ==> !(#[trigger] self.live@[j]).overlaps(*region),
            decreases self.live@.len() - k,
        {
            if self.live[k].intersects(region) {
                return false;
            }
            k = k + 1;
        }
        true
    }
}

/// The first position at which `region` stands in `regions`.
fn first_position(regions: &Vec<Region>, region: &Region) -> (r: Option<usize>)
    ensures
        match r {
            Some(k) => k < regions@.len() && regions@[k as int] == *region && forall|j: int|
                0 <= j < k ==> regions@[j] != *region,
            None => !regions@.contains(*region),
        },
{
    let mut k: usize = 0;
    while k < regions.len()
        invariant
            k <= regions@.len(),
            forall|j: int| 0 <= j < k ==> regions@[j] != *region,
        decreases regions@.len() - k,
    {
        if regions[k].start == region.start && regions[k].len == region.len {
            return Some(k);
        }
        k = k + 1;
    }
    None
}

} // verus!
