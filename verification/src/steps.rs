use vstd::prelude::*;
use crate::step::{is_init_step, started_on, Step, StepState};
use crate::frame::{frame_cloned, Frame};
use crate::transposer::Transposer;

verus! {

/// A step, with the id of the first output it emitted.
pub struct StepWrapper<T: Transposer> {
    pub step: Step<T>,
    pub first_emitted_id: Option<usize>,
}

impl<T: Transposer> StepWrapper<T> {
    /// The wrapper of the transposer's init step.
    pub fn new_init(transposer: T, rng_seed: [u8; 32]) -> (r: Self)
        ensures
            r.step.wf(),
            r.step.state() == StepState::SaturatingInit,
            r.step.spec_time().spec_index() == 0,
            r.step.spec_time().spec_time() == 0,
            r.step.frame().transposer == transposer,
            is_init_step(r.step, transposer, rng_seed),
            r.first_emitted_id is None,
    {
        StepWrapper { step: Step::new_init(transposer, rng_seed), first_emitted_id: None }
    }
}

/// The time of a wrapped step.
pub open spec fn raw_time_of<T: Transposer>(w: StepWrapper<T>) -> u64 {
    w.step.spec_time().spec_time()
}

/// The steps come in the order of their times.
pub open spec fn times_sorted<T: Transposer>(s: Seq<StepWrapper<T>>) -> bool {
    forall|i: int, j: int| 0 <= i <= j < s.len() ==> raw_time_of(#[trigger] s[i]) <= raw_time_of(#[trigger] s[j])
}

/// How many of the steps have a time at or before `time`.
pub open spec fn count_at_or_before<T: Transposer>(s: Seq<StepWrapper<T>>, time: u64) -> int
    decreases s.len(),
{
    if s.len() == 0 {
        0
    } else {
        count_at_or_before(s.drop_last(), time) + if raw_time_of(s.last()) <= time { 1int } else { 0int }
    }
}

/// The index of the last step before `end` that is not unsaturated, or -1.
pub open spec fn last_settled_before<T: Transposer>(s: Seq<StepWrapper<T>>, end: int) -> int
    decreases end,
{
    if end <= 0 {
        -1
    } else if !s[end - 1].step.state().is_unsaturated() {
        end - 1
    } else {
        last_settled_before(s, end - 1)
    }
}

/// In sorted steps, the index that splits those at or before `time` from
/// those after it is their count.
pub proof fn lemma_count_is_partition<T: Transposer>(s: Seq<StepWrapper<T>>, time: u64, u: int)
    requires
        0 <= u <= s.len(),
        forall|i: int| 0 <= i < u ==> raw_time_of(#[trigger] s[i]) <= time,
        forall|i: int| u <= i < s.len() ==> raw_time_of(#[trigger] s[i]) > time,
    ensures
        count_at_or_before(s, time) == u,
    decreases s.len(),
{
    if s.len() > 0 {
        let t = s.drop_last();
        if u == s.len() {
            assert forall|i: int| 0 <= i < u - 1 implies raw_time_of(#[trigger] t[i]) <= time by {
                assert(t[i] == s[i]);
            }
            lemma_count_is_partition(t, time, u - 1);
        } else {
            assert forall|i: int| u <= i < t.len() implies raw_time_of(#[trigger] t[i]) > time by {
                assert(t[i] == s[i]);
            }
            assert forall|i: int| 0 <= i < u implies raw_time_of(#[trigger] t[i]) <= time by {
                assert(t[i] == s[i]);
            }
            lemma_count_is_partition(t, time, u);
        }
    }
}

/// The last settled step before `end` is settled, comes before `end`, and
/// every step between it and `end` is unsaturated.
pub proof fn lemma_last_settled<T: Transposer>(s: Seq<StepWrapper<T>>, end: int)
    requires
        0 <= end <= s.len(),
    ensures
        last_settled_before(s, end) < end,
        last_settled_before(s, end) >= -1,
        last_settled_before(s, end) >= 0 ==> !s[last_settled_before(s, end)].step.state().is_unsaturated(),
        forall|k: int| last_settled_before(s, end) < k < end ==> s[k].step.state().is_unsaturated(),
    decreases end,
{
    if end > 0 && s[end - 1].step.state().is_unsaturated() {
        lemma_last_settled(s, end - 1);
    }
}

/// The steps still kept, in order; the ones before them were deleted and are
/// only counted, so that each step keeps its sequence number.
pub struct Steps<T: Transposer> {
    steps: Vec<StepWrapper<T>>,
    num_deleted_steps: usize,
}

impl<T: Transposer> View for Steps<T> {
    type V = Seq<StepWrapper<T>>;

    closed spec fn view(&self) -> Seq<StepWrapper<T>> {
        self.steps@
    }
}

impl<T: Transposer> Steps<T> {
    /// How many steps were deleted before the kept ones.
    pub closed spec fn deleted(&self) -> nat {
        self.num_deleted_steps as nat
    }

    /// At least one step is kept.
    pub open spec fn wf(&self) -> bool {
        self@.len() >= 1
    }

    /// The steps of a transposer that has only its init step.
    pub fn new(transposer: T, rng_seed: [u8; 32]) -> (r: Self)
        ensures
            r.wf(),
            r.deleted() == 0,
            r@.len() == 1,
            r@[0].step.wf(),
            r@[0].step.state() == StepState::SaturatingInit,
            r@[0].step.spec_time().spec_index() == 0,
            r@[0].step.spec_time().spec_time() == 0,
            r@[0].step.frame().transposer == transposer,
            is_init_step(r@[0].step, transposer, rng_seed),
            r@[0].first_emitted_id is None,
    {
        let mut steps = Vec::new();
        steps.push(StepWrapper::new_init(transposer, rng_seed));
        Steps { steps, num_deleted_steps: 0 }
    }

    /// The step with sequence number `i`, if it is kept.
    pub fn get_by_sequence_number(&self, i: usize) -> (r: Option<&StepWrapper<T>>)
        ensures
            (self.deleted() <= i < self.deleted() + self@.len()) ==> r == Some(&self@[i - self.deleted()]),
            !(self.deleted() <= i < self.deleted() + self@.len()) ==> r is None,
    {
        let i = match i.checked_sub(self.num_deleted_steps) {
            Some(i) => i,
            None => return None,
        };
        if i < self.steps.len() {
            Some(&self.steps[i])
        } else {
            None
        }
    }

    /// The step with sequence number `i`, if it is kept, for in-place updates.
    pub fn get_mut_by_sequence_number(&mut self, i: usize) -> (r: Option<&mut StepWrapper<T>>)
        ensures
            final(self).deleted() == old(self).deleted(),
            ({
                let k = i - old(self).deleted();
                &&& (0 <= k < old(self)@.len()) ==> r is Some && *r->0 == old(self)@[k]
                    && final(self)@ == old(self)@.update(k, *final(r->0))
                &&& !(0 <= k < old(self)@.len()) ==> r is None && final(self)@ == old(self)@
            }),
    {
        let i = match i.checked_sub(self.num_deleted_steps) {
            Some(i) => i,
            None => return None,
        };
        if i < self.steps.len() {
            Some(&mut self.steps[i])
        } else {
            None
        }
    }

    /// The last step, for in-place updates.
    pub fn get_last_mut(&mut self) -> (r: &mut StepWrapper<T>)
        requires
            old(self).wf(),
        ensures
            *r == old(self)@.last(),
            final(self)@ == old(self)@.update(old(self)@.len() - 1, *final(r)),
            final(self).deleted() == old(self).deleted(),
    {
        let last = self.steps.len() - 1;
        &mut self.steps[last]
    }

    /// How many kept steps have a time at or before `time`, found by
    /// bisection.
    pub(crate) fn partition_at(&self, time: u64) -> (r: usize)
        requires
            times_sorted(self@),
        ensures
            r == count_at_or_before(self@, time),
            r <= self@.len(),
            forall|i: int| 0 <= i < r ==> raw_time_of(#[trigger] self@[i]) <= time,
            forall|i: int| r <= i < self@.len() ==> raw_time_of(#[trigger] self@[i]) > time,
    {
        let mut lo: usize = 0;
        let mut hi: usize = self.steps.len();
        while lo < hi
            invariant
                0 <= lo <= hi <= self@.len(),
                times_sorted(self@),
                forall|i: int| 0 <= i < lo ==> raw_time_of(#[trigger] self@[i]) <= time,
                forall|i: int| hi <= i < self@.len() ==> raw_time_of(#[trigger] self@[i]) > time,
            decreases hi - lo,
        {
            let mid = lo + (hi - lo) / 2;
            if self.steps[mid].step.raw_time() <= time {
                proof {
                    assert forall|i: int| 0 <= i < mid + 1 implies raw_time_of(#[trigger] self@[i]) <= time by {
                        assert(raw_time_of(self@[i]) <= raw_time_of(self@[mid as int]));
                    }
                }
                lo = mid + 1;
            } else {
                proof {
                    assert forall|i: int| mid <= i < self@.len() implies raw_time_of(#[trigger] self@[i]) > time by {
                        assert(raw_time_of(self@[mid as int]) <= raw_time_of(self@[i]));
                    }
                }
                hi = mid;
            }
        }
        proof {
            lemma_count_is_partition(self@, time, lo as int);
        }
        lo
    }

    /// The last step.
    pub(crate) fn last(&self) -> (r: &StepWrapper<T>)
        requires
            self.wf(),
        ensures
            *r == self@.last(),
    {
        &self.steps[self.steps.len() - 1]
    }

    pub(crate) fn is_unsaturated_at(&self, k: usize) -> (r: bool)
        requires
            k < self@.len(),
        ensures
            r == self@[k as int].step.state().is_unsaturated(),
    {
        self.steps[k].step.is_unsaturated()
    }

    /// How many steps are kept.
    pub(crate) fn len(&self) -> (r: usize)
        ensures
            r == self@.len(),
    {
        self.steps.len()
    }

    /// The step at position `k` of the kept steps.
    pub(crate) fn step_at(&self, k: usize) -> (r: &Step<T>)
        requires
            k < self@.len(),
        ensures
            *r == self@[k as int].step,
    {
        &self.steps[k].step
    }

    /// The step at position `k` of the kept steps, for in-place updates.
    pub(crate) fn step_mut_at(&mut self, k: usize) -> (r: &mut Step<T>)
        requires
            k < old(self)@.len(),
        ensures
            *r == old(self)@[k as int].step,
            final(self)@ == old(self)@.update(
                k as int,
                StepWrapper { step: *final(r), first_emitted_id: old(self)@[k as int].first_emitted_id },
            ),
            final(self).deleted() == old(self).deleted(),
    {
        &mut self.steps[k].step
    }

    /// Starts the step after position `k` on a copy of the frame of the step
    /// at `k`, which keeps its frame; the other steps are untouched.
    pub(crate) fn saturate_clone_next(&mut self, k: usize) -> (r: Result<(), ()>)
        where T: Clone, T::Scheduled: Clone,
        requires
            k + 1 < old(self)@.len(),
            old(self)@[k as int].step.wf(),
            old(self)@[k + 1].step.wf(),
        ensures
            final(self).deleted() == old(self).deleted(),
            final(self)@.len() == old(self)@.len(),
            forall|i: int| 0 <= i < old(self)@.len() && i != k + 1 ==> #[trigger] final(self)@[i] == old(self)@[i],
            final(self)@[k + 1].first_emitted_id == old(self)@[k + 1].first_emitted_id,
            final(self)@[k + 1].step.wf(),
            ({
                let prev = old(self)@[k as int].step;
                let next = old(self)@[k + 1].step;
                let now = final(self)@[k + 1].step;
                &&& r is Ok == (prev.state().is_saturated() && next.state().is_unsaturated())
                &&& r is Err ==> now == next
                &&& r is Ok ==> {
                    &&& now.state() == next.state().saturating()
                    &&& now.input_state() is Pending
                    &&& now.inputs() == next.inputs()
                    &&& now.spec_time() == next.spec_time()
                    &&& cloned::<T>(prev.frame().transposer, now.frame().transposer)
                    &&& exists|c: Frame<T>| #[trigger] frame_cloned(*prev.frame(), c)
                        && started_on(next.state(), c, *now.frame())
                }
            }),
    {
        let n = self.steps.len();
        assert(k + 1 < n);
        let mut next = self.steps.remove(k + 1);
        let r = next.step.saturate_clone(&self.steps[k].step);
        self.steps.insert(k + 1, next);
        proof {
            assert forall|i: int| 0 <= i < old(self)@.len() && i != k + 1 implies #[trigger] self@[i] == old(self)@[i] by {
            }
        }
        r
    }

    /// The last step that is not unsaturated strictly before the last step at
    /// or before `time`: the search starts from the step found at `time` (the
    /// last of those at `time`, or the last one before it) and looks only at
    /// the steps below it, so that step itself is never handed out.
    pub fn get_last_saturating_before_or_at(&mut self, time: u64) -> (r: Option<&mut StepWrapper<T>>)
        requires
            times_sorted(old(self)@),
        ensures
            final(self).deleted() == old(self).deleted(),
            ({
                let s = old(self)@;
                let c = count_at_or_before(s, time);
                let k = last_settled_before(s, c - 1);
                &&& (c == 0 || k < 0) ==> r is None && final(self)@ == s
                &&& (c > 0 && k >= 0) ==> r is Some && *r->0 == s[k] && final(self)@ == s.update(k, *final(r->0))
            }),
    {
        let c = self.partition_at(time);
        if c == 0 {
            return None;
        }
        let u = c - 1;
        let ghost s = self@;
        proof {
            lemma_last_settled(s, u as int);
        }
        let mut i = u;
        let mut found = false;
        loop
            invariant_except_break
                !found,
                self@ == s,
                s == old(self)@,
                self.deleted() == old(self).deleted(),
                0 <= i <= u,
                u <= s.len(),
                last_settled_before(s, u as int) < i,
                forall|k: int| last_settled_before(s, u as int) < k < u ==> s[k].step.state().is_unsaturated(),
                last_settled_before(s, u as int) >= 0 ==> !s[last_settled_before(s, u as int)].step.state().is_unsaturated(),
            ensures
                self@ == s,
                s == old(self)@,
                self.deleted() == old(self).deleted(),
                found ==> i < s.len(),
                found ==> i as int == last_settled_before(s, u as int),
                !found ==> last_settled_before(s, u as int) < 0,
            decreases i,
        {
            if i == 0 {
                break;
            }
            i = i - 1;
            if !self.is_unsaturated_at(i) {
                found = true;
                break;
            }
        }
        if found {
            Some(&mut self.steps[i])
        } else {
            None
        }
    }
}

} // verus!
