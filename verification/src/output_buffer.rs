use vstd::prelude::*;
use std::collections::VecDeque;
use crate::input_buffer::{is_position, lemma_position, position, rollback_drops_at_and_after, rolled_back, times_increasing};
use crate::source_poll::SourcePollOk;

verus! {

/// An output waiting to be handed to the caller.
pub enum OutputType<O> {
    Event(O),
    Finalize,
    Rollback,
}

/// The outputs that wait to be handed to the caller, grouped by time in
/// increasing order, each group in the order the outputs were made.
pub struct OutputBuffer<O>(Vec<(u64, VecDeque<OutputType<O>>)>);

/// Finds the position of `t` among sorted output groups.
fn find_output_position<O>(s: &Vec<(u64, VecDeque<OutputType<O>>)>, t: u64) -> (p: usize)
    requires
        times_increasing(s@),
    ensures
        is_position(s@, t, p as int),
        p == position(s@, t),
{
    let mut low: usize = 0;
    let mut high: usize = s.len();
    while low < high
        invariant
            0 <= low <= high <= s@.len(),
            times_increasing(s@),
            forall|i: int| 0 <= i < low ==> s@[i].0 < t,
            forall|i: int| high <= i < s@.len() ==> s@[i].0 >= t,
        decreases high - low,
    {
        let m = low + (high - low) / 2;
        if s[m].0 < t {
            low = m + 1;
        } else {
            high = m;
        }
    }
    proof {
        lemma_position(s@, t, low as int);
    }
    low
}

/// The outputs of the groups.
pub open spec fn groups_view<O>(s: Seq<(u64, VecDeque<OutputType<O>>)>) -> Seq<(u64, Seq<OutputType<O>>)> {
    s.map_values(|e: (u64, VecDeque<OutputType<O>>)| (e.0, e.1@))
}

/// The groups after `val` is added at `time`: after the outputs of that time,
/// or as a new group in its place.
pub open spec fn with_output<O>(s: Seq<(u64, Seq<OutputType<O>>)>, time: u64, val: OutputType<O>) -> Seq<
    (u64, Seq<OutputType<O>>),
> {
    let p = position(s, time);
    if p < s.len() && s[p].0 == time {
        s.update(p, (time, s[p].1.push(val)))
    } else {
        s.insert(p, (time, seq![val]))
    }
}

/// What a poll at `time` hands out of the buffered groups `s`: the first
/// output when its time is at or before `time`; else `Scheduled` at the first
/// time, or `Ready` when nothing is buffered.
pub open spec fn polled<O>(s: Seq<(u64, Seq<OutputType<O>>)>, time: u64) -> SourcePollOk<u64, O, ()> {
    if s.len() == 0 {
        SourcePollOk::Ready(())
    } else if s[0].0 > time {
        SourcePollOk::Scheduled((), s[0].0)
    } else {
        match s[0].1[0] {
            OutputType::Event(e) => SourcePollOk::Event(e, s[0].0),
            OutputType::Finalize => SourcePollOk::Finalize(s[0].0),
            OutputType::Rollback => SourcePollOk::Rollback(s[0].0),
        }
    }
}

/// The buffered groups after a poll at `time`: the output handed out leaves,
/// and so does its group when it was the group's last.
pub open spec fn after_poll<O>(s: Seq<(u64, Seq<OutputType<O>>)>, time: u64) -> Seq<(u64, Seq<OutputType<O>>)> {
    if s.len() == 0 || s[0].0 > time {
        s
    } else if s[0].1.len() == 1 {
        s.drop_first()
    } else {
        s.update(0, (s[0].0, s[0].1.drop_first()))
    }
}

impl<O> View for OutputBuffer<O> {
    type V = Seq<(u64, Seq<OutputType<O>>)>;

    closed spec fn view(&self) -> Seq<(u64, Seq<OutputType<O>>)> {
        groups_view(self.0@)
    }
}

impl<O> OutputBuffer<O> {
    /// The times increase and no group is empty.
    pub closed spec fn wf(&self) -> bool {
        &&& times_increasing(self.0@)
        &&& forall|i: int| 0 <= i < self.0@.len() ==> #[trigger] self.0@[i].1@.len() > 0
    }

    /// In a well-formed buffer the times increase, so the first group is the
    /// one with the least time, and no group is empty.
    pub proof fn lemma_wf_sorted(&self)
        requires
            self.wf(),
        ensures
            times_increasing(self@),
            forall|i: int| 0 <= i < self@.len() ==> #[trigger] self@[i].1.len() > 0,
    {
        self.lemma_view();
    }

    proof fn lemma_view(&self)
        requires
            self.wf(),
        ensures
            times_increasing(self@),
            self@.len() == self.0@.len(),
            forall|i: int| 0 <= i < self.0@.len() ==> #[trigger] self@[i] == (self.0@[i].0, self.0@[i].1@),
            forall|i: int| 0 <= i < self@.len() ==> #[trigger] self@[i].1.len() > 0,
    {
    }

    pub fn new() -> (r: Self)
        ensures
            r.wf(),
            r@ == Seq::<(u64, Seq<OutputType<O>>)>::empty(),
    {
        let r = OutputBuffer(Vec::new());
        assert(r@ =~= Seq::<(u64, Seq<OutputType<O>>)>::empty());
        r
    }

    /// Hands out the first output at or before `time`. With none there, it is
    /// `Scheduled` at the first time that has one, or `Ready` when empty.
    pub fn poll(&mut self, time: u64) -> (r: SourcePollOk<u64, O, ()>)
        requires
            old(self).wf(),
        ensures
            final(self).wf(),
            r == polled(old(self)@, time),
            final(self)@ == after_poll(old(self)@, time),
    {
        let ghost s = self@;
        proof {
            self.lemma_view();
        }
        if self.0.len() == 0 {
            return SourcePollOk::Ready(());
        }
        let t = self.0[0].0;
        if t > time {
            return SourcePollOk::Scheduled((), t);
        }
        let val = if self.0[0].1.len() == 1 {
            let (_, mut vec) = self.0.remove(0);
            let v = vec.pop_front().unwrap();
            proof {
                assert(self@ =~= s.drop_first());
            }
            v
        } else {
            let entry = &mut self.0[0];
            let v = entry.1.pop_front().unwrap();
            proof {
                assert(self@ =~= s.update(0, (s[0].0, s[0].1.drop_first())));
            }
            v
        };
        match val {
            OutputType::Event(e) => SourcePollOk::Event(e, t),
            OutputType::Finalize => SourcePollOk::Finalize(t),
            OutputType::Rollback => SourcePollOk::Rollback(t),
        }
    }

    /// Queues an event made at `time`.
    pub fn handle_event(&mut self, time: u64, event: O)
        requires
            old(self).wf(),
        ensures
            final(self).wf(),
            final(self)@ == with_output(old(self)@, time, OutputType::Event(event)),
    {
        self.insert(time, OutputType::Event(event));
    }

    /// Drops the outputs at and after `time`, and queues a rollback at `time`.
    pub fn handle_rollback(&mut self, time: u64)
        requires
            old(self).wf(),
        ensures
            final(self).wf(),
            final(self)@ == rolled_back(old(self)@, time).push((time, seq![OutputType::<O>::Rollback])),
    {
        let ghost s = self@;
        proof {
            self.lemma_view();
        }
        let p = find_output_position(&self.0, time);
        proof {
            lemma_position(s, time, p as int);
        }
        self.0.truncate(p);
        let ghost kept = self@;
        proof {
            assert(kept =~= s.subrange(0, p as int));
            self.lemma_view();
            lemma_position(kept, time, p as int);
        }
        self.insert(time, OutputType::Rollback);
        proof {
            assert(self@ =~= kept.push((time, seq![OutputType::<O>::Rollback])));
        }
    }

    /// Queues a finalize at `time`.
    pub fn handle_finalize(&mut self, time: u64)
        requires
            old(self).wf(),
        ensures
            final(self).wf(),
            final(self)@ == with_output(old(self)@, time, OutputType::Finalize),
    {
        self.insert(time, OutputType::Finalize);
    }

    /// The earliest time with a waiting output.
    pub fn first_event_time(&self) -> (r: Option<u64>)
        requires
            self.wf(),
        ensures
            self@.len() == 0 ==> r is None,
            self@.len() > 0 ==> r == Some(self@[0].0),
    {
        proof {
            self.lemma_view();
        }
        if self.0.len() == 0 {
            None
        } else {
            Some(self.0[0].0)
        }
    }

    fn insert(&mut self, time: u64, val: OutputType<O>)
        requires
            old(self).wf(),
        ensures
            final(self).wf(),
            final(self)@ == with_output(old(self)@, time, val),
    {
        let ghost s = self@;
        proof {
            self.lemma_view();
        }
        let p = find_output_position(&self.0, time);
        proof {
            lemma_position(s, time, p as int);
        }
        if p < self.0.len() && self.0[p].0 == time {
            let entry = &mut self.0[p];
            entry.1.push_back(val);
            proof {
                assert(self@ =~= s.update(p as int, (time, s[p as int].1.push(val))));
            }
        } else {
            let mut vec = VecDeque::new();
            vec.push_back(val);
            self.0.insert(p, (time, vec));
            proof {
                assert(self@ =~= s.insert(p as int, (time, seq![val])));
            }
        }
    }
}

} // verus!

verus! {

/// After a rollback to `time`, the outputs left before the rollback marker
/// are those of the earlier times, and the marker itself comes last, at
/// `time`.
pub proof fn rollback_discards_later_outputs<O>(s: Seq<(u64, Seq<OutputType<O>>)>, time: u64)
    requires
        times_increasing(s),
    ensures
        ({
            let a = rolled_back(s, time).push((time, seq![OutputType::<O>::Rollback]));
            &&& a.last() == (time, seq![OutputType::<O>::Rollback])
            &&& forall|i: int| 0 <= i < a.len() - 1 ==> (#[trigger] a[i]).0 < time
            &&& forall|i: int| 0 <= i < s.len() && s[i].0 < time ==> #[trigger] a[i] == s[i]
        }),
{
    rollback_drops_at_and_after(s, time);
    let r = rolled_back(s, time);
    let a = r.push((time, seq![OutputType::<O>::Rollback]));
    assert forall|i: int| 0 <= i < a.len() - 1 implies (#[trigger] a[i]).0 < time by {
        assert(a[i] == r[i]);
    }
    assert forall|i: int| 0 <= i < s.len() && s[i].0 < time implies #[trigger] a[i] == s[i] by {
        assert(a[i] == r[i]);
    }
}

/// An event that is the earliest buffered output comes out at the first poll
/// at or after its time, and the rest stays buffered as before; a poll before
/// its time is told when to come back.
pub proof fn earliest_event_comes_out_when_due<O>(s: Seq<(u64, Seq<OutputType<O>>)>, time: u64, event: O, poll_time: u64)
    requires
        times_increasing(s),
        s.len() == 0 || time < s[0].0,
    ensures
        ({
            let a = with_output(s, time, OutputType::Event(event));
            &&& poll_time >= time ==> polled(a, poll_time) == SourcePollOk::<u64, O, ()>::Event(event, time)
                && after_poll(a, poll_time) == s
            &&& poll_time < time ==> polled(a, poll_time) == SourcePollOk::<u64, O, ()>::Scheduled((), time)
        }),
{
    lemma_position(s, time, 0);
    let a = with_output(s, time, OutputType::Event(event));
    assert(a.drop_first() =~= s);
}

} // verus!
