use vstd::prelude::*;
use crate::input_buffer::{inserted_back, rolled_back, InputBuffer};
use crate::output_buffer::{after_poll, polled, with_output, OutputBuffer, OutputType};
use crate::frame::{frame_cloned, Frame};
use crate::step::{is_init_step, started_on, SequenceFramePoll};
use crate::lazy_state::LazyStateInner;
use crate::source_poll::{SourcePollErr, SourcePollOk};
use crate::step::Step;
use crate::steps::{count_at_or_before, last_settled_before, lemma_last_settled, raw_time_of, times_sorted, StepWrapper, Steps};
use crate::transposer::Transposer;

verus! {

/// What handling a source's answer asks next: use the state, wait, or poll
/// the source again.
pub enum PollResult<S> {
    Ready(S),
    Pending,
    PollAgain,
}

/// What one pass over the steps for a poll decided: an output to hand out,
/// wait, ask the source for its state on the given channel for the step at
/// `step_index`, poll again from a step, or interpolate the state from a
/// saturated step.
pub enum InnerPoll<O> {
    Output { time: u64, output: O },
    Pending,
    NeedsState { time: u64, channel: usize, step_index: usize },
    PollAgain { step_index: usize },
    Interpolate { step_index: usize },
}

/// The output buffer with each of `events`, in order, added as an event at
/// `time`.
pub open spec fn with_events<O>(s: Seq<(u64, Seq<OutputType<O>>)>, time: u64, events: Seq<O>) -> Seq<
    (u64, Seq<OutputType<O>>),
>
    decreases events.len(),
{
    if events.len() == 0 {
        s
    } else {
        with_output(with_events(s, time, events.drop_last()), time, OutputType::Event(events.last()))
    }
}

/// The earlier of two optional times; a missing time is later than any.
pub open spec fn min_time(a: Option<u64>, b: Option<u64>) -> Option<u64> {
    match (a, b) {
        (None, t) => t,
        (t, None) => t,
        (Some(x), Some(y)) => Some(if x <= y { x } else { y }),
    }
}

fn min_time_exec(a: Option<u64>, b: Option<u64>) -> (r: Option<u64>)
    ensures
        r == min_time(a, b),
{
    match (a, b) {
        (None, t) => t,
        (t, None) => t,
        (Some(x), Some(y)) => Some(if x <= y { x } else { y }),
    }
}

/// The state of a transposition apart from its source: the steps, the
/// buffered inputs and outputs, and the times the source and the caller
/// reported.
pub struct TransposeInner<T: Transposer> {
    steps: Steps<T>,
    current_scheduled: Option<u64>,
    input_finalized: Option<u64>,
    caller_advanced: Option<u64>,
    output_buffer: OutputBuffer<T::Output>,
    input_buffer: InputBuffer<T::Input>,
}

impl<T: Transposer> TransposeInner<T> {
    pub closed spec fn steps(&self) -> Seq<StepWrapper<T>> {
        self.steps@
    }

    /// The time at which the source asked to be polled again, if any.
    pub closed spec fn current_scheduled(&self) -> Option<u64> {
        self.current_scheduled
    }

    pub closed spec fn input_finalized(&self) -> Option<u64> {
        self.input_finalized
    }

    pub closed spec fn caller_advanced(&self) -> Option<u64> {
        self.caller_advanced
    }

    /// The buffered outputs, grouped by time.
    pub closed spec fn outputs(&self) -> Seq<(u64, Seq<OutputType<T::Output>>)> {
        self.output_buffer@
    }

    /// The buffered inputs, grouped by time.
    pub closed spec fn inputs(&self) -> Seq<(u64, Seq<T::Input>)> {
        self.input_buffer@
    }

    /// At least one step, in the order of their times, and well-formed
    /// buffers.
    pub closed spec fn wf(&self) -> bool {
        &&& self.steps.wf()
        &&& times_sorted(self.steps@)
        &&& forall|i: int| 0 <= i < self.steps@.len() ==> #[trigger] self.steps@[i].step.wf()
        &&& self.output_buffer.wf()
        &&& self.input_buffer.wf()
    }

    /// The state of a transposer that has only its init step.
    pub fn new(transposer: T, rng_seed: [u8; 32]) -> (r: Self)
        ensures
            r.wf(),
            r.steps().len() == 1,
            r.steps()[0].step.frame().transposer == transposer,
            r.steps()[0].step.spec_time().spec_time() == 0,
            is_init_step(r.steps()[0].step, transposer, rng_seed),
            r.steps()[0].first_emitted_id is None,
            r.current_scheduled() is None,
            r.input_finalized() is None,
            r.caller_advanced() is None,
            r.outputs().len() == 0,
            r.inputs().len() == 0,
    {
        TransposeInner {
            steps: Steps::new(transposer, rng_seed),
            current_scheduled: None,
            input_finalized: None,
            caller_advanced: None,
            output_buffer: OutputBuffer::new(),
            input_buffer: InputBuffer::new(),
        }
    }

    /// The step to work on for `time`: the last step at or before `time` that
    /// is not unsaturated.
    pub fn get_working_step(&mut self, time: u64) -> (r: &mut Step<T>)
        requires
            old(self).wf(),
            count_at_or_before(old(self).steps(), time) >= 1,
            last_settled_before(old(self).steps(), count_at_or_before(old(self).steps(), time)) >= 0,
        ensures
            ({
                let s = old(self).steps();
                let k = last_settled_before(s, count_at_or_before(s, time));
                &&& *r == s[k].step
                &&& final(self).steps() == s.update(
                    k,
                    StepWrapper { step: *final(r), first_emitted_id: s[k].first_emitted_id },
                )
            }),
            final(self).current_scheduled() == old(self).current_scheduled(),
            final(self).input_finalized() == old(self).input_finalized(),
            final(self).caller_advanced() == old(self).caller_advanced(),
            final(self).outputs() == old(self).outputs(),
            final(self).inputs() == old(self).inputs(),
    {
        let u = self.steps.partition_at(time);
        let ghost s = self.steps@;
        proof {
            lemma_last_settled(s, u as int);
        }
        let mut i = u - 1;
        loop
            invariant_except_break
                self.steps@ == s,
                0 <= i < u,
                u <= s.len(),
                last_settled_before(s, u as int) <= i,
                forall|k: int| last_settled_before(s, u as int) < k < u ==> s[k].step.state().is_unsaturated(),
                last_settled_before(s, u as int) >= 0,
                !s[last_settled_before(s, u as int)].step.state().is_unsaturated(),
            ensures
                self.steps@ == s,
                i < s.len(),
                i as int == last_settled_before(s, u as int),
            decreases i,
        {
            if !self.steps.is_unsaturated_at(i) {
                break;
            }
            i = i - 1;
        }
        self.steps.step_mut_at(i)
    }

    /// The first time the original step can emit at, barring new inputs.
    fn get_first_original_step_time(&self) -> (r: Option<u64>)
        requires
            self.wf(),
        ensures
            self.steps().last().step.state().is_original() ==> r == Some(self.steps().last().step.spec_time().spec_time()),
            !self.steps().last().step.state().is_original() ==> r is None,
    {
        let step = &self.steps.last().step;
        if step.is_original() {
            Some(step.raw_time())
        } else {
            None
        }
    }

    /// The earliest of the time the source scheduled, the time of the original
    /// step, and the time of the first buffered output.
    pub fn get_scheduled_time(&self) -> (r: Option<u64>)
        requires
            self.wf(),
        ensures
            ({
                let last = self.steps().last().step;
                let original = if last.state().is_original() { Some(last.spec_time().spec_time()) } else { None };
                let first_output = if self.outputs().len() > 0 { Some(self.outputs()[0].0) } else { None };
                r == min_time(min_time(self.current_scheduled(), original), first_output)
            }),
    {
        let first_original = self.get_first_original_step_time();
        let first_output_buffer = self.output_buffer.first_event_time();
        let result = min_time_exec(self.current_scheduled, first_original);
        min_time_exec(result, first_output_buffer)
    }

    /// The number of steps at or before `poll_time`, from which a poll walks
    /// back; a poll before the first step is refused.
    pub fn calculate_starting_step_index<E>(&self, poll_time: u64) -> (r: Result<usize, SourcePollErr<u64, E>>)
        requires
            self.wf(),
        ensures
            count_at_or_before(self.steps(), poll_time) == 0 ==> r is Err && r->Err_0 is PollBeforeDefault,
            count_at_or_before(self.steps(), poll_time) > 0 ==> r == Ok::<usize, SourcePollErr<u64, E>>(
                count_at_or_before(self.steps(), poll_time) as usize,
            ),
    {
        let i = self.steps.partition_at(poll_time);
        if i < 1 {
            Err(SourcePollErr::PollBeforeDefault)
        } else {
            Ok(i)
        }
    }

    /// Whether a pass may start from step `start_i`: the step exists and it,
    /// or a step before it, is not unsaturated.
    pub fn can_poll_from(&self, start_i: usize) -> (r: bool)
        requires
            self.wf(),
        ensures
            r == (start_i < self.steps().len() && last_settled_before(self.steps(), start_i + 1) >= 0),
    {
        let n = self.steps.len();
        if start_i >= n {
            return false;
        }
        let ghost s = self.steps@;
        proof {
            lemma_last_settled(s, start_i + 1);
        }
        let mut i = start_i;
        loop
            invariant
                self.steps@ == s,
                i <= start_i < s.len(),
                last_settled_before(s, start_i + 1) <= i,
                forall|k: int| i < k < start_i + 1 ==> s[k].step.state().is_unsaturated(),
                last_settled_before(s, start_i + 1) >= 0 ==> !s[last_settled_before(s, start_i + 1)].step.state().is_unsaturated(),
                forall|k: int| last_settled_before(s, start_i + 1) < k < start_i + 1 ==> s[k].step.state().is_unsaturated(),
            decreases i,
        {
            if !self.steps.is_unsaturated_at(i) {
                return true;
            }
            if i == 0 {
                return false;
            }
            i = i - 1;
        }
    }

    /// Whether the source's state can be handed to step `step_index`, as
    /// `handle_state_poll` requires for a state answer.
    pub fn can_take_state(&self, step_index: usize) -> (r: bool)
        requires
            self.wf(),
        ensures
            r == (step_index < self.steps().len() && self.steps()[step_index as int].step.state().is_saturating()
                && !(self.steps()[step_index as int].step.input_state() is Ready)),
    {
        if step_index >= self.steps.len() {
            return false;
        }
        self.steps.step_at(step_index).can_take_input_state()
    }

    /// The next buffered output at or before `time`, as the output buffer's
    /// poll hands it out.
    pub fn poll_output_buffer(&mut self, time: u64) -> (r: SourcePollOk<u64, T::Output, ()>)
        requires
            old(self).wf(),
        ensures
            final(self).wf(),
            r == polled(old(self).outputs(), time),
            final(self).outputs() == after_poll(old(self).outputs(), time),
            final(self).steps() == old(self).steps(),
            final(self).inputs() == old(self).inputs(),
            final(self).current_scheduled() == old(self).current_scheduled(),
            final(self).input_finalized() == old(self).input_finalized(),
            final(self).caller_advanced() == old(self).caller_advanced(),
    {
        self.output_buffer.poll(time)
    }
}

} // verus!

verus! {

impl<T: Transposer + Clone> TransposeInner<T> where T::Scheduled: Clone {
    /// One pass of a poll at `poll_time` for `channel`, from step `start_i`:
    /// walks back to the last step that is not unsaturated and works on it.
    /// A saturating step is polled with what its handler did (`completed`):
    /// the first output it emits is handed out and the rest are buffered at
    /// the step's time; it may wait, or ask for the source's state on channel
    /// `2 * channel + 1`. A saturated step starts the next step when that one
    /// is due by `poll_time`, or else is the step to interpolate from.
    pub fn poll_steps_step(
        &mut self,
        poll_time: u64,
        channel: usize,
        start_i: usize,
        completed: Option<Vec<T::Output>>,
    ) -> (r: InnerPoll<T::Output>)
        requires
            old(self).wf(),
            start_i < old(self).steps().len(),
            last_settled_before(old(self).steps(), start_i + 1) >= 0,
            channel < usize::MAX / 2,
        ensures
            final(self).wf(),
            final(self).current_scheduled() == old(self).current_scheduled(),
            final(self).input_finalized() == old(self).input_finalized(),
            final(self).caller_advanced() == old(self).caller_advanced(),
            final(self).inputs() == old(self).inputs(),
            final(self).steps().len() == old(self).steps().len(),
            ({
                let s = old(self).steps();
                let k = last_settled_before(s, start_i + 1);
                let st = s[k].step;
                let now = final(self).steps()[k].step;
                let time = st.spec_time().spec_time();
                &&& st.state().is_saturating() ==> {
                    &&& forall|i: int| 0 <= i < s.len() && i != k ==> #[trigger] final(self).steps()[i] == s[i]
                    &&& final(self).steps()[k].first_emitted_id == s[k].first_emitted_id
                    &&& now.spec_time() == st.spec_time()
                    &&& now.inputs() == st.inputs()
                    &&& now.frame() == st.frame()
                    &&& completed is None ==> {
                        &&& now.state() == st.state()
                        &&& now.input_state() == st.input_state()
                        &&& final(self).outputs() == old(self).outputs()
                        &&& st.input_state() is Requested ==> r == InnerPoll::<T::Output>::NeedsState {
                            time: poll_time,
                            channel: (2 * channel + 1) as usize,
                            step_index: k as usize,
                        }
                        &&& !(st.input_state() is Requested) ==> r is Pending
                    }
                    &&& completed is Some ==> {
                        let v = completed->Some_0@;
                        &&& now.state() == st.state().saturated()
                        &&& st.state().is_original() && v.len() > 0 ==> r == InnerPoll::<T::Output>::Output {
                            time,
                            output: v[0],
                        } && final(self).outputs() == with_events(old(self).outputs(), time, v.drop_first())
                        &&& !(st.state().is_original() && v.len() > 0) ==> r == InnerPoll::<T::Output>::PollAgain {
                            step_index: k as usize,
                        } && final(self).outputs() == old(self).outputs()
                    }
                }
                &&& st.state().is_saturated() ==> {
                    let due = k + 1 < s.len() && raw_time_of(s[k + 1]) <= poll_time;
                    &&& final(self).outputs() == old(self).outputs()
                    &&& !due ==> r == InnerPoll::<T::Output>::Interpolate { step_index: k as usize }
                        && final(self).steps() == s
                    &&& due && !s[k + 1].step.state().is_unsaturated() ==> r
                        == InnerPoll::<T::Output>::PollAgain { step_index: (k + 1) as usize } && final(self).steps() == s
                    &&& due && s[k + 1].step.state().is_unsaturated() ==> {
                        let next = s[k + 1].step;
                        let started = final(self).steps()[k + 1].step;
                        &&& r == InnerPoll::<T::Output>::PollAgain { step_index: (k + 1) as usize }
                        &&& forall|i: int| 0 <= i < s.len() && i != k + 1 ==> #[trigger] final(self).steps()[i] == s[i]
                        &&& final(self).steps()[k + 1].first_emitted_id == s[k + 1].first_emitted_id
                        &&& started.state() == next.state().saturating()
                        &&& started.input_state() is Pending
                        &&& started.inputs() == next.inputs()
                        &&& started.spec_time() == next.spec_time()
                        &&& exists|c: Frame<T>| #[trigger] frame_cloned(*st.frame(), c)
                            && started_on(next.state(), c, *started.frame())
                    }
                }
                &&& !st.state().is_saturating() && !st.state().is_saturated() ==> r is Pending
                    && final(self).steps() == s && final(self).outputs() == old(self).outputs()
            }),
    {
        let ghost s = self.steps@;
        proof {
            lemma_last_settled(s, start_i + 1);
        }
        let mut i = start_i;
        loop
            invariant_except_break
                self.steps@ == s,
                0 <= i <= start_i,
                start_i < s.len(),
                last_settled_before(s, start_i + 1) <= i,
                forall|k: int| last_settled_before(s, start_i + 1) < k < start_i + 1 ==> s[k].step.state().is_unsaturated(),
                last_settled_before(s, start_i + 1) >= 0,
                !s[last_settled_before(s, start_i + 1)].step.state().is_unsaturated(),
            ensures
                self.steps@ == s,
                i < s.len(),
                i as int == last_settled_before(s, start_i + 1),
            decreases i,
        {
            if !self.steps.is_unsaturated_at(i) {
                break;
            }
            i = i - 1;
        }
        let k = i;
        let ghost o0 = self.output_buffer@;
        let step_ro = self.steps.step_at(k);
        if step_ro.is_saturating() {
            let time = step_ro.raw_time();
            let step = self.steps.step_mut_at(k);
            let p = step.poll(completed);
            proof {
                assert(self.steps@[k as int].step.wf());
                assert forall|j: int| 0 <= j < self.steps@.len() implies #[trigger] self.steps@[j].step.wf() by {
                    if j != k {
                        assert(self.steps@[j] == s[j]);
                    }
                }
                assert forall|a: int, b: int| 0 <= a <= b < self.steps@.len() implies raw_time_of(
                    #[trigger] self.steps@[a],
                ) <= raw_time_of(#[trigger] self.steps@[b]) by {
                    assert(raw_time_of(self.steps@[a]) == raw_time_of(s[a]));
                    assert(raw_time_of(self.steps@[b]) == raw_time_of(s[b]));
                }
            }
            match p {
                Ok(SequenceFramePoll::ReadyOutputs(mut v)) => {
                    let ghost all = v@;
                    let first = v.remove(0);
                    let ghost rest = v@;
                    assert(rest == all.drop_first());
                    let rest_len = v.len();
                    assert(rest.len() == rest_len);
                    let mut j: usize = 0;
                    let ghost pre_steps = self.steps;
                    let ghost pre_inputs = self.input_buffer;
                    let ghost pre_sched = self.current_scheduled;
                    let ghost pre_fin = self.input_finalized;
                    let ghost pre_adv = self.caller_advanced;
                    while v.len() > 0
                        invariant
                            self.steps == pre_steps,
                            self.input_buffer == pre_inputs,
                            self.current_scheduled == pre_sched,
                            self.input_finalized == pre_fin,
                            self.caller_advanced == pre_adv,
                            rest.len() <= usize::MAX,
                            j + v@.len() == rest.len(),
                            self.output_buffer.wf(),
                            j <= rest.len(),
                            v@ == rest.skip(j as int),
                            self.output_buffer@ == with_events(o0, time, rest.take(j as int)),
                        decreases v.len(),
                    {
                        let e = v.remove(0);
                        proof {
                            assert(rest.take(j + 1).drop_last() == rest.take(j as int));
                            assert(rest.take(j + 1).last() == e);
                            assert(v@ == rest.skip(j + 1));
                        }
                        self.output_buffer.handle_event(time, e);
                        j = j + 1;
                    }
                    proof {
                        assert(rest.take(j as int) == rest);
                    }
                    InnerPoll::Output { time, output: first }
                },
                Ok(SequenceFramePoll::NeedsState) => InnerPoll::NeedsState {
                    time: poll_time,
                    channel: channel * 2 + 1,
                    step_index: k,
                },
                Ok(SequenceFramePoll::ReadyNoOutputs) => InnerPoll::PollAgain { step_index: k },
                _ => InnerPoll::Pending,
            }
        } else if step_ro.is_saturated() {
            let n = self.steps.len();
            if k + 1 < n {
                let next_time = self.steps.step_at(k + 1).raw_time();
                if next_time <= poll_time {
                    if self.steps.is_unsaturated_at(k + 1) {
                        let started = self.steps.saturate_clone_next(k);
                        proof {
                            assert(started is Ok);
                            assert forall|j: int| 0 <= j < self.steps@.len() implies #[trigger] self.steps@[j].step.wf() by {
                                if j != k + 1 {
                                    assert(self.steps@[j] == s[j]);
                                }
                            }
                            assert forall|a: int, b: int| 0 <= a <= b < self.steps@.len() implies raw_time_of(
                                #[trigger] self.steps@[a],
                            ) <= raw_time_of(#[trigger] self.steps@[b]) by {
                                assert(raw_time_of(self.steps@[a]) == raw_time_of(s[a]));
                                assert(raw_time_of(self.steps@[b]) == raw_time_of(s[b]));
                            }
                        }
                    }
                    return InnerPoll::PollAgain { step_index: k + 1 };
                }
            }
            InnerPoll::Interpolate { step_index: k }
        } else {
            InnerPoll::Pending
        }
    }
}

} // verus!

verus! {

/// Where a poll restarts after the source changed the inputs: the number of
/// steps at or before `poll_time`, the same index a poll computes to start
/// from (the pass then walks back from there); a poll before the first step
/// is refused.
pub open spec fn restart_index<T: Transposer, E>(s: Seq<StepWrapper<T>>, poll_time: u64) -> Result<
    usize,
    SourcePollErr<u64, E>,
> {
    if count_at_or_before(s, poll_time) == 0 {
        Err(SourcePollErr::PollBeforeDefault)
    } else {
        Ok(count_at_or_before(s, poll_time) as usize)
    }
}

impl<T: Transposer> TransposeInner<T> {
    /// Takes in what the source answered when a poll at `poll_time` asked
    /// for its state for step `step_index`, and says which step to poll
    /// again from. A rollback drops the inputs and outputs at and after its
    /// time and queues a rollback output; an event is buffered as an input
    /// when the transposer can handle it, and dropped otherwise; a finalize
    /// records the finalized time; each of these clears the source's
    /// scheduled time and restarts from the number of steps at or before
    /// `poll_time`. A state (scheduled or not) is handed to the step that
    /// asked for it, and the poll goes on from that step; a scheduled state
    /// also records when the source wants to be polled again.
    pub fn handle_state_poll<E>(
        &mut self,
        poll_time: u64,
        step_index: usize,
        poll: SourcePollOk<u64, T::Input, T::InputState>,
    ) -> (r: Result<usize, SourcePollErr<u64, E>>)
        requires
            old(self).wf(),
            step_index < old(self).steps().len(),
            poll is Scheduled || poll is Ready ==> old(self).steps()[step_index as int].step.state().is_saturating()
                && !(old(self).steps()[step_index as int].step.input_state() is Ready),
        ensures
            final(self).wf(),
            final(self).caller_advanced() == old(self).caller_advanced(),
            final(self).steps().len() == old(self).steps().len(),
            match poll {
                SourcePollOk::Rollback(t) => {
                    &&& final(self).current_scheduled() is None
                    &&& final(self).input_finalized() == old(self).input_finalized()
                    &&& final(self).inputs() == rolled_back(old(self).inputs(), t)
                    &&& final(self).outputs() == rolled_back(old(self).outputs(), t).push(
                        (t, seq![OutputType::<T::Output>::Rollback]),
                    )
                    &&& final(self).steps() == old(self).steps()
                    &&& r == restart_index::<T, E>(old(self).steps(), poll_time)
                },
                SourcePollOk::Event(e, t) => {
                    &&& final(self).current_scheduled() is None
                    &&& final(self).input_finalized() == old(self).input_finalized()
                    &&& T::handles_input(t, e) ==> final(self).inputs() == inserted_back(old(self).inputs(), t, e)
                    &&& !T::handles_input(t, e) ==> final(self).inputs() == old(self).inputs()
                    &&& final(self).outputs() == old(self).outputs()
                    &&& final(self).steps() == old(self).steps()
                    &&& r == restart_index::<T, E>(old(self).steps(), poll_time)
                },
                SourcePollOk::Finalize(t) => {
                    &&& final(self).current_scheduled() is None
                    &&& final(self).input_finalized() == Some(t)
                    &&& final(self).inputs() == old(self).inputs()
                    &&& final(self).outputs() == old(self).outputs()
                    &&& final(self).steps() == old(self).steps()
                    &&& r == restart_index::<T, E>(old(self).steps(), poll_time)
                },
                SourcePollOk::Scheduled(state, t) => {
                    let before = old(self).steps()[step_index as int].step;
                    let after = final(self).steps()[step_index as int].step;
                    &&& final(self).current_scheduled() == Some(t)
                    &&& final(self).input_finalized() == old(self).input_finalized()
                    &&& final(self).inputs() == old(self).inputs()
                    &&& final(self).outputs() == old(self).outputs()
                    &&& forall|i: int| 0 <= i < old(self).steps().len() && i != step_index ==> #[trigger] final(self).steps()[i]
                        == old(self).steps()[i]
                    &&& final(self).steps()[step_index as int].first_emitted_id == old(self).steps()[step_index as int].first_emitted_id
                    &&& after.input_state() == LazyStateInner::Ready(state)
                    &&& after.state() == before.state()
                    &&& after.frame() == before.frame()
                    &&& after.inputs() == before.inputs()
                    &&& after.spec_time() == before.spec_time()
                    &&& r == Ok::<usize, SourcePollErr<u64, E>>(step_index)
                },
                SourcePollOk::Ready(state) => {
                    let before = old(self).steps()[step_index as int].step;
                    let after = final(self).steps()[step_index as int].step;
                    &&& final(self).current_scheduled() == old(self).current_scheduled()
                    &&& final(self).input_finalized() == old(self).input_finalized()
                    &&& final(self).inputs() == old(self).inputs()
                    &&& final(self).outputs() == old(self).outputs()
                    &&& forall|i: int| 0 <= i < old(self).steps().len() && i != step_index ==> #[trigger] final(self).steps()[i]
                        == old(self).steps()[i]
                    &&& final(self).steps()[step_index as int].first_emitted_id == old(self).steps()[step_index as int].first_emitted_id
                    &&& after.input_state() == LazyStateInner::Ready(state)
                    &&& after.state() == before.state()
                    &&& after.frame() == before.frame()
                    &&& after.inputs() == before.inputs()
                    &&& after.spec_time() == before.spec_time()
                    &&& r == Ok::<usize, SourcePollErr<u64, E>>(step_index)
                },
            },
    {
        match poll {
            SourcePollOk::Rollback(t) => {
                self.current_scheduled = None;
                self.input_buffer.rollback(t);
                self.output_buffer.handle_rollback(t);
                self.restart_from(poll_time)
            },
            SourcePollOk::Event(e, t) => {
                self.handle_input_event(t, e);
                self.restart_from(poll_time)
            },
            SourcePollOk::Finalize(t) => {
                self.current_scheduled = None;
                self.input_finalized = Some(t);
                self.restart_from(poll_time)
            },
            SourcePollOk::Scheduled(state, t) => {
                self.current_scheduled = Some(t);
                self.hand_state(step_index, state);
                Ok(step_index)
            },
            SourcePollOk::Ready(state) => {
                self.hand_state(step_index, state);
                Ok(step_index)
            },
        }
    }

    /// Takes in what the source answered a poll of its own (not one for a
    /// step's state): `None` while it is pending, which asks to wait; an error,
    /// which is passed on; an input change (event, rollback, finalize), which
    /// is handled as `handle_state_poll` handles it and asks to poll again; or
    /// a state, which is handed back, a scheduled one after recording when
    /// the source wants to be polled again.
    pub fn handle_source_poll<S, E>(
        &mut self,
        poll: Option<Result<SourcePollOk<u64, T::Input, S>, SourcePollErr<u64, E>>>,
    ) -> (r: Result<PollResult<S>, SourcePollErr<u64, E>>)
        requires
            old(self).wf(),
        ensures
            final(self).wf(),
            final(self).caller_advanced() == old(self).caller_advanced(),
            final(self).steps() == old(self).steps(),
            match poll {
                None => r == Ok::<PollResult<S>, SourcePollErr<u64, E>>(PollResult::Pending) && *final(self) == *old(self),
                Some(Err(e)) => r == Err::<PollResult<S>, SourcePollErr<u64, E>>(e) && *final(self) == *old(self),
                Some(Ok(SourcePollOk::Event(e, t))) => {
                    &&& r == Ok::<PollResult<S>, SourcePollErr<u64, E>>(PollResult::PollAgain)
                    &&& final(self).current_scheduled() is None
                    &&& T::handles_input(t, e) ==> final(self).inputs() == inserted_back(old(self).inputs(), t, e)
                    &&& !T::handles_input(t, e) ==> final(self).inputs() == old(self).inputs()
                    &&& final(self).outputs() == old(self).outputs()
                    &&& final(self).input_finalized() == old(self).input_finalized()
                },
                Some(Ok(SourcePollOk::Rollback(t))) => {
                    &&& r == Ok::<PollResult<S>, SourcePollErr<u64, E>>(PollResult::PollAgain)
                    &&& final(self).current_scheduled() is None
                    &&& final(self).inputs() == rolled_back(old(self).inputs(), t)
                    &&& final(self).outputs() == rolled_back(old(self).outputs(), t).push(
                        (t, seq![OutputType::<T::Output>::Rollback]),
                    )
                    &&& final(self).input_finalized() == old(self).input_finalized()
                },
                Some(Ok(SourcePollOk::Finalize(t))) => {
                    &&& r == Ok::<PollResult<S>, SourcePollErr<u64, E>>(PollResult::PollAgain)
                    &&& final(self).current_scheduled() is None
                    &&& final(self).input_finalized() == Some(t)
                    &&& final(self).inputs() == old(self).inputs()
                    &&& final(self).outputs() == old(self).outputs()
                },
                Some(Ok(SourcePollOk::Scheduled(st, t))) => {
                    &&& r == Ok::<PollResult<S>, SourcePollErr<u64, E>>(PollResult::Ready(st))
                    &&& final(self).current_scheduled() == Some(t)
                    &&& final(self).input_finalized() == old(self).input_finalized()
                    &&& final(self).inputs() == old(self).inputs()
                    &&& final(self).outputs() == old(self).outputs()
                },
                Some(Ok(SourcePollOk::Ready(st))) => r == Ok::<PollResult<S>, SourcePollErr<u64, E>>(PollResult::Ready(st))
                    && *final(self) == *old(self),
            },
    {
        match poll {
            None => Ok(PollResult::Pending),
            Some(Err(e)) => Err(e),
            Some(Ok(SourcePollOk::Event(e, t))) => {
                self.handle_input_event(t, e);
                Ok(PollResult::PollAgain)
            },
            Some(Ok(SourcePollOk::Rollback(t))) => {
                self.current_scheduled = None;
                self.input_buffer.rollback(t);
                self.output_buffer.handle_rollback(t);
                Ok(PollResult::PollAgain)
            },
            Some(Ok(SourcePollOk::Finalize(t))) => {
                self.current_scheduled = None;
                self.input_finalized = Some(t);
                Ok(PollResult::PollAgain)
            },
            Some(Ok(SourcePollOk::Scheduled(st, t))) => {
                self.current_scheduled = Some(t);
                Ok(PollResult::Ready(st))
            },
            Some(Ok(SourcePollOk::Ready(st))) => Ok(PollResult::Ready(st)),
        }
    }

    /// Takes an input event from the source: clears the source's scheduled
    /// time and buffers the event if the transposer can handle it (its
    /// `can_handle`, whose answer is `handles_input`).
    pub fn handle_input_event(&mut self, time: u64, event: T::Input)
        requires
            old(self).wf(),
        ensures
            final(self).wf(),
            final(self).current_scheduled() is None,
            T::handles_input(time, event) ==> final(self).inputs() == inserted_back(old(self).inputs(), time, event),
            !T::handles_input(time, event) ==> final(self).inputs() == old(self).inputs(),
            final(self).outputs() == old(self).outputs(),
            final(self).steps() == old(self).steps(),
            final(self).input_finalized() == old(self).input_finalized(),
            final(self).caller_advanced() == old(self).caller_advanced(),
    {
        let accepted = T::can_handle(time, &event);
        self.take_input_event(time, event, accepted);
    }

    /// Takes an input event that the transposer can (`accepted`) or cannot
    /// handle: the source's scheduled time is cleared either way, and only an
    /// accepted event is buffered.
    pub fn take_input_event(&mut self, time: u64, event: T::Input, accepted: bool)
        requires
            old(self).wf(),
        ensures
            final(self).wf(),
            final(self).current_scheduled() is None,
            accepted ==> final(self).inputs() == inserted_back(old(self).inputs(), time, event),
            !accepted ==> final(self).inputs() == old(self).inputs(),
            final(self).outputs() == old(self).outputs(),
            final(self).steps() == old(self).steps(),
            final(self).input_finalized() == old(self).input_finalized(),
            final(self).caller_advanced() == old(self).caller_advanced(),
    {
        self.current_scheduled = None;
        if accepted {
            self.input_buffer.insert_back(time, event);
        }
    }

    fn restart_from<E>(&self, poll_time: u64) -> (r: Result<usize, SourcePollErr<u64, E>>)
        requires
            self.wf(),
        ensures
            r == restart_index::<T, E>(self.steps(), poll_time),
    {
        let i = self.steps.partition_at(poll_time);
        if i < 1 {
            Err(SourcePollErr::PollBeforeDefault)
        } else {
            Ok(i)
        }
    }

    fn hand_state(&mut self, step_index: usize, state: T::InputState)
        requires
            old(self).wf(),
            step_index < old(self).steps().len(),
            old(self).steps()[step_index as int].step.state().is_saturating(),
            !(old(self).steps()[step_index as int].step.input_state() is Ready),
        ensures
            final(self).wf(),
            final(self).current_scheduled() == old(self).current_scheduled(),
            final(self).input_finalized() == old(self).input_finalized(),
            final(self).caller_advanced() == old(self).caller_advanced(),
            final(self).inputs() == old(self).inputs(),
            final(self).outputs() == old(self).outputs(),
            final(self).steps().len() == old(self).steps().len(),
            forall|i: int| 0 <= i < old(self).steps().len() && i != step_index ==> #[trigger] final(self).steps()[i]
                == old(self).steps()[i],
            final(self).steps()[step_index as int].first_emitted_id == old(self).steps()[step_index as int].first_emitted_id,
            final(self).steps()[step_index as int].step.input_state() == LazyStateInner::Ready(state),
            final(self).steps()[step_index as int].step.state() == old(self).steps()[step_index as int].step.state(),
            final(self).steps()[step_index as int].step.frame() == old(self).steps()[step_index as int].step.frame(),
            final(self).steps()[step_index as int].step.inputs() == old(self).steps()[step_index as int].step.inputs(),
            final(self).steps()[step_index as int].step.spec_time() == old(self).steps()[step_index as int].step.spec_time(),
    {
        let ghost s = self.steps@;
        let step = self.steps.step_mut_at(step_index);
        let _ = step.set_input_state(state);
        proof {
            assert forall|j: int| 0 <= j < self.steps@.len() implies #[trigger] self.steps@[j].step.wf() by {
                if j != step_index {
                    assert(self.steps@[j] == s[j]);
                }
            }
            assert forall|a: int, b: int| 0 <= a <= b < self.steps@.len() implies raw_time_of(
                #[trigger] self.steps@[a],
            ) <= raw_time_of(#[trigger] self.steps@[b]) by {
                assert(raw_time_of(self.steps@[a]) == raw_time_of(s[a]));
                assert(raw_time_of(self.steps@[b]) == raw_time_of(s[b]));
            }
        }
    }
}

} // verus!
