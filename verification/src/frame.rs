use vstd::prelude::*;
use rand_chacha::rand_core::SeedableRng;
use rand_chacha::ChaCha12Rng;
use crate::engine_time::EngineTimeSchedule;
use crate::expire_handle::{ExpireHandle, ExpireHandleFactory};
use crate::handle_maps::{
    handle_index, handle_table, index_clone, index_contains, index_insert, index_len, index_new, index_remove, table_clone,
    table_get, table_insert, table_len, table_new, table_remove,
};
use crate::transposer::Transposer;

verus! {

#[verifier::external_type_specification]
#[verifier::external_body]
pub struct ExChaCha12Rng(ChaCha12Rng);

/// The generator that `ChaCha12Rng::from_seed` makes from `seed`.
pub uninterp spec fn chacha12_seeded(seed: [u8; 32]) -> ChaCha12Rng;

/// The ChaCha12 generator seeded with `seed` (`ChaCha12Rng::from_seed`): the
/// block generator over the ChaCha12 core, a function of the seed alone, so
/// the same seed gives the same generator. Its stream is not stated.
#[verifier::external_body]
fn chacha12_from_seed(seed: [u8; 32]) -> (r: ChaCha12Rng)
    ensures
        r == chacha12_seeded(seed),
{
    ChaCha12Rng::from_seed(seed)
}

/// A copy of the generator in the same position (`ChaCha12Rng::clone`, which
/// is derived, so the copy equals the original).
#[verifier::external_body]
fn chacha12_clone(rng: &ChaCha12Rng) -> (r: ChaCha12Rng)
    ensures
        r == *rng,
{
    rng.clone()
}

/// Scheduled events are ordered by time, then by the update that scheduled
/// them, then by the order in which that update emitted them.
pub open spec fn schedule_lt(a: EngineTimeSchedule, b: EngineTimeSchedule) -> bool {
    ||| a.time < b.time
    ||| a.time == b.time && a.parent_index < b.parent_index
    ||| a.time == b.time && a.parent_index == b.parent_index && a.emission_index < b.emission_index
}

/// `a` comes strictly before `b` in the schedule.
pub fn schedule_less(a: &EngineTimeSchedule, b: &EngineTimeSchedule) -> (r: bool)
    ensures
        r == schedule_lt(*a, *b),
{
    if a.time != b.time {
        a.time < b.time
    } else if a.parent_index != b.parent_index {
        a.parent_index < b.parent_index
    } else {
        a.emission_index < b.emission_index
    }
}

/// The keys of the entries strictly increase in schedule order.
pub open spec fn keys_increasing<V>(s: Seq<(EngineTimeSchedule, V)>) -> bool {
    forall|i: int, j: int| 0 <= i < j < s.len() ==> schedule_lt(s[i].0, s[j].0)
}

/// `p` is where key `k` goes among the entries.
pub open spec fn is_key_position<V>(s: Seq<(EngineTimeSchedule, V)>, k: EngineTimeSchedule, p: int) -> bool {
    &&& 0 <= p <= s.len()
    &&& forall|i: int| 0 <= i < p ==> schedule_lt(s[i].0, k)
    &&& forall|i: int| p <= i < s.len() ==> !schedule_lt(s[i].0, k)
}

/// The keys of the entries.
pub open spec fn keys_of<V>(s: Seq<(EngineTimeSchedule, V)>) -> Set<EngineTimeSchedule> {
    Set::new(|k: EngineTimeSchedule| exists|i: int| 0 <= i < s.len() && s[i].0 == k)
}

/// The schedule order is a strict total order.
pub proof fn lemma_schedule_order(a: EngineTimeSchedule, b: EngineTimeSchedule)
    ensures
        !(schedule_lt(a, b) && schedule_lt(b, a)),
        a != b ==> schedule_lt(a, b) || schedule_lt(b, a),
        !schedule_lt(a, a),
{
}

/// Finds where key `k` goes among sorted entries.
fn find_key<V>(s: &Vec<(EngineTimeSchedule, V)>, k: &EngineTimeSchedule) -> (p: usize)
    requires
        keys_increasing(s@),
    ensures
        is_key_position(s@, *k, p as int),
{
    let mut low: usize = 0;
    let mut high: usize = s.len();
    while low < high
        invariant
            0 <= low <= high <= s@.len(),
            keys_increasing(s@),
            forall|i: int| 0 <= i < low ==> schedule_lt(s@[i].0, *k),
            forall|i: int| high <= i < s@.len() ==> !schedule_lt(s@[i].0, *k),
        decreases high - low,
    {
        let m = low + (high - low) / 2;
        if schedule_less(&s[m].0, k) {
            proof {
                assert forall|i: int| 0 <= i <= m implies schedule_lt(s@[i].0, *k) by {
                    if i < m {
                        assert(schedule_lt(s@[i].0, s@[m as int].0));
                    }
                }
            }
            low = m + 1;
        } else {
            proof {
                assert forall|i: int| m <= i < s@.len() implies !schedule_lt(s@[i].0, *k) by {
                    if i > m {
                        assert(schedule_lt(s@[m as int].0, s@[i].0));
                    }
                }
            }
            high = m;
        }
    }
    low
}

/// In sorted entries a key at its position is the only entry with that key.
proof fn lemma_key_at_position<V>(s: Seq<(EngineTimeSchedule, V)>, k: EngineTimeSchedule, p: int)
    requires
        keys_increasing(s),
        is_key_position(s, k, p),
    ensures
        (p < s.len() && s[p].0 == k) == keys_of(s).contains(k),
        forall|i: int| 0 <= i < s.len() && s[i].0 == k ==> i == p,
{
    assert forall|i: int| 0 <= i < s.len() && s[i].0 == k implies i == p by {
        if i < p {
            lemma_schedule_order(k, k);
        } else if i > p {
            lemma_schedule_order(s[p].0, k);
        }
    }
    if keys_of(s).contains(k) {
        let i = choose|i: int| 0 <= i < s.len() && s[i].0 == k;
    }
}

/// Why an expire handle could not expire an event.
#[derive(Clone, Copy, Debug, PartialEq, Eq, Structural)]
pub enum ExpireEventError {
    InvalidOrUsedHandle,
}

/// The events a transposer has scheduled, the handles that can expire some of
/// them, and the random generator of the transposer.
pub struct FrameMetaData<P> {
    schedule: Vec<(EngineTimeSchedule, P)>,
    expire_handles_forward: im::HashMap<u64, (u64, usize, usize)>,
    expire_handles_backward: im::OrdMap<(u64, usize, usize), u64>,
    expire_handle_factory: ExpireHandleFactory,
    pub rng: ChaCha12Rng,
}

/// The key of a scheduled event as a tuple: time, parent index, emission
/// index.
pub open spec fn key_tuple(k: EngineTimeSchedule) -> (u64, usize, usize) {
    (k.time, k.parent_index, k.emission_index)
}

/// The scheduled event key of a tuple.
pub open spec fn tuple_key(t: (u64, usize, usize)) -> EngineTimeSchedule {
    EngineTimeSchedule { time: t.0, parent_index: t.1, emission_index: t.2 }
}

fn tuple_of(k: &EngineTimeSchedule) -> (r: (u64, usize, usize))
    ensures
        r == key_tuple(*k),
{
    (k.time, k.parent_index, k.emission_index)
}

impl<P> FrameMetaData<P> {
    /// The scheduled events in schedule order.
    pub closed spec fn schedule(&self) -> Seq<(EngineTimeSchedule, P)> {
        self.schedule@
    }

    /// The live expire handles, by value, with the key of the event each one
    /// expires.
    pub closed spec fn handles(&self) -> Map<u64, (u64, usize, usize)> {
        handle_table(self.expire_handles_forward)
    }

    /// The keys of the events that have an expire handle, each with its
    /// handle's value.
    pub closed spec fn handles_by_event(&self) -> Map<(u64, usize, usize), u64> {
        handle_index(self.expire_handles_backward)
    }

    /// The value of the next handle to hand out.
    pub closed spec fn next_handle(&self) -> u64 {
        self.expire_handle_factory.next_value()
    }

    /// The random generator the updates draw from.
    pub closed spec fn generator(&self) -> ChaCha12Rng {
        self.rng
    }

    /// The schedule is sorted; the two handle tables are inverse to each
    /// other and name scheduled events only; handle values are below the next
    /// one to hand out.
    pub open spec fn wf(&self) -> bool {
        &&& keys_increasing(self.schedule())
        &&& forall|h: u64| #[trigger] self.handles().contains_key(h) ==> {
            &&& h < self.next_handle()
            &&& self.handles_by_event().contains_key(self.handles()[h])
            &&& self.handles_by_event()[self.handles()[h]] == h
        }
        &&& forall|t: (u64, usize, usize)| #[trigger] self.handles_by_event().contains_key(t) ==> {
            &&& self.handles().contains_key(self.handles_by_event()[t])
            &&& self.handles()[self.handles_by_event()[t]] == t
            &&& keys_of(self.schedule()).contains(tuple_key(t))
        }
    }
}

} // verus!

verus! {

/// The entries after key `k` is given value `v`: the entry with that key is
/// replaced, or a new one goes in its place.
pub open spec fn put_key<V>(s: Seq<(EngineTimeSchedule, V)>, k: EngineTimeSchedule, v: V) -> Seq<(EngineTimeSchedule, V)> {
    let p = choose|p: int| is_key_position(s, k, p);
    if p < s.len() && s[p].0 == k {
        s.update(p, (k, v))
    } else {
        s.insert(p, (k, v))
    }
}

/// The index of the entry with key `k`.
pub open spec fn key_index<V>(s: Seq<(EngineTimeSchedule, V)>, k: EngineTimeSchedule) -> int {
    choose|i: int| 0 <= i < s.len() && s[i].0 == k
}

/// Every key has a position among sorted entries.
proof fn lemma_key_position_exists<V>(s: Seq<(EngineTimeSchedule, V)>, k: EngineTimeSchedule)
    requires
        keys_increasing(s),
    ensures
        exists|p: int| is_key_position(s, k, p),
    decreases s.len(),
{
    if s.len() == 0 {
        assert(is_key_position(s, k, 0));
    } else {
        let t = s.drop_last();
        lemma_key_position_exists(t, k);
        let q = choose|p: int| is_key_position(t, k, p);
        if schedule_lt(s.last().0, k) {
            assert forall|i: int| 0 <= i < s.len() implies schedule_lt(s[i].0, k) by {
                if i < s.len() - 1 {
                    assert(schedule_lt(s[i].0, s[s.len() - 1].0));
                }
            }
            assert(is_key_position(s, k, s.len() as int));
        } else {
            assert forall|i: int| 0 <= i < s.len() - 1 implies s[i] == t[i] by {}
            assert forall|i: int| q <= i < s.len() implies !schedule_lt(s[i].0, k) by {
                if i < s.len() - 1 {
                    assert(s[i] == t[i]);
                }
            }
            assert(is_key_position(s, k, q));
        }
    }
}

/// Putting a key at its position keeps the entries sorted, and gives exactly
/// the old keys and the new one.
proof fn lemma_put_key<V>(s: Seq<(EngineTimeSchedule, V)>, k: EngineTimeSchedule, v: V, p: int)
    requires
        keys_increasing(s),
        is_key_position(s, k, p),
    ensures
        put_key(s, k, v) == if p < s.len() && s[p].0 == k { s.update(p, (k, v)) } else { s.insert(p, (k, v)) },
        keys_increasing(put_key(s, k, v)),
        keys_of(put_key(s, k, v)) == keys_of(s).insert(k),
{
    let q = choose|q: int| is_key_position(s, k, q);
    assert(is_key_position(s, k, q));
    if q < p {
        assert(schedule_lt(s[q].0, k));
    } else if p < q {
        assert(schedule_lt(s[p].0, k));
    }
    assert(q == p);
    let r = put_key(s, k, v);
    if p < s.len() && s[p].0 == k {
        assert forall|i: int, j: int| 0 <= i < j < r.len() implies schedule_lt(r[i].0, r[j].0) by {
            assert(s[i].0 == r[i].0 && s[j].0 == r[j].0);
        }
        assert forall|x: EngineTimeSchedule| keys_of(r).contains(x) == keys_of(s).insert(k).contains(x) by {
            if keys_of(s).contains(x) {
                let i = choose|i: int| 0 <= i < s.len() && s[i].0 == x;
                assert(r[i].0 == x);
            }
            if keys_of(r).contains(x) {
                let i = choose|i: int| 0 <= i < r.len() && r[i].0 == x;
                assert(s[i].0 == x);
            }
        }
    } else {
        assert forall|i: int, j: int| 0 <= i < j < r.len() implies schedule_lt(r[i].0, r[j].0) by {
            if j < p {
            } else if i < p && j == p {
            } else if i < p && j > p {
                assert(r[j] == s[j - 1]);
            } else if i == p {
                assert(r[j] == s[j - 1]);
                lemma_schedule_order(s[j - 1].0, k);
                if j - 1 > p {
                    assert(schedule_lt(s[p].0, s[j - 1].0));
                    lemma_schedule_order(s[p].0, k);
                }
            } else {
                assert(r[i] == s[i - 1] && r[j] == s[j - 1]);
            }
        }
        assert forall|x: EngineTimeSchedule| keys_of(r).contains(x) == keys_of(s).insert(k).contains(x) by {
            if keys_of(s).contains(x) {
                let i = choose|i: int| 0 <= i < s.len() && s[i].0 == x;
                if i < p {
                    assert(r[i].0 == x);
                } else {
                    assert(r[i + 1].0 == x);
                }
            }
            if x == k {
                assert(r[p].0 == k);
            }
            if keys_of(r).contains(x) {
                let i = choose|i: int| 0 <= i < r.len() && r[i].0 == x;
                if i < p {
                    assert(s[i].0 == x);
                } else if i > p {
                    assert(s[i - 1].0 == x);
                }
            }
        }
    }
    assert(keys_of(r) =~= keys_of(s).insert(k));
}

/// Removing the entry at the position of its key removes exactly that key and
/// keeps the entries sorted.
proof fn lemma_remove_at<V>(s: Seq<(EngineTimeSchedule, V)>, p: int)
    requires
        keys_increasing(s),
        0 <= p < s.len(),
    ensures
        key_index(s, s[p].0) == p,
        keys_increasing(s.remove(p)),
        keys_of(s.remove(p)) == keys_of(s).remove(s[p].0),
        forall|i: int| 0 <= i < s.remove(p).len() ==> #[trigger] s.remove(p)[i] == if i < p { s[i] } else { s[i + 1] },
{
    let k = s[p].0;
    let r = s.remove(p);
    assert forall|i: int, j: int| 0 <= i < j < r.len() implies schedule_lt(r[i].0, r[j].0) by {
        if i < p && j >= p {
            assert(r[j] == s[j + 1]);
        } else if i >= p {
            assert(r[i] == s[i + 1] && r[j] == s[j + 1]);
        }
    }
    assert forall|i: int| 0 <= i < s.len() && i != p implies s[i].0 != k by {
        if i < p {
            lemma_schedule_order(s[i].0, k);
        } else {
            lemma_schedule_order(k, s[i].0);
        }
    }
    assert(0 <= p < s.len() && s[p].0 == k);
    assert forall|x: EngineTimeSchedule| keys_of(r).contains(x) == keys_of(s).remove(k).contains(x) by {
        if keys_of(r).contains(x) {
            let i = choose|i: int| 0 <= i < r.len() && r[i].0 == x;
            if i < p {
                assert(s[i].0 == x);
            } else {
                assert(s[i + 1].0 == x);
            }
        }
        if keys_of(s).remove(k).contains(x) {
            let i = choose|i: int| 0 <= i < s.len() && s[i].0 == x;
            if i < p {
                assert(r[i].0 == x);
            } else {
                assert(r[i - 1].0 == x);
            }
        }
    }
    assert(keys_of(r) =~= keys_of(s).remove(k));
}

} // verus!

verus! {

impl<P> FrameMetaData<P> {
    /// Nothing is scheduled and no handle is out.
    pub fn new(rng_seed: [u8; 32]) -> (r: Self)
        ensures
            r.wf(),
            r.schedule() == Seq::<(EngineTimeSchedule, P)>::empty(),
            r.handles() == Map::<u64, (u64, usize, usize)>::empty(),
            r.handles_by_event() == Map::<(u64, usize, usize), u64>::empty(),
            r.next_handle() == 0,
            r.generator() == chacha12_seeded(rng_seed),
    {
        let r = FrameMetaData {
            schedule: Vec::new(),
            expire_handles_forward: table_new(),
            expire_handles_backward: index_new(),
            expire_handle_factory: ExpireHandleFactory::new(),
            rng: chacha12_from_seed(rng_seed),
        };
        proof {
            assert(r.handles() =~= Map::<u64, (u64, usize, usize)>::empty());
            assert(r.handles_by_event() =~= Map::<(u64, usize, usize), u64>::empty());
        }
        r
    }

    /// Schedules `payload` at `time`, replacing what was scheduled at that
    /// exact schedule entry.
    pub fn schedule_event(&mut self, time: EngineTimeSchedule, payload: P)
        requires
            old(self).wf(),
        ensures
            final(self).wf(),
            final(self).schedule() == put_key(old(self).schedule(), time, payload),
            final(self).handles() == old(self).handles(),
            final(self).handles_by_event() == old(self).handles_by_event(),
            final(self).next_handle() == old(self).next_handle(),
            frame_op_done(*old(self), FrameOp::Schedule(time, payload), *final(self)),
    {
        let p = find_key(&self.schedule, &time);
        let ghost s = self.schedule@;
        proof {
            lemma_key_at_position(s, time, p as int);
            lemma_put_key(s, time, payload, p as int);
        }
        if p < self.schedule.len() && self.schedule[p].0 == time {
            self.schedule.set(p, (time, payload));
        } else {
            self.schedule.insert(p, (time, payload));
        }
        proof {
            assert(self.handles() == old(self).handles());
            assert(self.handles_by_event() == old(self).handles_by_event());
            assert(self.next_handle() == old(self).next_handle());
            assert forall|t: (u64, usize, usize)| #[trigger] self.handles_by_event().contains_key(t) implies
                keys_of(self.schedule@).contains(tuple_key(t)) by {
                assert(old(self).handles_by_event().contains_key(t));
                assert(keys_of(s).contains(tuple_key(t)));
            }
        }
    }

    /// Schedules `payload` at `time` and hands out a handle that can expire it.
    /// No live handle may already name `time`: a second handle for the same
    /// key would leave the first handle naming an event whose index entry
    /// was overwritten, and expiring both then reaches an entry that is
    /// gone, which panics. Within an update the keys are fresh, since each
    /// emission takes a new emission index.
    pub fn schedule_event_expireable(&mut self, time: EngineTimeSchedule, payload: P) -> (r: ExpireHandle)
        requires
            old(self).wf(),
            old(self).next_handle() < u64::MAX,
            !old(self).handles_by_event().contains_key(key_tuple(time)),
        ensures
            final(self).wf(),
            final(self).schedule() == put_key(old(self).schedule(), time, payload),
            r.value() == old(self).next_handle(),
            final(self).handles() == old(self).handles().insert(r.value(), key_tuple(time)),
            final(self).handles_by_event() == old(self).handles_by_event().insert(key_tuple(time), r.value()),
            final(self).next_handle() == old(self).next_handle() + 1,
            frame_op_done(*old(self), FrameOp::ScheduleExpireable(time, payload), *final(self)),
    {
        let ghost old_self = *self;
        proof {
            lemma_key_position_exists(old_self.schedule@, time);
            lemma_put_key(old_self.schedule@, time, payload, choose|p: int| is_key_position(old_self.schedule@, time, p));
        }
        self.schedule_event(time, payload);
        let handle = self.expire_handle_factory.next();
        let t = tuple_of(&time);
        table_insert(&mut self.expire_handles_forward, handle.value_exec(), t);
        index_insert(&mut self.expire_handles_backward, t, handle.value_exec());
        proof {
            let hv = handle.value();
            assert forall|h: u64| #[trigger] self.handles().contains_key(h) implies {
                &&& h < self.next_handle()
                &&& self.handles_by_event().contains_key(self.handles()[h])
                &&& self.handles_by_event()[self.handles()[h]] == h
            } by {
                if h != hv {
                    let t2 = old_self.handles()[h];
                    assert(old_self.handles_by_event().contains_key(t2));
                    assert(t2 != t);
                }
            }
            assert forall|t2: (u64, usize, usize)| #[trigger] self.handles_by_event().contains_key(t2) implies {
                &&& self.handles().contains_key(self.handles_by_event()[t2])
                &&& self.handles()[self.handles_by_event()[t2]] == t2
                &&& keys_of(self.schedule()).contains(tuple_key(t2))
            } by {
                if t2 != t {
                    let h2 = old_self.handles_by_event()[t2];
                    assert(old_self.handles().contains_key(h2));
                    assert(h2 < old_self.next_handle());
                    assert(keys_of(old_self.schedule@).contains(tuple_key(t2)));
                }
            }
        }
        handle
    }

    /// Expires the event that `handle` names, handing back its time and payload.
    pub fn expire_event(&mut self, handle: ExpireHandle) -> (r: Result<(u64, P), ExpireEventError>)
        requires
            old(self).wf(),
        ensures
            final(self).wf(),
            !old(self).handles().contains_key(handle.value()) ==> r == Err::<(u64, P), ExpireEventError>(
                ExpireEventError::InvalidOrUsedHandle,
            ) && *final(self) == *old(self),
            old(self).handles().contains_key(handle.value()) ==> {
                let t = old(self).handles()[handle.value()];
                let i = key_index(old(self).schedule(), tuple_key(t));
                &&& keys_of(old(self).schedule()).contains(tuple_key(t))
                &&& r == Ok::<(u64, P), ExpireEventError>((t.0, old(self).schedule()[i].1))
                &&& final(self).schedule() == old(self).schedule().remove(i)
                &&& final(self).handles() == old(self).handles().remove(handle.value())
                &&& final(self).handles_by_event() == old(self).handles_by_event().remove(t)
                &&& final(self).next_handle() == old(self).next_handle()
            },
            frame_op_done(*old(self), FrameOp::Expire(handle.value()), *final(self)),
            expire_gives(*old(self), handle.value(), r),
    {
        let ghost old_self = *self;
        let h = handle.value_exec();
        let t = match table_get(&self.expire_handles_forward, h) {
            Some(t) => t,
            None => return Err(ExpireEventError::InvalidOrUsedHandle),
        };
        let key = EngineTimeSchedule { time: t.0, parent_index: t.1, emission_index: t.2 };
        let ghost s = self.schedule@;
        let p = find_key(&self.schedule, &key);
        proof {
            assert(old_self.handles().contains_key(h));
            assert(old_self.handles_by_event().contains_key(t));
            assert(key == tuple_key(t));
            lemma_key_at_position(s, key, p as int);
            lemma_remove_at(s, p as int);
        }
        let (_, payload) = self.schedule.remove(p);
        index_remove(&mut self.expire_handles_backward, t);
        table_remove(&mut self.expire_handles_forward, h);
        proof {
            assert forall|h2: u64| #[trigger] self.handles().contains_key(h2) implies {
                &&& h2 < self.next_handle()
                &&& self.handles_by_event().contains_key(self.handles()[h2])
                &&& self.handles_by_event()[self.handles()[h2]] == h2
            } by {
                let t2 = old_self.handles()[h2];
                assert(old_self.handles_by_event()[t2] == h2);
                assert(t2 != t);
            }
            assert forall|t2: (u64, usize, usize)| #[trigger] self.handles_by_event().contains_key(t2) implies {
                &&& self.handles().contains_key(self.handles_by_event()[t2])
                &&& self.handles()[self.handles_by_event()[t2]] == t2
                &&& keys_of(self.schedule()).contains(tuple_key(t2))
            } by {
                let h2 = old_self.handles_by_event()[t2];
                assert(old_self.handles()[h2] == t2);
                assert(h2 != h);
                assert(keys_of(s).contains(tuple_key(t2)));
                assert(tuple_key(t2) != key);
                assert(keys_of(s).remove(key).contains(tuple_key(t2)));
            }
        }
        Ok((t.0, payload))
    }

    /// The schedule entry of the earliest scheduled event.
    pub fn get_next_scheduled_time(&self) -> (r: Option<&EngineTimeSchedule>)
        requires
            self.wf(),
        ensures
            self.schedule().len() == 0 ==> r is None,
            self.schedule().len() > 0 ==> r == Some(&self.schedule()[0].0),
    {
        if self.schedule.len() == 0 {
            None
        } else {
            Some(&self.schedule[0].0)
        }
    }

    /// Removes and hands back the earliest scheduled event; its handle, if it
    /// has one, stops being valid.
    pub fn pop_first_event(&mut self) -> (r: Option<(EngineTimeSchedule, P)>)
        requires
            old(self).wf(),
        ensures
            final(self).wf(),
            old(self).schedule().len() == 0 ==> r is None && *final(self) == *old(self),
            old(self).schedule().len() > 0 ==> {
                let t = key_tuple(old(self).schedule()[0].0);
                let b = old(self).handles_by_event();
                &&& r == Some(old(self).schedule()[0])
                &&& final(self).schedule() == old(self).schedule().drop_first()
                &&& final(self).next_handle() == old(self).next_handle()
                &&& final(self).handles_by_event() == b.remove(t)
                &&& b.contains_key(t) ==> final(self).handles() == old(self).handles().remove(b[t])
                &&& !b.contains_key(t) ==> final(self).handles() == old(self).handles()
            },
            frame_op_done(*old(self), FrameOp::PopFirst, *final(self)),
    {
        if self.schedule.len() == 0 {
            return None;
        }
        let ghost old_self = *self;
        let ghost s = self.schedule@;
        proof {
            lemma_remove_at(s, 0);
        }
        let (k, v) = self.schedule.remove(0);
        let t = tuple_of(&k);
        let removed = index_remove(&mut self.expire_handles_backward, t);
        match removed {
            Some(h) => {
                table_remove(&mut self.expire_handles_forward, h);
            },
            None => {},
        }
        proof {
            assert(self.schedule@ =~= s.drop_first());
            assert forall|h2: u64| #[trigger] self.handles().contains_key(h2) implies {
                &&& h2 < self.next_handle()
                &&& self.handles_by_event().contains_key(self.handles()[h2])
                &&& self.handles_by_event()[self.handles()[h2]] == h2
            } by {
                let t2 = old_self.handles()[h2];
                assert(old_self.handles_by_event()[t2] == h2);
                if old_self.handles_by_event().contains_key(t) {
                    assert(t2 != t);
                } else {
                    assert(old_self.handles_by_event().contains_key(t2));
                    assert(t2 != t);
                }
            }
            assert forall|t2: (u64, usize, usize)| #[trigger] self.handles_by_event().contains_key(t2) implies {
                &&& self.handles().contains_key(self.handles_by_event()[t2])
                &&& self.handles()[self.handles_by_event()[t2]] == t2
                &&& keys_of(self.schedule()).contains(tuple_key(t2))
            } by {
                let h2 = old_self.handles_by_event()[t2];
                assert(old_self.handles()[h2] == t2);
                if old_self.handles_by_event().contains_key(t) {
                    assert(old_self.handles()[old_self.handles_by_event()[t]] == t);
                    assert(h2 != old_self.handles_by_event()[t]);
                }
                assert(keys_of(s).contains(tuple_key(t2)));
                assert(tuple_key(t2) != k);
                assert(keys_of(s).remove(k).contains(tuple_key(t2)));
            }
        }
        Some((k, v))
    }

    /// Whether a live handle names the event at `time`, so that no second
    /// expireable event can be scheduled there.
    pub fn has_handle_for(&self, time: &EngineTimeSchedule) -> (r: bool)
        ensures
            r == self.handles_by_event().contains_key(key_tuple(*time)),
    {
        index_contains(&self.expire_handles_backward, tuple_of(time))
    }

    /// The number of scheduled events.
    pub fn schedule_len(&self) -> (r: usize)
        ensures
            r == self.schedule().len(),
    {
        self.schedule.len()
    }

    /// The number of live expire handles.
    pub fn handle_count(&self) -> (r: usize)
        ensures
            r == self.handles().len(),
    {
        table_len(&self.expire_handles_forward)
    }

    /// The number of scheduled events that have an expire handle.
    pub fn handled_event_count(&self) -> (r: usize)
        ensures
            r == self.handles_by_event().len(),
    {
        index_len(&self.expire_handles_backward)
    }
}
} // verus!

verus! {

impl<P: Clone> Clone for FrameMetaData<P> {
    /// A copy of the schedule, the handles and the generator.
    fn clone(&self) -> (r: Self)
        ensures
            r.wf() == self.wf(),
            r.schedule().len() == self.schedule().len(),
            forall|i: int| 0 <= i < self.schedule().len() ==> #[trigger] r.schedule()[i].0 == self.schedule()[i].0
                && cloned::<P>(self.schedule()[i].1, r.schedule()[i].1),
            r.handles() == self.handles(),
            r.handles_by_event() == self.handles_by_event(),
            r.next_handle() == self.next_handle(),
            r.generator() == self.generator(),
    {
        let mut schedule: Vec<(EngineTimeSchedule, P)> = Vec::new();
        let mut i: usize = 0;
        while i < self.schedule.len()
            invariant
                0 <= i <= self.schedule@.len(),
                schedule@.len() == i,
                forall|j: int| 0 <= j < i ==> #[trigger] schedule@[j].0 == self.schedule@[j].0
                    && cloned::<P>(self.schedule@[j].1, schedule@[j].1),
            decreases self.schedule@.len() - i,
        {
            let entry = &self.schedule[i];
            schedule.push((entry.0, entry.1.clone()));
            i = i + 1;
        }
        let r = FrameMetaData {
            schedule,
            expire_handles_forward: table_clone(&self.expire_handles_forward),
            expire_handles_backward: index_clone(&self.expire_handles_backward),
            expire_handle_factory: self.expire_handle_factory,
            rng: chacha12_clone(&self.rng),
        };
        proof {
            assert(r.handles() == self.handles());
            assert(r.handles_by_event() == self.handles_by_event());
            assert(r.next_handle() == self.next_handle());
            assert(r.schedule@.len() == self.schedule@.len());
            assert forall|a: int, b: int| 0 <= a < b < r.schedule@.len() implies
                schedule_lt(r.schedule@[a].0, r.schedule@[b].0) == schedule_lt(self.schedule@[a].0, self.schedule@[b].0) by {}
            assert(keys_of(r.schedule@) =~= keys_of(self.schedule@)) by {
                assert forall|k: EngineTimeSchedule| keys_of(r.schedule@).contains(k) == keys_of(self.schedule@).contains(k) by {
                    if keys_of(r.schedule@).contains(k) {
                        let j = choose|j: int| 0 <= j < r.schedule@.len() && r.schedule@[j].0 == k;
                        assert(self.schedule@[j].0 == k);
                    }
                    if keys_of(self.schedule@).contains(k) {
                        let j = choose|j: int| 0 <= j < self.schedule@.len() && self.schedule@[j].0 == k;
                        assert(r.schedule@[j].0 == k);
                    }
                }
            }
            assert(keys_increasing(r.schedule()) == keys_increasing(self.schedule()));
        }
        r
    }
}


/// A transposer together with its scheduled events and random generator: the
/// state an update starts from and leaves behind.
pub struct Frame<T: Transposer> {
    pub transposer: T,
    pub metadata: FrameMetaData<T::Scheduled>,
}

impl<T: Transposer> Frame<T> {
    pub open spec fn wf(&self) -> bool {
        self.metadata.wf()
    }

    pub fn new(transposer: T, rng_seed: [u8; 32]) -> (r: Self)
        ensures
            r.wf(),
            r.transposer == transposer,
            r.metadata.schedule().len() == 0,
            r.metadata.handles() == Map::<u64, (u64, usize, usize)>::empty(),
            r.metadata.handles_by_event() == Map::<(u64, usize, usize), u64>::empty(),
            r.metadata.next_handle() == 0,
            r.metadata.generator() == chacha12_seeded(rng_seed),
    {
        Self { transposer, metadata: FrameMetaData::new(rng_seed) }
    }

    pub fn get_next_scheduled_time(&self) -> (r: Option<&EngineTimeSchedule>)
        requires
            self.wf(),
        ensures
            self.metadata.schedule().len() == 0 ==> r is None,
            self.metadata.schedule().len() > 0 ==> r == Some(&self.metadata.schedule()[0].0),
    {
        self.metadata.get_next_scheduled_time()
    }

    pub fn pop_schedule_event(&mut self) -> (r: Option<(EngineTimeSchedule, T::Scheduled)>)
        requires
            old(self).wf(),
        ensures
            final(self).wf(),
            final(self).transposer == old(self).transposer,
            old(self).metadata.schedule().len() == 0 ==> r is None && *final(self) == *old(self),
            old(self).metadata.schedule().len() > 0 ==> r == Some(old(self).metadata.schedule()[0])
                && final(self).metadata.schedule() == old(self).metadata.schedule().drop_first(),
    {
        self.metadata.pop_first_event()
    }
}

/// `copy` is a clone of `frame`: the transposer and every scheduled payload
/// cloned, the scheduled times, the handles and the generator equal.
pub open spec fn frame_cloned<T: Transposer + Clone>(frame: Frame<T>, copy: Frame<T>) -> bool where T::Scheduled: Clone {
    &&& copy.wf() == frame.wf()
    &&& cloned::<T>(frame.transposer, copy.transposer)
    &&& copy.metadata.schedule().len() == frame.metadata.schedule().len()
    &&& forall|i: int| 0 <= i < frame.metadata.schedule().len() ==> #[trigger] copy.metadata.schedule()[i].0
        == frame.metadata.schedule()[i].0 && cloned::<T::Scheduled>(
        frame.metadata.schedule()[i].1,
        copy.metadata.schedule()[i].1,
    )
    &&& copy.metadata.generator() == frame.metadata.generator()
    &&& copy.metadata.handles() == frame.metadata.handles()
    &&& copy.metadata.handles_by_event() == frame.metadata.handles_by_event()
    &&& copy.metadata.next_handle() == frame.metadata.next_handle()
}

impl<T: Transposer + Clone> Clone for Frame<T> where T::Scheduled: Clone {
    /// A copy of the transposer and of its schedule.
    fn clone(&self) -> (r: Self)
        ensures
            r.wf() == self.wf(),
            cloned::<T>(self.transposer, r.transposer),
            r.metadata.schedule().len() == self.metadata.schedule().len(),
            forall|i: int| 0 <= i < self.metadata.schedule().len() ==> #[trigger] r.metadata.schedule()[i].0
                == self.metadata.schedule()[i].0 && cloned::<T::Scheduled>(
                self.metadata.schedule()[i].1,
                r.metadata.schedule()[i].1,
            ),
            r.metadata.generator() == self.metadata.generator(),
            r.metadata.handles() == self.metadata.handles(),
            r.metadata.handles_by_event() == self.metadata.handles_by_event(),
            r.metadata.next_handle() == self.metadata.next_handle(),
            frame_cloned(*self, r),
    {
        Frame { transposer: self.transposer.clone(), metadata: self.metadata.clone() }
    }
}

} // verus!

verus! {

/// Expiring an event with the handle that scheduling it handed out gives back
/// exactly the time and payload it was scheduled with: after
/// `schedule_event_expireable(time, payload)` returned handle `h`, the handle
/// is live and names an entry that holds `(time, payload)`.
pub proof fn expire_returns_what_was_scheduled<P>(
    before: FrameMetaData<P>,
    after: FrameMetaData<P>,
    time: EngineTimeSchedule,
    payload: P,
    h: u64,
)
    requires
        before.wf(),
        after.schedule() == put_key(before.schedule(), time, payload),
        after.handles() == before.handles().insert(h, key_tuple(time)),
    ensures
        after.handles().contains_key(h),
        tuple_key(after.handles()[h]) == time,
        keys_of(after.schedule()).contains(time),
        after.schedule()[key_index(after.schedule(), tuple_key(after.handles()[h]))] == (time, payload),
        keys_of(after.schedule().remove(key_index(after.schedule(), time))) == keys_of(before.schedule()).remove(time),
{
    let s = before.schedule();
    lemma_key_position_exists(s, time);
    let p = choose|p: int| is_key_position(s, time, p);
    lemma_put_key(s, time, payload, p);
    let s2 = put_key(s, time, payload);
    assert(s2[p] == (time, payload));
    lemma_remove_at(s2, p);
    assert(keys_of(s).insert(time).remove(time) =~= keys_of(s).remove(time));
}

/// The first scheduled event comes strictly before every other one, so it is
/// the one `get_next_scheduled_time` reports and `pop_first_event` hands out.
pub proof fn first_event_is_earliest<P>(m: FrameMetaData<P>)
    requires
        m.wf(),
    ensures
        forall|i: int| 0 < i < m.schedule().len() ==> schedule_lt(m.schedule()[0].0, #[trigger] m.schedule()[i].0),
{
}

/// A live handle always names a scheduled event, so expiring it finds the
/// event.
pub proof fn live_handle_names_scheduled_event<P>(m: FrameMetaData<P>, h: u64)
    requires
        m.wf(),
        m.handles().contains_key(h),
    ensures
        keys_of(m.schedule()).contains(tuple_key(m.handles()[h])),
{
    assert(m.handles_by_event().contains_key(m.handles()[h]));
}

/// The handle handed out next is not live yet: handles are never reused.
pub proof fn next_handle_is_fresh<P>(m: FrameMetaData<P>)
    requires
        m.wf(),
    ensures
        !m.handles().contains_key(m.next_handle()),
{
}

} // verus!

verus! {

/// The payload of the entry with key `k`.
pub open spec fn payload_at<V>(s: Seq<(EngineTimeSchedule, V)>, k: EngineTimeSchedule) -> V {
    s[key_index(s, k)].1
}

/// Handle `h` is live in `m` and names the scheduled event at key `k`, whose
/// payload is `p`.
pub open spec fn holds_event<P>(m: FrameMetaData<P>, h: u64, k: EngineTimeSchedule, p: P) -> bool {
    &&& m.handles().contains_key(h)
    &&& tuple_key(m.handles()[h]) == k
    &&& keys_of(m.schedule()).contains(k)
    &&& payload_at(m.schedule(), k) == p
}

/// An operation on the scheduled events.
pub enum FrameOp<P> {
    Schedule(EngineTimeSchedule, P),
    ScheduleExpireable(EngineTimeSchedule, P),
    Expire(u64),
    PopFirst,
}

/// `after` is `before` with `op` done, as the operation's function states it.
pub open spec fn frame_op_done<P>(before: FrameMetaData<P>, op: FrameOp<P>, after: FrameMetaData<P>) -> bool {
    match op {
        FrameOp::Schedule(k, p) => {
            &&& after.schedule() == put_key(before.schedule(), k, p)
            &&& after.handles() == before.handles()
            &&& after.handles_by_event() == before.handles_by_event()
            &&& after.next_handle() == before.next_handle()
        },
        FrameOp::ScheduleExpireable(k, p) => {
            &&& !before.handles_by_event().contains_key(key_tuple(k))
            &&& after.schedule() == put_key(before.schedule(), k, p)
            &&& after.handles() == before.handles().insert(before.next_handle(), key_tuple(k))
            &&& after.handles_by_event() == before.handles_by_event().insert(key_tuple(k), before.next_handle())
            &&& after.next_handle() == before.next_handle() + 1
        },
        FrameOp::Expire(h) => {
            &&& !before.handles().contains_key(h) ==> after == before
            &&& before.handles().contains_key(h) ==> {
                let t = before.handles()[h];
                &&& after.schedule() == before.schedule().remove(key_index(before.schedule(), tuple_key(t)))
                &&& after.handles() == before.handles().remove(h)
                &&& after.handles_by_event() == before.handles_by_event().remove(t)
                &&& after.next_handle() == before.next_handle()
            }
        },
        FrameOp::PopFirst => {
            &&& before.schedule().len() == 0 ==> after == before
            &&& before.schedule().len() > 0 ==> {
                let t = key_tuple(before.schedule()[0].0);
                let b = before.handles_by_event();
                &&& after.schedule() == before.schedule().drop_first()
                &&& after.next_handle() == before.next_handle()
                &&& after.handles_by_event() == b.remove(t)
                &&& b.contains_key(t) ==> after.handles() == before.handles().remove(b[t])
                &&& !b.contains_key(t) ==> after.handles() == before.handles()
            }
        },
    }
}

/// What expiring handle `h` in `m` returns, as `expire_event` states it: the
/// time and payload of the event the handle names, or an error for a handle
/// that is not live.
pub open spec fn expire_gives<P>(m: FrameMetaData<P>, h: u64, r: Result<(u64, P), ExpireEventError>) -> bool {
    &&& m.handles().contains_key(h) ==> r == Ok::<(u64, P), ExpireEventError>(
        (m.handles()[h].0, payload_at(m.schedule(), tuple_key(m.handles()[h]))),
    )
    &&& !m.handles().contains_key(h) ==> r == Err::<(u64, P), ExpireEventError>(ExpireEventError::InvalidOrUsedHandle)
}

/// `op` leaves the event at key `k`, named by handle `h`, alone: it neither
/// schedules at `k`, nor expires `h`, nor pops the event at `k`.
pub open spec fn leaves_event<P>(m: FrameMetaData<P>, op: FrameOp<P>, h: u64, k: EngineTimeSchedule) -> bool {
    match op {
        FrameOp::Schedule(k2, _) => k2 != k,
        FrameOp::ScheduleExpireable(k2, _) => k2 != k,
        FrameOp::Expire(h2) => h2 != h,
        FrameOp::PopFirst => m.schedule().len() > 0 ==> m.schedule()[0].0 != k,
    }
}

/// In sorted entries the entry with a given key is the only one.
proof fn lemma_key_index_unique<V>(s: Seq<(EngineTimeSchedule, V)>, k: EngineTimeSchedule, i: int)
    requires
        keys_increasing(s),
        0 <= i < s.len(),
        s[i].0 == k,
    ensures
        key_index(s, k) == i,
        keys_of(s).contains(k),
{
    let j = key_index(s, k);
    assert(0 <= j < s.len() && s[j].0 == k);
    if j < i {
        assert(schedule_lt(s[j].0, s[i].0));
        lemma_schedule_order(k, k);
    } else if i < j {
        assert(schedule_lt(s[i].0, s[j].0));
        lemma_schedule_order(k, k);
    }
}

/// Putting another key keeps key `k` and its payload.
proof fn lemma_put_other_key<V>(s: Seq<(EngineTimeSchedule, V)>, k2: EngineTimeSchedule, v: V, k: EngineTimeSchedule)
    requires
        keys_increasing(s),
        keys_of(s).contains(k),
        k2 != k,
    ensures
        keys_of(put_key(s, k2, v)).contains(k),
        payload_at(put_key(s, k2, v), k) == payload_at(s, k),
        keys_increasing(put_key(s, k2, v)),
{
    lemma_key_position_exists(s, k2);
    let p = choose|p: int| is_key_position(s, k2, p);
    lemma_put_key(s, k2, v, p);
    let r = put_key(s, k2, v);
    let i = choose|i: int| 0 <= i < s.len() && s[i].0 == k;
    lemma_key_index_unique(s, k, i);
    if p < s.len() && s[p].0 == k2 {
        assert(r[i] == s[i]);
        lemma_key_index_unique(r, k, i);
    } else if i < p {
        assert(r[i] == s[i]);
        lemma_key_index_unique(r, k, i);
    } else {
        assert(r[i + 1] == s[i]);
        lemma_key_index_unique(r, k, i + 1);
    }
}

/// Removing the entry at another key keeps key `k` and its payload.
proof fn lemma_remove_other_key<V>(s: Seq<(EngineTimeSchedule, V)>, q: int, k: EngineTimeSchedule)
    requires
        keys_increasing(s),
        keys_of(s).contains(k),
        0 <= q < s.len(),
        s[q].0 != k,
    ensures
        keys_of(s.remove(q)).contains(k),
        payload_at(s.remove(q), k) == payload_at(s, k),
        keys_increasing(s.remove(q)),
{
    lemma_remove_at(s, q);
    let r = s.remove(q);
    let i = choose|i: int| 0 <= i < s.len() && s[i].0 == k;
    lemma_key_index_unique(s, k, i);
    if i < q {
        assert(r[i] == s[i]);
        lemma_key_index_unique(r, k, i);
    } else {
        assert(r[i - 1] == s[i]);
        lemma_key_index_unique(r, k, i - 1);
    }
}

/// An operation that leaves the event named by a live handle alone keeps
/// that handle naming the same event with the same payload.
pub proof fn handle_keeps_its_event<P>(
    before: FrameMetaData<P>,
    op: FrameOp<P>,
    after: FrameMetaData<P>,
    h: u64,
    k: EngineTimeSchedule,
    p: P,
)
    requires
        before.wf(),
        frame_op_done(before, op, after),
        leaves_event(before, op, h, k),
        holds_event(before, h, k, p),
    ensures
        holds_event(after, h, k, p),
{
    let t = before.handles()[h];
    assert(before.handles_by_event().contains_key(t));
    assert(key_tuple(k) == t);
    match op {
        FrameOp::Schedule(k2, v) => {
            lemma_put_other_key(before.schedule(), k2, v, k);
        },
        FrameOp::ScheduleExpireable(k2, v) => {
            lemma_put_other_key(before.schedule(), k2, v, k);
            assert(h < before.next_handle());
            assert(after.handles()[h] == t);
        },
        FrameOp::Expire(h2) => {
            if before.handles().contains_key(h2) {
                let t2 = before.handles()[h2];
                assert(before.handles_by_event().contains_key(t2));
                assert(t2 != t);
                let s = before.schedule();
                assert(keys_of(s).contains(tuple_key(t2)));
                let q = key_index(s, tuple_key(t2));
                assert(0 <= q < s.len() && s[q].0 == tuple_key(t2));
                lemma_remove_other_key(s, q, k);
                assert(after.handles()[h] == t);
            }
        },
        FrameOp::PopFirst => {
            let s = before.schedule();
            if s.len() > 0 {
                assert(s.drop_first() == s.remove(0));
                lemma_remove_other_key(s, 0, k);
                let t0 = key_tuple(s[0].0);
                let b = before.handles_by_event();
                if b.contains_key(t0) {
                    assert(before.handles()[b[t0]] == t0);
                    assert(b[t0] != h);
                    assert(after.handles()[h] == t);
                }
            }
        },
    }
}

/// Scheduling an expireable event makes the handle it hands out name that
/// event with its payload.
pub proof fn scheduling_names_the_event<P>(before: FrameMetaData<P>, k: EngineTimeSchedule, p: P, after: FrameMetaData<P>)
    requires
        before.wf(),
        frame_op_done(before, FrameOp::ScheduleExpireable(k, p), after),
    ensures
        holds_event(after, before.next_handle(), k, p),
{
    let s = before.schedule();
    lemma_key_position_exists(s, k);
    let q = choose|q: int| is_key_position(s, k, q);
    lemma_put_key(s, k, p, q);
    let r = put_key(s, k, p);
    assert(r[q] == (k, p));
    lemma_key_index_unique(r, k, q);
}

/// Expiring an event by its handle gives back the time and payload it was
/// scheduled with, whatever other operations came between: starting from a
/// frame in which `h` names the event at `k` with payload `p` (as it does
/// right after scheduling it), a run of operations that leave that event
/// alone, and then expiring `h`, returns `(k.time, p)` and retires `h`.
pub proof fn expire_returns_event_after_operations<P>(
    frames: Seq<FrameMetaData<P>>,
    ops: Seq<FrameOp<P>>,
    h: u64,
    k: EngineTimeSchedule,
    p: P,
    after: FrameMetaData<P>,
    r: Result<(u64, P), ExpireEventError>,
)
    requires
        frames.len() == ops.len() + 1,
        forall|i: int| 0 <= i < frames.len() ==> #[trigger] frames[i].wf(),
        forall|i: int| 0 <= i < ops.len() ==> #[trigger] frame_op_done(frames[i], ops[i], frames[i + 1]),
        forall|i: int| 0 <= i < ops.len() ==> #[trigger] leaves_event(frames[i], ops[i], h, k),
        holds_event(frames[0], h, k, p),
        frame_op_done(frames.last(), FrameOp::Expire(h), after),
        expire_gives(frames.last(), h, r),
    ensures
        r == Ok::<(u64, P), ExpireEventError>((k.time, p)),
        holds_event(frames.last(), h, k, p),
        keys_of(after.schedule()) == keys_of(frames.last().schedule()).remove(k),
        !after.handles().contains_key(h),
{
    lemma_run_keeps_event(frames, ops, h, k, p);
    let m = frames.last();
    assert(frames[frames.len() - 1].wf());
    let s = m.schedule();
    let i = key_index(s, k);
    assert(0 <= i < s.len() && s[i].0 == k);
    lemma_remove_at(s, i);
}

/// A run of operations that leave the event alone keeps `h` naming it.
proof fn lemma_run_keeps_event<P>(frames: Seq<FrameMetaData<P>>, ops: Seq<FrameOp<P>>, h: u64, k: EngineTimeSchedule, p: P)
    requires
        frames.len() == ops.len() + 1,
        forall|i: int| 0 <= i < frames.len() ==> #[trigger] frames[i].wf(),
        forall|i: int| 0 <= i < ops.len() ==> #[trigger] frame_op_done(frames[i], ops[i], frames[i + 1]),
        forall|i: int| 0 <= i < ops.len() ==> #[trigger] leaves_event(frames[i], ops[i], h, k),
        holds_event(frames[0], h, k, p),
    ensures
        holds_event(frames.last(), h, k, p),
    decreases ops.len(),
{
    if ops.len() > 0 {
        let n = ops.len() - 1;
        let fs = frames.drop_last();
        let os = ops.drop_last();
        assert forall|i: int| 0 <= i < fs.len() implies #[trigger] fs[i].wf() by {
            assert(fs[i] == frames[i]);
        }
        assert forall|i: int| 0 <= i < os.len() implies #[trigger] frame_op_done(fs[i], os[i], fs[i + 1]) by {
            assert(fs[i] == frames[i] && os[i] == ops[i] && fs[i + 1] == frames[i + 1]);
            assert(frame_op_done(frames[i], ops[i], frames[i + 1]));
        }
        assert forall|i: int| 0 <= i < os.len() implies #[trigger] leaves_event(fs[i], os[i], h, k) by {
            assert(fs[i] == frames[i] && os[i] == ops[i]);
            assert(leaves_event(frames[i], ops[i], h, k));
        }
        lemma_run_keeps_event(fs, os, h, k, p);
        assert(frame_op_done(frames[n], ops[n], frames[n + 1]));
        assert(leaves_event(frames[n], ops[n], h, k));
        assert(frames[n].wf());
        handle_keeps_its_event(frames[n], ops[n], frames[n + 1], h, k, p);
    }
}

} // verus!
