use vstd::prelude::*;

verus! {

/// A boxed slice with the items of `v` (`Vec::into_boxed_slice`).
#[verifier::external_body]
pub(crate) fn into_boxed_slice<T>(v: Vec<T>) -> (b: Box<[T]>)
    ensures
        b@ == v@,
{
    v.into_boxed_slice()
}

/// The inputs that arrived at one time, in arrival order: growable while
/// inputs arrive, frozen into a boxed slice once handed out.
enum InputContainer<Input> {
    Hot(Vec<Input>),
    Cold(Box<[Input]>),
}

impl<Input> View for InputContainer<Input> {
    type V = Seq<Input>;

    closed spec fn view(&self) -> Seq<Input> {
        match self {
            InputContainer::Hot(v) => v@,
            InputContainer::Cold(b) => b@,
        }
    }
}

impl<Input> InputContainer<Input> {
    pub fn push(&mut self, input: Input)
        ensures
            final(self)@ == old(self)@.push(input),
    {
        self.heat();
        match self {
            InputContainer::Hot(vec) => vec.push(input),
            InputContainer::Cold(_) => {},
        }
    }

    pub fn singleton(input: Input) -> (r: Self)
        ensures
            r@ == seq![input],
    {
        let mut v = Vec::new();
        v.push(input);
        InputContainer::Hot(v)
    }

    /// Makes the container growable again, keeping its inputs.
    fn heat(&mut self)
        ensures
            final(self)@ == old(self)@,
            *final(self) is Hot,
    {
        let mut this = InputContainer::Hot(Vec::new());
        std::mem::swap(self, &mut this);
        *self = match this {
            InputContainer::Cold(b) => {
                let v = b.into_vec();
                InputContainer::Hot(v)
            },
            hot => hot,
        };
    }

    fn from_vec(vec: Vec<Input>) -> (r: Self)
        ensures
            r@ == vec@,
    {
        InputContainer::Hot(vec)
    }

    fn from_box(slice: Box<[Input]>) -> (r: Self)
        ensures
            r@ == slice@,
    {
        InputContainer::Cold(slice)
    }

    fn into_box(self) -> (r: Box<[Input]>)
        ensures
            r@ == self@,
    {
        match self {
            InputContainer::Hot(vec) => into_boxed_slice(vec),
            InputContainer::Cold(slice) => slice,
        }
    }

    fn into_vec(self) -> (r: Vec<Input>)
        ensures
            r@ == self@,
    {
        match self {
            InputContainer::Hot(vec) => vec,
            InputContainer::Cold(slice) => slice.into_vec(),
        }
    }
}

/// The keys of the entries are strictly increasing.
pub open spec fn times_increasing<V>(s: Seq<(u64, V)>) -> bool {
    forall|i: int, j: int| 0 <= i < j < s.len() ==> s[i].0 < s[j].0
}

/// `p` is where time `t` goes among the entries: every earlier entry is before
/// `t`, every later one at or after it.
pub open spec fn is_position<V>(s: Seq<(u64, V)>, t: u64, p: int) -> bool {
    &&& 0 <= p <= s.len()
    &&& forall|i: int| 0 <= i < p ==> s[i].0 < t
    &&& forall|i: int| p <= i < s.len() ==> s[i].0 >= t
}

/// The position of time `t` among the entries.
pub open spec fn position<V>(s: Seq<(u64, V)>, t: u64) -> int {
    choose|p: int| is_position(s, t, p)
}

/// In sorted entries every time has exactly one position.
pub proof fn lemma_position<V>(s: Seq<(u64, V)>, t: u64, p: int)
    requires
        times_increasing(s),
        is_position(s, t, p),
    ensures
        position(s, t) == p,
        is_position(s, t, position(s, t)),
{
    let q = position(s, t);
    assert(is_position(s, t, q));
    if q < p {
        assert(s[q].0 < t);
    } else if p < q {
        assert(s[p].0 < t);
    }
}

/// The groups after `input` arrives at `time`: it goes after the inputs of
/// that time, or in a new group in its place.
pub open spec fn inserted_back<I>(s: Seq<(u64, Seq<I>)>, time: u64, input: I) -> Seq<(u64, Seq<I>)> {
    let p = position(s, time);
    if p < s.len() && s[p].0 == time {
        s.update(p, (time, s[p].1.push(input)))
    } else {
        s.insert(p, (time, seq![input]))
    }
}

/// The groups after `inputs` are put back at `time`: before the inputs of
/// that time, or as a new group in its place.
pub open spec fn extended_front<I>(s: Seq<(u64, Seq<I>)>, time: u64, inputs: Seq<I>) -> Seq<(u64, Seq<I>)> {
    let p = position(s, time);
    if p < s.len() && s[p].0 == time {
        s.update(p, (time, inputs + s[p].1))
    } else {
        s.insert(p, (time, inputs))
    }
}

/// The groups before `time`.
pub open spec fn rolled_back<V>(s: Seq<(u64, V)>, time: u64) -> Seq<(u64, V)> {
    s.subrange(0, position(s, time))
}

/// Every time has a position among sorted entries.
pub proof fn lemma_position_exists<V>(s: Seq<(u64, V)>, t: u64)
    requires
        times_increasing(s),
    ensures
        exists|p: int| is_position(s, t, p),
    decreases s.len(),
{
    if s.len() == 0 {
        assert(is_position(s, t, 0));
    } else {
        let d = s.drop_last();
        lemma_position_exists(d, t);
        let q = choose|p: int| is_position(d, t, p);
        if s.last().0 < t {
            assert(is_position(s, t, s.len() as int));
        } else {
            assert forall|i: int| q <= i < s.len() implies s[i].0 >= t by {
                if i < s.len() - 1 {
                    assert(s[i] == d[i]);
                }
            }
            assert forall|i: int| 0 <= i < q implies s[i].0 < t by {
                assert(s[i] == d[i]);
            }
            assert(is_position(s, t, q));
        }
    }
}

/// Finds the position of `t` among sorted entries.
fn find_position<V>(s: &Vec<(u64, V)>, t: u64) -> (p: usize)
    requires
        times_increasing(s@),
    ensures
        is_position(s@, t, p as int),
        p == position(s@, t),
{
    let mut low: usize = 0;
    let mut high: usize = s.len();
    while low < high
        invariant
            0 <= low <= high <= s@.len(),
            times_increasing(s@),
            forall|i: int| 0 <= i < low ==> s@[i].0 < t,
            forall|i: int| high <= i < s@.len() ==> s@[i].0 >= t,
        decreases high - low,
    {
        let m = low + (high - low) / 2;
        if s[m].0 < t {
            low = m + 1;
        } else {
            high = m;
        }
    }
    proof {
        lemma_position(s@, t, low as int);
    }
    low
}

/// The inputs that have arrived and are not handled yet, grouped by time in
/// increasing order.
pub struct InputBuffer<Input>(Vec<(u64, InputContainer<Input>)>);

/// The inputs of the entries.
spec fn entries_view<Input>(s: Seq<(u64, InputContainer<Input>)>) -> Seq<(u64, Seq<Input>)> {
    s.map_values(|e: (u64, InputContainer<Input>)| (e.0, e.1@))
}

impl<Input> View for InputBuffer<Input> {
    type V = Seq<(u64, Seq<Input>)>;

    /// The buffered inputs: one entry per time, times increasing.
    closed spec fn view(&self) -> Seq<(u64, Seq<Input>)> {
        entries_view(self.0@)
    }
}

impl<Input> InputBuffer<Input> {
    pub closed spec fn wf(&self) -> bool {
        times_increasing(self.0@)
    }

    /// In a well-formed buffer the times increase: each time occurs once, and
    /// the first group is the one with the least time.
    pub proof fn lemma_wf_sorted(&self)
        requires
            self.wf(),
        ensures
            times_increasing(self@),
    {
        self.lemma_view();
    }

    proof fn lemma_view(&self)
        requires
            self.wf(),
        ensures
            times_increasing(self@),
            self@.len() == self.0@.len(),
            forall|i: int| 0 <= i < self.0@.len() ==> #[trigger] self@[i] == (self.0@[i].0, self.0@[i].1@),
    {
    }

    pub fn new() -> (r: Self)
        ensures
            r.wf(),
            r@ == Seq::<(u64, Seq<Input>)>::empty(),
    {
        let r = InputBuffer(Vec::new());
        assert(r@ =~= Seq::<(u64, Seq<Input>)>::empty());
        r
    }

    /// Adds an input after the inputs already buffered at `time`.
    pub fn insert_back(&mut self, time: u64, input: Input)
        requires
            old(self).wf(),
        ensures
            final(self).wf(),
            final(self)@ == inserted_back(old(self)@, time, input),
    {
        let ghost s = self@;
        proof {
            self.lemma_view();
        }
        let p = find_position(&self.0, time);
        proof {
            lemma_position(s, time, p as int);
        }
        if p < self.0.len() && self.0[p].0 == time {
            let entry = &mut self.0[p];
            entry.1.push(input);
            proof {
                assert(self@ =~= s.update(p as int, (time, s[p as int].1.push(input))));
            }
        } else {
            self.0.insert(p, (time, InputContainer::singleton(input)));
            proof {
                assert(self@ =~= s.insert(p as int, (time, seq![input])));
            }
        }
    }

    /// Puts `inputs` before the inputs already buffered at `time`.
    pub fn extend_front(&mut self, time: u64, inputs: Box<[Input]>)
        requires
            old(self).wf(),
        ensures
            final(self).wf(),
            final(self)@ == extended_front(old(self)@, time, inputs@),
    {
        let ghost s = self@;
        proof {
            self.lemma_view();
        }
        let p = find_position(&self.0, time);
        proof {
            lemma_position(s, time, p as int);
        }
        if p < self.0.len() && self.0[p].0 == time {
            let (t, current) = self.0.remove(p);
            let mut new_vec: Vec<Input> = inputs.into_vec();
            let mut rest = current.into_vec();
            new_vec.append(&mut rest);
            self.0.insert(p, (t, InputContainer::from_vec(new_vec)));
            proof {
                assert(self@ =~= s.update(p as int, (time, inputs@ + s[p as int].1)));
            }
        } else {
            self.0.insert(p, (time, InputContainer::from_box(inputs)));
            proof {
                assert(self@ =~= s.insert(p as int, (time, inputs@)));
            }
        }
    }

    /// The earliest time with buffered inputs.
    pub fn first_time(&self) -> (r: Option<u64>)
        requires
            self.wf(),
        ensures
            self@.len() == 0 ==> r is None,
            self@.len() > 0 ==> r == Some(self@[0].0),
    {
        proof {
            self.lemma_view();
        }
        if self.0.len() == 0 {
            None
        } else {
            Some(self.0[0].0)
        }
    }

    /// Removes and hands out the inputs of the earliest time.
    pub fn pop_first(&mut self) -> (r: Option<(u64, Box<[Input]>)>)
        requires
            old(self).wf(),
        ensures
            final(self).wf(),
            old(self)@.len() == 0 ==> r is None && final(self)@ == old(self)@,
            old(self)@.len() > 0 ==> r is Some && r->Some_0.0 == old(self)@[0].0 && r->Some_0.1@ == old(self)@[0].1
                && final(self)@ == old(self)@.drop_first(),
    {
        let ghost s = self@;
        proof {
            self.lemma_view();
        }
        if self.0.len() == 0 {
            None
        } else {
            let (t, v) = self.0.remove(0);
            proof {
                assert(self@ =~= s.drop_first());
            }
            Some((t, v.into_box()))
        }
    }

    /// Drops the inputs at and after `time`.
    pub fn rollback(&mut self, time: u64)
        requires
            old(self).wf(),
        ensures
            final(self).wf(),
            final(self)@ == rolled_back(old(self)@, time),
    {
        let ghost s = self@;
        proof {
            self.lemma_view();
        }
        let p = find_position(&self.0, time);
        proof {
            lemma_position(s, time, p as int);
        }
        self.0.truncate(p);
        proof {
            assert(self@ =~= s.subrange(0, p as int));
        }
    }
}

} // verus!

verus! {

/// Inputs put back at the front come out first: after `extend_front(time,
/// inputs)` with `time` at or before every buffered time, `pop_first` hands
/// out `time` with `inputs` ahead of whatever was buffered at that time, and
/// leaves the rest as it was.
pub proof fn pop_first_after_extend_front<I>(s: Seq<(u64, Seq<I>)>, time: u64, inputs: Seq<I>)
    requires
        times_increasing(s),
        s.len() == 0 || time <= s[0].0,
    ensures
        ({
            let a = extended_front(s, time, inputs);
            let merged = s.len() > 0 && s[0].0 == time;
            &&& a.len() > 0
            &&& a[0].0 == time
            &&& a[0].1 == (if merged { inputs + s[0].1 } else { inputs })
            &&& a.drop_first() == (if merged { s.drop_first() } else { s })
        }),
{
    lemma_position(s, time, 0);
    let a = extended_front(s, time, inputs);
    if s.len() > 0 && s[0].0 == time {
        assert(a.drop_first() =~= s.drop_first());
    } else {
        assert(a.drop_first() =~= s);
    }
}

/// A rollback to `time` drops exactly the inputs at and after `time`: what is
/// left is the buffered groups before `time`, in order.
pub proof fn rollback_drops_at_and_after<V>(s: Seq<(u64, V)>, time: u64)
    requires
        times_increasing(s),
    ensures
        forall|i: int| 0 <= i < rolled_back(s, time).len() ==> (#[trigger] rolled_back(s, time)[i]).0 < time,
        forall|i: int| 0 <= i < s.len() && s[i].0 < time ==> i < rolled_back(s, time).len()
            && #[trigger] rolled_back(s, time)[i] == s[i],
{
    lemma_position_exists(s, time);
    let p = choose|p: int| is_position(s, time, p);
    lemma_position(s, time, p);
}

/// Inputs that arrive at one time are kept in the order they arrived.
pub proof fn inputs_keep_arrival_order<I>(s: Seq<(u64, Seq<I>)>, time: u64, first: I, second: I)
    requires
        times_increasing(s),
    ensures
        ({
            let a = inserted_back(inserted_back(s, time, first), time, second);
            let p = position(a, time);
            &&& 0 <= p < a.len()
            &&& a[p].0 == time
            &&& a[p].1.len() >= 2
            &&& a[p].1[a[p].1.len() - 2] == first
            &&& a[p].1.last() == second
        }),
{
    lemma_position_exists(s, time);
    let p = choose|p: int| is_position(s, time, p);
    lemma_position(s, time, p);
    let b = inserted_back(s, time, first);
    assert(is_position(b, time, p));
    assert(times_increasing(b)) by {
        if !(p < s.len() && s[p].0 == time) {
            assert forall|i: int, j: int| 0 <= i < j < b.len() implies b[i].0 < b[j].0 by {
                if j < p {
                } else if i < p && j == p {
                } else if i < p {
                    assert(b[j] == s[j - 1]);
                } else if i == p {
                    assert(b[j] == s[j - 1]);
                } else {
                    assert(b[i] == s[i - 1] && b[j] == s[j - 1]);
                }
            }
        }
    }
    lemma_position(b, time, p);
    let a = inserted_back(b, time, second);
    assert(is_position(a, time, p));
    lemma_position(a, time, p);
}

} // verus!
