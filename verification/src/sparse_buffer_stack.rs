use vstd::prelude::*;
use crate::word_bits::{usize_leading_zeros, usize_trailing_zeros};
use crate::pin_stack::{PinStack, KeyBound, keys_sorted, back_bound_ok, index_limit, keyed_by, sorted_by_key, key_back_ok};

verus! {

/// A buffer slot: the stack index whose buffered value it holds (usize::MAX
/// when empty) and that value.
struct BufferItem<B> {
    stack_index: usize,
    item: Option<B>,
}

impl<B> BufferItem<B> {
    /// An empty slot.
    fn new_zeroed() -> (r: Self)
        ensures
            r.stack_index == usize::MAX,
            r.item is None,
    {
        Self { stack_index: usize::MAX, item: None }
    }
}

/// How useful it is to keep the value buffered in a slot owned by
/// `stack_index`, when the top of the stack is at `top`: the smaller, the
/// sooner the slot is reused. Slots far below the top, and slots whose index
/// has few trailing zeros, are the least useful.
pub open spec fn usefulness(top: usize, stack_index: usize) -> int {
    let distance_zeros = if stack_index == usize::MAX {
        usize_leading_zeros((top + 1) as usize)
    } else if stack_index <= top {
        usize_leading_zeros((top - stack_index) as usize)
    } else {
        0
    };
    distance_zeros + usize_trailing_zeros(stack_index)
}

/// A stack of items of which at most N also hold a buffered value: each
/// buffered value is built from the item and from the buffered value of the
/// item below it.
pub struct SparseBufferStack<I, B, const N: usize> {
    // this always has at least one item in it. pop doesn't let you pop the first item.
    stack: PinStack<I>,
    // the slot that last buffered each item of the stack
    buffer_indices: Vec<usize>,
    buffer: Vec<BufferItem<B>>,
}

impl<I, B, const N: usize> SparseBufferStack<I, B, N> {
    pub closed spec fn wf(&self) -> bool {
        &&& self.stack.wf()
        &&& self.stack@.len() >= 1
        &&& self.stack@.len() < index_limit()
        &&& N >= 1
        &&& self.buffer@.len() == N
        &&& forall|b: int|
            0 <= b < N ==> (#[trigger] self.buffer@[b].stack_index == usize::MAX) == (
            self.buffer@[b].item is None)
        &&& forall|b: int|
            0 <= b < N ==> #[trigger] self.buffer@[b].stack_index == usize::MAX
                || self.buffer@[b].stack_index < index_limit()
        &&& self.buffer_indices@.len() == self.stack@.len()
        &&& forall|i: int| 0 <= i < self.stack@.len() ==> #[trigger] self.buffer_indices@[i] < N
    }

    /// The items of the stack, bottom first.
    pub closed spec fn items(&self) -> Seq<I> {
        self.stack@
    }

    /// The slot that last buffered stack item `i`.
    pub closed spec fn slot_of(&self, i: int) -> int {
        self.buffer_indices@[i] as int
    }

    /// The stack index that slot `b` holds a value for (usize::MAX when empty).
    pub closed spec fn slot_owner(&self, b: int) -> usize {
        self.buffer@[b].stack_index
    }

    /// The value held in slot `b`.
    pub closed spec fn slot_value(&self, b: int) -> Option<B> {
        self.buffer@[b].item
    }

    /// Stack item `i` has a buffered value.
    pub open spec fn is_buffered(&self, i: int) -> bool {
        self.slot_owner(self.slot_of(i)) == i
    }

    /// The slot whose value is least useful: the first slot of least usefulness.
    pub open spec fn is_least_useful(&self, b: int) -> bool {
        let top = (self.items().len() - 1) as usize;
        &&& 0 <= b < N
        &&& forall|j: int|
            0 <= j < N ==> usefulness(top, self.slot_owner(b)) <= #[trigger] usefulness(
                top,
                self.slot_owner(j),
            )
        &&& forall|j: int|
            0 <= j < b ==> usefulness(top, self.slot_owner(b)) < #[trigger] usefulness(
                top,
                self.slot_owner(j),
            )
    }

    /// A well-formed stack always holds at least one item: its bottom item is
    /// never popped.
    pub proof fn lemma_never_empty(&self)
        requires
            self.wf(),
        ensures
            self.items().len() >= 1,
    {
    }

    proof fn lemma_items(&self)
        requires
            self.wf(),
        ensures
            self.items().len() == self.stack@.len(),
            forall|i: int| 0 <= i < self.stack@.len() ==> #[trigger] self.items()[i] == self.stack@[i],
    {
    }

    /// A stack holding `first_item`, whose value is buffered as
    /// `constructor(&first_item)`.
    pub fn new<Init: FnOnce(&I) -> B>(first_item: I, constructor: Init) -> (r: Self)
        requires
            N >= 1,
            constructor.requires((&first_item,)),
        ensures
            r.wf(),
            r.items() == seq![first_item],
            r.slot_of(0) == 0,
            r.slot_owner(0) == 0,
            constructor.ensures((&first_item,), r.slot_value(0)->0),
            r.slot_value(0) is Some,
            forall|b: int| 1 <= b < N ==> r.slot_owner(b) == usize::MAX,
    {
        let mut buffer: Vec<BufferItem<B>> = Vec::new();
        let value = constructor(&first_item);
        buffer.push(BufferItem { stack_index: 0, item: Some(value) });
        while buffer.len() < N
            invariant
                1 <= buffer@.len() <= N,
                buffer@[0].stack_index == 0,
                buffer@[0].item == Some(value),
                forall|b: int| 1 <= b < buffer@.len() ==> #[trigger] buffer@[b].stack_index == usize::MAX
                    && buffer@[b].item is None,
            decreases N - buffer@.len(),
        {
            buffer.push(BufferItem::new_zeroed());
        }
        let mut stack = PinStack::new();
        proof {
            vstd::bits::lemma_usize_pow2_no_overflow((usize::BITS - 1) as nat);
            vstd::arithmetic::power2::lemma_pow2_pos((usize::BITS - 1) as nat);
        }
        stack.push(first_item);
        let mut buffer_indices: Vec<usize> = Vec::new();
        buffer_indices.push(0);
        let r = Self { stack, buffer_indices, buffer };
        proof {
            assert(r.items() =~= seq![first_item]);
            vstd::arithmetic::power2::lemma_pow2_strictly_increases(0, (usize::BITS - 1) as nat);
            vstd::arithmetic::power2::lemma2_to64();
        }
        r
    }

    /// Pushes the item that `constructor` builds from the top item; it is not
    /// buffered yet.
    pub fn push<Con: FnOnce(&I) -> I>(&mut self, constructor: Con)
        requires
            old(self).wf(),
            old(self).items().len() + 1 < index_limit(),
            constructor.requires((&old(self).items().last(),)),
        ensures
            final(self).wf(),
            final(self).items().len() == old(self).items().len() + 1,
            final(self).items().drop_last() == old(self).items(),
            constructor.ensures((&old(self).items().last(),), final(self).items().last()),
            final(self).slot_of(old(self).items().len() as int) == 0,
            forall|i: int| 0 <= i < old(self).items().len() ==> final(self).slot_of(i) == old(self).slot_of(i),
            forall|b: int| 0 <= b < N ==> final(self).slot_owner(b) == old(self).slot_owner(b)
                && final(self).slot_value(b) == old(self).slot_value(b),
    {
        proof {
            self.lemma_items();
        }
        let top = self.stack.peek().unwrap();
        let item = constructor(top);
        let ghost before = *self;
        self.stack.push(item);
        self.buffer_indices.push(0);
        proof {
            self.lemma_items();
            before.lemma_items();
            assert(self.items().drop_last() =~= before.items());
        }
    }

    /// The item at `stack_index`, if there is one.
    pub fn get(&self, stack_index: usize) -> (r: Option<&I>)
        requires
            self.wf(),
        ensures
            stack_index < self.items().len() ==> r == Some(&self.items()[stack_index as int]),
            stack_index >= self.items().len() ==> r is None,
    {
        proof {
            self.lemma_items();
        }
        self.stack.get(stack_index)
    }

    /// The number of items.
    pub fn len(&self) -> (r: usize)
        requires
            self.wf(),
        ensures
            r == self.items().len(),
    {
        proof {
            self.lemma_items();
        }
        self.stack.len()
    }

    /// The bottom item can never be popped.
    pub fn can_pop(&self) -> (r: bool)
        requires
            self.wf(),
        ensures
            r == (self.items().len() > 1),
    {
        proof {
            self.lemma_items();
        }
        self.stack.len() > 1
    }

    /// The top item.
    pub fn peek(&self) -> (r: &I)
        requires
            self.wf(),
        ensures
            *r == self.items().last(),
    {
        proof {
            self.lemma_items();
        }
        self.stack.peek().unwrap()
    }

    /// Buffers stack item `stack_index` in the least useful slot. When that slot
    /// holds the value of the item below, `refurbisher` turns that value into
    /// the new one; otherwise `duplicator` builds the new value from the item
    /// below's buffered value, and the call fails when the item below has none
    /// (the item then already names the slot). Hands back the item and its
    /// buffered value.
    pub fn buffer<Dup: FnOnce(&B, &I) -> B, Refurb: FnOnce(B, &I) -> B>(
        &mut self,
        stack_index: usize,
        duplicator: Dup,
        refurbisher: Refurb,
    ) -> (r: Result<(&I, &mut B), ()>)
        requires
            old(self).wf(),
            stack_index >= 1,
            forall|b: &B, i: &I| duplicator.requires((b, i)),
            forall|b: B, i: &I| refurbisher.requires((b, i)),
        ensures
            final(self).wf(),
            final(self).items() == old(self).items(),
            ({
                let li = choose|b: int| old(self).is_least_useful(b);
                let prev = stack_index - 1;
                let p = old(self).slot_of(prev);
                let fresh = old(self).slot_owner(li) != prev;
                let prev_missing = p == li || old(self).slot_owner(p) != prev;
                &&& old(self).is_least_useful(li)
                &&& stack_index >= old(self).items().len() ==> r is Err && *final(self) == *old(self)
                &&& stack_index < old(self).items().len() ==> {
                    &&& final(self).slot_of(stack_index as int) == li
                    &&& forall|i: int| 0 <= i < old(self).items().len() && i != stack_index
                        ==> final(self).slot_of(i) == old(self).slot_of(i)
                    &&& forall|b: int| 0 <= b < N && b != li ==> final(self).slot_owner(b)
                        == old(self).slot_owner(b) && final(self).slot_value(b) == old(self).slot_value(b)
                    &&& fresh && prev_missing ==> r is Err && final(self).slot_owner(li)
                        == old(self).slot_owner(li) && final(self).slot_value(li) == old(self).slot_value(li)
                    &&& !(fresh && prev_missing) ==> {
                        let ok = r->Ok_0;
                        &&& r is Ok
                        &&& *ok.0 == old(self).items()[stack_index as int]
                        &&& final(self).slot_owner(li) == stack_index
                        &&& final(self).slot_value(li) == Some(*final(ok.1))
                        &&& fresh ==> duplicator.ensures(
                            (&old(self).slot_value(p)->0, &old(self).items()[stack_index as int]),
                            *ok.1,
                        )
                        &&& !fresh ==> refurbisher.ensures(
                            (old(self).slot_value(li)->0, &old(self).items()[stack_index as int]),
                            *ok.1,
                        )
                    }
                }
            }),
    {
        proof {
            self.lemma_items();
        }
        let buffer_index_to_replace = self.get_least_useful_buffer_index();
        proof {
            self.lemma_least_useful_unique(buffer_index_to_replace as int);
        }
        if stack_index - 1 >= self.stack.len() {
            return Err(());
        }
        let prev_stack_item_buffer_index = self.buffer_indices[stack_index - 1];
        if stack_index >= self.stack.len() {
            return Err(());
        }
        let prev_ok = self.buffer[prev_stack_item_buffer_index].stack_index == stack_index - 1;
        let replace_holds_prev = self.buffer[buffer_index_to_replace].stack_index == stack_index - 1;
        let ghost before = *self;
        self.buffer_indices.set(stack_index, buffer_index_to_replace);
        if !replace_holds_prev {
            if prev_stack_item_buffer_index == buffer_index_to_replace || !prev_ok {
                return Err(());
            }
            let new_value = {
                let prev_value = self.buffer[prev_stack_item_buffer_index].item.as_ref().unwrap();
                let item = self.stack.get(stack_index).unwrap();
                duplicator(prev_value, item)
            };
            self.buffer.set(buffer_index_to_replace, BufferItem { stack_index, item: Some(new_value) });
        } else {
            let old_value = self.buffer[buffer_index_to_replace].item.take().unwrap();
            let item = self.stack.get(stack_index).unwrap();
            let new_value = refurbisher(old_value, item);
            self.buffer.set(buffer_index_to_replace, BufferItem { stack_index, item: Some(new_value) });
        }
        let item = self.stack.get(stack_index).unwrap();
        let slot = &mut self.buffer[buffer_index_to_replace];
        Ok((item, slot.item.as_mut().unwrap()))
    }

    /// The least useful slot is unique.
    proof fn lemma_least_useful_unique(&self, b: int)
        requires
            self.is_least_useful(b),
        ensures
            (choose|c: int| self.is_least_useful(c)) == b,
    {
        let c = choose|c: int| self.is_least_useful(c);
        if c < b {
            assert(usefulness((self.items().len() - 1) as usize, self.slot_owner(b))
                < usefulness((self.items().len() - 1) as usize, self.slot_owner(c)));
        } else if b < c {
            assert(usefulness((self.items().len() - 1) as usize, self.slot_owner(c))
                < usefulness((self.items().len() - 1) as usize, self.slot_owner(b)));
        }
    }

    /// The item at `stack_index` and, when it is buffered, its buffered value
    /// for in-place updates.
    pub fn get_pinned_mut(&mut self, stack_index: usize) -> (r: Option<(&I, Option<&mut B>)>)
        requires
            old(self).wf(),
        ensures
            final(self).wf(),
            final(self).items() == old(self).items(),
            forall|i: int| 0 <= i < old(self).items().len() ==> final(self).slot_of(i) == old(self).slot_of(i),
            stack_index >= old(self).items().len() ==> r is None && *final(self) == *old(self),
            stack_index < old(self).items().len() ==> {
                let ok = r->0;
                let b = old(self).slot_of(stack_index as int);
                &&& r is Some
                &&& *ok.0 == old(self).items()[stack_index as int]
                &&& (ok.1 is Some) == old(self).is_buffered(stack_index as int)
                &&& forall|c: int| 0 <= c < N && c != b ==> final(self).slot_owner(c) == old(self).slot_owner(c)
                    && final(self).slot_value(c) == old(self).slot_value(c)
                &&& final(self).slot_owner(b) == old(self).slot_owner(b)
                &&& ok.1 is None ==> final(self).slot_value(b) == old(self).slot_value(b)
                &&& ok.1 is Some ==> Some(*ok.1->0) == old(self).slot_value(b)
                    && final(self).slot_value(b) == Some(*final(ok.1->0))
            },
    {
        proof {
            self.lemma_items();
        }
        if stack_index >= self.stack.len() {
            return None;
        }
        let buffer_index = self.buffer_indices[stack_index];
        let item = self.stack.get(stack_index).unwrap();
        let slot = &mut self.buffer[buffer_index];
        if slot.stack_index != stack_index {
            Some((item, None))
        } else {
            Some((item, Some(slot.item.as_mut().unwrap())))
        }
    }

    /// The top item, for in-place updates.
    pub fn peek_pinned_mut(&mut self) -> (r: &mut I)
        requires
            old(self).wf(),
        ensures
            *r == old(self).items().last(),
            final(self).wf(),
            final(self).items() == old(self).items().update(old(self).items().len() - 1, *final(r)),
            forall|i: int| 0 <= i < old(self).items().len() ==> final(self).slot_of(i) == old(self).slot_of(i),
            forall|c: int| 0 <= c < N ==> final(self).slot_owner(c) == old(self).slot_owner(c)
                && final(self).slot_value(c) == old(self).slot_value(c),
    {
        proof {
            self.lemma_items();
        }
        self.stack.peek_mut().unwrap()
    }

    /// The index of the last item whose key is at most `reference` (the
    /// bottom item when there is none), given a key function under which the
    /// items are sorted.
    pub fn last_index_by<F: Fn(&I) -> u64>(&self, reference: u64, func: F) -> (r: usize)
        requires
            self.wf(),
            forall|i: int| 0 <= i < self.items().len() ==> func.requires((&self.items()[i],)),
            keys_sorted(self.items(), func),
        ensures
            back_bound_ok(self.items(), func, KeyBound::Included(reference), r as int),
            forall|key: spec_fn(I) -> u64|
                #[trigger] keyed_by(func, key) && sorted_by_key(self.items(), key)
                    ==> key_back_ok(self.items(), key, KeyBound::Included(reference), r as int),
    {
        proof {
            self.lemma_items();
        }
        let mut range = self.stack.range_by(KeyBound::Unbounded, KeyBound::Included(reference), func);
        let (index, _) = range.next_back().unwrap();
        index
    }

    /// The index of the last buffered item whose key is at most `reference`
    /// (the bottom item when there is none), given a key function under which
    /// the items are sorted.
    pub fn last_buffered_index_by<F: Fn(&I) -> u64>(&self, reference: u64, func: F) -> (r: usize)
        requires
            self.wf(),
            forall|i: int| 0 <= i < self.items().len() ==> func.requires((&self.items()[i],)),
            keys_sorted(self.items(), func),
        ensures
            exists|hi: int| #[trigger] back_bound_ok(self.items(), func, KeyBound::Included(reference), hi)
                && {
                ||| r <= hi && self.is_buffered(r as int) && forall|j: int| r < j <= hi ==> !#[trigger] self.is_buffered(j)
                ||| r == 0 && forall|j: int| 0 <= j <= hi ==> !#[trigger] self.is_buffered(j)
            },
            forall|key: spec_fn(I) -> u64|
                #[trigger] keyed_by(func, key) && sorted_by_key(self.items(), key) ==> exists|hi: int|
                    #[trigger] key_back_ok(self.items(), key, KeyBound::Included(reference), hi) && {
                    ||| r <= hi && self.is_buffered(r as int) && forall|j: int| r < j <= hi ==> !#[trigger] self.is_buffered(j)
                    ||| r == 0 && forall|j: int| 0 <= j <= hi ==> !#[trigger] self.is_buffered(j)
                },
    {
        proof {
            self.lemma_items();
        }
        let mut range = self.stack.range_by(KeyBound::Unbounded, KeyBound::Included(reference), func);
        let ghost hi = range.spec_back();
        assert(back_bound_ok(self.items(), func, KeyBound::Included(reference), hi));
        loop
            invariant
                self.wf(),
                back_bound_ok(self.items(), func, KeyBound::Included(reference), hi),
                forall|key: spec_fn(I) -> u64|
                    #[trigger] keyed_by(func, key) && sorted_by_key(self.items(), key)
                        ==> key_back_ok(self.items(), key, KeyBound::Included(reference), hi),
                range.wf(),
                range.stack() == self.items(),
                0 <= hi < self.items().len(),
                !range.is_done() ==> range.spec_front() == 0 && range.spec_back() <= hi,
                range.is_done() ==> forall|j: int| 0 <= j <= hi ==> !#[trigger] self.is_buffered(j),
                !range.is_done() ==> forall|j: int| range.spec_back() < j <= hi ==> !#[trigger] self.is_buffered(j),
            decreases range.spec_back() + if range.is_done() { 0int } else { 1int },
        {
            match range.next_back() {
                Some((stack_index, _item)) => {
                    assert(stack_index <= hi);
                    let buffer_index = self.buffer_indices[stack_index];
                    if self.buffer[buffer_index].stack_index == stack_index {
                        assert forall|key: spec_fn(I) -> u64|
                            #[trigger] keyed_by(func, key) && sorted_by_key(self.items(), key) implies exists|h: int|
                                #[trigger] key_back_ok(self.items(), key, KeyBound::Included(reference), h) && {
                                ||| stack_index <= h && self.is_buffered(stack_index as int)
                                    && forall|j: int| stack_index < j <= h ==> !#[trigger] self.is_buffered(j)
                                ||| stack_index == 0 && forall|j: int| 0 <= j <= h ==> !#[trigger] self.is_buffered(j)
                            } by {
                            assert(key_back_ok(self.items(), key, KeyBound::Included(reference), hi));
                        }
                        return stack_index;
                    }
                },
                None => {
                    assert forall|key: spec_fn(I) -> u64|
                        #[trigger] keyed_by(func, key) && sorted_by_key(self.items(), key) implies exists|h: int|
                            #[trigger] key_back_ok(self.items(), key, KeyBound::Included(reference), h) && {
                            ||| 0 <= h && self.is_buffered(0)
                                && forall|j: int| 0 < j <= h ==> !#[trigger] self.is_buffered(j)
                            ||| forall|j: int| 0 <= j <= h ==> !#[trigger] self.is_buffered(j)
                        } by {
                        assert(key_back_ok(self.items(), key, KeyBound::Included(reference), hi));
                    }
                    return 0;
                },
            }
        }
    }

    /// The first item that `func` accepts.
    pub fn find<F: Fn(&I) -> bool>(&self, func: F) -> (r: Option<&I>)
        requires
            self.wf(),
            forall|i: int| 0 <= i < self.items().len() ==> func.requires((&self.items()[i],)),
        ensures
            r is None ==> forall|j: int| 0 <= j < self.items().len() ==> #[trigger] func.ensures((&self.items()[j],), false),
            r is Some ==> exists|i: int| 0 <= i < self.items().len() && r == Some(&self.items()[i])
                && #[trigger] func.ensures((&self.items()[i],), true)
                && forall|j: int| 0 <= j < i ==> #[trigger] func.ensures((&self.items()[j],), false),
    {
        proof {
            self.lemma_items();
        }
        let every_item_first = |_item: &I| -> (k: u64)
            ensures
                k == 1,
        { 1u64 };
        let mut range = self.stack.range_by(KeyBound::Unbounded, KeyBound::Unbounded, every_item_first);
        loop
            invariant
                self.wf(),
                range.wf(),
                range.stack() == self.items(),
                forall|i: int| 0 <= i < self.items().len() ==> func.requires((&self.items()[i],)),
                !range.is_done() ==> range.spec_back() == self.items().len() - 1,
                range.is_done() ==> forall|j: int| 0 <= j < self.items().len() ==> #[trigger] func.ensures((&self.items()[j],), false),
                !range.is_done() ==> forall|j: int| 0 <= j < range.spec_front() ==> #[trigger] func.ensures((&self.items()[j],), false),
            decreases self.items().len() - range.spec_front() + if range.is_done() { 0int } else { 1int },
        {
            match range.next() {
                Some((index, item)) => {
                    assert(func.requires((&self.items()[index as int],)));
                    let accepted = func(item);
                    assert(func.ensures((&self.items()[index as int],), accepted));
                    if accepted {
                        return Some(item);
                    }
                },
                None => {
                    return None;
                },
            }
        }
    }

    /// Empties slot `buffer_index` if it holds the value of `expected_stack_index`.
    fn drop_buffered(&mut self, buffer_index: usize, expected_stack_index: usize)
        requires
            old(self).wf(),
            expected_stack_index != usize::MAX,
        ensures
            final(self).wf(),
            final(self).stack == old(self).stack,
            forall|b: int| 0 <= b < N && b != buffer_index ==> final(self).buffer@[b] == old(self).buffer@[b],
            buffer_index < N && old(self).buffer@[buffer_index as int].stack_index == expected_stack_index
                ==> final(self).buffer@[buffer_index as int].stack_index == usize::MAX,
            !(buffer_index < N && old(self).buffer@[buffer_index as int].stack_index == expected_stack_index)
                ==> final(self).buffer@ == old(self).buffer@,
    {
        if buffer_index < self.buffer.len() {
            if expected_stack_index == self.buffer[buffer_index].stack_index {
                self.buffer.set(buffer_index, BufferItem::new_zeroed());
            }
        }
    }

    /// Pops the top item and its buffered value; false when only the bottom
    /// item is left.
    pub fn pop(&mut self) -> (r: bool)
        requires
            old(self).wf(),
        ensures
            final(self).wf(),
            r == (old(self).items().len() > 1),
            r ==> final(self).items() == old(self).items().drop_last(),
            !r ==> *final(self) == *old(self),
            r ==> forall|b: int| 0 <= b < N ==> final(self).slot_owner(b) == (
                if b == old(self).slot_of(old(self).items().len() - 1) && old(self).slot_owner(b)
                    == old(self).items().len() - 1 {
                    usize::MAX
                } else {
                    old(self).slot_owner(b)
                }),
    {
        let item = self.pop_recover();
        item.is_some()
    }

    /// Pops the top item, dropping its buffered value, and hands the item back.
    pub fn pop_recover(&mut self) -> (r: Option<I>)
        requires
            old(self).wf(),
        ensures
            final(self).wf(),
            (r is Some) == (old(self).items().len() > 1),
            r is Some ==> r->0 == old(self).items().last() && final(self).items()
                == old(self).items().drop_last(),
            r is None ==> *final(self) == *old(self),
            r is Some ==> forall|b: int| 0 <= b < N ==> final(self).slot_owner(b) == (
                if b == old(self).slot_of(old(self).items().len() - 1) && old(self).slot_owner(b)
                    == old(self).items().len() - 1 {
                    usize::MAX
                } else {
                    old(self).slot_owner(b)
                }),
    {
        proof {
            self.lemma_items();
        }
        if self.stack.len() > 1 {
            let stack_index = self.stack.len() - 1;
            let buffer_index = self.buffer_indices[stack_index];
            self.drop_buffered(buffer_index, stack_index);
            let ghost before = *self;
            let popped = self.stack.pop_recover();
            self.buffer_indices.pop();
            proof {
                self.lemma_items();
                before.lemma_items();
                assert(self.items() =~= old(self).items().drop_last());
            }
            popped
        } else {
            None
        }
    }

    /// The slot whose buffered value is least useful: the first one of least
    /// usefulness.
    fn get_least_useful_buffer_index(&self) -> (r: usize)
        requires
            self.wf(),
        ensures
            self.is_least_useful(r as int),
    {
        proof {
            self.lemma_items();
            vstd::bits::lemma_usize_pow2_no_overflow((usize::BITS - 1) as nat);
        }
        let top = self.stack.len() - 1;
        let mut best: usize = 0;
        let mut best_key: u32 = usefulness_exec(top, self.buffer[0].stack_index);
        let mut b: usize = 1;
        while b < N
            invariant
                self.wf(),
                top == self.items().len() - 1,
                1 <= b <= N,
                0 <= best < b,
                best_key == usefulness(top, self.slot_owner(best as int)),
                forall|j: int| 0 <= j < b ==> best_key <= #[trigger] usefulness(top, self.slot_owner(j)),
                forall|j: int| 0 <= j < best ==> best_key < #[trigger] usefulness(top, self.slot_owner(j)),
            decreases N - b,
        {
            let key = usefulness_exec(top, self.buffer[b].stack_index);
            if key < best_key {
                best = b;
                best_key = key;
            }
            b = b + 1;
        }
        best
    }
}

/// The usefulness of a slot, computed as `leading_zeros(top - stack_index) +
/// trailing_zeros(stack_index)` on machine words.
fn usefulness_exec(top: usize, stack_index: usize) -> (r: u32)
    requires
        top < index_limit(),
    ensures
        r == usefulness(top, stack_index),
{
    proof {
        vstd::bits::lemma_usize_pow2_no_overflow((usize::BITS - 1) as nat);
    }
    // The distance from the top, as the signed difference the slot's stack
    // index makes with it: an empty slot counts as index -1, a slot above the
    // top as a negative distance, which has no leading zeros.
    let distance_zeros = if stack_index == usize::MAX {
        (top + 1).leading_zeros()
    } else if stack_index <= top {
        (top - stack_index).leading_zeros()
    } else {
        0
    };
    let tz = stack_index.trailing_zeros();
    proof {
        vstd::std_specs::bits::axiom_u64_leading_zeros((top + 1) as u64);
        vstd::std_specs::bits::axiom_u64_leading_zeros((top - stack_index) as u64);
        vstd::std_specs::bits::axiom_u64_trailing_zeros(stack_index as u64);
    }
    distance_zeros + tz
}

} // verus!

verus! {

/// A buffered item's slot holds a value, so `get_pinned_mut` hands one out
/// for every item that `last_buffered_index_by` reports.
pub proof fn buffered_item_has_value<I, B, const N: usize>(st: SparseBufferStack<I, B, N>, i: int)
    requires
        st.wf(),
        0 <= i < st.items().len(),
        st.is_buffered(i),
    ensures
        st.slot_value(st.slot_of(i)) is Some,
{
    st.lemma_items();
    vstd::bits::lemma_usize_pow2_no_overflow((usize::BITS - 1) as nat);
}

} // verus!

verus! {

/// A larger word has at most as many leading zeros.
proof fn lemma_leading_zeros_antitone(x: u64, y: u64)
    requires
        x <= y,
    ensures
        vstd::std_specs::bits::u64_leading_zeros(y) <= vstd::std_specs::bits::u64_leading_zeros(x),
    decreases y,
{
    reveal(vstd::std_specs::bits::u64_leading_zeros);
    vstd::std_specs::bits::axiom_u64_leading_zeros(x);
    vstd::std_specs::bits::axiom_u64_leading_zeros(y);
    if x == 0 {
    } else {
        lemma_leading_zeros_antitone(x / 2, y / 2);
    }
}

/// A slot is the more useful the closer its owner is to the top: of two
/// owners at or below the top with as many trailing zeros, the lower one is at
/// most as useful as the higher one, so a recent checkpoint is never given up
/// before an older one of the same spacing.
pub proof fn usefulness_grows_toward_top(top: usize, a: usize, b: usize)
    requires
        a < b <= top < usize::MAX,
        usize_trailing_zeros(a) == usize_trailing_zeros(b),
    ensures
        usefulness(top, a) <= usefulness(top, b),
{
    lemma_leading_zeros_antitone((top - b) as u64, (top - a) as u64);
}

/// The item just below the top is, of all owners at or below the top with as
/// many trailing zeros, the most useful one to keep.
pub proof fn item_below_top_is_most_useful(top: usize, a: usize)
    requires
        0 < top < usize::MAX,
        a < top - 1,
        usize_trailing_zeros(a) == usize_trailing_zeros((top - 1) as usize),
    ensures
        usefulness(top, a) <= usefulness(top, (top - 1) as usize),
{
    usefulness_grows_toward_top(top, a, (top - 1) as usize);
}

/// An empty slot is reused before any slot whose owner is at or below the
/// top: it is at most as useful.
pub proof fn empty_slot_is_least_useful(top: usize, a: usize)
    requires
        a <= top < usize::MAX,
    ensures
        usefulness(top, usize::MAX) <= usefulness(top, a),
{
    lemma_leading_zeros_antitone((top - a) as u64, (top + 1) as u64);
    vstd::std_specs::bits::axiom_u64_trailing_zeros(a as u64);
    let m = usize::MAX as u64;
    vstd::std_specs::bits::axiom_u64_trailing_zeros(m);
    assert(m == 0xffff_ffff_ffff_ffffu64 || m == 0xffff_ffffu64);
    assert((m >> 0u64) & 1u64 == 1u64) by (bit_vector)
        requires
            m == 0xffff_ffff_ffff_ffffu64 || m == 0xffff_ffffu64,
    ;
    if vstd::std_specs::bits::u64_trailing_zeros(m) > 0 {
        assert((m >> 0u64) & 1u64 == 0u64);
    }
}

/// Of two owners at the same distance class below the top (as many leading
/// zeros in their distance), the one whose index has more trailing zeros is at
/// least as useful: sparser checkpoints are kept longer.
pub proof fn usefulness_grows_with_spacing(top: usize, a: usize, b: usize)
    requires
        a <= top < usize::MAX,
        b <= top,
        usize_leading_zeros((top - a) as usize) == usize_leading_zeros((top - b) as usize),
        usize_trailing_zeros(a) <= usize_trailing_zeros(b),
    ensures
        usefulness(top, a) <= usefulness(top, b),
{
}

} // verus!
