use vstd::prelude::*;
use vstd::arithmetic::power2::{pow2, lemma_pow2_unfold, lemma_pow2_strictly_increases};
use vstd::bits::{lemma_usize_shl_is_mul, lemma_usize_pow2_no_overflow};
use vstd::std_specs::bits::u64_leading_zeros;

verus! {

// ---------------------------------------------------------------------------
// Chunk arithmetic.
//
// The stack stores its items in chunks that never reallocate: chunk 0 and
// chunk 1 hold one item each, and chunk c (c >= 1) holds 2^(c-1) items. Item i
// lives in chunk `bit_len(i)`, at offset `i - chunk_start(bit_len(i))`.
// ---------------------------------------------------------------------------

/// The number of binary digits of `i` (zero for zero).
pub open spec fn bit_len(i: nat) -> nat
    decreases i,
{
    if i == 0 {
        0
    } else {
        1 + bit_len(i / 2)
    }
}

/// The index of the first item of chunk `c`.
pub open spec fn chunk_start(c: nat) -> nat {
    if c == 0 {
        0
    } else {
        pow2((c - 1) as nat)
    }
}

/// The number of items chunk `c` holds.
pub open spec fn chunk_capacity(c: nat) -> nat {
    if c == 0 {
        1
    } else {
        pow2((c - 1) as nat)
    }
}

/// The chunk and the offset inside it where item `i` lives.
pub open spec fn item_pos(i: nat) -> (nat, nat) {
    (bit_len(i), (i - chunk_start(bit_len(i))) as nat)
}

/// How many items chunk `c` holds when the stack has `length` items.
pub open spec fn chunk_len(length: nat, c: nat) -> nat {
    if length <= chunk_start(c) {
        0
    } else if length >= chunk_start(c + 1) {
        chunk_capacity(c)
    } else {
        (length - chunk_start(c)) as nat
    }
}

/// Chunk c covers the items from chunk_start(c) up to chunk_start(c + 1).
pub proof fn lemma_chunk_start_next(c: nat)
    ensures
        chunk_start(c + 1) == chunk_start(c) + chunk_capacity(c),
{
    if c > 0 {
        lemma_pow2_unfold(c);
    } else {
        vstd::arithmetic::power2::lemma2_to64();
    }
}

/// The chunk starts grow strictly.
pub proof fn lemma_chunk_start_increases(c1: nat, c2: nat)
    requires
        c1 < c2,
    ensures
        chunk_start(c1) < chunk_start(c2),
{
    if c1 == 0 {
        vstd::arithmetic::power2::lemma_pow2_pos((c2 - 1) as nat);
    } else {
        lemma_pow2_strictly_increases((c1 - 1) as nat, (c2 - 1) as nat);
    }
}

/// Every index lies in the chunk named by its bit length.
pub proof fn lemma_bit_len_bounds(i: nat)
    ensures
        chunk_start(bit_len(i)) <= i < chunk_start(bit_len(i) + 1),
    decreases i,
{
    if i == 0 {
        vstd::arithmetic::power2::lemma2_to64();
    } else {
        lemma_bit_len_bounds(i / 2);
        let c = bit_len(i / 2);
        lemma_pow2_unfold(c + 1);
        if c > 0 {
            lemma_pow2_unfold(c);
        } else {
            vstd::arithmetic::power2::lemma2_to64();
        }
    }
}

/// The chunk that holds an index is the only one whose range contains it.
pub proof fn lemma_bit_len_unique(i: nat, c: nat)
    requires
        chunk_start(c) <= i < chunk_start(c + 1),
    ensures
        bit_len(i) == c,
{
    lemma_bit_len_bounds(i);
    let b = bit_len(i);
    if b < c {
        if b + 1 < c {
            lemma_chunk_start_increases(b + 1, c);
        }
    } else if b > c {
        if c + 1 < b {
            lemma_chunk_start_increases(c + 1, b);
        }
    }
}

/// `64 - leading_zeros` is the bit length.
pub proof fn lemma_leading_zeros_bit_len(i: u64)
    ensures
        64 - u64_leading_zeros(i) == bit_len(i as nat),
    decreases i,
{
    reveal(u64_leading_zeros);
    if i != 0 {
        lemma_leading_zeros_bit_len(i / 2);
    }
}

/// The bit length of a usize below 2^(BITS-1) is below BITS.
pub proof fn lemma_bit_len_small(i: nat)
    requires
        i < pow2((usize::BITS - 1) as nat),
    ensures
        bit_len(i) < usize::BITS,
{
    lemma_bit_len_bounds(i);
    let b = bit_len(i);
    if b >= usize::BITS {
        if b - 1 > usize::BITS - 1 {
            lemma_pow2_strictly_increases((usize::BITS - 1) as nat, (b - 1) as nat);
        }
    }
}

/// The largest index a stack can address: 2^(BITS-1).
pub open spec fn index_limit() -> nat {
    pow2((usize::BITS - 1) as nat)
}

/// The first index of chunk `c`, computed.
fn chunk_start_exec(c: usize) -> (r: usize)
    requires
        c <= usize::BITS,
    ensures
        r == chunk_start(c as nat),
{
    if c == 0 {
        0
    } else {
        proof {
            lemma_usize_pow2_no_overflow((c - 1) as nat);
            lemma_usize_shl_is_mul(1, (c - 1) as usize);
        }
        1usize << (c - 1)
    }
}

/// The chunk and the offset where item `index` lives.
fn get_pos(index: usize) -> (r: (usize, usize))
    requires
        index < index_limit(),
    ensures
        r.0 == bit_len(index as nat),
        r.1 == index - chunk_start(bit_len(index as nat)),
        r.0 < usize::BITS,
{
    let lz = index.leading_zeros();
    proof {
        lemma_leading_zeros_bit_len(index as u64);
        lemma_bit_len_small(index as nat);
        lemma_bit_len_bounds(index as nat);
    }
    let y = (usize::BITS - lz) as usize;
    let start = chunk_start_exec(y);
    (y, index - start)
}

/// The number of items chunk `chunk_index` holds.
fn chunk_size(chunk_index: usize) -> (r: usize)
    requires
        chunk_index < usize::BITS,
    ensures
        r == chunk_capacity(chunk_index as nat),
{
    if chunk_index == 0 {
        1
    } else {
        chunk_start_exec(chunk_index)
    }
}

// ---------------------------------------------------------------------------
// The stack.
// ---------------------------------------------------------------------------

/// A stack whose items never move once pushed: items are kept in chunks of
/// doubling size, and a chunk is never reallocated.
pub struct PinStack<T> {
    length: usize,
    chunks: Vec<Vec<T>>,
}

impl<T> View for PinStack<T> {
    type V = Seq<T>;

    closed spec fn view(&self) -> Seq<T> {
        Seq::new(
            self.length as nat,
            |i: int| self.chunks@[item_pos(i as nat).0 as int]@[item_pos(i as nat).1 as int],
        )
    }
}

impl<T> PinStack<T> {
    /// The chunks agree with the length: every chunk below the top is full, the
    /// chunk of the top item holds the items up to it, the others are empty.
    pub closed spec fn wf(&self) -> bool {
        &&& self.chunks@.len() <= usize::BITS
        &&& self.length <= chunk_start(self.chunks@.len())
        &&& forall|c: int|
            0 <= c < self.chunks@.len() ==> #[trigger] self.chunks@[c]@.len() == chunk_len(
                self.length as nat,
                c as nat,
            )
    }

    /// How many items the stack can hold without a new chunk.
    pub closed spec fn spec_capacity(&self) -> nat {
        chunk_start(self.chunks@.len())
    }

    proof fn lemma_wf_len(&self)
        requires
            self.wf(),
        ensures
            self@.len() == self.length,
            self@.len() <= self.spec_capacity(),
            self.spec_capacity() < index_limit() || self.spec_capacity() == index_limit(),
    {
        let n = self.chunks@.len();
        if n > 0 && n - 1 < usize::BITS - 1 {
            lemma_pow2_strictly_increases((n - 1) as nat, (usize::BITS - 1) as nat);
        }
    }

    /// Item i is stored in an existing chunk at an existing offset.
    proof fn lemma_item_stored(&self, i: nat)
        requires
            self.wf(),
            i < self.length,
        ensures
            item_pos(i).0 < self.chunks@.len(),
            item_pos(i).1 < self.chunks@[item_pos(i).0 as int]@.len(),
            self@[i as int] == self.chunks@[item_pos(i).0 as int]@[item_pos(i).1 as int],
    {
        lemma_bit_len_bounds(i);
        let c = bit_len(i);
        lemma_chunk_start_next(c);
        let n = self.chunks@.len();
        if c >= n {
            if c > n {
                lemma_chunk_start_increases(n, c);
            }
        }
        assert(self.chunks@[c as int]@.len() == chunk_len(self.length as nat, c));
    }

    proof fn lemma_all_items_stored(&self)
        requires
            self.wf(),
        ensures
            forall|j: nat|
                j < self.length ==> #[trigger] item_pos(j).0 < self.chunks@.len() && item_pos(j).1
                    < self.chunks@[item_pos(j).0 as int]@.len() && chunk_start(bit_len(j)) <= j,
    {
        assert forall|j: nat| j < self.length implies #[trigger] item_pos(j).0 < self.chunks@.len()
            && item_pos(j).1 < self.chunks@[item_pos(j).0 as int]@.len() && chunk_start(bit_len(j)) <= j by {
            self.lemma_item_stored(j);
            lemma_bit_len_bounds(j);
        }
    }

    pub fn new() -> (r: Self)
        ensures
            r.wf(),
            r@ == Seq::<T>::empty(),
            r.spec_capacity() == 0,
    {
        let r = Self { length: 0, chunks: Vec::new() };
        assert(r@ =~= Seq::<T>::empty());
        r
    }

    /// The number of items the stack holds without adding a chunk.
    pub fn capacity(&self) -> (r: usize)
        requires
            self.wf(),
        ensures
            r == self.spec_capacity(),
    {
        chunk_start_exec(self.chunks.len())
    }

    /// Makes room for `additional` more items; the items are untouched.
    pub fn reserve(&mut self, additional: usize)
        requires
            old(self).wf(),
            old(self)@.len() + additional <= index_limit(),
        ensures
            final(self).wf(),
            final(self)@ == old(self)@,
            final(self).spec_capacity() >= old(self)@.len() + additional,
            exists|n: nat| final(self).spec_capacity() == #[trigger] chunk_start(n),
            old(self).spec_capacity() >= old(self)@.len() + additional ==> final(self).spec_capacity()
                == old(self).spec_capacity(),
    {
        proof {
            self.lemma_wf_len();
            lemma_usize_pow2_no_overflow((usize::BITS - 1) as nat);
            assert(self.spec_capacity() == chunk_start(self.chunks@.len()));
        }
        let new_highest_i = self.length + additional;
        if new_highest_i == 0 {
            return ;
        }
        let new_highest_i = new_highest_i - 1;
        let (max_chunk, _) = get_pos(new_highest_i);
        let ghost old_view = self@;
        let ghost large = old(self).spec_capacity() >= old(self)@.len() + additional;
        let ghost n0 = self.chunks@.len();
        proof {
            lemma_bit_len_bounds(new_highest_i as nat);
            if large && max_chunk >= n0 {
                if max_chunk > n0 {
                    lemma_chunk_start_increases(n0, max_chunk as nat);
                }
            }
        }
        while max_chunk + 1 > self.chunks.len()
            invariant
                self.wf(),
                self@ == old_view,
                max_chunk < usize::BITS,
                large ==> max_chunk + 1 <= n0,
                large ==> self.chunks@.len() == n0,
            decreases max_chunk + 1 - self.chunks@.len(),
        {
            self.reserve_one_more_chunk();
        }
        proof {
            lemma_bit_len_bounds(new_highest_i as nat);
            let n = self.chunks@.len();
            if max_chunk + 1 < n {
                lemma_chunk_start_increases((max_chunk + 1) as nat, n);
            }
            assert(self.spec_capacity() == chunk_start(n));
        }
    }

    fn reserve_one_more_chunk(&mut self)
        requires
            old(self).wf(),
            old(self).chunks@.len() < usize::BITS,
        ensures
            final(self).wf(),
            final(self)@ == old(self)@,
            final(self).chunks@.len() == old(self).chunks@.len() + 1,
    {
        let next_chunk_i = self.chunks.len();
        let next_chunk_size = chunk_size(next_chunk_i);
        let new_slice: Vec<T> = Vec::with_capacity(next_chunk_size);
        let ghost old_self = *self;
        self.chunks.push(new_slice);
        proof {
            lemma_chunk_start_next(next_chunk_i as nat);
            lemma_chunk_start_increases(next_chunk_i as nat, (next_chunk_i + 1) as nat);
            assert forall|c: int| 0 <= c < self.chunks@.len() implies #[trigger] self.chunks@[c]@.len()
                == chunk_len(self.length as nat, c as nat) by {
                if c < next_chunk_i {
                    assert(self.chunks@[c] == old_self.chunks@[c]);
                }
            }
            assert forall|i: int| 0 <= i < self.length implies self@[i] == old_self@[i] by {
                old_self.lemma_item_stored(i as nat);
            }
            assert(self@ =~= old_self@);
        }
    }

    pub fn len(&self) -> (r: usize)
        requires
            self.wf(),
        ensures
            r == self@.len(),
    {
        proof {
            self.lemma_wf_len();
        }
        self.length
    }

    pub fn empty(&self) -> (r: bool)
        requires
            self.wf(),
        ensures
            r == (self@.len() == 0),
    {
        proof {
            self.lemma_wf_len();
        }
        self.length == 0
    }

    /// Pushes an item on top of the stack.
    pub fn push(&mut self, item: T)
        requires
            old(self).wf(),
            old(self)@.len() < index_limit(),
        ensures
            final(self).wf(),
            final(self)@ == old(self)@.push(item),
    {
        proof {
            self.lemma_wf_len();
            lemma_usize_pow2_no_overflow((usize::BITS - 1) as nat);
        }
        self.reserve(1);
        let ghost before = *self;
        proof {
            before.lemma_wf_len();
        }
        let (c, off) = get_pos(self.length);
        proof {
            lemma_bit_len_bounds(self.length as nat);
            lemma_chunk_start_next(c as nat);
            let n = self.chunks@.len();
            if c >= n {
                if c > n {
                    lemma_chunk_start_increases(n as nat, c as nat);
                }
            }
            assert(self.chunks@[c as int]@.len() == chunk_len(self.length as nat, c as nat));
        }
        self.chunks[c].push(item);
        self.length = self.length + 1;
        proof {
            assert forall|k: int| 0 <= k < self.chunks@.len() implies #[trigger] self.chunks@[k]@.len()
                == chunk_len(self.length as nat, k as nat) by {
                lemma_chunk_start_next(k as nat);
                if k < c {
                    lemma_chunk_start_next(k as nat);
                    if k + 1 < c {
                        lemma_chunk_start_increases((k + 1) as nat, c as nat);
                    }
                    assert(before.chunks@[k]@.len() == chunk_len(before.length as nat, k as nat));
                } else if k > c {
                    if c + 1 < k {
                        lemma_chunk_start_increases((c + 1) as nat, k as nat);
                    }
                    assert(before.chunks@[k]@.len() == chunk_len(before.length as nat, k as nat));
                }
            }
            assert forall|i: int| 0 <= i < self.length implies self@[i] == before@.push(item)[i] by {
                if i < before.length {
                    before.lemma_item_stored(i as nat);
                } else {
                    lemma_bit_len_unique(i as nat, c as nat);
                }
            }
            assert(self@ =~= before@.push(item));
        }
    }

    /// Removes the top item and hands it back.
    pub fn pop_recover(&mut self) -> (r: Option<T>)
        requires
            old(self).wf(),
        ensures
            final(self).wf(),
            old(self)@.len() == 0 ==> r is None && final(self)@ == old(self)@,
            old(self)@.len() > 0 ==> r == Some(old(self)@.last()) && final(self)@ == old(
                self,
            )@.drop_last(),
    {
        proof {
            self.lemma_wf_len();
        }
        if self.length == 0 {
            None
        } else {
            let ghost before = *self;
            self.length = self.length - 1;
            proof {
                before.lemma_item_stored(self.length as nat);
                before.lemma_wf_len();
            }
            let (c, _) = get_pos(self.length);
            proof {
                lemma_bit_len_bounds(self.length as nat);
                lemma_chunk_start_next(c as nat);
            }
            let item = self.chunks[c].pop();
            proof {
                assert forall|k: int| 0 <= k < self.chunks@.len() implies #[trigger] self.chunks@[k]@.len()
                    == chunk_len(self.length as nat, k as nat) by {
                    lemma_chunk_start_next(k as nat);
                    assert(before.chunks@[k]@.len() == chunk_len(before.length as nat, k as nat));
                    if k < c {
                        if k + 1 < c {
                            lemma_chunk_start_increases((k + 1) as nat, c as nat);
                        }
                    } else if k > c {
                        if c + 1 < k {
                            lemma_chunk_start_increases((c + 1) as nat, k as nat);
                        }
                    }
                }
                assert forall|i: int| 0 <= i < self.length implies self@[i] == before@.drop_last()[i] by {
                    before.lemma_item_stored(i as nat);
                    self.lemma_item_stored(i as nat);
                }
                assert(self@ =~= before@.drop_last());
            }
            item
        }
    }

    /// Drops the top item; false when the stack was empty.
    pub fn pop(&mut self) -> (r: bool)
        requires
            old(self).wf(),
        ensures
            final(self).wf(),
            r == (old(self)@.len() > 0),
            r ==> final(self)@ == old(self)@.drop_last(),
            !r ==> final(self)@ == old(self)@,
    {
        let item = self.pop_recover();
        item.is_some()
    }

    /// The item at `index`, if there is one.
    pub fn get(&self, index: usize) -> (r: Option<&T>)
        requires
            self.wf(),
        ensures
            index < self@.len() ==> r == Some(&self@[index as int]),
            index >= self@.len() ==> r is None,
    {
        proof {
            self.lemma_wf_len();
        }
        if self.length <= index {
            None
        } else {
            proof {
                self.lemma_item_stored(index as nat);
            }
            let (c, i) = get_pos(index);
            Some(&self.chunks[c][i])
        }
    }

    /// The item at `index`, for in-place updates.
    pub fn get_mut(&mut self, index: usize) -> (r: Option<&mut T>)
        requires
            old(self).wf(),
        ensures
            index >= old(self)@.len() ==> r is None && final(self)@ == old(self)@,
            index < old(self)@.len() ==> r is Some,
            index < old(self)@.len() ==> *r->0 == old(self)@[index as int],
            index < old(self)@.len() ==> final(self)@ == old(self)@.update(index as int, *final(r->0)),
            final(self).wf(),
    {
        proof {
            self.lemma_wf_len();
        }
        if self.length <= index {
            None
        } else {
            proof {
                self.lemma_item_stored(index as nat);
            }
            let (c, i) = get_pos(index);
            proof {
                self.lemma_all_items_stored();
            }
            let chunk = &mut self.chunks[c];
            Some(&mut chunk[i])
        }
    }

    /// The top item, for in-place updates.
    pub fn peek_mut(&mut self) -> (r: Option<&mut T>)
        requires
            old(self).wf(),
        ensures
            old(self)@.len() == 0 ==> r is None && final(self)@ == old(self)@,
            old(self)@.len() > 0 ==> r is Some && *r->0 == old(self)@.last()
                && final(self)@ == old(self)@.update(old(self)@.len() - 1, *final(r->0)),
            final(self).wf(),
    {
        proof {
            self.lemma_wf_len();
        }
        if self.length == 0 {
            return None;
        }
        let top = self.length - 1;
        self.get_mut(top)
    }

    /// The items whose keys fall in the range from `start` to `end`, given a
    /// key function under which the items are sorted.
    pub fn range_by<F: Fn(&T) -> u64>(&self, start: KeyBound, end: KeyBound, func: F) -> (r:
        RangeMutBy<'_, T>)
        requires
            self.wf(),
            forall|i: int| 0 <= i < self@.len() ==> func.requires((&self@[i],)),
            keys_sorted(self@, func),
        ensures
            r.wf(),
            r.stack() == self@,
            self@.len() == 0 ==> r.is_done(),
            self@.len() > 0 && start == KeyBound::Unbounded ==> !r.is_done() && r.spec_front() == 0,
            self@.len() > 0 && end == KeyBound::Unbounded ==> r.spec_back() == self@.len() - 1,
            self@.len() > 0 ==> exists|lo: int, hi: int|
                #![trigger front_bound_ok(self@, func, start, lo), back_bound_ok(self@, func, end, hi)]
                {
                    &&& front_bound_ok(self@, func, start, lo)
                    &&& back_bound_ok(self@, func, end, hi)
                    &&& r.is_done() == (lo > hi)
                    &&& r.spec_front() == lo && r.spec_back() == hi
                },
            forall|key: spec_fn(T) -> u64|
                #[trigger] keyed_by(func, key) && sorted_by_key(self@, key) && self@.len() > 0
                    ==> key_front_ok(self@, key, start, r.spec_front())
                    && key_back_ok(self@, key, end, r.spec_back()),
    {
        RangeMutBy::new(self, start, end, func)
    }

    /// The top item, if there is one.
    pub fn peek(&self) -> (r: Option<&T>)
        requires
            self.wf(),
        ensures
            self@.len() > 0 ==> r == Some(&self@.last()),
            self@.len() == 0 ==> r is None,
    {
        proof {
            self.lemma_wf_len();
        }
        if self.length == 0 {
            return None;
        }
        self.get(self.length - 1)
    }
}

/// One end of a range of keys.
#[derive(Clone, Copy, Debug, PartialEq, Eq, Structural)]
pub enum KeyBound {
    Included(u64),
    Excluded(u64),
    Unbounded,
}

/// The key is at or after the start of the range.
pub open spec fn satisfies_start(k: u64, b: KeyBound) -> bool {
    match b {
        KeyBound::Included(x) => k >= x,
        KeyBound::Excluded(x) => k > x,
        KeyBound::Unbounded => true,
    }
}

/// The key is at or before the end of the range.
pub open spec fn satisfies_end(k: u64, b: KeyBound) -> bool {
    match b {
        KeyBound::Included(x) => k <= x,
        KeyBound::Excluded(x) => k < x,
        KeyBound::Unbounded => true,
    }
}

/// Every key that `func` can give an item is at most every key it can give a
/// later item.
pub open spec fn keys_sorted<T, F: Fn(&T) -> u64>(s: Seq<T>, func: F) -> bool {
    forall|i: int, j: int, ki: u64, kj: u64|
        0 <= i <= j < s.len() && #[trigger] func.ensures((&s[i],), ki) && #[trigger] func.ensures(
            (&s[j],),
            kj,
        ) ==> ki <= kj
}

/// `front` is where the range starts: every earlier item is before the start,
/// and, unless the search stopped at the last item, every item from `front` on
/// is at or after it.
pub open spec fn front_bound_ok<T, F: Fn(&T) -> u64>(s: Seq<T>, func: F, b: KeyBound, front: int) -> bool {
    &&& 0 <= front < s.len()
    &&& forall|i: int, k: u64|
        0 <= i < front && #[trigger] func.ensures((&s[i],), k) ==> !satisfies_start(k, b)
    &&& front < s.len() - 1 ==> forall|i: int, k: u64|
        front <= i < s.len() && #[trigger] func.ensures((&s[i],), k) ==> satisfies_start(k, b)
}

/// `back` is where the range ends: every later item is after the end, and,
/// unless the search stopped at the first item, every item up to `back` is at
/// or before it.
pub open spec fn back_bound_ok<T, F: Fn(&T) -> u64>(s: Seq<T>, func: F, b: KeyBound, back: int) -> bool {
    &&& 0 <= back < s.len()
    &&& forall|i: int, k: u64|
        back < i < s.len() && #[trigger] func.ensures((&s[i],), k) ==> !satisfies_end(k, b)
    &&& back > 0 ==> forall|i: int, k: u64|
        0 <= i <= back && #[trigger] func.ensures((&s[i],), k) ==> satisfies_end(k, b)
}

/// `func` can give item i some key.
pub open spec fn has_key<T, F: Fn(&T) -> u64>(s: Seq<T>, func: F, i: int) -> bool {
    exists|k: u64| #[trigger] func.ensures((&s[i],), k)
}

/// Every key that `func` gives an item is `key` of that item.
pub open spec fn keyed_by<T, F: Fn(&T) -> u64>(func: F, key: spec_fn(T) -> u64) -> bool {
    forall|x: T, k: u64| #[trigger] func.ensures((&x,), k) ==> k == key(x)
}

/// The items are in the order of their keys.
pub open spec fn sorted_by_key<T>(s: Seq<T>, key: spec_fn(T) -> u64) -> bool {
    forall|i: int, j: int| #![trigger s[i], s[j]] 0 <= i <= j < s.len() ==> key(s[i]) <= key(s[j])
}

/// `front` is where the range starts, by `key`: every earlier item is before
/// the start, and, unless the search stopped at the last item, every item
/// from `front` on is at or after it.
pub open spec fn key_front_ok<T>(s: Seq<T>, key: spec_fn(T) -> u64, b: KeyBound, front: int) -> bool {
    &&& 0 <= front < s.len()
    &&& forall|i: int| #![trigger s[i]] 0 <= i < front ==> !satisfies_start(key(s[i]), b)
    &&& front < s.len() - 1 ==> forall|i: int| #![trigger s[i]] front <= i < s.len() ==> satisfies_start(key(s[i]), b)
}

/// `back` is where the range ends, by `key`: every later item is after the
/// end, and, unless the search stopped at the first item, every item up to
/// `back` is at or before it.
pub open spec fn key_back_ok<T>(s: Seq<T>, key: spec_fn(T) -> u64, b: KeyBound, back: int) -> bool {
    &&& 0 <= back < s.len()
    &&& forall|i: int| #![trigger s[i]] back < i < s.len() ==> !satisfies_end(key(s[i]), b)
    &&& back > 0 ==> forall|i: int| #![trigger s[i]] 0 <= i <= back ==> satisfies_end(key(s[i]), b)
}

/// A key function that the items are sorted by makes the keys `func` gives
/// sorted.
pub proof fn lemma_keys_sorted_by_key<T, F: Fn(&T) -> u64>(s: Seq<T>, func: F, key: spec_fn(T) -> u64)
    requires
        keyed_by(func, key),
        sorted_by_key(s, key),
    ensures
        keys_sorted(s, func),
{
}

proof fn lemma_front_by_key<T, F: Fn(&T) -> u64>(
    s: Seq<T>,
    func: F,
    key: spec_fn(T) -> u64,
    b: KeyBound,
    front: int,
    w_lo: u64,
    w_hi: u64,
)
    requires
        keyed_by(func, key),
        sorted_by_key(s, key),
        0 <= front < s.len(),
        front > 0 ==> func.ensures((&s[front - 1],), w_lo) && !satisfies_start(w_lo, b),
        b != KeyBound::Unbounded && front < s.len() - 1 ==> func.ensures((&s[front],), w_hi) && satisfies_start(w_hi, b),
    ensures
        key_front_ok(s, key, b, front),
{
    if front > 0 {
        assert(w_lo == key(s[front - 1]));
        assert forall|i: int| #![trigger s[i]] 0 <= i < front implies !satisfies_start(key(s[i]), b) by {
            assert(key(s[i]) <= key(s[front - 1]));
        }
    }
    if front < s.len() - 1 && b != KeyBound::Unbounded {
        assert(w_hi == key(s[front]));
        assert forall|i: int| #![trigger s[i]] front <= i < s.len() implies satisfies_start(key(s[i]), b) by {
            assert(key(s[front]) <= key(s[i]));
        }
    }
}

proof fn lemma_back_by_key<T, F: Fn(&T) -> u64>(
    s: Seq<T>,
    func: F,
    key: spec_fn(T) -> u64,
    b: KeyBound,
    back: int,
    w_lo: u64,
    w_hi: u64,
)
    requires
        keyed_by(func, key),
        sorted_by_key(s, key),
        0 <= back < s.len(),
        back < s.len() - 1 ==> func.ensures((&s[back + 1],), w_hi) && !satisfies_end(w_hi, b),
        b != KeyBound::Unbounded && back > 0 ==> func.ensures((&s[back],), w_lo) && satisfies_end(w_lo, b),
    ensures
        key_back_ok(s, key, b, back),
{
    if back < s.len() - 1 {
        assert(w_hi == key(s[back + 1]));
        assert forall|i: int| #![trigger s[i]] back < i < s.len() implies !satisfies_end(key(s[i]), b) by {
            assert(key(s[back + 1]) <= key(s[i]));
        }
    }
    if back > 0 && b != KeyBound::Unbounded {
        assert(w_lo == key(s[back]));
        assert forall|i: int| #![trigger s[i]] 0 <= i <= back implies satisfies_end(key(s[i]), b) by {
            assert(key(s[i]) <= key(s[back]));
        }
    }
}

/// When every item has a key, the front and back bounds are unique.
pub proof fn lemma_bounds_unique<T, F: Fn(&T) -> u64>(s: Seq<T>, func: F, start: KeyBound, end: KeyBound, a: int, b: int, c: int, d: int)
    requires
        forall|i: int| 0 <= i < s.len() ==> #[trigger] has_key(s, func, i),
        front_bound_ok(s, func, start, a),
        front_bound_ok(s, func, start, b),
        back_bound_ok(s, func, end, c),
        back_bound_ok(s, func, end, d),
    ensures
        a == b,
        c == d,
{
    if a < b {
        assert(has_key(s, func, a));
        let k = choose|k: u64| func.ensures((&s[a],), k);
        assert(func.ensures((&s[a],), k));
    }
    if b < a {
        assert(has_key(s, func, b));
        let k = choose|k: u64| func.ensures((&s[b],), k);
        assert(func.ensures((&s[b],), k));
    }
    if c < d {
        assert(has_key(s, func, d));
        let k = choose|k: u64| func.ensures((&s[d],), k);
        assert(func.ensures((&s[d],), k));
    }
    if d < c {
        assert(has_key(s, func, c));
        let k = choose|k: u64| func.ensures((&s[c],), k);
        assert(func.ensures((&s[c],), k));
    }
}

/// A walk over a range of a `PinStack`, from either end.
pub struct RangeMutBy<'a, T> {
    pin_stack: &'a PinStack<T>,
    // index in array
    front: usize,
    back: usize,
    done: bool,
}

impl<'a, T> RangeMutBy<'a, T> {
    pub closed spec fn wf(&self) -> bool {
        &&& self.pin_stack.wf()
        &&& !self.done ==> self.front <= self.back < self.pin_stack@.len()
    }

    pub closed spec fn stack(&self) -> Seq<T> {
        self.pin_stack@
    }

    pub closed spec fn spec_front(&self) -> int {
        self.front as int
    }

    pub closed spec fn spec_back(&self) -> int {
        self.back as int
    }

    pub closed spec fn is_done(&self) -> bool {
        self.done
    }

    fn new<F: Fn(&T) -> u64>(pin_stack: &'a PinStack<T>, start: KeyBound, end: KeyBound, func: F) -> (r: Self)
        requires
            pin_stack.wf(),
            forall|i: int| 0 <= i < pin_stack@.len() ==> func.requires((&pin_stack@[i],)),
            keys_sorted(pin_stack@, func),
        ensures
            r.wf(),
            r.stack() == pin_stack@,
            pin_stack@.len() == 0 ==> r.is_done(),
            pin_stack@.len() > 0 && start == KeyBound::Unbounded ==> !r.is_done() && r.spec_front() == 0,
            pin_stack@.len() > 0 && end == KeyBound::Unbounded ==> r.spec_back() == pin_stack@.len() - 1,
            pin_stack@.len() > 0 ==> exists|lo: int, hi: int|
                #![trigger front_bound_ok(pin_stack@, func, start, lo), back_bound_ok(pin_stack@, func, end, hi)]
                {
                    &&& front_bound_ok(pin_stack@, func, start, lo)
                    &&& back_bound_ok(pin_stack@, func, end, hi)
                    &&& r.is_done() == (lo > hi)
                    &&& r.spec_front() == lo && r.spec_back() == hi
                },
            forall|key: spec_fn(T) -> u64|
                #[trigger] keyed_by(func, key) && sorted_by_key(pin_stack@, key) && pin_stack@.len() > 0
                    ==> key_front_ok(pin_stack@, key, start, r.spec_front())
                    && key_back_ok(pin_stack@, key, end, r.spec_back()),
    {
        let ghost s = pin_stack@;
        let len = pin_stack.len();
        if len == 0 {
            return Self { pin_stack, front: 0, back: 0, done: true };
        }
        let mut low: usize = 0;
        let mut high: usize = len - 1;
        let ghost mut f_lo: u64 = 0;
        let ghost mut f_hi: u64 = 0;
        let front = match start {
            KeyBound::Included(x) => {
                while low < high
                    invariant
                        pin_stack.wf(),
                        s == pin_stack@,
                        len == s.len(),
                        0 <= low <= high < len,
                        forall|i: int| 0 <= i < s.len() ==> func.requires((&s[i],)),
                        keys_sorted(s, func),
                        forall|i: int, k: u64| 0 <= i < low && #[trigger] func.ensures((&s[i],), k) ==> k < x,
                        high < len - 1 ==> forall|i: int, k: u64|
                            high <= i < len && #[trigger] func.ensures((&s[i],), k) ==> k >= x,
                        low > 0 ==> func.ensures((&s[low - 1],), f_lo) && f_lo < x,
                        high < len - 1 ==> func.ensures((&s[high as int],), f_hi) && f_hi >= x,
                    decreases high - low,
                {
                    let m = low + (high - low) / 2;
                    let item = pin_stack.get(m).unwrap();
                    let k = func(item);
                    if k < x {
                        low = m + 1;
                        proof {
                            f_lo = k;
                        }
                    } else {
                        high = m;
                        proof {
                            f_hi = k;
                        }
                    }
                }
                low
            },
            KeyBound::Excluded(x) => {
                while low < high
                    invariant
                        pin_stack.wf(),
                        s == pin_stack@,
                        len == s.len(),
                        0 <= low <= high < len,
                        forall|i: int| 0 <= i < s.len() ==> func.requires((&s[i],)),
                        keys_sorted(s, func),
                        forall|i: int, k: u64| 0 <= i < low && #[trigger] func.ensures((&s[i],), k) ==> k <= x,
                        high < len - 1 ==> forall|i: int, k: u64|
                            high <= i < len && #[trigger] func.ensures((&s[i],), k) ==> k > x,
                        low > 0 ==> func.ensures((&s[low - 1],), f_lo) && f_lo <= x,
                        high < len - 1 ==> func.ensures((&s[high as int],), f_hi) && f_hi > x,
                    decreases high - low,
                {
                    let m = low + (high - low) / 2;
                    let item = pin_stack.get(m).unwrap();
                    let k = func(item);
                    if k <= x {
                        low = m + 1;
                        proof {
                            f_lo = k;
                        }
                    } else {
                        high = m;
                        proof {
                            f_hi = k;
                        }
                    }
                }
                low
            },
            KeyBound::Unbounded => low,
        };
        assert(front_bound_ok(s, func, start, front as int));
        assert(front > 0 ==> func.ensures((&s[front - 1],), f_lo) && !satisfies_start(f_lo, start));
        assert(start != KeyBound::Unbounded && front < len - 1 ==> func.ensures((&s[front as int],), f_hi)
            && satisfies_start(f_hi, start));

        let mut low: usize = 0;
        let mut high: usize = len - 1;
        let ghost mut b_lo: u64 = 0;
        let ghost mut b_hi: u64 = 0;
        let back = match end {
            KeyBound::Included(x) => {
                while low < high
                    invariant
                        pin_stack.wf(),
                        s == pin_stack@,
                        len == s.len(),
                        0 <= low <= high < len,
                        forall|i: int| 0 <= i < s.len() ==> func.requires((&s[i],)),
                        keys_sorted(s, func),
                        forall|i: int, k: u64| high < i < len && #[trigger] func.ensures((&s[i],), k) ==> k > x,
                        low > 0 ==> forall|i: int, k: u64|
                            0 <= i <= low && #[trigger] func.ensures((&s[i],), k) ==> k <= x,
                        high < len - 1 ==> func.ensures((&s[high + 1],), b_hi) && b_hi > x,
                        low > 0 ==> func.ensures((&s[low as int],), b_lo) && b_lo <= x,
                    decreases high - low,
                {
                    let m = low + (high - low + 1) / 2;
                    let item = pin_stack.get(m).unwrap();
                    let k = func(item);
                    if k <= x {
                        low = m;
                        proof {
                            b_lo = k;
                        }
                    } else {
                        high = m - 1;
                        proof {
                            b_hi = k;
                        }
                    }
                }
                low
            },
            KeyBound::Excluded(x) => {
                while low < high
                    invariant
                        pin_stack.wf(),
                        s == pin_stack@,
                        len == s.len(),
                        0 <= low <= high < len,
                        forall|i: int| 0 <= i < s.len() ==> func.requires((&s[i],)),
                        keys_sorted(s, func),
                        forall|i: int, k: u64| high < i < len && #[trigger] func.ensures((&s[i],), k) ==> k >= x,
                        low > 0 ==> forall|i: int, k: u64|
                            0 <= i <= low && #[trigger] func.ensures((&s[i],), k) ==> k < x,
                        high < len - 1 ==> func.ensures((&s[high + 1],), b_hi) && b_hi >= x,
                        low > 0 ==> func.ensures((&s[low as int],), b_lo) && b_lo < x,
                    decreases high - low,
                {
                    let m = low + (high - low + 1) / 2;
                    let item = pin_stack.get(m).unwrap();
                    let k = func(item);
                    if k < x {
                        low = m;
                        proof {
                            b_lo = k;
                        }
                    } else {
                        high = m - 1;
                        proof {
                            b_hi = k;
                        }
                    }
                }
                low
            },
            KeyBound::Unbounded => high,
        };
        assert(back_bound_ok(s, func, end, back as int));
        assert(back < len - 1 ==> func.ensures((&s[back + 1],), b_hi) && !satisfies_end(b_hi, end));
        assert(end != KeyBound::Unbounded && back > 0 ==> func.ensures((&s[back as int],), b_lo)
            && satisfies_end(b_lo, end));
        proof {
            assert forall|key: spec_fn(T) -> u64|
                #[trigger] keyed_by(func, key) && sorted_by_key(s, key) implies key_front_ok(s, key, start, front as int)
                    && key_back_ok(s, key, end, back as int) by {
                lemma_front_by_key(s, func, key, start, front as int, f_lo, f_hi);
                lemma_back_by_key(s, func, key, end, back as int, b_lo, b_hi);
            }
        }
        Self { pin_stack, front, back, done: front > back }
    }

    /// The next index and item from the front.
    pub fn next(&mut self) -> (r: Option<(usize, &'a T)>)
        requires
            old(self).wf(),
        ensures
            final(self).wf(),
            final(self).stack() == old(self).stack(),
            old(self).is_done() ==> r is None && *final(self) == *old(self),
            !old(self).is_done() ==> {
                &&& r is Some
                &&& r->Some_0.0 == old(self).spec_front()
                &&& *r->Some_0.1 == old(self).stack()[old(self).spec_front()]
                &&& final(self).spec_front() == old(self).spec_front() + 1
                &&& final(self).spec_back() == old(self).spec_back()
                &&& 0 <= old(self).spec_front() <= old(self).spec_back() < old(self).stack().len()
                &&& final(self).is_done() == (old(self).spec_front() + 1 > old(self).spec_back())
            },
    {
        if self.done {
            return None;
        }
        let index = self.front;
        self.front = self.front + 1;
        if self.front > self.back {
            self.done = true;
        }
        let stack: &'a PinStack<T> = self.pin_stack;
        let item = stack.get(index).unwrap();
        Some((index, item))
    }

    /// The next index and item from the back.
    pub fn next_back(&mut self) -> (r: Option<(usize, &'a T)>)
        requires
            old(self).wf(),
        ensures
            final(self).wf(),
            final(self).stack() == old(self).stack(),
            old(self).is_done() ==> r is None && *final(self) == *old(self),
            !old(self).is_done() ==> {
                &&& r is Some
                &&& r->Some_0.0 == old(self).spec_back()
                &&& *r->Some_0.1 == old(self).stack()[old(self).spec_back()]
                &&& final(self).spec_front() == old(self).spec_front()
                &&& final(self).is_done() == (old(self).spec_back() == 0 || old(self).spec_front() > old(self).spec_back() - 1)
                &&& final(self).spec_back() == if old(self).spec_back() > 0 { old(self).spec_back() - 1 } else { 0 }
                &&& 0 <= old(self).spec_front() <= old(self).spec_back() < old(self).stack().len()
            },
    {
        if self.done {
            return None;
        }
        let index = self.back;
        if self.back == 0 {
            self.done = true;
        } else {
            self.back = self.back - 1;
            if self.front > self.back {
                self.done = true;
            }
        }
        let stack: &'a PinStack<T> = self.pin_stack;
        let item = stack.get(index).unwrap();
        Some((index, item))
    }
}

} // verus!

verus! {

/// Pushing never moves the items already on the stack, the pushed item is
/// then the top one (the one `peek` hands out), and popping it gives the
/// stack back as it was.
pub proof fn push_keeps_items_in_place<T>(s: Seq<T>, item: T)
    ensures
        forall|i: int| 0 <= i < s.len() ==> #[trigger] s.push(item)[i] == s[i],
        s.push(item).len() > 0,
        s.push(item).last() == item,
        s.push(item).drop_last() == s,
{
    assert(s.push(item).drop_last() =~= s);
}

} // verus!
