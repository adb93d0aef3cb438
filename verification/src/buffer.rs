//! Fixed-capacity ring buffer holding the last `N` pushed values,
//! read most-recent-first.

use vstd::prelude::*;

verus! {

broadcast use vstd::array::group_array_axioms;

/// What one push does to the logical contents: the new value enters at
/// position 0 and the oldest value (the last position) falls off.
pub open spec fn pushed<T>(s: Seq<T>, value: T) -> Seq<T> {
    seq![value] + s.drop_last()
}

/// The contents after pushing every element of `values` in order.
pub open spec fn pushed_all<T>(s: Seq<T>, values: Seq<T>) -> Seq<T>
    decreases values.len(),
{
    if values.len() == 0 {
        s
    } else {
        pushed_all(pushed(s, values[0]), values.skip(1))
    }
}

/// Stack-allocated fixed-length buffer with a single write cursor.
/// The logical contents are the `N` slots ordered most-recent-first.
#[derive(Clone, Copy, Debug, PartialEq, Eq)]
pub struct FixedBuffer<T, const N: usize> {
    items: [T; N],
    index: usize,
}

impl<T, const N: usize> View for FixedBuffer<T, N> {
    type V = Seq<T>;

    /// The slots in most-recent-first order: a forward scan of the backing
    /// array starting just after the write cursor, wrapping once.
    closed spec fn view(&self) -> Seq<T> {
        Seq::new(
            N as nat,
            |i: int|
                if self.index + 1 + i < N {
                    self.items@[self.index + 1 + i]
                } else {
                    self.items@[self.index + 1 + i - N]
                },
        )
    }
}

impl<T, const N: usize> FixedBuffer<T, N> {
    /// Well-formed: the buffer has at least one slot and the cursor is in range.
    pub closed spec fn wf(&self) -> bool {
        &&& N >= 1
        &&& self.index < N
    }

    /// A well-formed buffer always reads as exactly `N` slots, so the push
    /// laws below apply to any buffer a caller holds, not only to ones whose
    /// construction it witnessed.
    pub proof fn lemma_view_len(&self)
        requires
            self.wf(),
        ensures
            self@.len() == N,
    {
    }

    /// Push a new value into the buffer; it will appear first when reading.
    pub fn push(&mut self, value: T)
        requires
            old(self).wf(),
        ensures
            final(self).wf(),
            final(self)@ == pushed(old(self)@, value),
    {
        let i = self.index;
        self.items[i] = value;
        self.index = if i == 0 {
            N - 1
        } else {
            i - 1
        };
        proof {
            assert(final(self)@ =~= pushed(old(self)@, value));
        }
    }

    /// Read the value pushed `index` steps before the most recent push
    /// (0 = most recent); `None` outside `[0, N)`.
    pub fn get(&self, index: usize) -> (r: Option<&T>)
        requires
            self.wf(),
        ensures
            index < N ==> (r matches Some(v) && *v == self@[index as int]),
            index >= N ==> r is None,
    {
        if index >= N {
            return None;
        }
        let start = self.index + 1;
        let pos = if index < N - start {
            start + index
        } else {
            index - (N - start)
        };
        Some(vstd::array::array_index_get(&self.items, pos))
    }

    /// Positional read that demands an in-range position, the convenience
    /// form of `get` for positions known to be valid.
    pub fn index(&self, index: usize) -> (r: &T)
        requires
            self.wf(),
            index < N,
        ensures
            *r == self@[index as int],
    {
        let start = self.index + 1;
        let pos = if index < N - start {
            start + index
        } else {
            index - (N - start)
        };
        vstd::array::array_index_get(&self.items, pos)
    }

    /// A borrowing reader over all `N` slots, most-recent-first.
    pub fn iter(&self) -> (r: FixedBufferIter<'_, T, N>)
        requires
            self.wf(),
        ensures
            r.wf(),
            r.contents() == self@,
            r.pos() == 0,
    {
        FixedBufferIter { buffer: self, current: 0 }
    }
}

impl<T: Copy, const N: usize> FixedBuffer<T, N> {
    /// A buffer with every slot holding `fill` and the cursor placed so that
    /// the first push lands in slot 0.
    pub fn filled(fill: T) -> (r: Self)
        ensures
            N >= 1 ==> r.wf(),
            r@ == Seq::new(N as nat, |i: int| fill),
    {
        let r = FixedBuffer {
            items: [fill; N],
            index: if N == 0 {
                0
            } else {
                N - 1
            },
        };
        proof {
            assert(r@ =~= Seq::new(N as nat, |i: int| fill));
        }
        r
    }

    /// A consuming reader over all `N` slots, most-recent-first.
    pub fn into_iter(self) -> (r: FixedBufferIntoIter<T, N>)
        requires
            self.wf(),
        ensures
            r.wf(),
            r.contents() == self@,
            r.pos() == 0,
    {
        FixedBufferIntoIter { buffer: self, current: 0 }
    }
}

/// Reader returned by [`FixedBuffer::iter`]: yields references to the slots
/// in most-recent-first order, then `None`.
#[derive(Debug, Clone, Copy, PartialEq)]
pub struct FixedBufferIter<'a, T, const N: usize> {
    buffer: &'a FixedBuffer<T, N>,
    current: usize,
}

impl<'a, T, const N: usize> FixedBufferIter<'a, T, N> {
    /// Well-formed: the underlying buffer is.
    pub closed spec fn wf(&self) -> bool {
        self.buffer.wf()
    }

    /// How many slots have been yielded so far.
    pub closed spec fn pos(&self) -> int {
        self.current as int
    }

    /// The buffer contents being read.
    pub closed spec fn contents(&self) -> Seq<T> {
        self.buffer@
    }

    /// The next slot, most-recent-first; `None` once all `N` have been yielded.
    pub fn next(&mut self) -> (r: Option<&'a T>)
        requires
            old(self).wf(),
        ensures
            final(self).wf(),
            final(self).contents() == old(self).contents(),
            old(self).pos() < N ==> (r matches Some(v) && *v == old(self).contents()[old(self).pos()]
                && final(self).pos() == old(self).pos() + 1),
            old(self).pos() >= N ==> (r is None && final(self).pos() == old(self).pos()),
    {
        if self.current >= N {
            return None;
        }
        let r = self.buffer.get(self.current);
        self.current += 1;
        r
    }
}

/// Reader returned by [`FixedBuffer::into_iter`]: yields copies of the slots
/// in most-recent-first order, then `None`.
#[derive(Debug, Clone, Copy, PartialEq)]
pub struct FixedBufferIntoIter<T, const N: usize> {
    buffer: FixedBuffer<T, N>,
    current: usize,
}

impl<T: Copy, const N: usize> FixedBufferIntoIter<T, N> {
    /// Well-formed: the underlying buffer is.
    pub closed spec fn wf(&self) -> bool {
        self.buffer.wf()
    }

    /// How many slots have been yielded so far.
    pub closed spec fn pos(&self) -> int {
        self.current as int
    }

    /// The buffer contents being read.
    pub closed spec fn contents(&self) -> Seq<T> {
        self.buffer@
    }

    /// The next slot, most-recent-first; `None` once all `N` have been yielded.
    pub fn next(&mut self) -> (r: Option<T>)
        requires
            old(self).wf(),
        ensures
            final(self).wf(),
            final(self).contents() == old(self).contents(),
            old(self).pos() < N ==> (r matches Some(v) && v == old(self).contents()[old(self).pos()]
                && final(self).pos() == old(self).pos() + 1),
            old(self).pos() >= N ==> (r is None && final(self).pos() == old(self).pos()),
    {
        if self.current >= N {
            return None;
        }
        let r = self.buffer.get(self.current);
        let out = match r {
            Some(v) => Some(*v),
            None => None,
        };
        self.current += 1;
        out
    }
}

impl<T: Default + Copy, const N: usize> Default for FixedBuffer<T, N> {
    /// A buffer with every slot holding `T`'s default (sentinel) value and
    /// the cursor placed so that the first push lands in slot 0.
    fn default() -> (r: Self)
        ensures
            N >= 1 ==> r.wf(),
            r@.len() == N,
            forall|i: int, j: int| 0 <= i < N && 0 <= j < N ==> r@[i] == r@[j],
            forall|i: int| 0 <= i < N ==> call_ensures(T::default, (), #[trigger] r@[i]),
    {
        let d: T = Default::default();
        Self::filled(d)
    }
}

/// Pushing never changes how many slots the buffer has.
pub proof fn lemma_pushed_all_len<T>(s: Seq<T>, values: Seq<T>)
    requires
        s.len() >= 1,
    ensures
        pushed_all(s, values).len() == s.len(),
    decreases values.len(),
{
    if values.len() > 0 {
        lemma_pushed_all_len(pushed(s, values[0]), values.skip(1));
    }
}

/// Positions past the pushes still hold what they held before: after `k`
/// pushes, position `i >= k` holds the old value of position `i - k`.
pub proof fn lemma_pushed_all_keeps_old<T>(s: Seq<T>, values: Seq<T>, i: int)
    requires
        s.len() >= 1,
        values.len() <= i < s.len(),
    ensures
        pushed_all(s, values)[i] == s[i - values.len()],
    decreases values.len(),
{
    if values.len() > 0 {
        lemma_pushed_all_keeps_old(pushed(s, values[0]), values.skip(1), i);
    }
}

/// After `k` pushes, position `i` (for `i` below both `k` and the capacity)
/// holds the value pushed `i` steps before the most recent one.
pub proof fn lemma_pushed_all_index<T>(s: Seq<T>, values: Seq<T>, i: int)
    requires
        s.len() >= 1,
        0 <= i < values.len(),
        i < s.len(),
    ensures
        pushed_all(s, values)[i] == values[values.len() - 1 - i],
    decreases values.len(),
{
    let rest = values.skip(1);
    if i < rest.len() {
        lemma_pushed_all_index(pushed(s, values[0]), rest, i);
    } else {
        lemma_pushed_all_keeps_old(pushed(s, values[0]), rest, i);
    }
}

/// Law: after any non-empty push sequence, position 0 holds the most
/// recently pushed value.
pub proof fn lemma_latest_is_first<T>(s: Seq<T>, values: Seq<T>)
    requires
        s.len() >= 1,
        values.len() >= 1,
    ensures
        pushed_all(s, values)[0] == values.last(),
{
    lemma_pushed_all_index(s, values, 0);
}

/// Law: pushing a value and immediately reading position 0 yields that very
/// value, whatever was in the buffer before.
pub proof fn lemma_push_read_back<T>(s: Seq<T>, value: T)
    requires
        s.len() >= 1,
    ensures
        pushed(s, value)[0] == value,
{
}

/// Law: after more pushes than the buffer has slots, the contents are exactly
/// the most recently pushed values in most-recent-first order; everything
/// pushed earlier is unrecoverable.
pub proof fn lemma_full_window<T>(s: Seq<T>, values: Seq<T>)
    requires
        s.len() >= 1,
        values.len() > s.len(),
    ensures
        pushed_all(s, values).len() == s.len(),
        forall|i: int|
            0 <= i < s.len() ==> pushed_all(s, values)[i] == values[values.len() - 1 - i],
{
    lemma_pushed_all_len(s, values);
    assert forall|i: int| 0 <= i < s.len() implies pushed_all(s, values)[i] == values[values.len()
        - 1 - i] by {
        lemma_pushed_all_index(s, values, i);
    }
}

} // verus!
