use std::collections::VecDeque;
use std::collections::vec_deque::Iter;
use vstd::prelude::*;
use vstd::std_specs::iter::IteratorSpec;

verus! {

/// The contents after pushing `value` at the back of a buffer that holds
/// `items` and has room for `cap` items, with the item that had to leave.
///
/// A buffer without room hands the value straight back; a full buffer drops
/// its oldest (front) item to make room.
pub open spec fn pushed_back<T>(items: Seq<T>, cap: nat, value: T) -> (Seq<T>, Option<T>) {
    if cap == 0 {
        (items, Some(value))
    } else if items.len() >= cap {
        (items.drop_first().push(value), Some(items[0]))
    } else {
        (items.push(value), None)
    }
}

/// The contents after pushing `value` at the front of a buffer that holds
/// `items` and has room for `cap` items, with the item that had to leave.
///
/// A full buffer drops its newest (back) item to make room.
pub open spec fn pushed_front<T>(items: Seq<T>, cap: nat, value: T) -> (Seq<T>, Option<T>) {
    if cap == 0 {
        (items, Some(value))
    } else if items.len() >= cap {
        (seq![value] + items.drop_last(), Some(items.last()))
    } else {
        (seq![value] + items, None)
    }
}

/// The contents after taking the front item, and that item.
pub open spec fn popped_front<T>(items: Seq<T>) -> (Seq<T>, Option<T>) {
    if items.len() == 0 {
        (items, None)
    } else {
        (items.drop_first(), Some(items[0]))
    }
}

/// The contents after taking the back item, and that item.
pub open spec fn popped_back<T>(items: Seq<T>) -> (Seq<T>, Option<T>) {
    if items.len() == 0 {
        (items, None)
    } else {
        (items.drop_last(), Some(items.last()))
    }
}

/// The item at `index` (counted from the front), if there is one.
pub open spec fn item_at<T>(items: Seq<T>, index: int) -> Option<T> {
    if 0 <= index < items.len() {
        Some(items[index])
    } else {
        None
    }
}

/// A double-ended queue that never holds more than `N` items: pushing into a
/// full buffer evicts the item at the other end.
#[derive(Debug)]
pub struct RingBuffer<T, const N: usize> {
    buffer: VecDeque<T>,
}

impl<T, const N: usize> View for RingBuffer<T, N> {
    type V = Seq<T>;

    /// The items, front first.
    closed spec fn view(&self) -> Seq<T> {
        self.buffer@
    }
}

impl<T, const N: usize> RingBuffer<T, N> {
    /// The most items the buffer holds.
    pub fn capacity() -> (res: usize)
        ensures
            res == N,
    {
        N
    }

    /// The buffer holds at most `N` items.
    pub open spec fn wf(&self) -> bool {
        self@.len() <= N
    }

    #[verifier::type_invariant]
    spec fn holds_at_most_capacity(self) -> bool {
        self.buffer@.len() <= N
    }

    /// Moves the items out, leaving the buffer empty for the moment.
    fn take_items(&mut self) -> (res: VecDeque<T>)
        ensures
            res@ == old(self)@,
            final(self)@ == Seq::<T>::empty(),
    {
        let mut buffer = VecDeque::new();
        std::mem::swap(&mut buffer, &mut self.buffer);
        buffer
    }

    /// An empty buffer.
    pub fn new() -> (res: Self)
        ensures
            res.wf(),
            res@ == Seq::<T>::empty(),
    {
        RingBuffer { buffer: VecDeque::with_capacity(N) }
    }

    pub fn len(&self) -> (res: usize)
        ensures
            res == self@.len(),
            self.wf(),
    {
        proof {
            use_type_invariant(self);
        }
        self.buffer.len()
    }

    pub fn is_empty(&self) -> (res: bool)
        ensures
            res == (self@.len() == 0),
    {
        self.buffer.len() == 0
    }

    pub fn is_full(&self) -> (res: bool)
        ensures
            res == (self@.len() == N),
    {
        self.len() == N
    }

    /// Adds an item to the back, returning the evicted oldest item if full.
    pub fn push_back(&mut self, value: T) -> (evicted: Option<T>)
        ensures
            final(self).wf(),
            (final(self)@, evicted) == pushed_back(old(self)@, N as nat, value),
    {
        proof {
            use_type_invariant(&*self);
        }
        if N == 0 {
            return Some(value);
        }
        let mut buffer = self.take_items();
        let evicted = if buffer.len() == N {
            buffer.pop_front()
        } else {
            None
        };
        buffer.push_back(value);
        self.buffer = buffer;
        evicted
    }

    /// Adds an item to the front, returning the evicted newest item if full.
    pub fn push_front(&mut self, value: T) -> (evicted: Option<T>)
        ensures
            final(self).wf(),
            (final(self)@, evicted) == pushed_front(old(self)@, N as nat, value),
    {
        proof {
            use_type_invariant(&*self);
        }
        if N == 0 {
            return Some(value);
        }
        let mut buffer = self.take_items();
        let evicted = if buffer.len() == N {
            buffer.pop_back()
        } else {
            None
        };
        buffer.push_front(value);
        self.buffer = buffer;
        evicted
    }

    pub fn pop_front(&mut self) -> (res: Option<T>)
        ensures
            final(self).wf(),
            (final(self)@, res) == popped_front(old(self)@),
    {
        proof {
            use_type_invariant(&*self);
        }
        let mut buffer = self.take_items();
        let res = buffer.pop_front();
        self.buffer = buffer;
        res
    }

    pub fn pop_back(&mut self) -> (res: Option<T>)
        ensures
            final(self).wf(),
            (final(self)@, res) == popped_back(old(self)@),
    {
        proof {
            use_type_invariant(&*self);
        }
        let mut buffer = self.take_items();
        let res = buffer.pop_back();
        self.buffer = buffer;
        res
    }

    pub fn front(&self) -> (res: Option<&T>)
        ensures
            res == item_at(self@.as_ref(), 0),
    {
        if self.buffer.len() > 0 {
            Some(&self.buffer[0])
        } else {
            None
        }
    }

    pub fn back(&self) -> (res: Option<&T>)
        ensures
            res == item_at(self@.as_ref(), self@.len() - 1),
    {
        let len = self.buffer.len();
        if len > 0 {
            Some(&self.buffer[len - 1])
        } else {
            None
        }
    }

    pub fn get(&self, index: usize) -> (res: Option<&T>)
        ensures
            res == item_at(self@.as_ref(), index as int),
    {
        if index < self.buffer.len() {
            Some(&self.buffer[index])
        } else {
            None
        }
    }

    pub fn clear(&mut self)
        ensures
            final(self).wf(),
            final(self)@ == Seq::<T>::empty(),
    {
        let mut buffer = self.take_items();
        buffer.clear();
        self.buffer = buffer;
    }

    /// The items front to back.
    pub fn iter(&self) -> (res: Iter<'_, T>)
        ensures
            IteratorSpec::remaining(&res) == self@.as_ref(),
    {
        let it = self.buffer.iter();
        proof {
            broadcast use vstd::std_specs::vecdeque::group_vec_dequeue_axioms;
        }
        it
    }
}

impl<T, const N: usize> RingBuffer<T, N> {
    /// The items front to back, moved out of the buffer.
    fn into_items(self) -> (res: Vec<T>)
        ensures
            res@ == self@,
    {
        let mut buffer = self.buffer;
        let ghost all = buffer@;
        let mut items: Vec<T> = Vec::new();
        while buffer.len() > 0
            invariant
                items@ + buffer@ == all,
            decreases buffer@.len(),
        {
            let ghost before = buffer@;
            match buffer.pop_front() {
                Some(item) => {
                    items.push(item);
                    assert(items@ + buffer@ =~= all) by {
                        assert(before =~= seq![before[0]] + buffer@);
                    }
                },
                None => {},
            }
        }
        assert(items@ =~= all);
        items
    }
}

impl<T, const N: usize> IntoIterator for RingBuffer<T, N> {
    type Item = T;
    type IntoIter = std::vec::IntoIter<T>;

    /// Iterates over the items front to back, by value.
    fn into_iter(self) -> (res: std::vec::IntoIter<T>)
        ensures
            IteratorSpec::remaining(&res) == self@,
    {
        let items = self.into_items();
        proof {
            broadcast use vstd::std_specs::vec::axiom_spec_into_iter;
        }
        items.into_iter()
    }
}

impl<T: Clone, const N: usize> Clone for RingBuffer<T, N> {
    /// A buffer with the same number of items, each a clone of the item in the same place.
    fn clone(&self) -> (res: Self)
        ensures
            res.wf(),
            res@.len() == self@.len(),
            forall|i: int| 0 <= i < self@.len() ==> cloned::<T>(#[trigger] self@[i], res@[i]),
    {
        proof {
            use_type_invariant(self);
        }
        RingBuffer { buffer: self.buffer.clone() }
    }
}

impl<T, const N: usize> Default for RingBuffer<T, N> {
    fn default() -> (res: Self)
        ensures
            res.wf(),
            res@ == Seq::<T>::empty(),
    {
        Self::new()
    }
}

/// The contents after pushing each of `values`, in order, at the back.
pub open spec fn pushed_all_back<T>(items: Seq<T>, cap: nat, values: Seq<T>) -> Seq<T>
    decreases values.len(),
{
    if values.len() == 0 {
        items
    } else {
        pushed_back(pushed_all_back(items, cap, values.drop_last()), cap, values.last()).0
    }
}

/// The last `n` items of `items` (all of them when there are fewer).
pub open spec fn latest<T>(items: Seq<T>, n: nat) -> Seq<T> {
    if items.len() <= n {
        items
    } else {
        items.subrange(items.len() - n, items.len() as int)
    }
}

/// Pushing at the back and then popping at the back gives the pushed item
/// back, and when the buffer had room it undoes the push.
pub proof fn lemma_push_back_pop_back<T>(items: Seq<T>, cap: nat, value: T)
    requires
        cap > 0,
        items.len() <= cap,
    ensures
        popped_back(pushed_back(items, cap, value).0).1 == Some(value),
        items.len() < cap ==> popped_back(pushed_back(items, cap, value).0).0 == items,
{
    let pushed = pushed_back(items, cap, value).0;
    assert(pushed.last() == value);
    if items.len() < cap {
        assert(pushed.drop_last() =~= items);
    }
}

/// Pushing at the front and then popping at the front gives the pushed item
/// back, and when the buffer had room it undoes the push.
pub proof fn lemma_push_front_pop_front<T>(items: Seq<T>, cap: nat, value: T)
    requires
        cap > 0,
        items.len() <= cap,
    ensures
        popped_front(pushed_front(items, cap, value).0).1 == Some(value),
        items.len() < cap ==> popped_front(pushed_front(items, cap, value).0).0 == items,
{
    let pushed = pushed_front(items, cap, value).0;
    assert(pushed[0] == value);
    if items.len() < cap {
        assert(pushed.drop_first() =~= items);
    }
}

/// No item is lost or invented by a push at the back: the evicted item (if
/// any) followed by the new contents is the old contents followed by the value.
pub proof fn lemma_push_back_keeps_items<T>(items: Seq<T>, cap: nat, value: T)
    requires
        cap > 0,
        items.len() <= cap,
    ensures
        ({
            let (after, evicted) = pushed_back(items, cap, value);
            match evicted {
                Some(e) => seq![e] + after == items.push(value),
                None => after == items.push(value),
            }
        }),
        pushed_back(items, cap, value).0.len() <= cap,
        pushed_back(items, cap, value).1 is Some <==> items.len() == cap,
{
    let (after, evicted) = pushed_back(items, cap, value);
    if items.len() == cap {
        assert(seq![items[0]] + after =~= items.push(value));
    }
}

/// No item is lost or invented by a push at the front: the new contents
/// followed by the evicted item (if any) is the value followed by the old contents.
pub proof fn lemma_push_front_keeps_items<T>(items: Seq<T>, cap: nat, value: T)
    requires
        cap > 0,
        items.len() <= cap,
    ensures
        ({
            let (after, evicted) = pushed_front(items, cap, value);
            match evicted {
                Some(e) => after.push(e) == seq![value] + items,
                None => after == seq![value] + items,
            }
        }),
        pushed_front(items, cap, value).0.len() <= cap,
        pushed_front(items, cap, value).1 is Some <==> items.len() == cap,
{
    let (after, evicted) = pushed_front(items, cap, value);
    if items.len() == cap {
        assert(after.push(items.last()) =~= seq![value] + items);
    }
}

/// A buffer with room for `cap > 0` items that is filled from the back holds
/// exactly the `cap` most recently pushed items, oldest first.
pub proof fn lemma_keeps_latest<T>(items: Seq<T>, cap: nat, values: Seq<T>)
    requires
        cap > 0,
        items.len() <= cap,
    ensures
        pushed_all_back(items, cap, values) == latest(items + values, cap),
    decreases values.len(),
{
    if values.len() == 0 {
        assert(items + values =~= items);
    } else {
        let prefix = values.drop_last();
        lemma_keeps_latest(items, cap, prefix);
        let before = pushed_all_back(items, cap, prefix);
        let all_before = items + prefix;
        let all = items + values;
        assert(all =~= all_before.push(values.last()));
        assert(before == latest(all_before, cap));
        if all_before.len() < cap {
            assert(before.push(values.last()) =~= latest(all, cap));
        } else {
            assert(before.drop_first().push(values.last()) =~= latest(all, cap));
        }
    }
}

} // verus!
