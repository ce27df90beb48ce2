//! A fixed-capacity first-in, first-out buffer that evicts its oldest element.

use std::collections::VecDeque;
use vstd::prelude::*;
use vstd::std_specs::convert::FromSpecImpl;

verus! {

/// The last `capacity` elements of `s`, in their order; all of `s` where it
/// holds no more than that.
pub open spec fn keep_last<T>(s: Seq<T>, capacity: nat) -> Seq<T> {
    if s.len() <= capacity {
        s
    } else {
        s.subrange(s.len() - capacity, s.len() as int)
    }
}

/// What a sequence of pushes leaves in a buffer that held `start`: each value
/// of `values` is appended in turn, and after each the buffer is cut back to
/// its newest `capacity` elements.
pub open spec fn push_all<T>(start: Seq<T>, capacity: nat, values: Seq<T>) -> Seq<T>
    decreases values.len(),
{
    if values.len() == 0 {
        start
    } else {
        keep_last(push_all(start, capacity, values.drop_last()).push(values.last()), capacity)
    }
}

/// A queue of at most `capacity` elements, oldest first. The capacity is fixed
/// when the buffer is made. A buffer of capacity 0 stays empty for ever.
#[derive(Debug)]
pub struct RingBuf<T> {
    capacity: usize,
    buf: VecDeque<T>,
}

impl<T> View for RingBuf<T> {
    type V = Seq<T>;

    closed spec fn view(&self) -> Seq<T> {
        self.buf@
    }
}

/// A `RingBuf` holds a `VecDeque`, of which no value can be written down in
/// a specification: `from` states its result in its own contract.
impl<T> FromSpecImpl<Vec<T>> for RingBuf<T> {
    open spec fn obeys_from_spec() -> bool {
        false
    }

    open spec fn from_spec(items: Vec<T>) -> Self {
        arbitrary()
    }
}

impl<T> From<Vec<T>> for RingBuf<T> {
    /// A full buffer that holds `items`, with their number as its capacity.
    fn from(items: Vec<T>) -> (ring: Self)
        ensures
            ring.wf(),
            ring@ == items@,
            ring.spec_capacity() == items@.len(),
    {
        let capacity = items.len();
        let mut rest = items;
        let mut buf: VecDeque<T> = VecDeque::new();
        while rest.len() > 0
            invariant
                rest@ + buf@ == items@,
            decreases rest@.len(),
        {
            let ghost before = rest@;
            let ghost moved = buf@;
            if let Some(item) = rest.pop() {
                buf.push_front(item);
                assert(rest@ + buf@ =~= before + moved);
            }
        }
        assert(buf@ =~= rest@ + buf@);
        RingBuf { capacity, buf }
    }
}

impl<T> RingBuf<T> {
    /// The buffer holds no more than its capacity. Every constructor
    /// establishes this and every method keeps it.
    pub closed spec fn wf(&self) -> bool {
        self.buf@.len() <= self.capacity
    }

    /// The number of elements that the buffer keeps at most.
    pub closed spec fn spec_capacity(&self) -> nat {
        self.capacity as nat
    }

    /// A well-formed buffer holds no more than its capacity.
    pub proof fn lemma_within_capacity(&self)
        requires
            self.wf(),
        ensures
            self@.len() <= self.spec_capacity(),
    {
    }

    /// An empty buffer that keeps at most `capacity` elements.
    pub fn new(capacity: usize) -> (ring: Self)
        ensures
            ring.wf(),
            ring@ == Seq::<T>::empty(),
            ring.spec_capacity() == capacity,
    {
        RingBuf { capacity, buf: VecDeque::new() }
    }

    /// Appends `item` as the newest element. A full buffer first gives up its
    /// oldest element; the order of the others stays.
    pub fn put(&mut self, item: T)
        requires
            old(self).wf(),
        ensures
            final(self).wf(),
            final(self).spec_capacity() == old(self).spec_capacity(),
            final(self)@ == keep_last(old(self)@.push(item), old(self).spec_capacity()),
            final(self)@.len() <= final(self).spec_capacity(),
            old(self)@.len() < old(self).spec_capacity() ==> final(self)@ == old(self)@.push(item),
            old(self)@.len() == old(self).spec_capacity() > 0 ==> final(self)@ == old(
                self,
            )@.drop_first().push(item),
            old(self).spec_capacity() == 0 ==> final(self)@ == Seq::<T>::empty(),
    {
        if self.capacity == 0 {
            return ;
        }
        if self.buf.len() == self.capacity {
            self.buf.pop_front();
        }
        self.buf.push_back(item);
    }

    /// The elements, oldest first.
    pub fn get(&self) -> (buf: &VecDeque<T>)
        ensures
            buf@ == self@,
    {
        &self.buf
    }

    /// The number of elements held.
    pub fn len(&self) -> (n: usize)
        requires
            self.wf(),
        ensures
            n == self@.len(),
            n <= self.spec_capacity(),
    {
        self.buf.len()
    }
}

/// Cutting back to the newest `capacity` elements before an append changes
/// nothing of what is kept after it.
pub proof fn lemma_keep_last_push<T>(s: Seq<T>, capacity: nat, value: T)
    ensures
        keep_last(keep_last(s, capacity).push(value), capacity) == keep_last(
            s.push(value),
            capacity,
        ),
{
    assert(keep_last(keep_last(s, capacity).push(value), capacity) =~= keep_last(
        s.push(value),
        capacity,
    ));
}

/// Of a buffer that holds no more than its capacity, any run of pushes keeps
/// the newest `capacity` elements of what it held followed by what was
/// pushed, in push order.
pub proof fn lemma_push_all<T>(start: Seq<T>, capacity: nat, values: Seq<T>)
    requires
        start.len() <= capacity,
    ensures
        push_all(start, capacity, values) == keep_last(start + values, capacity),
    decreases values.len(),
{
    if values.len() == 0 {
        assert(start + values =~= start);
    } else {
        let earlier = values.drop_last();
        lemma_push_all(start, capacity, earlier);
        lemma_keep_last_push(start + earlier, capacity, values.last());
        assert((start + earlier).push(values.last()) =~= start + values);
    }
}

/// After `n` pushes into an empty buffer of capacity `c`, the buffer holds
/// `min(n, c)` elements: the last `min(n, c)` values pushed, in push order.
pub proof fn lemma_pushes_into_empty<T>(capacity: nat, values: Seq<T>)
    ensures
        push_all(Seq::<T>::empty(), capacity, values) == keep_last(values, capacity),
        push_all(Seq::<T>::empty(), capacity, values).len() == if values.len() <= capacity {
            values.len()
        } else {
            capacity
        },
        forall|i: int|
            0 <= i < keep_last(values, capacity).len() ==> keep_last(values, capacity)[i]
                == values[values.len() - keep_last(values, capacity).len() + i],
{
    lemma_push_all(Seq::<T>::empty(), capacity, values);
    assert(Seq::<T>::empty() + values =~= values);
}

/// A push into a full buffer of capacity at least 1 removes exactly the
/// oldest element: the others move up by one place in their order, and the
/// pushed value is the newest.
pub proof fn lemma_push_when_full<T>(s: Seq<T>, capacity: nat, value: T)
    requires
        s.len() == capacity,
        capacity >= 1,
    ensures
        keep_last(s.push(value), capacity) == s.drop_first().push(value),
        keep_last(s.push(value), capacity).len() == capacity,
        forall|i: int| 0 <= i < capacity - 1 ==> keep_last(s.push(value), capacity)[i] == s[i + 1],
        keep_last(s.push(value), capacity)[capacity - 1] == value,
{
    assert(keep_last(s.push(value), capacity) =~= s.drop_first().push(value));
}

} // verus!
