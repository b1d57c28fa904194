//! The most recent measurements, oldest first, in a queue of fixed size.

use crate::scd30::Measurement;
use heapless::spsc::Queue;
use vstd::prelude::*;

verus! {

/// Number of slots of the queue underneath; it holds one item less.
pub const SLOTS: usize = 512;

/// The largest capacity a history can be made with.
pub const MAX_CAPACITY: usize = 511;

/// `heapless::spsc::Queue`, of which nothing is known but what the
/// functions below say.
#[verifier::external_type_specification]
#[verifier::external_body]
#[verifier::reject_recursive_types(T)]
pub struct ExQueue<T, const N: usize>(heapless::spsc::Queue<T, N>);

/// The items in a queue, from the front, where items leave, to the back,
/// where they enter.
pub uninterp spec fn queue_items(queue: Queue<Measurement, SLOTS>) -> Seq<Measurement>;

/// `heapless::spsc::Queue::new`: a queue with nothing in it.
#[verifier::external_body]
fn queue_new() -> (queue: Queue<Measurement, SLOTS>)
    ensures
        queue_items(queue) == Seq::<Measurement>::empty(),
{
    Queue::new()
}

/// `heapless::spsc::Queue::len`: the number of items, which never exceeds
/// the number of slots less one.
#[verifier::external_body]
fn queue_len(queue: &Queue<Measurement, SLOTS>) -> (len: usize)
    ensures
        len == queue_items(*queue).len(),
        len <= MAX_CAPACITY,
{
    queue.len()
}

/// `heapless::spsc::Queue::enqueue`: puts the item at the back, or hands it
/// back and leaves the queue alone when every usable slot is taken. It
/// does not panic.
#[verifier::external_body]
fn queue_enqueue(queue: &mut Queue<Measurement, SLOTS>, item: Measurement) -> (rejected: Option<Measurement>)
    ensures
        rejected is None <==> queue_items(*old(queue)).len() < MAX_CAPACITY,
        rejected is None ==> queue_items(*final(queue)) == queue_items(*old(queue)).push(item),
        rejected is Some ==> rejected == Some(item) && queue_items(*final(queue)) == queue_items(
            *old(queue),
        ),
    no_unwind
{
    queue.enqueue(item).err()
}

/// `heapless::spsc::Queue::dequeue`: takes the item at the front, if there
/// is one. It does not panic.
#[verifier::external_body]
fn queue_dequeue(queue: &mut Queue<Measurement, SLOTS>) -> (front: Option<Measurement>)
    ensures
        queue_items(*old(queue)).len() == 0 ==> front.is_none() && queue_items(*final(queue))
            == queue_items(*old(queue)),
        queue_items(*old(queue)).len() > 0 ==> front == Some(queue_items(*old(queue))[0])
            && queue_items(*final(queue)) == queue_items(*old(queue)).skip(1),
    no_unwind
{
    queue.dequeue()
}

/// `heapless::spsc::Queue::iter`: copies of the items, from the front to
/// the back.
#[verifier::external_body]
fn queue_to_vec(queue: &Queue<Measurement, SLOTS>) -> (items: Vec<Measurement>)
    ensures
        items@ == queue_items(*queue),
{
    queue.iter().copied().collect()
}

/// What a history of the given capacity holds after one more measurement
/// came in: the newcomer at the back, and the oldest gone if there was no
/// room.
pub open spec fn spec_push(items: Seq<Measurement>, capacity: nat, item: Measurement) -> Seq<Measurement> {
    if items.len() < capacity {
        items.push(item)
    } else {
        items.skip(1).push(item)
    }
}

/// What a history holds after the measurements of `incoming` came in, one
/// after the other.
pub open spec fn spec_push_all(items: Seq<Measurement>, capacity: nat, incoming: Seq<Measurement>) -> Seq<Measurement>
    decreases incoming.len(),
{
    if incoming.len() == 0 {
        items
    } else {
        spec_push(spec_push_all(items, capacity, incoming.drop_last()), capacity, incoming.last())
    }
}

/// The last `count` items of a sequence, or all of it if it is shorter.
pub open spec fn newest(items: Seq<Measurement>, count: nat) -> Seq<Measurement> {
    if items.len() <= count {
        items
    } else {
        items.skip(items.len() - count)
    }
}

/// A history always holds the newest measurements it has seen, as many as
/// its capacity allows, in the order they came in.
pub proof fn lemma_history_keeps_newest(items: Seq<Measurement>, capacity: nat, incoming: Seq<Measurement>)
    requires
        capacity >= 1,
        items.len() <= capacity,
    ensures
        spec_push_all(items, capacity, incoming) == newest(items + incoming, capacity),
        spec_push_all(items, capacity, incoming).len() <= capacity,
    decreases incoming.len(),
{
    if incoming.len() == 0 {
        assert(items + incoming =~= items);
    } else {
        let earlier = incoming.drop_last();
        lemma_history_keeps_newest(items, capacity, earlier);
        let before = newest(items + earlier, capacity);
        assert(items + incoming =~= (items + earlier).push(incoming.last()));
        assert(spec_push(before, capacity, incoming.last()) =~= newest(
            (items + earlier).push(incoming.last()),
            capacity,
        ));
    }
}

/// A history that starts empty is full from the push that brings it to its
/// capacity, and not before.
pub proof fn lemma_history_full_at_capacity(capacity: nat, incoming: Seq<Measurement>)
    requires
        capacity >= 1,
    ensures
        spec_push_all(Seq::empty(), capacity, incoming).len() == capacity <==> incoming.len()
            >= capacity,
        incoming.len() <= capacity ==> spec_push_all(Seq::empty(), capacity, incoming)
            == incoming,
{
    lemma_history_keeps_newest(Seq::empty(), capacity, incoming);
    assert(Seq::<Measurement>::empty() + incoming =~= incoming);
}

/// A bounded first-in, first-out record of measurements. Its view is the
/// sequence of measurements it holds, oldest first.
pub struct History {
    queue: Queue<Measurement, SLOTS>,
    capacity: usize,
}

impl View for History {
    type V = Seq<Measurement>;

    closed spec fn view(&self) -> Seq<Measurement> {
        queue_items(self.queue)
    }
}

impl History {
    /// The number of measurements the history keeps at most.
    pub closed spec fn spec_capacity(&self) -> nat {
        self.capacity as nat
    }

    #[verifier::type_invariant]
    spec fn valid(&self) -> bool {
        &&& 1 <= self.capacity <= MAX_CAPACITY
        &&& queue_items(self.queue).len() <= self.capacity
    }

    /// Makes an empty history that keeps the last `capacity` measurements,
    /// or nothing if `capacity` is zero or more than `MAX_CAPACITY`.
    pub fn new(capacity: usize) -> (history: Option<History>)
        ensures
            history is Some <==> 1 <= capacity <= MAX_CAPACITY,
            history matches Some(h) ==> h@ == Seq::<Measurement>::empty() && h.spec_capacity()
                == capacity,
    {
        if capacity == 0 || capacity > MAX_CAPACITY {
            return None;
        }
        Some(History { queue: queue_new(), capacity })
    }

    /// The number of measurements the history keeps at most.
    pub fn capacity(&self) -> (capacity: usize)
        ensures
            capacity == self.spec_capacity(),
            1 <= capacity <= MAX_CAPACITY,
    {
        proof {
            use_type_invariant(self);
        }
        self.capacity
    }

    /// The number of measurements held.
    pub fn len(&self) -> (len: usize)
        ensures
            len == self@.len(),
            len <= self.spec_capacity(),
    {
        proof {
            use_type_invariant(self);
        }
        queue_len(&self.queue)
    }

    /// Whether the next measurement will push the oldest one out.
    pub fn is_full(&self) -> (full: bool)
        ensures
            full == (self@.len() == self.spec_capacity()),
    {
        queue_len(&self.queue) == self.capacity
    }

    /// Records a measurement as the newest, dropping the oldest one first
    /// if the history is full.
    pub fn push(&mut self, item: Measurement)
        ensures
            final(self).spec_capacity() == old(self).spec_capacity(),
            final(self)@ == spec_push(old(self)@, old(self).spec_capacity(), item),
    {
        proof {
            use_type_invariant(&*self);
        }
        if queue_len(&self.queue) == self.capacity {
            let _ = queue_dequeue(&mut self.queue);
        }
        let _ = queue_enqueue(&mut self.queue, item);
    }

    /// The measurements held, oldest first. The history is left as it is,
    /// so this can be asked any number of times.
    pub fn iter(&self) -> (items: Vec<Measurement>)
        ensures
            items@ == self@,
    {
        queue_to_vec(&self.queue)
    }
}

} // verus!
