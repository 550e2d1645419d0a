use vstd::prelude::*;

verus! {

/// A bounded first-in, first-out queue between the producers of notices
/// and their single consumer. It never holds more than its capacity: a
/// producer that finds it full gets its job handed back.
pub struct BoundedQueue<T> {
    capacity: usize,
    items: Vec<T>,
}

impl<T> View for BoundedQueue<T> {
    type V = Seq<T>;

    closed spec fn view(&self) -> Seq<T> {
        self.items@
    }
}

impl<T> BoundedQueue<T> {
    /// The most jobs the queue holds at once.
    pub closed spec fn bound(&self) -> usize {
        self.capacity
    }

    /// The queue holds no more than its capacity. Every queue that `new`
    /// made and the methods below changed is well formed.
    pub open spec fn wf(&self) -> bool {
        self@.len() <= self.bound()
    }

    pub fn new(capacity: usize) -> (queue: Self)
        ensures
            queue@ == Seq::<T>::empty(),
            queue.bound() == capacity,
            queue.wf(),
    {
        BoundedQueue { capacity, items: Vec::new() }
    }

    pub fn capacity(&self) -> (capacity: usize)
        ensures
            capacity == self.bound(),
    {
        self.capacity
    }

    pub fn len(&self) -> (len: usize)
        ensures
            len == self@.len(),
    {
        self.items.len()
    }

    pub fn is_empty(&self) -> (empty: bool)
        ensures
            empty == (self@.len() == 0),
    {
        self.items.len() == 0
    }

    pub fn is_full(&self) -> (full: bool)
        ensures
            full == (self@.len() >= self.bound()),
    {
        self.items.len() >= self.capacity
    }

    /// Puts a job at the back. A full queue is left as it is, and the job
    /// comes back to the producer.
    pub fn try_enqueue(&mut self, item: T) -> (outcome: Result<(), T>)
        ensures
            final(self).bound() == old(self).bound(),
            old(self).wf() ==> final(self).wf(),
            match outcome {
                Ok(()) => old(self)@.len() < old(self).bound() && final(self)@ == old(self)@.push(
                    item,
                ),
                Err(back) => old(self)@.len() >= old(self).bound() && final(self)@ == old(self)@
                    && back == item,
            },
    {
        if self.items.len() >= self.capacity {
            return Err(item);
        }
        self.items.push(item);
        Ok(())
    }

    /// Takes the job at the front, the one that has waited longest.
    pub fn dequeue(&mut self) -> (job: Option<T>)
        ensures
            final(self).bound() == old(self).bound(),
            old(self).wf() ==> final(self).wf(),
            match job {
                Some(item) => old(self)@.len() > 0 && item == old(self)@[0] && final(self)@
                    == old(self)@.skip(1),
                None => old(self)@.len() == 0 && final(self)@ == old(self)@,
            },
    {
        if self.items.len() == 0 {
            return None;
        }
        let item = self.items.remove(0);
        assert(self.items@ =~= old(self).items@.skip(1));
        Some(item)
    }
}

} // verus!
