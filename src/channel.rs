use vstd::prelude::*;

verus! {

use std::collections::VecDeque;

/// Number of messages the pipeline's channel holds.
pub const CHANNEL_CAPACITY: usize = 10;

/// The queue after a non-blocking send of `msg`: appended while there is room,
/// otherwise unchanged (the message is dropped).
pub open spec fn sent(queue: Seq<Seq<char>>, capacity: nat, msg: Seq<char>) -> Seq<Seq<char>> {
    if queue.len() < capacity {
        queue.push(msg)
    } else {
        queue
    }
}

/// The queue after a sequence of sends with no receive in between.
pub open spec fn sent_all(queue: Seq<Seq<char>>, capacity: nat, msgs: Seq<Seq<char>>) -> Seq<
    Seq<char>,
>
    decreases msgs.len(),
{
    if msgs.len() == 0 {
        queue
    } else {
        sent_all(sent(queue, capacity, msgs[0]), capacity, msgs.drop_first())
    }
}

/// A fixed-capacity FIFO of text messages. Sending never blocks: a message that
/// finds the channel full is discarded.
pub struct BoundedChannel {
    queue: VecDeque<String>,
    capacity: usize,
}

impl BoundedChannel {
    /// The queued messages, oldest first.
    pub closed spec fn queue(&self) -> Seq<Seq<char>> {
        self.queue@.map_values(|s: String| s@)
    }

    /// The capacity fixed at construction.
    pub closed spec fn spec_capacity(&self) -> nat {
        self.capacity as nat
    }

    pub closed spec fn wf(&self) -> bool {
        self.queue@.len() <= self.capacity
    }

    /// An empty channel that holds at most `capacity` messages.
    pub fn new(capacity: usize) -> (r: BoundedChannel)
        ensures
            r.wf(),
            r.queue() == Seq::<Seq<char>>::empty(),
            r.spec_capacity() == capacity,
    {
        let r = BoundedChannel { queue: VecDeque::new(), capacity };
        assert(r.queue() =~= Seq::<Seq<char>>::empty());
        r
    }

    /// Number of messages waiting.
    pub fn len(&self) -> (r: usize)
        ensures
            r == self.queue().len(),
    {
        self.queue.len()
    }

    /// True when no message waits.
    pub fn is_empty(&self) -> (r: bool)
        ensures
            r == (self.queue().len() == 0),
    {
        self.queue.len() == 0
    }

    /// The capacity fixed at construction.
    pub fn capacity(&self) -> (r: usize)
        ensures
            r == self.spec_capacity(),
    {
        self.capacity
    }

    /// Non-blocking send: queues `msg` and returns true when there is room;
    /// otherwise drops it and returns false.
    pub fn try_send(&mut self, msg: String) -> (r: bool)
        requires
            old(self).wf(),
        ensures
            final(self).wf(),
            final(self).spec_capacity() == old(self).spec_capacity(),
            r == (old(self).queue().len() < old(self).spec_capacity()),
            final(self).queue() == sent(old(self).queue(), old(self).spec_capacity(), msg@),
    {
        if self.queue.len() < self.capacity {
            let ghost m = msg@;
            self.queue.push_back(msg);
            assert(self.queue() =~= old(self).queue().push(m));
            true
        } else {
            false
        }
    }

    /// Non-blocking receive: the oldest message, or `None` when the channel is
    /// empty.
    pub fn try_recv(&mut self) -> (r: Option<String>)
        requires
            old(self).wf(),
        ensures
            final(self).wf(),
            final(self).spec_capacity() == old(self).spec_capacity(),
            old(self).queue().len() == 0 ==> r.is_none() && final(self).queue() == old(self).queue(),
            old(self).queue().len() > 0 ==> r.is_some() && r.unwrap()@ == old(self).queue()[0]
                && final(self).queue() == old(self).queue().drop_first(),
    {
        let r = self.queue.pop_front();
        proof {
            if old(self).queue().len() > 0 {
                assert(self.queue() =~= old(self).queue().drop_first());
            }
        }
        r
    }
}

} // verus!
