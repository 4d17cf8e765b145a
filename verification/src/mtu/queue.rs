use vstd::prelude::*;

verus! {

/// Capacity of the sampled-bit queue between the clock task and the
/// reassembler.
pub const BIT_QUEUE_CAPACITY: usize = 64;

/// Bounded single-producer single-consumer queue of sampled bit values.
///
/// The clock generator publishes one sampled bit per cycle with `try_send`;
/// the reassembler consumes them in order with `try_receive`. Overflow never
/// panics: a bit offered to a full queue is dropped, which the reassembler
/// later observes as an incomplete frame.
pub struct BitQueue {
    items: Vec<u8>,
    capacity: usize,
}

impl View for BitQueue {
    type V = Seq<u8>;

    closed spec fn view(&self) -> Seq<u8> {
        self.items@
    }
}

impl BitQueue {
    /// Number of bits the queue can hold at once.
    pub closed spec fn spec_capacity(&self) -> int {
        self.capacity as int
    }

    pub fn new(capacity: usize) -> (q: BitQueue)
        ensures
            q@ == Seq::<u8>::empty(),
            q.spec_capacity() == capacity,
    {
        BitQueue { items: Vec::new(), capacity }
    }

    pub fn len(&self) -> (n: usize)
        ensures
            n == self@.len(),
    {
        self.items.len()
    }

    /// Appends a bit at the tail, unless the queue is full; a bit offered
    /// to a full queue is dropped and `false` comes back.
    pub fn try_send(&mut self, bit: u8) -> (accepted: bool)
        ensures
            final(self).spec_capacity() == old(self).spec_capacity(),
            accepted == (old(self)@.len() < old(self).spec_capacity()),
            accepted ==> final(self)@ == old(self)@.push(bit),
            !accepted ==> final(self)@ == old(self)@,
    {
        if self.items.len() < self.capacity {
            self.items.push(bit);
            true
        } else {
            false
        }
    }

    /// Removes and returns the oldest bit, if any.
    pub fn try_receive(&mut self) -> (r: Option<u8>)
        ensures
            final(self).spec_capacity() == old(self).spec_capacity(),
            old(self)@.len() == 0 ==> r is None && final(self)@ == old(self)@,
            old(self)@.len() > 0 ==> r == Some(old(self)@[0]) && final(self)@ == old(
                self,
            )@.drop_first(),
    {
        if self.items.len() == 0 {
            None
        } else {
            let bit = self.items.remove(0);
            proof {
                assert(self.items@ =~= old(self).items@.drop_first());
            }
            Some(bit)
        }
    }
}

/// Queue contents after offering the bits of `sent`, one after the other,
/// to a queue holding `pending`, under capacity `cap`: each bit is appended
/// unless the queue is full at that moment.
pub open spec fn spec_send_all(pending: Seq<u8>, sent: Seq<u8>, cap: int) -> Seq<u8>
    decreases sent.len(),
{
    if sent.len() == 0 {
        pending
    } else {
        spec_send_all(
            if pending.len() < cap {
                pending.push(sent[0])
            } else {
                pending
            },
            sent.drop_first(),
            cap,
        )
    }
}

/// Sampler ordering: as long as nothing overflows, the queue hands the
/// consumer exactly the sampled bits, in sampling order, behind whatever
/// was already pending. Receiving returns the head first, so the
/// reassembler's input sequence is `pending + sent` in order.
pub proof fn lemma_queue_fifo(pending: Seq<u8>, sent: Seq<u8>, cap: int)
    requires
        pending.len() + sent.len() <= cap,
    ensures
        spec_send_all(pending, sent, cap) == pending + sent,
    decreases sent.len(),
{
    if sent.len() == 0 {
        assert(spec_send_all(pending, sent, cap) =~= pending + sent);
    } else {
        lemma_queue_fifo(pending.push(sent[0]), sent.drop_first(), cap);
        assert(pending.push(sent[0]) + sent.drop_first() =~= pending + sent);
    }
}

} // verus!
