use vstd::prelude::*;

verus! {

/// A bounded channel into the rest of the pipeline: it accepts events while
/// it holds fewer than its capacity, and hands them out in arrival order.
#[derive(Debug)]
pub struct BoundedSink<T> {
    items: Vec<T>,
    capacity: usize,
}

impl<T> BoundedSink<T> {
    /// The events waiting in the sink, oldest first.
    pub closed spec fn contents(&self) -> Seq<T> {
        self.items@
    }

    pub closed spec fn capacity_spec(&self) -> nat {
        self.capacity as nat
    }

    pub closed spec fn wf(&self) -> bool {
        self.items@.len() <= self.capacity
    }

    pub fn new(capacity: usize) -> (r: BoundedSink<T>)
        ensures
            r.wf(),
            r.contents() == Seq::<T>::empty(),
            r.capacity_spec() == capacity,
    {
        BoundedSink { items: Vec::new(), capacity }
    }

    pub fn len(&self) -> (r: usize)
        ensures
            r == self.contents().len(),
    {
        self.items.len()
    }

    pub fn capacity(&self) -> (r: usize)
        ensures
            r == self.capacity_spec(),
    {
        self.capacity
    }

    pub fn is_full(&self) -> (r: bool)
        ensures
            r == (self.contents().len() >= self.capacity_spec()),
    {
        self.items.len() >= self.capacity
    }

    /// Accepts `item` if there is room; otherwise hands it back untouched.
    pub fn try_send(&mut self, item: T) -> (r: Result<(), T>)
        requires
            old(self).wf(),
        ensures
            final(self).wf(),
            final(self).capacity_spec() == old(self).capacity_spec(),
            old(self).contents().len() < old(self).capacity_spec() ==> r is Ok
                && final(self).contents() == old(self).contents().push(item),
            old(self).contents().len() >= old(self).capacity_spec() ==> r == Err::<(), T>(item)
                && final(self).contents() == old(self).contents(),
    {
        if self.items.len() < self.capacity {
            self.items.push(item);
            Ok(())
        } else {
            Err(item)
        }
    }

    /// Takes the oldest event out, freeing one place.
    pub fn recv(&mut self) -> (r: Option<T>)
        requires
            old(self).wf(),
        ensures
            final(self).wf(),
            final(self).capacity_spec() == old(self).capacity_spec(),
            old(self).contents().len() == 0 ==> r is None && final(self).contents() == old(
                self,
            ).contents(),
            old(self).contents().len() > 0 ==> r == Some(old(self).contents()[0])
                && final(self).contents() == old(self).contents().drop_first(),
    {
        if self.items.len() == 0 {
            None
        } else {
            Some(self.items.remove(0))
        }
    }
}

/// The events of an optional one.
pub open spec fn opt_seq<T>(o: Option<T>) -> Seq<T> {
    match o {
        Some(e) => seq![e],
        None => Seq::empty(),
    }
}

/// One attempt to move the held-back event into a sink holding `contents`
/// with room for `capacity`: the new held-back event and sink contents.
pub open spec fn flush_spec<T>(pending: Option<T>, contents: Seq<T>, capacity: nat) -> (
    Option<T>,
    Seq<T>,
) {
    match pending {
        Some(e) => if contents.len() < capacity {
            (None, contents.push(e))
        } else {
            (pending, contents)
        },
        None => (None, contents),
    }
}

/// The forwarding point of one connection: an event the sink could not take
/// yet is held back, and the read loop does not pull another frame until it
/// has gone through.
#[derive(Clone, Copy, Debug)]
pub struct Forwarder<T> {
    pub pending: Option<T>,
}

impl<T> Forwarder<T> {
    pub fn new() -> (r: Forwarder<T>)
        ensures
            r.pending is None,
    {
        Forwarder { pending: None }
    }

    /// Whether the read loop may pull the next frame.
    pub fn can_read(&self) -> (r: bool)
        ensures
            r == self.pending is None,
    {
        self.pending.is_none()
    }

    /// Takes an event to forward.
    pub fn hold(&mut self, event: T)
        requires
            old(self).pending is None,
        ensures
            final(self).pending == Some(event),
    {
        self.pending = Some(event);
    }

    /// Tries to hand the held-back event to `sink`; returns whether nothing
    /// is held back any more.
    pub fn flush(&mut self, sink: &mut BoundedSink<T>) -> (r: bool)
        requires
            old(sink).wf(),
        ensures
            final(sink).wf(),
            final(sink).capacity_spec() == old(sink).capacity_spec(),
            (final(self).pending, final(sink).contents()) == flush_spec(
                old(self).pending,
                old(sink).contents(),
                old(sink).capacity_spec(),
            ),
            r == final(self).pending is None,
    {
        match self.pending.take() {
            None => true,
            Some(e) => match sink.try_send(e) {
                Ok(()) => true,
                Err(back) => {
                    self.pending = Some(back);
                    false
                },
            },
        }
    }
}

/// A flush never loses an event: what the sink holds and what is held back
/// together are the same events before and after, in the same order. Where
/// the sink is full (it never drains), the event stays held back, so the
/// read loop stays suspended.
pub proof fn lemma_flush_keeps_events<T>(pending: Option<T>, contents: Seq<T>, capacity: nat)
    ensures
        flush_spec(pending, contents, capacity).1 + opt_seq(flush_spec(pending, contents, capacity).0)
            == contents + opt_seq(pending),
        contents.len() >= capacity ==> flush_spec(pending, contents, capacity) == (
            pending,
            contents,
        ),
{
    match pending {
        Some(e) => {
            if contents.len() < capacity {
                assert(contents.push(e) + Seq::<T>::empty() =~= contents + seq![e]);
            } else {
                assert(contents + seq![e] =~= contents + seq![e]);
            }
        },
        None => {
            assert(contents + Seq::<T>::empty() =~= contents);
        },
    }
}

/// With room for one event and no draining, the first event is taken and
/// the next one is held back: the sink is left as it was.
pub proof fn lemma_capacity_one_suspends<T>(first: T, second: T)
    ensures
        flush_spec(Some(first), Seq::empty(), 1) == (None::<T>, seq![first]),
        flush_spec(Some(second), seq![first], 1) == (Some(second), seq![first]),
{
    assert(Seq::<T>::empty().push(first) =~= seq![first]);
}

} // verus!
