use vstd::prelude::*;

verus! {

/// The ordered, bounded queue between a connection's session logic and its writer. Once
/// closed it takes nothing more and hands nothing out.
#[derive(Debug)]
pub struct Outbox<P> {
    items: Vec<P>,
    capacity: usize,
    closed: bool,
}

impl<P> Outbox<P> {
    /// The messages waiting for the writer, oldest first.
    pub closed spec fn pending(&self) -> Seq<P> {
        self.items@
    }

    /// A closed queue holds nothing.
    pub closed spec fn wf(&self) -> bool {
        self.closed ==> self.items@.len() == 0
    }

    pub closed spec fn spec_capacity(&self) -> nat {
        self.capacity as nat
    }

    pub closed spec fn spec_closed(&self) -> bool {
        self.closed
    }

    /// An open, empty queue that holds at most `capacity` messages.
    pub fn new(capacity: usize) -> (r: Outbox<P>)
        ensures
            r.wf(),
            r.pending() == Seq::<P>::empty(),
            r.spec_capacity() == capacity,
            !r.spec_closed(),
    {
        Outbox { items: Vec::new(), capacity, closed: false }
    }

    pub fn is_closed(&self) -> (r: bool)
        ensures
            r == self.spec_closed(),
    {
        self.closed
    }

    pub fn len(&self) -> (r: usize)
        ensures
            r == self.pending().len(),
    {
        self.items.len()
    }

    /// Puts `p` at the back, unless the queue is closed or full: then `p` comes back.
    pub fn enqueue(&mut self, p: P) -> (r: Result<(), P>)
        requires
            old(self).wf(),
        ensures
            final(self).wf(),
            final(self).spec_capacity() == old(self).spec_capacity(),
            final(self).spec_closed() == old(self).spec_closed(),
            !old(self).spec_closed() && old(self).pending().len() < old(self).spec_capacity() ==> r
                is Ok && final(self).pending() == old(self).pending().push(p),
            old(self).spec_closed() || old(self).pending().len() >= old(self).spec_capacity() ==> r
                == Err::<(), P>(p) && final(self).pending() == old(self).pending(),
    {
        if self.closed || self.items.len() >= self.capacity {
            return Err(p);
        }
        self.items.push(p);
        Ok(())
    }

    /// Hands every waiting message to the writer, oldest first; nothing once closed.
    pub fn drain(&mut self) -> (r: Vec<P>)
        requires
            old(self).wf(),
        ensures
            final(self).wf(),
            final(self).spec_capacity() == old(self).spec_capacity(),
            final(self).spec_closed() == old(self).spec_closed(),
            final(self).pending() == Seq::<P>::empty(),
            r@ == old(self).pending(),
            old(self).spec_closed() ==> r@ == Seq::<P>::empty(),
    {
        let mut out: Vec<P> = Vec::new();
        std::mem::swap(&mut out, &mut self.items);
        out
    }

    /// Closes the queue and drops what was waiting: none of it is written.
    pub fn close(&mut self)
        requires
            old(self).wf(),
        ensures
            final(self).wf(),
            final(self).spec_capacity() == old(self).spec_capacity(),
            final(self).spec_closed(),
            final(self).pending() == Seq::<P>::empty(),
    {
        self.closed = true;
        self.items = Vec::new();
    }
}

} // verus!
