//! Concrete sinks: destinations that the scope protocol can write to.

use vstd::prelude::*;

use crate::scope::Open;

verus! {

/// A sink that collects everything written into an in-memory buffer.
/// Writes to it never fail.
pub struct WrapFmt {
    buf: Vec<char>,
}

impl WrapFmt {
    /// An empty buffer sink.
    pub fn new() -> (r: WrapFmt)
        ensures
            r.out() == Seq::<char>::empty(),
    {
        WrapFmt { buf: Vec::new() }
    }

    /// The characters accepted so far.
    pub fn buffer(&self) -> (r: &Vec<char>)
        ensures
            r@ == self.out(),
    {
        &self.buf
    }
}

impl Open for WrapFmt {
    type Error = ();

    closed spec fn out(&self) -> Seq<char> {
        self.buf@
    }

    open spec fn pending_closes(&self) -> Seq<Seq<char>> {
        Seq::empty()
    }

    fn write_str(&mut self, s: &str) -> (r: Result<(), ()>)
        ensures
            r is Ok,
    {
        let n = s.unicode_len();
        let mut i: usize = 0;
        while i < n
            invariant
                n == s@.len(),
                i <= n,
                self.buf@ == old(self).buf@ + s@.take(i as int),
            decreases n - i,
        {
            let c = s.get_char(i);
            self.buf.push(c);
            i += 1;
        }
        proof {
            assert(s@.take(n as int) =~= s@);
            assert(self.buf@ =~= old(self).buf@ + s@);
        }
        Ok(())
    }
}

/// A sink with a fixed capacity: a write that would push the total past the
/// capacity fails and leaves the buffer as it was. It stands in for any
/// destination that can run out of room.
pub struct BoundedSink {
    buf: Vec<char>,
    cap: usize,
}

impl BoundedSink {
    /// An empty sink that accepts at most `cap` characters in all.
    pub fn new(cap: usize) -> (r: BoundedSink)
        ensures
            r.out() == Seq::<char>::empty(),
            r.capacity() == cap,
    {
        BoundedSink { buf: Vec::new(), cap }
    }

    /// How many characters this sink accepts in all.
    pub closed spec fn capacity(&self) -> usize {
        self.cap
    }

    /// The characters accepted so far.
    pub fn buffer(&self) -> (r: &Vec<char>)
        ensures
            r@ == self.out(),
    {
        &self.buf
    }
}

impl Open for BoundedSink {
    type Error = ();

    closed spec fn out(&self) -> Seq<char> {
        self.buf@
    }

    open spec fn pending_closes(&self) -> Seq<Seq<char>> {
        Seq::empty()
    }

    fn write_str(&mut self, s: &str) -> (r: Result<(), ()>)
        ensures
            r is Ok <==> (*old(self)).out().len() + s@.len() <= (*old(self)).capacity(),
            (*final(self)).capacity() == (*old(self)).capacity(),
    {
        let n = s.unicode_len();
        if n > self.cap || self.buf.len() > self.cap - n {
            return Err(());
        }
        let mut i: usize = 0;
        while i < n
            invariant
                n == s@.len(),
                i <= n,
                self.buf@ == old(self).buf@ + s@.take(i as int),
                self.cap == old(self).cap,
            decreases n - i,
        {
            let c = s.get_char(i);
            self.buf.push(c);
            i += 1;
        }
        proof {
            assert(s@.take(n as int) =~= s@);
            assert(self.buf@ =~= old(self).buf@ + s@);
        }
        Ok(())
    }
}

} // verus!
