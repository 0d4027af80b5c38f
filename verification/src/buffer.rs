use vstd::prelude::*;

verus! {


/// A growable byte region with an explicit read cursor: bytes before the
/// cursor have been consumed and are no longer observable.
pub struct BinaryMut {
    data: Vec<u8>,
    rpos: usize,
}

impl BinaryMut {
    /// The bytes still readable: everything at or after the read cursor.
    pub closed spec fn view(&self) -> Seq<u8> {
        self.data@.skip(self.rpos as int)
    }

    pub closed spec fn wf(&self) -> bool {
        self.rpos <= self.data.len()
    }

    pub fn new() -> (r: BinaryMut)
        ensures
            r.wf(),
            r@ == Seq::<u8>::empty(),
    {
        let r = BinaryMut { data: Vec::new(), rpos: 0 };
        proof {
            assert(r@ =~= Seq::<u8>::empty());
        }
        r
    }

    /// A buffer whose readable bytes are exactly the given vector.
    pub fn from_vec(data: Vec<u8>) -> (r: BinaryMut)
        ensures
            r.wf(),
            r@ == data@,
    {
        let ghost contents = data@;
        let r = BinaryMut { data, rpos: 0 };
        proof {
            assert(r@ =~= contents);
        }
        r
    }

    pub fn remaining(&self) -> (n: usize)
        requires
            self.wf(),
        ensures
            n == self@.len(),
    {
        self.data.len() - self.rpos
    }

    pub fn is_empty(&self) -> (b: bool)
        requires
            self.wf(),
        ensures
            b == (self@.len() == 0),
    {
        self.remaining() == 0
    }

    /// Append the given bytes after the currently readable ones.
    pub fn put_slice(&mut self, bytes: &[u8]) -> (n: usize)
        requires
            old(self).wf(),
        ensures
            final(self).wf(),
            final(self)@ == old(self)@ + bytes@,
            n == bytes@.len(),
    {
        let ghost pre = self@;
        self.data.extend_from_slice(bytes);
        proof {
            assert(self@ =~= pre + bytes@);
        }
        bytes.len()
    }

    /// Drop the first `n` readable bytes.
    pub fn advance(&mut self, n: usize)
        requires
            old(self).wf(),
            n <= old(self)@.len(),
        ensures
            final(self).wf(),
            final(self)@ == old(self)@.skip(n as int),
    {
        let ghost pre = self@;
        self.rpos = self.rpos + n;
        proof {
            assert(self@ =~= pre.skip(n as int));
        }
    }

    /// Copy all readable bytes out without consuming them.
    pub fn copy_vec(&self) -> (r: Vec<u8>)
        requires
            self.wf(),
        ensures
            r@ == self@,
    {
        let mut r: Vec<u8> = Vec::new();
        let mut i: usize = self.rpos;
        while i < self.data.len()
            invariant
                self.wf(),
                self.rpos <= i <= self.data.len(),
                r@ == self.data@.subrange(self.rpos as int, i as int),
            decreases self.data.len() - i,
        {
            r.push(self.data[i]);
            proof {
                assert(r@ =~= self.data@.subrange(self.rpos as int, i + 1));
            }
            i = i + 1;
        }
        proof {
            assert(r@ =~= self@);
        }
        r
    }

    /// Read the `i`-th readable byte without consuming it.
    pub fn get(&self, i: usize) -> (b: u8)
        requires
            self.wf(),
            i < self@.len(),
        ensures
            b == self@[i as int],
    {
        self.data[self.rpos + i]
    }

    /// Append the readable bytes of a `Vec`.
    pub fn put_vec(&mut self, bytes: &Vec<u8>) -> (n: usize)
        requires
            old(self).wf(),
        ensures
            final(self).wf(),
            final(self)@ == old(self)@ + bytes@,
            n == bytes@.len(),
    {
        self.put_slice(bytes.as_slice())
    }

    /// Take all readable bytes, leaving the buffer empty.
    pub fn take_vec(&mut self) -> (r: Vec<u8>)
        requires
            old(self).wf(),
        ensures
            final(self).wf(),
            final(self)@ == Seq::<u8>::empty(),
            r@ == old(self)@,
    {
        let r = self.copy_vec();
        let n = self.remaining();
        self.advance(n);
        proof {
            assert(self@ =~= Seq::<u8>::empty());
        }
        r
    }
}



} // verus!
