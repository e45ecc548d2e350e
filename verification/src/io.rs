//! An in-memory seekable byte sink: the output the muxers write into.
use vstd::prelude::*;

use crate::error::Error;

verus! {

/// `d` with `b` written at position `p`; a gap between the end of `d` and `p`
/// reads as zeros.
pub open spec fn overwrite(d: Seq<u8>, p: int, b: Seq<u8>) -> Seq<u8> {
    let n = if p + b.len() > d.len() {
        p + b.len()
    } else {
        d.len() as int
    };
    Seq::new(
        n as nat,
        |i: int|
            if p <= i < p + b.len() {
                b[i - p]
            } else if i < d.len() {
                d[i]
            } else {
                0u8
            },
    )
}

/// `d` after the stream `w` was written from position `p`: unchanged while
/// nothing has been written.
pub open spec fn placed(d: Seq<u8>, p: int, w: Seq<u8>) -> Seq<u8> {
    if w.len() == 0 {
        d
    } else {
        overwrite(d, p, w)
    }
}

/// Writing `b` right after a placed stream extends the stream.
pub proof fn lemma_placed_append(d: Seq<u8>, p: int, w: Seq<u8>, b: Seq<u8>)
    requires
        p >= 0,
        w.len() + b.len() > 0,
    ensures
        overwrite(placed(d, p, w), p + w.len(), b) == placed(d, p, w + b),
{
    if w.len() == 0 {
        assert(w + b =~= b);
    } else {
        lemma_overwrite_append(d, p, w, b);
    }
}

/// Writing inside a placed stream splices the stream.
pub proof fn lemma_placed_splice(d: Seq<u8>, p: int, w: Seq<u8>, off: int, b: Seq<u8>)
    requires
        p >= 0,
        0 <= off,
        off + b.len() <= w.len(),
        w.len() > 0,
    ensures
        overwrite(placed(d, p, w), p + off, b) == placed(d, p, splice(w, off, b)),
        splice(w, off, b).len() == w.len(),
{
    lemma_overwrite_splice(d, p, w, off, b);
}

/// `s` with the bytes at `off .. off + b.len()` replaced by `b`.
pub open spec fn splice(s: Seq<u8>, off: int, b: Seq<u8>) -> Seq<u8> {
    s.take(off) + b + s.skip(off + b.len())
}

/// Two writes in a row are one write of both.
pub proof fn lemma_overwrite_append(d: Seq<u8>, p: int, a: Seq<u8>, b: Seq<u8>)
    requires
        p >= 0,
    ensures
        overwrite(overwrite(d, p, a), p + a.len(), b) == overwrite(d, p, a + b),
{
    assert(overwrite(overwrite(d, p, a), p + a.len(), b) =~= overwrite(d, p, a + b));
}

/// Writing inside what was already written replaces those bytes.
pub proof fn lemma_overwrite_splice(d: Seq<u8>, p: int, s: Seq<u8>, off: int, b: Seq<u8>)
    requires
        p >= 0,
        0 <= off,
        off + b.len() <= s.len(),
    ensures
        overwrite(overwrite(d, p, s), p + off, b) == overwrite(d, p, splice(s, off, b)),
        splice(s, off, b).len() == s.len(),
{
    assert(overwrite(overwrite(d, p, s), p + off, b) =~= overwrite(d, p, splice(s, off, b)));
}

/// A growable byte buffer with a write position, like `std::io::Cursor<Vec<u8>>`.
#[derive(Debug, Clone, Default)]
pub struct ByteCursor {
    data: Vec<u8>,
    pos: u64,
}

impl ByteCursor {
    /// The bytes held.
    pub closed spec fn bytes(&self) -> Seq<u8> {
        self.data@
    }

    /// The current write position.
    pub closed spec fn pos(&self) -> int {
        self.pos as int
    }

    /// Positions are never negative.
    pub proof fn lemma_pos_nonneg(&self)
        ensures
            self.pos() >= 0,
    {
    }

    /// A cursor over `data`, positioned at its start.
    pub fn new(data: Vec<u8>) -> (r: Self)
        ensures
            r.bytes() == data@,
            r.pos() == 0,
    {
        ByteCursor { data, pos: 0 }
    }

    pub fn into_inner(self) -> (r: Vec<u8>)
        ensures
            r@ == self.bytes(),
    {
        self.data
    }

    pub fn get_ref(&self) -> (r: &Vec<u8>)
        ensures
            r@ == self.bytes(),
    {
        &self.data
    }

    pub fn position(&self) -> (r: u64)
        ensures
            r == self.pos(),
    {
        self.pos
    }

    /// Moves the write position to `pos`, which may lie past the end.
    pub fn seek_to(&mut self, pos: u64)
        ensures
            final(self).bytes() == old(self).bytes(),
            final(self).pos() == pos,
    {
        self.pos = pos;
    }

    /// Moves the write position to the end of the data.
    pub fn seek_to_end(&mut self) -> (r: u64)
        ensures
            final(self).bytes() == old(self).bytes(),
            final(self).pos() == old(self).bytes().len(),
            r == old(self).bytes().len(),
    {
        self.pos = self.data.len() as u64;
        self.pos
    }

    /// Writes all of `buf` at the position and moves past it. Fails, changing
    /// nothing, when the end of the write would not be addressable.
    pub fn write_all(&mut self, buf: &[u8]) -> (r: Result<(), Error>)
        ensures
            r is Ok <==> old(self).pos() + buf@.len() <= usize::MAX,
            r is Ok ==> final(self).bytes() == overwrite(old(self).bytes(), old(self).pos(), buf@)
                && final(self).pos() == old(self).pos() + buf@.len(),
            r is Err ==> *final(self) == *old(self),
            r is Err ==> r->Err_0 matches Error::Io(_),
    {
        if self.pos > usize::MAX as u64 || buf.len() > usize::MAX - self.pos as usize {
            return Err(Error::Io("write position exceeds addressable memory"));
        }
        let p: usize = self.pos as usize;
        let ghost d0 = self.data@;
        let ghost empty = Seq::<u8>::empty();
        proof {
            assert(d0 =~= overwrite(d0, p as int, empty).take(d0.len() as int));
        }
        while self.data.len() < p
            invariant
                self.pos == p,
                d0.len() <= self.data@.len() <= overwrite(d0, p as int, empty).len(),
                self.data@ == overwrite(d0, p as int, empty).take(self.data@.len() as int),
            decreases p - self.data@.len(),
        {
            self.data.push(0);
            proof {
                assert(self.data@ =~= overwrite(d0, p as int, empty).take(self.data@.len() as int));
            }
        }
        proof {
            assert(self.data@ =~= overwrite(d0, p as int, buf@.take(0)));
        }
        let mut i: usize = 0;
        while i < buf.len()
            invariant
                self.pos == p,
                p + buf@.len() <= usize::MAX,
                i <= buf@.len(),
                self.data@ == overwrite(d0, p as int, buf@.take(i as int)),
            decreases buf@.len() - i,
        {
            let at = p + i;
            if at < self.data.len() {
                self.data.set(at, buf[i]);
            } else {
                self.data.push(buf[i]);
            }
            i = i + 1;
            proof {
                assert(self.data@ =~= overwrite(d0, p as int, buf@.take(i as int)));
            }
        }
        proof {
            assert(buf@.take(i as int) =~= buf@);
        }
        self.pos = (p + buf.len()) as u64;
        Ok(())
    }

    /// Nothing is buffered, so flushing does nothing.
    pub fn flush(&mut self) -> (r: Result<(), Error>)
        ensures
            r is Ok,
            *final(self) == *old(self),
    {
        Ok(())
    }
}

} // verus!
