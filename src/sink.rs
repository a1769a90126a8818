//! An output buffer that bounds how much a single formatting call writes.

use crate::Error;
use vstd::prelude::*;

verus! {

/// What a sink holds after `data` is appended to `out`, when at most `room`
/// bytes fit: everything, or the first `room` bytes.
pub open spec fn append_limited(out: Seq<u8>, data: Seq<u8>, room: int) -> Seq<u8> {
    if out.len() + data.len() <= room {
        out + data
    } else {
        (out + data).take(room)
    }
}

/// Once the room is exceeded, what follows changes nothing.
pub proof fn lemma_append_limited_overflow(out: Seq<u8>, a: Seq<u8>, b: Seq<u8>, room: int)
    requires
        out.len() <= room,
        out.len() + a.len() > room,
    ensures
        append_limited(out, a, room) == append_limited(out, a + b, room),
{
    assert((out + a).take(room) =~= (out + (a + b)).take(room));
}

/// One write of `data` in a single piece, after `written`: rejected as a
/// whole when it would exceed the size limit; otherwise the destination takes
/// what it can hold, and a short write is an error.
pub open spec fn put(written: Seq<u8>, data: Seq<u8>, size_limit: int, capacity: int) -> (
    Seq<u8>,
    Option<Error>,
) {
    if written.len() + data.len() > size_limit {
        (written, Some(Error::FormattedStringTooLarge))
    } else if written.len() + data.len() > capacity {
        ((written + data).take(capacity), Some(Error::WriteZero))
    } else {
        (written + data, None)
    }
}

/// A series of writes, stopping at the first that fails.
pub open spec fn put_all(written: Seq<u8>, writes: Seq<Seq<u8>>, size_limit: int, capacity: int) -> (
    Seq<u8>,
    Option<Error>,
)
    decreases writes.len(),
{
    if writes.len() == 0 {
        (written, None)
    } else {
        let (w, e) = put(written, writes[0], size_limit, capacity);
        if e is Some {
            (w, e)
        } else {
            put_all(w, writes.skip(1), size_limit, capacity)
        }
    }
}

/// The bytes of `s`, each as a write of its own.
pub open spec fn singletons(s: Seq<u8>) -> Seq<Seq<u8>> {
    Seq::new(s.len(), |i: int| seq![s[i]])
}

/// Smaller of the size limit and the capacity.
pub open spec fn room_of(size_limit: int, capacity: int) -> int {
    if size_limit <= capacity {
        size_limit
    } else {
        capacity
    }
}

/// Writes in two series are the writes of the first, then, if none failed,
/// those of the second.
pub proof fn lemma_put_all_concat(w: Seq<u8>, a: Seq<Seq<u8>>, b: Seq<Seq<u8>>, l: int, c: int)
    ensures
        put_all(w, a + b, l, c) == ({
            let (w1, e1) = put_all(w, a, l, c);
            if e1 is Some {
                (w1, e1)
            } else {
                put_all(w1, b, l, c)
            }
        }),
    decreases a.len(),
{
    if a.len() == 0 {
        assert(a + b =~= b);
    } else {
        assert((a + b)[0] == a[0]);
        assert((a + b).skip(1) =~= a.skip(1) + b);
        let (w1, e1) = put(w, a[0], l, c);
        if e1 is None {
            lemma_put_all_concat(w1, a.skip(1), b, l, c);
        }
    }
}

/// Writing bytes one at a time fills the room and stops there.
pub proof fn lemma_put_all_singletons(w: Seq<u8>, s: Seq<u8>, l: int, c: int)
    requires
        w.len() <= room_of(l, c),
    ensures
        put_all(w, singletons(s), l, c) == (
            append_limited(w, s, room_of(l, c)),
            if w.len() + s.len() > room_of(l, c) {
                Some(
                    if l <= c {
                        Error::FormattedStringTooLarge
                    } else {
                        Error::WriteZero
                    },
                )
            } else {
                None::<Error>
            },
        ),
    decreases s.len(),
{
    let room = room_of(l, c);
    if s.len() == 0 {
        assert(w + s =~= w);
    } else {
        let ss = singletons(s);
        assert(ss[0] == seq![s[0]]);
        assert(ss.skip(1) =~= singletons(s.skip(1)));
        if w.len() + 1 > room {
            assert((w + s).take(room) =~= w);
            if w.len() + 1 <= l {
                assert((w + seq![s[0]]).take(c) =~= w);
            }
        } else {
            lemma_put_all_singletons(w + seq![s[0]], s.skip(1), l, c);
            assert(w + seq![s[0]] + s.skip(1) =~= w + s);
        }
    }
}

/// A series of writes never leaves more than the room, and one that all
/// succeed leaves everything written.
pub proof fn lemma_put_all_bounds(w: Seq<u8>, ws: Seq<Seq<u8>>, l: int, c: int)
    requires
        w.len() <= room_of(l, c),
    ensures
        put_all(w, ws, l, c).0.len() <= room_of(l, c),
        put_all(w, ws, l, c).1 is None ==> put_all(w, ws, l, c).0 == w + ws.flatten(),
        put_all(w, ws, l, c).1 is Some ==> put_all(w, ws, l, c).1 == Some(
            Error::FormattedStringTooLarge,
        ) || put_all(w, ws, l, c).1 == Some(Error::WriteZero),
        put_all(w, ws, l, c).1 is Some ==> w.len() + ws.flatten().len() > room_of(l, c),
    decreases ws.len(),
{
    if ws.len() == 0 {
        assert(ws.flatten() =~= Seq::<u8>::empty());
        assert(w + Seq::<u8>::empty() =~= w);
    } else {
        assert(ws.drop_first() =~= ws.skip(1));
        assert(ws.flatten() == ws[0] + ws.skip(1).flatten());
        let (w1, e1) = put(w, ws[0], l, c);
        if e1 is None {
            lemma_put_all_bounds(w1, ws.skip(1), l, c);
            assert(w1 + ws.skip(1).flatten() =~= w + ws.flatten());
        }
    }
}

/// A `SizeLimiter` collects output bytes, up to both a size limit and the
/// capacity of the destination, whichever is smaller.
pub struct SizeLimiter {
    /// Bytes written so far.
    pub out: Vec<u8>,
    /// Size limit.
    pub size_limit: usize,
    /// Capacity of the destination.
    pub capacity: usize,
}

impl SizeLimiter {
    /// How many bytes may be written in all.
    pub open spec fn room(&self) -> int {
        if self.size_limit <= self.capacity {
            self.size_limit as int
        } else {
            self.capacity as int
        }
    }

    /// The error that a write past the room gives: the size limit is checked
    /// before the destination.
    pub open spec fn overflow_error(&self) -> Error {
        if self.size_limit <= self.capacity {
            Error::FormattedStringTooLarge
        } else {
            Error::WriteZero
        }
    }

    /// Bytes written so far.
    pub open spec fn written(&self) -> Seq<u8> {
        self.out@
    }

    /// Well-formedness: never more than the room is written.
    pub open spec fn wf(&self) -> bool {
        self.out@.len() <= self.room()
    }

    /// Construct a new, empty `SizeLimiter`.
    pub fn new(size_limit: usize, capacity: usize) -> (r: Self)
        ensures
            r.wf(),
            r.written() == Seq::<u8>::empty(),
            r.size_limit == size_limit,
            r.capacity == capacity,
    {
        SizeLimiter { out: Vec::new(), size_limit, capacity }
    }

    /// Append one byte, or fail when the room is used up.
    pub fn push(&mut self, b: u8) -> (r: Result<(), Error>)
        requires
            old(self).wf(),
        ensures
            final(self).wf(),
            final(self).size_limit == old(self).size_limit,
            final(self).capacity == old(self).capacity,
            final(self).written() == append_limited(old(self).written(), seq![b], old(self).room()),
            r is Ok <==> old(self).written().len() + 1 <= old(self).room(),
            r is Err ==> r == Err::<(), Error>(old(self).overflow_error()),
    {
        if self.out.len() >= self.size_limit {
            assert((self.out@ + seq![b]).take(self.room()) =~= self.out@);
            return Err(Error::FormattedStringTooLarge);
        }
        if self.out.len() >= self.capacity {
            assert((self.out@ + seq![b]).take(self.room()) =~= self.out@);
            return Err(Error::WriteZero);
        }
        self.out.push(b);
        Ok(())
    }

    /// Append all of `data`, byte by byte, until the room is used up.
    pub fn write_each(&mut self, data: &[u8]) -> (r: Result<(), Error>)
        requires
            old(self).wf(),
        ensures
            final(self).wf(),
            final(self).size_limit == old(self).size_limit,
            final(self).capacity == old(self).capacity,
            final(self).written() == append_limited(old(self).written(), data@, old(self).room()),
            r is Ok <==> old(self).written().len() + data@.len() <= old(self).room(),
            r is Err ==> r == Err::<(), Error>(old(self).overflow_error()),
    {
        let ghost start = self.out@;
        let mut i: usize = 0;
        while i < data.len()
            invariant
                self.wf(),
                self.size_limit == old(self).size_limit,
                self.capacity == old(self).capacity,
                start == old(self).written(),
                i <= data@.len(),
                self.out@ == start + data@.take(i as int),
            decreases data@.len() - i,
        {
            let r = self.push(data[i]);
            if r.is_err() {
                assert(start + data@ =~= (start + data@.take(i as int)) + data@.skip(i as int));
                assert((start + data@).take(self.room()) =~= self.out@);
                return r;
            }
            i += 1;
            assert(self.out@ =~= start + data@.take(i as int));
        }
        assert(data@.take(i as int) =~= data@);
        Ok(())
    }

    /// Write all of `data` in one piece: the write is rejected as a whole
    /// when it would exceed the size limit; otherwise the destination takes
    /// as much as it holds, and a short write fails.
    pub fn write(&mut self, data: &[u8]) -> (r: Result<(), Error>)
        requires
            old(self).wf(),
        ensures
            final(self).wf(),
            final(self).size_limit == old(self).size_limit,
            final(self).capacity == old(self).capacity,
            (final(self).written(), match r {
                Ok(()) => None::<Error>,
                Err(e) => Some(e),
            }) == put(
                old(self).written(),
                data@,
                old(self).size_limit as int,
                old(self).capacity as int,
            ),
    {
        let n = self.out.len();
        if data.len() > self.size_limit - n {
            return Err(Error::FormattedStringTooLarge);
        }
        self.write_each(data)
    }

    /// Append `n` copies of byte `b`, until the room is used up.
    pub fn write_fill(&mut self, b: u8, n: usize) -> (r: Result<(), Error>)
        requires
            old(self).wf(),
        ensures
            final(self).wf(),
            final(self).size_limit == old(self).size_limit,
            final(self).capacity == old(self).capacity,
            final(self).written() == append_limited(
                old(self).written(),
                crate::text::fill(b, n as int),
                old(self).room(),
            ),
            r is Ok <==> old(self).written().len() + n <= old(self).room(),
            r is Err ==> r == Err::<(), Error>(old(self).overflow_error()),
    {
        let ghost start = self.out@;
        let ghost all = crate::text::fill(b, n as int);
        let mut i: usize = 0;
        while i < n
            invariant
                self.wf(),
                self.size_limit == old(self).size_limit,
                self.capacity == old(self).capacity,
                start == old(self).written(),
                all == crate::text::fill(b, n as int),
                i <= n,
                self.out@ == start + all.take(i as int),
            decreases n - i,
        {
            let r = self.push(b);
            if r.is_err() {
                assert(start + all =~= (start + all.take(i as int)) + all.skip(i as int));
                assert((start + all).take(self.room()) =~= self.out@);
                return r;
            }
            i += 1;
            assert(self.out@ =~= start + all.take(i as int));
        }
        assert(all.take(i as int) =~= all);
        Ok(())
    }
}

} // verus!
