//! A read cursor over a byte string.

use vstd::prelude::*;
use vstd::slice::slice_subrange;

verus! {

/// A `Cursor` reads a byte string from left to right.
#[derive(Debug)]
pub struct Cursor<'a> {
    /// The whole byte string.
    pub bytes: &'a [u8],
    /// Position of the next byte to read.
    pub pos: usize,
}

impl<'a> Cursor<'a> {
    /// The bytes not read yet.
    pub open spec fn rest(&self) -> Seq<u8> {
        self.bytes@.skip(self.pos as int)
    }

    /// Well-formedness: the position lies within the byte string.
    pub open spec fn wf(&self) -> bool {
        self.pos <= self.bytes@.len()
    }

    /// Construct a new `Cursor` at the start of `bytes`.
    pub fn new(bytes: &'a [u8]) -> (r: Self)
        ensures
            r.wf(),
            r.bytes@ == bytes@,
            r.pos == 0,
    {
        Cursor { bytes, pos: 0 }
    }

    /// Returns remaining data.
    pub fn remaining(&self) -> (r: &'a [u8])
        requires
            self.wf(),
        ensures
            r@ == self.rest(),
    {
        slice_subrange(self.bytes, self.pos, self.bytes.len())
    }

    /// The byte `k` places ahead, if any.
    pub fn peek(&self, k: usize) -> (r: Option<u8>)
        requires
            self.wf(),
        ensures
            r == if k < self.rest().len() {
                Some(self.rest()[k as int])
            } else {
                None::<u8>
            },
    {
        if k < self.bytes.len() - self.pos {
            Some(self.bytes[self.pos + k])
        } else {
            None
        }
    }

    /// Returns the next byte.
    pub fn next(&mut self) -> (r: Option<u8>)
        requires
            old(self).wf(),
        ensures
            final(self).wf(),
            final(self).bytes == old(self).bytes,
            r == if old(self).rest().len() > 0 {
                Some(old(self).rest()[0])
            } else {
                None::<u8>
            },
            final(self).pos == if r is Some {
                old(self).pos + 1
            } else {
                old(self).pos as int
            },
    {
        if self.pos < self.bytes.len() {
            let b = self.bytes[self.pos];
            self.pos = self.pos + 1;
            Some(b)
        } else {
            None
        }
    }

    /// Read bytes if the remaining data is prefixed by the provided tag.
    pub fn read_optional_tag(&mut self, tag: &[u8]) -> (r: bool)
        requires
            old(self).wf(),
        ensures
            final(self).wf(),
            final(self).bytes == old(self).bytes,
            r == (tag@.len() <= old(self).rest().len() && old(self).rest().take(
                tag@.len() as int,
            ) == tag@),
            final(self).pos == if r {
                old(self).pos + tag@.len()
            } else {
                old(self).pos as int
            },
    {
        if tag.len() > self.bytes.len() - self.pos {
            return false;
        }
        let n = self.bytes.len();
        let mut i: usize = 0;
        while i < tag.len()
            invariant
                self.wf(),
                n == self.bytes@.len(),
                tag@.len() <= self.rest().len(),
                self.rest().len() == self.bytes@.len() - self.pos,
                i <= tag@.len(),
                forall|j: int| 0 <= j < i ==> self.rest()[j] == tag@[j],
            decreases tag@.len() - i,
        {
            if self.bytes[self.pos + i] != tag[i] {
                assert(self.rest().take(tag@.len() as int)[i as int] != tag@[i as int]);
                return false;
            }
            i += 1;
        }
        assert(self.rest().take(tag@.len() as int) =~= tag@);
        self.read_exact(tag.len());
        true
    }

    /// Read digits as long as there are.
    pub fn read_while_digit(&mut self) -> (r: &'a [u8])
        requires
            old(self).wf(),
        ensures
            final(self).wf(),
            final(self).bytes == old(self).bytes,
            r@.len() == lead_len(old(self).rest(), digit_class()),
            r@ == old(self).rest().take(r@.len() as int),
            final(self).pos == old(self).pos + r@.len(),
    {
        let ghost p = digit_class();
        let start = self.pos;
        let mut i = self.pos;
        while i < self.bytes.len() && 48 <= self.bytes[i] && self.bytes[i] <= 57
            invariant
                self.wf(),
                start == self.pos,
                start <= i <= self.bytes@.len(),
                forall|j: int| start <= j < i ==> crate::text::is_digit(#[trigger] self.bytes@[j]),
            decreases self.bytes@.len() - i,
        {
            i += 1;
        }
        proof {
            lemma_lead_len_exact(self.rest(), p, (i - start) as nat);
        }
        self.read_exact(i - start)
    }

    /// Read bytes as long as they equal `b`.
    pub fn read_while_eq(&mut self, b: u8) -> (r: &'a [u8])
        requires
            old(self).wf(),
        ensures
            final(self).wf(),
            final(self).bytes == old(self).bytes,
            r@.len() == lead_len(old(self).rest(), eq_class(b)),
            r@ == old(self).rest().take(r@.len() as int),
            final(self).pos == old(self).pos + r@.len(),
    {
        let ghost p = eq_class(b);
        let start = self.pos;
        let mut i = self.pos;
        while i < self.bytes.len() && self.bytes[i] == b
            invariant
                self.wf(),
                start == self.pos,
                start <= i <= self.bytes@.len(),
                forall|j: int| start <= j < i ==> #[trigger] self.bytes@[j] == b,
            decreases self.bytes@.len() - i,
        {
            i += 1;
        }
        proof {
            lemma_lead_len_exact(self.rest(), p, (i - start) as nat);
        }
        self.read_exact(i - start)
    }

    /// Read bytes until one equals `b`.
    pub fn read_until_eq(&mut self, b: u8) -> (r: &'a [u8])
        requires
            old(self).wf(),
        ensures
            final(self).wf(),
            final(self).bytes == old(self).bytes,
            r@ == old(self).rest().take(r@.len() as int),
            final(self).pos == old(self).pos + r@.len(),
            forall|j: int| 0 <= j < r@.len() ==> r@[j] != b,
            final(self).rest().len() == 0 || final(self).rest()[0] == b,
            r@.len() == lead_len(old(self).rest(), ne_class(b)),
    {
        let start = self.pos;
        let mut i = self.pos;
        while i < self.bytes.len() && self.bytes[i] != b
            invariant
                self.wf(),
                start == self.pos,
                start <= i <= self.bytes@.len(),
                forall|j: int| start <= j < i ==> #[trigger] self.bytes@[j] != b,
            decreases self.bytes@.len() - i,
        {
            i += 1;
        }
        proof {
            lemma_lead_len_exact(self.rest(), ne_class(b), (i - start) as nat);
        }
        let r = self.read_exact(i - start);
        assert forall|j: int| 0 <= j < r@.len() implies r@[j] != b by {
            assert(r@[j] == self.bytes@[start + j]);
        }
        r
    }

    /// Read exactly `count` bytes.
    pub fn read_exact(&mut self, count: usize) -> (r: &'a [u8])
        requires
            old(self).wf(),
            count <= old(self).rest().len(),
        ensures
            final(self).wf(),
            final(self).bytes == old(self).bytes,
            r@ == old(self).rest().take(count as int),
            final(self).pos == old(self).pos + count,
    {
        let n = self.bytes.len();
        assert(self.rest().len() == n - self.pos);
        let r = slice_subrange(self.bytes, self.pos, self.pos + count);
        assert(r@ =~= self.rest().take(count as int));
        self.pos = self.pos + count;
        r
    }
}

/// The ASCII decimal digits.
pub open spec fn digit_class() -> spec_fn(u8) -> bool {
    |b: u8| crate::text::is_digit(b)
}

/// Every byte but `b`.
pub open spec fn ne_class(b: u8) -> spec_fn(u8) -> bool {
    |x: u8| x != b
}

/// The byte `b`.
pub open spec fn eq_class(b: u8) -> spec_fn(u8) -> bool {
    |x: u8| x == b
}

/// Length of the longest prefix of `s` whose bytes all satisfy `p`.
pub open spec fn lead_len(s: Seq<u8>, p: spec_fn(u8) -> bool) -> nat
    decreases s.len(),
{
    if s.len() > 0 && p(s[0]) {
        1 + lead_len(s.skip(1), p)
    } else {
        0
    }
}

/// Every byte of the prefix run satisfies `p`, and the run stops at the end
/// of `s` or at a byte that does not.
pub proof fn lemma_lead_len_prefix(s: Seq<u8>, p: spec_fn(u8) -> bool)
    ensures
        lead_len(s, p) <= s.len(),
        forall|j: int| 0 <= j < lead_len(s, p) ==> p(#[trigger] s[j]),
        lead_len(s, p) < s.len() ==> !p(s[lead_len(s, p) as int]),
    decreases s.len(),
{
    if s.len() > 0 && p(s[0]) {
        lemma_lead_len_prefix(s.skip(1), p);
        assert forall|j: int| 0 <= j < lead_len(s, p) implies p(#[trigger] s[j]) by {
            if j > 0 {
                assert(s[j] == s.skip(1)[j - 1]);
            }
        }
        if lead_len(s, p) < s.len() {
            assert(s[lead_len(s, p) as int] == s.skip(1)[lead_len(s.skip(1), p) as int]);
        }
    }
}

/// The prefix run ends where `p` first fails.
pub proof fn lemma_lead_len_exact(s: Seq<u8>, p: spec_fn(u8) -> bool, n: nat)
    requires
        n <= s.len(),
        forall|j: int| 0 <= j < n ==> p(#[trigger] s[j]),
        n == s.len() || !p(s[n as int]),
    ensures
        lead_len(s, p) == n,
    decreases n,
{
    if n > 0 {
        assert forall|j: int| 0 <= j < n - 1 implies p(#[trigger] s.skip(1)[j]) by {
            assert(s.skip(1)[j] == s[j + 1]);
        }
        lemma_lead_len_exact(s.skip(1), p, (n - 1) as nat);
    }
}

} // verus!
