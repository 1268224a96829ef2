//! Cutting an owned buffer into delimiter-separated segments by rewriting
//! delimiter occurrences into nuls in the backing storage.

use vstd::prelude::*;

use crate::model::first_index;
use crate::model::lemma_first_index_unique;
use crate::model::wf_units;
use crate::wcstring::WCString;

verus! {

/// State of a split in progress: the consumed backing buffer, whose final
/// position was overwritten with the delimiter at construction, and a cursor
/// marking how much has been handed out. Created with the method
/// [`WCString::split`].
#[derive(Debug)]
pub struct Split {
    buffer: Vec<u16>,
    offset: usize,
}

/// Take ownership of a nul-terminated buffer and prepare it for splitting on
/// `delim`: the trailing nul is overwritten with the delimiter, so the final
/// segment is found by the same scan as every other one.
pub fn new(buffer: Vec<u16>, delim: u16) -> (r: Split)
    requires
        wf_units(buffer@),
    ensures
        r.buf() == buffer@.update(buffer@.len() - 1, delim),
        r.pos() == 0,
        r.wf(),
{
    let mut buffer = buffer;
    let ghost ob = buffer@;
    let n: usize = buffer.len();
    buffer[n - 1] = delim;
    let r = Split { buffer, offset: 0 };
    proof {
        assert forall|i: int| r.pos() <= i < r.buf().len() - 1 implies r.buf()[i] != 0 by {
            assert(r.buf()[i] == ob.take(ob.len() - 1)[i]);
        }
    }
    r
}

impl Split {
    /// The backing storage.
    pub closed spec fn buf(&self) -> Seq<u16> {
        self.buffer@
    }

    /// How many leading code units have been consumed.
    pub closed spec fn pos(&self) -> int {
        self.offset as int
    }

    /// The iterator invariant. While segments remain, the final position
    /// still holds the delimiter, no delimiter occurrence is left before the
    /// cursor (each was rewritten to nul when its segment was yielded), and
    /// the unconsumed region holds no nul before the final position.
    pub open spec fn wf(&self) -> bool {
        &&& self.buf().len() >= 1
        &&& 0 <= self.pos() <= self.buf().len()
        &&& (self.pos() < self.buf().len() ==> {
            let d = self.buf().last();
            &&& (forall|i: int| 0 <= i < self.pos() ==> self.buf()[i] != d)
            &&& (forall|i: int| self.pos() <= i < self.buf().len() - 1 ==> self.buf()[i] != 0)
        })
    }

    /// Get the iterator. The split itself is the iterator state; calling
    /// [`Split::next`] on the returned value yields the segments in order.
    pub fn iter(self) -> (r: Split)
        ensures
            r == self,
    {
        self
    }

    /// Yield the next segment, or `None` when the buffer is exhausted.
    ///
    /// The buffer is scanned from its start for the first remaining
    /// occurrence of the delimiter (stored at the final position); that
    /// occurrence is rewritten to nul, and the region from the cursor up to
    /// and including the rewritten position is returned as an owned string.
    pub fn next(&mut self) -> (r: Option<WCString>)
        requires
            old(self).wf(),
        ensures
            final(self).wf(),
            match r {
                None => {
                    &&& old(self).pos() >= old(self).buf().len()
                    &&& final(self).buf() == old(self).buf()
                    &&& final(self).pos() == old(self).pos()
                },
                Some(seg) => {
                    let d = old(self).buf().last();
                    let p = first_index(old(self).buf(), d);
                    &&& old(self).pos() < old(self).buf().len()
                    &&& seg@ == old(self).buf().subrange(old(self).pos(), p).push(0u16)
                    &&& seg.wf()
                    &&& final(self).buf() == old(self).buf().update(p, 0u16)
                    &&& final(self).pos() == p + 1
                },
            },
    {
        let n: usize = self.buffer.len();
        if self.offset < n {
            let delim: u16 = *self.buffer.as_slice().last().unwrap();
            let ghost obuf = self.buffer@;
            let ghost opos = self.offset as int;
            let mut p: usize = 0;
            while *self.buffer.get(p).unwrap() != delim
                invariant
                    self.buffer@ == obuf,
                    self.offset as int == opos,
                    n == obuf.len(),
                    1 <= n,
                    opos < n,
                    obuf.last() == delim,
                    0 <= p < n,
                    forall|j: int| 0 <= j < p ==> obuf[j] != delim,
                decreases n - p,
            {
                p = p + 1;
            }
            proof {
                lemma_first_index_unique(obuf, delim, p as int);
                // The scan cannot stop before the cursor: every delimiter
                // occurrence there was already rewritten to nul.
                if opos < obuf.len() {
                    assert(obuf[p as int] == delim);
                }
                assert(opos <= p);
                // When the delimiter is nul itself, the first occurrence is
                // the final position, since the unconsumed region holds no
                // earlier nul.
                if delim == 0 && (p as int) < n - 1 {
                    assert(obuf[p as int] != 0);
                }
            }
            self.buffer[p] = 0;
            let mut seg: Vec<u16> = Vec::new();
            seg.extend_from_slice(&self.buffer.as_slice()[self.offset..p + 1]);
            proof {
                assert(seg@ =~= obuf.subrange(opos, p as int).push(0u16));
                assert(wf_units(seg@)) by {
                    assert forall|j: int| 0 <= j < seg@.len() - 1 implies #[trigger] seg@.take(
                        seg@.len() - 1,
                    )[j] != 0 by {
                        assert(seg@[j] == obuf[opos + j]);
                    }
                }
            }
            let result = WCString::from_vec_with_nul_unchecked(seg);
            self.offset = p + 1;
            proof {
                assert(self.wf()) by {
                    let nbuf = self.buffer@;
                    if p + 1 < nbuf.len() {
                        assert(nbuf.last() == obuf.last());
                        assert(delim != 0) by {
                            if delim == 0 {
                                assert(obuf[p as int] != 0);
                            }
                        }
                        assert forall|i: int| 0 <= i < p + 1 implies nbuf[i] != nbuf.last() by {
                            if i < p {
                                assert(obuf[i] != delim);
                            }
                        }
                        assert forall|i: int| p + 1 <= i < nbuf.len() - 1 implies nbuf[i] != 0 by {
                            assert(nbuf[i] == obuf[i]);
                        }
                    }
                }
            }
            Some(result)
        } else {
            None
        }
    }
}

} // verus!
