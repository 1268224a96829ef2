//! The owned buffer: an exclusively owned, growable sequence of 16-bit code
//! units keeping a single trailing nul and no interior nul.

use vstd::prelude::*;

use crate::error::no_nul;
use crate::error::nul;
use crate::error::NoNulError;
use crate::error::NulError;
use crate::model::first_index;
use crate::model::has_value;
use crate::model::lemma_first_index_unique;
use crate::model::nul_free;
use crate::model::wf_units;
use crate::render::debug_render;
use crate::split::Split;
use crate::utf16::encode_utf16;
use crate::utf16::encode_wide;
use crate::wcstr::WCStr;

verus! {

/// A type representing an owned "wide" string: a growable buffer whose
/// storage is always a nul-free run of code units followed by exactly one
/// trailing nul.
#[derive(Clone, PartialEq, Eq, PartialOrd, Ord, Hash, Debug)]
pub struct WCString {
    inner: Vec<u16>,
}

impl View for WCString {
    type V = Seq<u16>;

    closed spec fn view(&self) -> Seq<u16> {
        self.inner@
    }
}

impl WCString {
    /// The view is well formed: a nul-free run followed by one trailing nul.
    pub open spec fn wf(self) -> bool {
        wf_units(self@)
    }

    /// The code units of the string, without the trailing nul.
    pub open spec fn payload(self) -> Seq<u16> {
        self@.take(self@.len() - 1)
    }

    /// Create an empty `WCString`, containing only the trailing nul.
    pub fn new() -> (r: WCString)
        ensures
            r@ == seq![0u16],
            r.wf(),
    {
        let mut v: Vec<u16> = Vec::new();
        v.push(0);
        let r = WCString { inner: v };
        proof {
            assert(r@ =~= seq![0u16]);
            assert(nul_free(r@.take(r@.len() - 1)));
        }
        r
    }

    /// Create a `WCString` from a vector of code units, forbidding nul.
    ///
    /// The whole vector is scanned; if any nul is found, a [`NulError`]
    /// reporting the offset of the first one and returning the vector to the
    /// caller comes back. Otherwise a trailing nul is appended and the
    /// vector becomes the buffer.
    pub fn from_vec(v: Vec<u16>) -> (r: Result<WCString, NulError>)
        ensures
            match r {
                Ok(s) => {
                    &&& nul_free(v@)
                    &&& s@ == v@.push(0u16)
                    &&& s.wf()
                },
                Err(e) => {
                    &&& has_value(v@, 0)
                    &&& e.spec_position() == first_index(v@, 0)
                    &&& e.spec_units() == Some(v@)
                },
            },
    {
        let n: usize = v.len();
        let mut i: usize = 0;
        while i < n
            invariant
                i <= n,
                n == v@.len(),
                forall|j: int| 0 <= j < i ==> v@[j] != 0,
            decreases n - i,
        {
            if *v.get(i).unwrap() == 0 {
                proof {
                    lemma_first_index_unique(v@, 0, i as int);
                }
                return Err(nul(i, Some(v)));
            }
            i = i + 1;
        }
        Ok(WCString::from_vec_unchecked(v))
    }

    /// Create a `WCString` from a vector that must already contain a nul.
    ///
    /// The vector is scanned for its first nul and truncated immediately
    /// after it, discarding anything past it. If no nul is present anywhere,
    /// a [`NoNulError`] returning the vector to the caller comes back.
    pub fn from_vec_with_nul(u16s: Vec<u16>) -> (r: Result<WCString, NoNulError>)
        ensures
            match r {
                Ok(s) => {
                    &&& has_value(u16s@, 0)
                    &&& s@ == u16s@.take(first_index(u16s@, 0) + 1)
                    &&& s.wf()
                },
                Err(e) => {
                    &&& !has_value(u16s@, 0)
                    &&& e.spec_units() == Some(u16s@)
                },
            },
    {
        let mut v = u16s;
        let n: usize = v.len();
        let mut i: usize = 0;
        while i < n
            invariant
                i <= n,
                n == v@.len(),
                v@ == u16s@,
                forall|j: int| 0 <= j < i ==> v@[j] != 0,
            decreases n - i,
        {
            if *v.get(i).unwrap() == 0 {
                proof {
                    lemma_first_index_unique(v@, 0, i as int);
                }
                v.truncate(i + 1);
                proof {
                    assert(wf_units(v@)) by {
                        assert(v@.last() == u16s@[i as int]);
                        assert(v@.take(v@.len() - 1) =~= u16s@.take(i as int));
                    }
                }
                return Ok(WCString::from_vec_with_nul_unchecked(v));
            }
            i = i + 1;
        }
        Err(no_nul(Some(v)))
    }

    /// Create a `WCString` from a vector of code units that the caller
    /// guarantees to be nul-free; a trailing nul is appended.
    pub fn from_vec_unchecked(v: Vec<u16>) -> (r: WCString)
        requires
            nul_free(v@),
        ensures
            r@ == v@.push(0u16),
            r.wf(),
    {
        let mut v = v;
        v.push(0);
        let r = WCString { inner: v };
        proof {
            assert(r@.take(r@.len() - 1) =~= r@.subrange(0, r@.len() - 1));
        }
        r
    }

    /// Create a `WCString` from a vector that the caller guarantees to end
    /// in exactly one nul with none before it.
    pub fn from_vec_with_nul_unchecked(v: Vec<u16>) -> (r: WCString)
        requires
            wf_units(v@),
        ensures
            r@ == v@,
            r.wf(),
    {
        WCString { inner: v }
    }

    /// Consume the string, returning the buffer without the trailing nul.
    pub fn into_vec(self) -> (r: Vec<u16>)
        requires
            self.wf(),
        ensures
            r@ == self.payload(),
            nul_free(r@),
    {
        let mut v = self.inner;
        let _nul = v.pop();
        proof {
            assert(v@ =~= self.payload());
        }
        v
    }

    /// Consume the string, returning the full buffer, trailing nul included.
    pub fn into_vec_with_nul(self) -> (r: Vec<u16>)
        ensures
            r@ == self@,
    {
        self.inner
    }

    /// The code units without the trailing nul.
    pub fn as_slice(&self) -> (r: &[u16])
        requires
            self.wf(),
        ensures
            r@ == self.payload(),
    {
        let n: usize = self.inner.len();
        &self.inner.as_slice()[0..n - 1]
    }

    /// The full stored region, trailing nul included.
    pub fn as_slice_with_nul(&self) -> (r: &[u16])
        ensures
            r@ == self@,
    {
        self.inner.as_slice()
    }

    /// Borrow this string as a [`WCStr`] view over the same storage.
    pub fn as_wcstr(&self) -> (r: WCStr<'_>)
        ensures
            r@ == self@,
    {
        WCStr::from_units(self.inner.as_slice())
    }

    /// Length of the string in code units, excluding the trailing nul.
    pub fn len(&self) -> (r: usize)
        requires
            self.wf(),
        ensures
            r == self.payload().len(),
    {
        self.inner.len() - 1
    }

    /// Append a [`WCStr`]: the trailing nul is removed, and the view's full
    /// stored region, its own trailing nul included, is appended. This
    /// always succeeds, since the view already satisfies the invariant.
    pub fn push(&mut self, s: &WCStr<'_>)
        requires
            old(self).wf(),
            s.wf(),
        ensures
            final(self)@ == old(self).payload() + s@,
            final(self).wf(),
    {
        let _nul = self.inner.pop();
        self.inner.extend_from_slice(s.to_slice_with_nul());
        proof {
            assert(self.inner@ =~= old(self).payload() + s@);
            assert(wf_units(self.inner@)) by {
                let u = self.inner@;
                assert(u.last() == s@.last());
                assert forall|j: int| 0 <= j < u.len() - 1 implies #[trigger] u.take(u.len() - 1)[j] != 0 by {
                    if j < old(self).payload().len() {
                        assert(u[j] == old(self).payload()[j]);
                    } else {
                        assert(u[j] == s.payload()[j - old(self).payload().len()]);
                    }
                }
            }
        }
    }

    /// Append a slice of code units, forbidding nul.
    ///
    /// The slice is scanned first; if any nul is found, a [`NulError`]
    /// reporting the offset of the first one comes back and the buffer is
    /// left unchanged. Otherwise the whole slice is appended before the
    /// trailing nul.
    pub fn push_slice(&mut self, s: &[u16]) -> (r: Result<(), NulError>)
        requires
            old(self).wf(),
        ensures
            match r {
                Ok(()) => {
                    &&& nul_free(s@)
                    &&& final(self)@ == old(self).payload() + s@ + seq![0u16]
                    &&& final(self).wf()
                },
                Err(e) => {
                    &&& has_value(s@, 0)
                    &&& final(self)@ == old(self)@
                    &&& e.spec_position() == first_index(s@, 0)
                    &&& e.spec_units() is None
                },
            },
    {
        let n: usize = s.len();
        let mut i: usize = 0;
        while i < n
            invariant
                i <= n,
                n == s@.len(),
                forall|j: int| 0 <= j < i ==> s@[j] != 0,
            decreases n - i,
        {
            if s[i] == 0 {
                proof {
                    lemma_first_index_unique(s@, 0, i as int);
                }
                return Err(nul(i, None));
            }
            i = i + 1;
        }
        let _nul = self.inner.pop();
        self.inner.extend_from_slice(s);
        self.inner.push(0);
        proof {
            assert(self.inner@ =~= old(self).payload() + s@ + seq![0u16]);
            assert(wf_units(self.inner@)) by {
                let u = self.inner@;
                assert forall|j: int| 0 <= j < u.len() - 1 implies #[trigger] u.take(u.len() - 1)[j] != 0 by {
                    if j < old(self).payload().len() {
                        assert(u[j] == old(self).payload()[j]);
                    } else {
                        assert(u[j] == s@[j - old(self).payload().len()]);
                    }
                }
            }
        }
        Ok(())
    }

    /// Append a slice of code units that must contain a nul.
    ///
    /// The slice is scanned for its first nul; everything up to and
    /// including it is appended and the remainder is discarded. If no nul is
    /// present, a [`NoNulError`] comes back and the buffer is left
    /// unchanged.
    pub fn push_slice_with_nul(&mut self, s: &[u16]) -> (r: Result<(), NoNulError>)
        requires
            old(self).wf(),
        ensures
            match r {
                Ok(()) => {
                    &&& has_value(s@, 0)
                    &&& final(self)@ == old(self).payload() + s@.take(first_index(s@, 0) + 1)
                    &&& final(self).wf()
                },
                Err(e) => {
                    &&& !has_value(s@, 0)
                    &&& final(self)@ == old(self)@
                    &&& e.spec_units() is None
                },
            },
    {
        let n: usize = s.len();
        let mut i: usize = 0;
        while i < n
            invariant
                self@ == old(self)@,
                old(self).wf(),
                i <= n,
                n == s@.len(),
                forall|j: int| 0 <= j < i ==> s@[j] != 0,
            decreases n - i,
        {
            if s[i] == 0 {
                proof {
                    lemma_first_index_unique(s@, 0, i as int);
                }
                let _nul = self.inner.pop();
                self.inner.extend_from_slice(&s[0..i + 1]);
                proof {
                    assert(self.inner@ =~= old(self).payload() + s@.take(i + 1));
                    assert(wf_units(self.inner@)) by {
                        let u = self.inner@;
                        assert(u.last() == s@[i as int]);
                        assert forall|j: int| 0 <= j < u.len() - 1 implies #[trigger] u.take(u.len() - 1)[j]
                            != 0 by {
                            if j < old(self).payload().len() {
                                assert(u[j] == old(self).payload()[j]);
                            } else {
                                assert(u[j] == s@[j - old(self).payload().len()]);
                            }
                        }
                    }
                }
                return Ok(());
            }
            i = i + 1;
        }
        Err(no_nul(None))
    }

    /// Create a `WCString` by encoding text to UTF-16, forbidding nul.
    ///
    /// The encoded units are scanned; if any nul is found, a [`NulError`]
    /// reporting the offset of the first one within the encoded units and
    /// carrying them comes back.
    pub fn from_str(s: &str) -> (r: Result<WCString, NulError>)
        ensures
            match r {
                Ok(b) => {
                    &&& nul_free(encode_utf16(s@))
                    &&& b@ == encode_utf16(s@).push(0u16)
                    &&& b.wf()
                },
                Err(e) => {
                    &&& has_value(encode_utf16(s@), 0)
                    &&& e.spec_position() == first_index(encode_utf16(s@), 0)
                    &&& e.spec_units() == Some(encode_utf16(s@))
                },
            },
    {
        WCString::from_vec(encode_wide(s))
    }

    /// Create a `WCString` by encoding text to UTF-16, requiring a nul.
    ///
    /// The encoded units are truncated immediately after their first nul; if
    /// none is present, a [`NoNulError`] carrying the encoded units comes
    /// back.
    pub fn from_str_with_nul(s: &str) -> (r: Result<WCString, NoNulError>)
        ensures
            match r {
                Ok(b) => {
                    &&& has_value(encode_utf16(s@), 0)
                    &&& b@ == encode_utf16(s@).take(first_index(encode_utf16(s@), 0) + 1)
                    &&& b.wf()
                },
                Err(e) => {
                    &&& !has_value(encode_utf16(s@), 0)
                    &&& e.spec_units() == Some(encode_utf16(s@))
                },
            },
    {
        WCString::from_vec_with_nul(encode_wide(s))
    }

    /// Append the UTF-16 encoding of the text, forbidding nul.
    ///
    /// If the encoded units contain a nul, a [`NulError`] reporting its
    /// offset within the encoded units comes back and the buffer is left
    /// unchanged; nothing of a failed append is ever observable.
    pub fn push_str(&mut self, s: &str) -> (r: Result<(), NulError>)
        requires
            old(self).wf(),
        ensures
            match r {
                Ok(()) => {
                    &&& nul_free(encode_utf16(s@))
                    &&& final(self)@ == old(self).payload() + encode_utf16(s@) + seq![0u16]
                    &&& final(self).wf()
                },
                Err(e) => {
                    &&& has_value(encode_utf16(s@), 0)
                    &&& final(self)@ == old(self)@
                    &&& e.spec_position() == first_index(encode_utf16(s@), 0)
                    &&& e.spec_units() is None
                },
            },
    {
        let enc = encode_wide(s);
        self.push_slice(enc.as_slice())
    }

    /// Append the UTF-16 encoding of the text, requiring a nul.
    ///
    /// Everything up to and including the first nul of the encoded units is
    /// appended and the remainder is discarded. If the encoded units hold no
    /// nul, a [`NoNulError`] comes back and the buffer is left unchanged.
    pub fn push_str_with_nul(&mut self, s: &str) -> (r: Result<(), NoNulError>)
        requires
            old(self).wf(),
        ensures
            match r {
                Ok(()) => {
                    &&& has_value(encode_utf16(s@), 0)
                    &&& final(self)@ == old(self).payload() + encode_utf16(s@).take(
                        first_index(encode_utf16(s@), 0) + 1,
                    )
                    &&& final(self).wf()
                },
                Err(e) => {
                    &&& !has_value(encode_utf16(s@), 0)
                    &&& final(self)@ == old(self)@
                    &&& e.spec_units() is None
                },
            },
    {
        let enc = encode_wide(s);
        self.push_slice_with_nul(enc.as_slice())
    }

    /// The quoted, escaped rendering of this string's payload, as the
    /// borrowed view renders it.
    pub fn to_debug_string(&self) -> (r: String)
        requires
            self.wf(),
        ensures
            r@ == seq!['"'] + debug_render(self.payload()) + seq!['"'],
    {
        self.as_wcstr().to_debug_string()
    }

    /// Consume the string and split it into segments separated by
    /// `delimiter`: the trailing nul is overwritten with the delimiter, and
    /// the returned [`Split`] yields one owned string per segment.
    pub fn split(self, delimiter: u16) -> (r: Split)
        requires
            self.wf(),
        ensures
            r.buf() == self@.update(self@.len() - 1, delimiter),
            r.pos() == 0,
            r.wf(),
    {
        crate::split::new(self.into_vec_with_nul(), delimiter)
    }
}

} // verus!
