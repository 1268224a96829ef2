//! The borrowed view: a read-only reference to a nul-terminated run of
//! 16-bit code units.

use vstd::prelude::*;

use crate::error::no_nul;
use crate::error::NoNulError;
use crate::model::first_index;
use crate::model::has_value;
use crate::model::is_prefix;
use crate::model::lemma_first_index_unique;
use crate::model::wf_units;
use crate::render::debug_render;
use crate::render::render_quoted;
use crate::utf16::decode_units;
use crate::utf16::decode_units_lossy;
use crate::utf16::decode_utf16_lossy;
use crate::utf16::encode_utf16;
use crate::utf16::encode_wide;
use crate::utf16::is_valid_utf16;
use crate::wcstring::WCString;

verus! {

/// Representation of a borrowed "wide" string: a reference to a region of
/// 16-bit code units whose last element is nul and whose earlier elements are
/// all non-nul.
#[derive(Clone, Copy, PartialEq, Eq, PartialOrd, Ord, Hash, Debug)]
pub struct WCStr<'a> {
    inner: &'a [u16],
}

impl<'a> View for WCStr<'a> {
    type V = Seq<u16>;

    closed spec fn view(&self) -> Seq<u16> {
        self.inner@
    }
}

impl<'a> WCStr<'a> {
    /// The view is well formed: a nul-free run followed by one trailing nul.
    pub open spec fn wf(self) -> bool {
        wf_units(self@)
    }

    /// The code units of the string, without the trailing nul.
    pub open spec fn payload(self) -> Seq<u16> {
        self@.take(self@.len() - 1)
    }

    /// Wrap a region of code units without scanning it; the callers track
    /// well-formedness through their own contracts.
    pub(crate) fn from_units(inner: &'a [u16]) -> (r: WCStr<'a>)
        ensures
            r@ == inner@,
    {
        WCStr { inner }
    }

    /// Create a `WCStr` from a slice of code units.
    ///
    /// The slice is scanned for nul; the first nul found terminates the
    /// string, and the view covers the units up to and including it. If no
    /// nul is found anywhere in the slice, a [`NoNulError`] carrying no
    /// buffer is returned.
    pub fn from_slice_with_nul(slice: &'a [u16]) -> (r: Result<WCStr<'a>, NoNulError>)
        ensures
            match r {
                Ok(w) => {
                    &&& has_value(slice@, 0)
                    &&& w@ == slice@.take(first_index(slice@, 0) + 1)
                    &&& w.wf()
                },
                Err(e) => {
                    &&& !has_value(slice@, 0)
                    &&& e.spec_units() is None
                },
            },
    {
        let n: usize = slice.len();
        let mut i: usize = 0;
        while i < n
            invariant
                i <= n,
                n == slice@.len(),
                forall|j: int| 0 <= j < i ==> slice@[j] != 0,
            decreases n - i,
        {
            if slice[i] == 0 {
                proof {
                    lemma_first_index_unique(slice@, 0, i as int);
                }
                let w = WCStr { inner: &slice[0..i + 1] };
                proof {
                    assert(w@.take(w@.len() - 1) =~= slice@.take(i as int));
                }
                return Ok(w);
            }
            i = i + 1;
        }
        Err(no_nul(None))
    }

    /// Length of the string in code units, excluding the trailing nul.
    pub fn len(&self) -> (r: usize)
        requires
            self.wf(),
        ensures
            r == self.payload().len(),
    {
        self.inner.len() - 1
    }

    /// The code units without the trailing nul.
    pub fn to_slice(&self) -> (r: &'a [u16])
        requires
            self.wf(),
        ensures
            r@ == self.payload(),
    {
        let n: usize = self.inner.len();
        &self.inner[0..n - 1]
    }

    /// The full stored region, trailing nul included.
    pub fn to_slice_with_nul(&self) -> (r: &'a [u16])
        ensures
            r@ == self@,
    {
        self.inner
    }

    /// Whether this string starts with the other string's code units.
    ///
    /// Returns false immediately when the candidate prefix is longer than
    /// this string; otherwise compares code units pairwise, excluding the
    /// trailing nuls.
    pub fn starts_with(&self, s: &WCStr<'_>) -> (r: bool)
        requires
            self.wf(),
            s.wf(),
        ensures
            r == is_prefix(s.payload(), self.payload()),
    {
        let plen: usize = s.inner.len() - 1;
        let tlen: usize = self.inner.len() - 1;
        if plen > tlen {
            return false;
        }
        let mut i: usize = 0;
        while i < plen
            invariant
                self.wf(),
                s.wf(),
                i <= plen,
                plen == s.payload().len(),
                tlen == self.payload().len(),
                plen <= tlen,
                forall|j: int| 0 <= j < i ==> s.payload()[j] == self.payload()[j],
            decreases plen - i,
        {
            if self.inner[i] != s.inner[i] {
                proof {
                    assert(s.payload()[i as int] != self.payload()[i as int]);
                    assert(self.payload().take(plen as int)[i as int] == self.payload()[
                        i as int
                    ]);
                }
                return false;
            }
            i = i + 1;
        }
        proof {
            assert(s.payload() =~= self.payload().take(plen as int));
        }
        true
    }

    /// Whether this string starts with the UTF-16 encoding of the given
    /// text. The text is encoded on the fly and compared unit by unit; the
    /// comparison fails as soon as units differ or this string is exhausted.
    pub fn starts_with_str(&self, s: &str) -> (r: bool)
        requires
            self.wf(),
        ensures
            r == is_prefix(encode_utf16(s@), self.payload()),
    {
        let enc = encode_wide(s);
        let plen: usize = enc.len();
        let tlen: usize = self.inner.len() - 1;
        if plen > tlen {
            return false;
        }
        let mut i: usize = 0;
        while i < plen
            invariant
                self.wf(),
                enc@ == encode_utf16(s@),
                i <= plen,
                plen == enc@.len(),
                tlen == self.payload().len(),
                plen <= tlen,
                forall|j: int| 0 <= j < i ==> enc@[j] == self.payload()[j],
            decreases plen - i,
        {
            if self.inner[i] != enc[i] {
                proof {
                    assert(enc@[i as int] != self.payload()[i as int]);
                    assert(self.payload().take(plen as int)[i as int] == self.payload()[
                        i as int
                    ]);
                }
                return false;
            }
            i = i + 1;
        }
        proof {
            assert(enc@ =~= self.payload().take(plen as int));
        }
        true
    }

    /// Convert this "wide" string to a `String`, strictly: the conversion
    /// fails exactly when the payload is not valid UTF-16.
    pub fn to_string(&self) -> (r: Result<String, std::string::FromUtf16Error>)
        requires
            self.wf(),
        ensures
            r is Ok <==> is_valid_utf16(self.payload()),
            r matches Ok(t) ==> t@ == decode_utf16_lossy(self.payload()),
    {
        decode_units(self.to_slice())
    }

    /// Convert this "wide" string to a `String`, replacing each unpaired
    /// surrogate with the replacement character. This never fails.
    pub fn to_string_lossy(&self) -> (r: String)
        requires
            self.wf(),
        ensures
            r@ == decode_utf16_lossy(self.payload()),
    {
        decode_units_lossy(self.to_slice())
    }

    /// The quoted, escaped rendering of this string's payload. Printable
    /// code points render via the standard escape rules; code units in the
    /// surrogate range, paired or lone, render literally as a hex escape and
    /// are never decoded.
    pub fn to_debug_string(&self) -> (r: String)
        requires
            self.wf(),
        ensures
            r@ == seq!['"'] + debug_render(self.payload()) + seq!['"'],
    {
        render_quoted(self.to_slice())
    }

    /// Copy the entire stored region, trailing nul included, into an owned
    /// [`WCString`].
    pub fn to_owned(&self) -> (r: WCString)
        requires
            self.wf(),
        ensures
            r@ == self@,
            r.wf(),
    {
        let mut v: Vec<u16> = Vec::new();
        v.extend_from_slice(self.inner);
        proof {
            assert(v@ =~= self@);
        }
        WCString::from_vec_with_nul_unchecked(v)
    }
}

} // verus!
