//! The string handle: validated UTF-8 bytes plus an ownership tag.
//!
//! A handle either borrows a caller-held buffer, which it never releases, or
//! owns a buffer that it allocated itself. An owned buffer always ends with a
//! zero byte right after the content, for consumers that expect C strings.
//!
//! The free functions at the end are the operations in the flat form that a
//! foreign caller sees: construct, release, raw access, byte length,
//! character count and concatenation.

use vstd::array::array_as_slice;
use vstd::prelude::*;
use vstd::slice::slice_subrange;
use vstd::string::StringSliceAdditionalSpecFns;
use vstd::utf8::*;

use crate::utf8::{count_scalars, is_valid_utf8};

verus! {

/// Where the bytes of a handle live.
enum Buffer<'a> {
    /// Memory of the caller, which outlives the handle.
    Borrowed(&'a [u8]),
    /// Memory allocated by the handle, released with it.
    Owned(Vec<u8>),
}

/// A UTF-8 string handle with explicit ownership of its buffer.
pub struct Ustr<'a> {
    chars: Buffer<'a>,
    /// Length of the content in bytes, not counting a trailing zero byte.
    lenb: usize,
}

impl<'a> View for Ustr<'a> {
    type V = Seq<u8>;

    /// The content: the first `lenb` bytes of the buffer.
    closed spec fn view(&self) -> Seq<u8> {
        self.raw().subrange(0, self.lenb as int)
    }
}

impl<'a> Ustr<'a> {
    /// Every byte of the buffer the handle points at, a trailing zero byte
    /// included where there is one.
    pub closed spec fn raw(&self) -> Seq<u8> {
        match self.chars {
            Buffer::Borrowed(s) => s@,
            Buffer::Owned(v) => v@,
        }
    }

    /// Whether releasing the handle releases its buffer.
    pub closed spec fn spec_owns_data(&self) -> bool {
        self.chars is Owned
    }

    /// Whether releasing the handle releases its buffer.
    #[verifier::when_used_as_spec(spec_owns_data)]
    pub fn owns_data(&self) -> (r: bool)
        ensures
            r == self.spec_owns_data(),
    {
        match self.chars {
            Buffer::Borrowed(_) => false,
            Buffer::Owned(_) => true,
        }
    }

    #[verifier::type_invariant]
    closed spec fn wf(&self) -> bool {
        &&& self.lenb <= self.raw().len()
        &&& valid_utf8(self.raw().subrange(0, self.lenb as int))
        &&& self.owns_data() ==> self.raw().len() == self.lenb + 1 && self.raw()[self.lenb as int]
            == 0
    }

    /// Wraps the first `lenb` bytes of `chars` without copying them. Bytes
    /// that are not valid UTF-8 give the empty handle instead.
    pub fn new(chars: &'a [u8], lenb: usize) -> (r: Self)
        requires
            lenb <= chars@.len(),
        ensures
            !r.owns_data(),
            valid_utf8(chars@.subrange(0, lenb as int)) ==> r@ == chars@.subrange(0, lenb as int)
                && r.raw() == chars@,
            !valid_utf8(chars@.subrange(0, lenb as int)) ==> r@.len() == 0 && r.raw() == seq![0u8],
    {
        if is_valid_utf8(chars, lenb) {
            Ustr { chars: Buffer::Borrowed(chars), lenb }
        } else {
            let empty: &'static [u8] = array_as_slice(&[0u8]);
            Ustr { chars: Buffer::Borrowed(empty), lenb: 0 }
        }
    }

    /// An owned handle holding a copy of the bytes of `s`.
    pub fn from_string(s: String) -> (r: Ustr<'static>)
        ensures
            r.owns_data(),
            r@ == encode_utf8(s@),
    {
        let bytes = s.as_str().as_bytes();
        let mut v: Vec<u8> = Vec::new();
        push_all(&mut v, bytes);
        v.push(0);
        let lenb = bytes.len();
        proof {
            encode_utf8_valid_utf8(s@);
            assert(v@.subrange(0, lenb as int) =~= bytes@);
        }
        Ustr { chars: Buffer::Owned(v), lenb }
    }

    /// The content bytes, without any trailing zero byte.
    pub fn as_bytes(&self) -> (r: &[u8])
        ensures
            r@ == self@,
            valid_utf8(r@),
    {
        proof {
            use_type_invariant(self);
        }
        match &self.chars {
            Buffer::Borrowed(s) => slice_subrange(s, 0, self.lenb),
            Buffer::Owned(v) => slice_subrange(v.as_slice(), 0, self.lenb),
        }
    }

    /// An owned handle whose content is that of `self` followed by that of
    /// `other`, in a fresh buffer that ends with a zero byte.
    pub fn cat(&self, other: &Ustr) -> (r: Ustr<'static>)
        ensures
            r.owns_data(),
            r@ == self@ + other@,
    {
        proof {
            use_type_invariant(self);
            use_type_invariant(other);
        }
        let mut v: Vec<u8> = Vec::new();
        push_all(&mut v, self.as_bytes());
        push_all(&mut v, other.as_bytes());
        v.push(0);
        let lenb: usize = v.len() - 1;
        proof {
            valid_utf8_concat(self@, other@);
            assert(v@.subrange(0, lenb as int) =~= self@ + other@);
        }
        Ustr { chars: Buffer::Owned(v), lenb }
    }

    /// The content as a string slice.
    pub fn as_str(&self) -> (r: &str)
        ensures
            r.spec_bytes() == self@,
            r@ == decode_utf8(self@),
    {
        proof {
            use_type_invariant(self);
        }
        match str_from_utf8(self.as_bytes()) {
            Some(s) => {
                proof {
                    encode_utf8_decode_utf8(s@);
                }
                s
            },
            None => "",
        }
    }

    /// The content as an owned `String`; the handle is consumed.
    pub fn to_string(self) -> (r: String)
        ensures
            r@ == decode_utf8(self@),
    {
        self.as_str().to_owned()
    }

    /// Length of the content in bytes.
    pub fn len(&self) -> (r: usize)
        ensures
            r == self@.len(),
    {
        proof {
            use_type_invariant(self);
        }
        self.lenb
    }

    /// Whether the content is empty.
    pub fn is_empty(&self) -> (r: bool)
        ensures
            r == (self@.len() == 0),
    {
        proof {
            use_type_invariant(self);
        }
        self.lenb == 0
    }
}

/// Creates a handle over the first `lenb` bytes of `chars`, borrowing them.
///
/// If those bytes are not valid UTF-8 the handle is empty and points at a
/// static buffer holding a single zero byte, whatever `lenb` was.
pub fn ustr_new<'a>(chars: &'a [u8], lenb: usize) -> (r: Ustr<'a>)
    requires
        lenb <= chars@.len(),
    ensures
        !r.owns_data(),
        valid_utf8(chars@.subrange(0, lenb as int)) ==> r@ == chars@.subrange(0, lenb as int)
            && r.raw() == chars@,
        !valid_utf8(chars@.subrange(0, lenb as int)) ==> r@.len() == 0 && r.raw() == seq![0u8],
{
    Ustr::new(chars, lenb)
}

/// Releases a handle. An owned buffer is freed; a borrowed one is left to
/// its caller, untouched.
pub fn ustr_free(ustr: Ustr) {
    match ustr.chars {
        // the buffer was allocated by this handle and is dropped here
        Buffer::Owned(_buf) => {},
        // the caller's memory is only borrowed; nothing is freed
        Buffer::Borrowed(_) => {},
    }
}

/// The buffer the handle points at. Its first bytes are the content; an
/// owned handle's buffer has one zero byte after them.
pub fn ustr_chars<'b>(ustr: &'b Ustr) -> (r: &'b [u8])
    ensures
        r@ == ustr.raw(),
        ustr@.len() <= r@.len(),
        r@.subrange(0, ustr@.len() as int) == ustr@,
        ustr.owns_data() ==> r@.len() == ustr@.len() + 1 && r@[ustr@.len() as int] == 0,
{
    proof {
        use_type_invariant(ustr);
    }
    match &ustr.chars {
        Buffer::Borrowed(s) => s,
        Buffer::Owned(v) => v.as_slice(),
    }
}

/// Length of the content in bytes.
pub fn ustr_lenb(ustr: &Ustr) -> (r: usize)
    ensures
        r == ustr@.len(),
{
    ustr.len()
}

/// Number of Unicode scalar values in the content.
pub fn ustr_lenc(ustr: &Ustr) -> (r: usize)
    ensures
        r == decode_utf8(ustr@).len(),
{
    let b = ustr.as_bytes();
    proof {
        assert(b@.subrange(0, b@.len() as int) =~= b@);
    }
    count_scalars(b, b.len())
}

/// Concatenates two handles into a new owned one; neither is consumed.
pub fn ustr_cat(ustr1: &Ustr, ustr2: &Ustr) -> (r: Ustr<'static>)
    ensures
        r.owns_data(),
        r@ == ustr1@ + ustr2@,
{
    ustr1.cat(ustr2)
}

/// Concatenation is associative on content: with `ab_c` the join of `a`
/// and `b` joined with `c`, and `a_bc` the join of `a` with the join of `b`
/// and `c`, both hold the same bytes (in distinct buffers).
pub proof fn lemma_cat_associative(
    a: &Ustr,
    b: &Ustr,
    c: &Ustr,
    ab: &Ustr,
    ab_c: &Ustr,
    bc: &Ustr,
    a_bc: &Ustr,
)
    requires
        ab@ == a@ + b@,
        ab_c@ == ab@ + c@,
        bc@ == b@ + c@,
        a_bc@ == a@ + bc@,
    ensures
        ab_c@ == a_bc@,
{
    assert((a@ + b@) + c@ =~= a@ + (b@ + c@));
}

/// Relies on std::str::from_utf8: it succeeds exactly when the bytes are
/// valid UTF-8, and the string it returns is made of those same bytes.
#[verifier::external_body]
fn str_from_utf8(b: &[u8]) -> (r: Option<&str>)
    ensures
        r is Some <==> valid_utf8(b@),
        r matches Some(s) ==> s.spec_bytes() == b@,
{
    std::str::from_utf8(b).ok()
}

/// Appends the bytes of `b` to `v`.
fn push_all(v: &mut Vec<u8>, b: &[u8])
    ensures
        final(v)@ == old(v)@ + b@,
{
    let mut i: usize = 0;
    while i < b.len()
        invariant
            i <= b@.len(),
            v@ == old(v)@ + b@.subrange(0, i as int),
        decreases b@.len() - i,
    {
        v.push(b[i]);
        i = i + 1;
        assert(v@ =~= old(v)@ + b@.subrange(0, i as int));
    }
    assert(b@.subrange(0, i as int) =~= b@);
}

} // verus!
