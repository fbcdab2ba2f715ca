//! A bounds-checked cursor that hands out fixed-layout, self-describing
//! records from a byte span, one at a time. Records are decoded byte by
//! byte, so the span's start needs no particular alignment; within the span
//! the cursor moves in steps rounded up to four bytes, as netlink aligns its
//! records.
use crate::wire::{align4, align4_exec};
use vstd::prelude::*;

verus! {

/// Spans at or above this many bytes are refused, which keeps every offset
/// computed by the cursor far from overflow.
pub const MAX_SPAN: usize = 0x100000;

/// A fixed-layout record that any byte pattern of its size decodes to, and
/// that declares its own total length (its header plus what follows it).
pub trait FromBuffer: Sized {
    /// Number of bytes of the fixed layout.
    spec fn spec_size() -> nat;

    /// The record that the bytes `b` (exactly `spec_size()` of them) hold.
    spec fn spec_decode(b: Seq<u8>) -> Self;

    /// The total length the record declares, `total` bytes being left in
    /// the span it was read from.
    spec fn spec_len(&self, total: nat) -> nat;

    fn size() -> (r: usize)
        ensures
            r == Self::spec_size(),
            0 < r < 1024,
    ;

    fn decode(b: &[u8], start: usize) -> (r: Self)
        requires
            start + Self::spec_size() <= b@.len(),
        ensures
            r == Self::spec_decode(b@.subrange(start as int, start + Self::spec_size())),
    ;

    fn len(&self, total: usize) -> (r: u32)
        requires
            total < MAX_SPAN,
        ensures
            r == self.spec_len(total as nat),
    ;
}

/// What reading a `T` from the bytes `data` gives: the record, the bytes
/// that follow its header up to its declared length, and the bytes left
/// after it, the advance being rounded up to a multiple of four (and cut at
/// the end of the span). `None` when fewer bytes than the header are left,
/// or when the declared length is shorter than the header or longer than
/// what is left.
pub open spec fn read_spec<T: FromBuffer>(data: Seq<u8>) -> Option<(T, Seq<u8>, Seq<u8>)> {
    let size = align4(T::spec_size() as int);
    if data.len() < size {
        None
    } else {
        let rec = T::spec_decode(data.subrange(0, T::spec_size() as int));
        let len = rec.spec_len(data.len()) as int;
        if len < size || len > data.len() {
            None
        } else {
            let advance = if align4(len) > data.len() {
                data.len() as int
            } else {
                align4(len)
            };
            Some((rec, data.subrange(size, len), data.subrange(advance, data.len() as int)))
        }
    }
}

/// A cursor over the bytes `data[pos..end]`.
#[derive(Clone, Copy, Debug)]
pub struct U32AlignedBuffer<'a> {
    data: &'a [u8],
    pos: usize,
    end: usize,
}

impl<'a> View for U32AlignedBuffer<'a> {
    type V = Seq<u8>;

    /// The bytes not read yet.
    closed spec fn view(&self) -> Seq<u8> {
        self.data@.subrange(self.pos as int, self.end as int)
    }
}

impl<'a> U32AlignedBuffer<'a> {
    #[verifier::type_invariant]
    spec fn inv(self) -> bool {
        self.pos <= self.end <= self.data@.len() < MAX_SPAN
    }

    /// A cursor over all of `buf`.
    pub fn new(buf: &'a [u8]) -> (r: Self)
        requires
            buf@.len() < MAX_SPAN,
        ensures
            r@ == buf@,
    {
        let r = U32AlignedBuffer { data: buf, pos: 0, end: buf.len() };
        assert(r@ =~= buf@);
        r
    }

    /// A cursor over all of `buf`; `None` when the span is too large
    /// (`MAX_SPAN` bytes or more).
    pub fn try_new(buf: &'a [u8]) -> (r: Option<Self>)
        ensures
            r is Some <==> buf@.len() < MAX_SPAN,
            r matches Some(c) ==> c@ == buf@,
    {
        if buf.len() < MAX_SPAN {
            Some(U32AlignedBuffer::new(buf))
        } else {
            None
        }
    }

    /// Number of bytes not read yet.
    pub fn len(&self) -> (r: usize)
        ensures
            r == self@.len(),
            r < MAX_SPAN,
    {
        proof {
            use_type_invariant(self);
        }
        self.end - self.pos
    }

    /// The byte at offset `i` of what is left.
    pub fn byte(&self, i: usize) -> (r: u8)
        requires
            i < self@.len(),
        ensures
            r == self@[i as int],
    {
        proof {
            use_type_invariant(self);
        }
        self.data[self.pos + i]
    }

    /// Reads one record and moves past it; see `read_spec`. On `None` the
    /// cursor is left as it was.
    pub fn read<T: FromBuffer>(&mut self) -> (r: Option<(T, Self)>)
        ensures
            r is None <==> read_spec::<T>(old(self)@) is None,
            r is None ==> final(self)@ == old(self)@,
            r matches Some((rec, body)) ==> read_spec::<T>(old(self)@) == Some(
                (rec, body@, final(self)@),
            ),
    {
        proof {
            use_type_invariant(&*self);
        }
        let ghost data = self@;
        let size = align4_exec(T::size());
        let remaining = self.end - self.pos;
        if remaining < size {
            return None;
        }
        let rec = T::decode(self.data, self.pos);
        assert(self.data@.subrange(self.pos as int, self.pos + T::spec_size()) =~= data.subrange(
            0,
            T::spec_size() as int,
        ));
        let len = rec.len(remaining) as usize;
        if len < size || len > remaining {
            return None;
        }
        let body = U32AlignedBuffer { data: self.data, pos: self.pos + size, end: self.pos + len };
        assert(body@ =~= data.subrange(size as int, len as int));
        let advance = align4_exec(len);
        if advance > remaining {
            self.pos = self.end;
        } else {
            self.pos = self.pos + advance;
        }
        assert(self@ =~= data.subrange(
            if advance > remaining {
                remaining as int
            } else {
                advance as int
            },
            data.len() as int,
        ));
        Some((rec, body))
    }
}

} // verus!
