//! A forward-only cursor over a byte buffer, and the error type of every
//! decoder in this crate.

use vstd::prelude::*;

verus! {

/// Why a decoder gave up.
#[derive(Clone, Copy, Debug, PartialEq, Eq, Structural)]
pub enum DecodeError {
    /// The input ended before the value was complete.
    UnexpectedEof,
    /// The bytes were all there but do not form a value of the wire format.
    InvalidData,
}

/// What a decoder makes of a byte sequence: the value and the bytes after it,
/// or the reason it gave up.
pub type ParseResult<T> = Result<(T, Seq<u8>), DecodeError>;

/// Whether an executable decoder did what `expected` says: it returned a
/// value whose model is the one `expected` holds and left exactly the bytes
/// `after` unread, or it returned the error that `expected` holds. After an
/// error nothing is said of the cursor's position.
pub open spec fn decoded<T: DeepView>(
    expected: ParseResult<T::V>,
    result: Result<T, DecodeError>,
    after: Seq<u8>,
) -> bool {
    match expected {
        Ok((value, rest)) => result is Ok && result->Ok_0.deep_view() == value && after == rest,
        Err(e) => result is Err && result->Err_0 == e,
    }
}

/// The value of a successful decoding.
pub open spec fn value_of<T>(r: ParseResult<T>) -> T
    recommends
        r is Ok,
{
    r->Ok_0.0
}

/// The bytes left after a successful decoding.
pub open spec fn rest_of<T>(r: ParseResult<T>) -> Seq<u8>
    recommends
        r is Ok,
{
    r->Ok_0.1
}

/// The failure of one field as the failure of the value it belongs to.
pub open spec fn failure_of<T, U>(r: ParseResult<T>) -> ParseResult<U>
    recommends
        r is Err,
{
    Err(r->Err_0)
}

/// A cursor over an owned byte buffer. Decoders take bytes from the front of
/// what is left and move the cursor past them.
pub struct Reader {
    data: Vec<u8>,
    pos: usize,
}

impl Reader {
    /// The cursor never runs past the end of the buffer.
    #[verifier::type_invariant]
    spec fn inv(self) -> bool {
        self.pos <= self.data.len()
    }

    /// The bytes that have not been consumed yet.
    pub closed spec fn remaining(self) -> Seq<u8> {
        self.data@.subrange(self.pos as int, self.data.len() as int)
    }

    /// A cursor at the start of `data`.
    pub fn new(data: Vec<u8>) -> (r: Reader)
        ensures
            r.remaining() == data@,
    {
        let r = Reader { data, pos: 0 };
        assert(r.remaining() =~= data@);
        r
    }

    /// The number of bytes left.
    pub fn len(&self) -> (n: usize)
        ensures
            n == self.remaining().len(),
    {
        proof {
            use_type_invariant(self);
        }
        self.data.len() - self.pos
    }

    /// Whether every byte has been consumed.
    pub fn is_empty(&self) -> (b: bool)
        ensures
            b == (self.remaining().len() == 0),
    {
        proof {
            use_type_invariant(self);
        }
        self.pos == self.data.len()
    }

    /// Takes one byte from the front, or fails at the end of the input
    /// without moving.
    pub fn read_u8(&mut self) -> (r: Result<u8, DecodeError>)
        ensures
            old(self).remaining().len() >= 1 ==> r == Ok::<u8, DecodeError>(
                old(self).remaining()[0],
            ) && final(self).remaining() == old(self).remaining().skip(1),
            old(self).remaining().len() == 0 ==> r == Err::<u8, DecodeError>(
                DecodeError::UnexpectedEof,
            ) && final(self).remaining() == old(self).remaining(),
    {
        proof {
            use_type_invariant(&*self);
        }
        if self.pos < self.data.len() {
            let b = self.data[self.pos];
            self.pos = self.pos + 1;
            assert(self.remaining() =~= old(self).remaining().skip(1));
            Ok(b)
        } else {
            Err(DecodeError::UnexpectedEof)
        }
    }

    /// Takes the next `n` bytes, or fails if fewer are left.
    pub fn read_exact(&mut self, n: usize) -> (r: Result<Vec<u8>, DecodeError>)
        ensures
            n <= old(self).remaining().len() ==> r is Ok && r->Ok_0@ == old(self).remaining().take(
                n as int,
            ) && final(self).remaining() == old(self).remaining().skip(n as int),
            n > old(self).remaining().len() ==> r == Err::<Vec<u8>, DecodeError>(
                DecodeError::UnexpectedEof,
            ) && final(self).remaining() == old(self).remaining(),
    {
        proof {
            use_type_invariant(&*self);
        }
        if n > self.data.len() - self.pos {
            return Err(DecodeError::UnexpectedEof);
        }
        let mut out: Vec<u8> = Vec::new();
        let start: usize = self.pos;
        let mut i: usize = 0;
        while i < n
            invariant
                i <= n,
                start + n <= self.data.len(),
                out@ == self.data@.subrange(start as int, start + i),
            decreases n - i,
        {
            out.push(self.data[start + i]);
            i = i + 1;
            assert(out@ =~= self.data@.subrange(start as int, start + i));
        }
        self.pos = start + n;
        assert(out@ =~= old(self).remaining().take(n as int));
        assert(self.remaining() =~= old(self).remaining().skip(n as int));
        Ok(out)
    }
}

} // verus!
