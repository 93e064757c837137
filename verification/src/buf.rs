use vstd::prelude::*;

use bytes::Bytes;

verus! {

#[verifier::external_type_specification]
#[verifier::external_body]
pub struct ExBytes(Bytes);

/// The byte sequence a `Bytes` handle holds.
pub uninterp spec fn bytes_seq(b: Bytes) -> Seq<u8>;

/// Relies on `Bytes::len`: the number of bytes the handle holds.
#[verifier::external_body]
pub fn bytes_len(b: &Bytes) -> (n: usize)
    ensures
        n == bytes_seq(*b).len(),
{
    b.len()
}

/// Relies on `Bytes`'s `Deref` to `[u8]`: indexing reads the byte at that
/// position.
#[verifier::external_body]
pub fn bytes_get(b: &Bytes, i: usize) -> (r: u8)
    requires
        i < bytes_seq(*b).len(),
    ensures
        r == bytes_seq(*b)[i as int],
{
    b[i]
}

/// Relies on `Bytes::slice`: a shared view of positions `from..to` of the
/// same underlying storage, without copying.
#[verifier::external_body]
pub fn bytes_slice(b: &Bytes, from: usize, to: usize) -> (r: Bytes)
    requires
        from <= to <= bytes_seq(*b).len(),
    ensures
        bytes_seq(r) == bytes_seq(*b).subrange(from as int, to as int),
{
    b.slice(from..to)
}

/// Relies on `Bytes::copy_from_slice`: a handle holding a copy of the slice.
#[verifier::external_body]
pub fn bytes_from_slice(s: &[u8]) -> (r: Bytes)
    ensures
        bytes_seq(r) == s@,
{
    Bytes::copy_from_slice(s)
}

/// What `str::from_utf8` decodes a byte sequence to when it is well-formed
/// UTF-8; the result depends on the bytes alone.
pub uninterp spec fn utf8_chars(s: Seq<u8>) -> Option<Seq<char>>;

/// Relies on `str::from_utf8` (reached through `Bytes`'s `Deref` to `[u8]`):
/// it returns the decoded text exactly when the bytes are well-formed UTF-8,
/// and rejects, never replaces, malformed sequences.
#[verifier::external_body]
pub fn bytes_to_utf8(b: &Bytes) -> (r: Option<String>)
    ensures
        r is Some <==> utf8_chars(bytes_seq(*b)) is Some,
        r is Some ==> r.unwrap()@ == utf8_chars(bytes_seq(*b)).unwrap(),
{
    match core::str::from_utf8(b) {
        Ok(s) => Some(s.to_string()),
        Err(_) => None,
    }
}

/// A read position over a shared, immutable byte buffer.
///
/// The buffer storage is shared: slices taken out of the cursor keep the
/// backing bytes alive without copying them.
pub struct Cursor {
    buf: Bytes,
    pos: usize,
    len: usize,
}

impl Cursor {
    /// The whole buffer holds what `Bytes` said it does and the position has
    /// not run past its end.
    pub closed spec fn wf(&self) -> bool {
        self.len == bytes_seq(self.buf).len() && self.pos <= self.len
    }

    /// The bytes not yet consumed.
    pub closed spec fn remaining_seq(&self) -> Seq<u8> {
        bytes_seq(self.buf).skip(self.pos as int)
    }

    /// A cursor standing at the start of `buf`.
    pub fn new(buf: Bytes) -> (c: Cursor)
        ensures
            c.wf(),
            c.remaining_seq() == bytes_seq(buf),
    {
        let len = bytes_len(&buf);
        let c = Cursor { buf, pos: 0, len };
        proof {
            assert(c.remaining_seq() =~= bytes_seq(c.buf));
        }
        c
    }

    /// How many bytes are left to read.
    pub fn remaining(&self) -> (n: usize)
        requires
            self.wf(),
        ensures
            n == self.remaining_seq().len(),
    {
        self.len - self.pos
    }

    /// Reads one byte and advances past it.
    pub fn get_u8(&mut self) -> (r: u8)
        requires
            old(self).wf(),
            old(self).remaining_seq().len() >= 1,
        ensures
            final(self).wf(),
            r == old(self).remaining_seq()[0],
            final(self).remaining_seq() == old(self).remaining_seq().skip(1),
    {
        let r = bytes_get(&self.buf, self.pos);
        self.pos = self.pos + 1;
        proof {
            assert(final(self).remaining_seq() =~= old(self).remaining_seq().skip(1));
        }
        r
    }

    /// Takes the next `n` bytes out as a shared slice and advances past them.
    pub fn take_bytes(&mut self, n: usize) -> (r: Bytes)
        requires
            old(self).wf(),
            n <= old(self).remaining_seq().len(),
        ensures
            final(self).wf(),
            bytes_seq(r) == old(self).remaining_seq().take(n as int),
            final(self).remaining_seq() == old(self).remaining_seq().skip(n as int),
    {
        let r = bytes_slice(&self.buf, self.pos, self.pos + n);
        self.pos = self.pos + n;
        proof {
            assert(bytes_seq(r) =~= old(self).remaining_seq().take(n as int));
            assert(final(self).remaining_seq() =~= old(self).remaining_seq().skip(n as int));
        }
        r
    }
}

} // verus!
