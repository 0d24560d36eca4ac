use vstd::prelude::*;
use vstd::utf8::{decode_utf8, valid_utf8};

use crate::error::{eof, rv, Error, ErrorView};
use crate::header::{spec_header, BoxHeader, BoxType};

verus! {

/// The 16-bit big-endian integer stored at `d[i..i + 2]`.
pub open spec fn be16(d: Seq<u8>, i: int) -> u16 {
    (d[i] as int * 0x100 + d[i + 1] as int) as u16
}

/// The 24-bit big-endian integer stored at `d[i..i + 3]`.
pub open spec fn be24(d: Seq<u8>, i: int) -> u32 {
    (d[i] as int * 0x10000 + d[i + 1] as int * 0x100 + d[i + 2] as int) as u32
}

/// The 32-bit big-endian integer stored at `d[i..i + 4]`.
pub open spec fn be32(d: Seq<u8>, i: int) -> u32 {
    (d[i] as int * 0x1000000 + d[i + 1] as int * 0x10000 + d[i + 2] as int * 0x100
        + d[i + 3] as int) as u32
}

/// The 64-bit big-endian integer stored at `d[i..i + 8]`.
pub open spec fn be64(d: Seq<u8>, i: int) -> u64 {
    (be32(d, i) as int * 0x1_0000_0000 + be32(d, i + 4) as int) as u64
}

/// Index of the first NUL byte of `b` at or after `i`, or `b.len()` when there is none.
pub open spec fn nul_index(b: Seq<u8>, i: int) -> int
    decreases b.len() - i,
{
    if 0 <= i < b.len() {
        if b[i] == 0 {
            i
        } else {
            nul_index(b, i + 1)
        }
    } else {
        b.len() as int
    }
}

/// The bytes of `b` before its first NUL.
pub open spec fn before_nul(b: Seq<u8>) -> Seq<u8> {
    b.subrange(0, nul_index(b, 0))
}

/// The string field of `n` bytes at `d[i..]`: cut at the first NUL, then decoded as UTF-8.
pub open spec fn text_at(d: Seq<u8>, i: int, n: int) -> Result<Seq<char>, ErrorView> {
    if i + n > d.len() {
        eof()
    } else if valid_utf8(before_nul(d.subrange(i, i + n))) {
        Ok(decode_utf8(before_nul(d.subrange(i, i + n))))
    } else {
        Err(ErrorView::InvalidData("invalid UTF-8 string"@))
    }
}

/// The fixed-length text field of `n` bytes at `d[i..]`: every byte of it, decoded as UTF-8.
pub open spec fn fixed_text(d: Seq<u8>, i: int, n: int) -> Result<Seq<char>, ErrorView> {
    if i + n > d.len() {
        eof()
    } else if valid_utf8(d.subrange(i, i + n)) {
        Ok(decode_utf8(d.subrange(i, i + n)))
    } else {
        Err(ErrorView::InvalidData("invalid UTF-8 string"@))
    }
}

/// Relies on `String::from_utf8`: it accepts exactly the valid UTF-8 byte sequences and
/// decodes them.
#[verifier::external_body]
pub(crate) fn utf8_string(b: Vec<u8>) -> (r: Option<String>)
    ensures
        r is Some <==> valid_utf8(b@),
        r matches Some(s) ==> s@ == decode_utf8(b@),
{
    String::from_utf8(b).ok()
}

/// A cursor over a byte buffer. `pos` may run past the end after a skip; every read
/// there fails with `EOF` and leaves the cursor where it was.
pub struct BoxReader<'a> {
    pub data: &'a [u8],
    pub pos: u64,
    /// The last error other than end-of-data met while reading.
    pub error: Option<Error>,
}

impl<'a> BoxReader<'a> {
    /// Whether `n` more bytes can be read at the cursor.
    pub open spec fn fits(&self, n: int) -> bool {
        self.pos + n <= self.data@.len()
    }

    /// The state after reading `n` bytes: same data and error, cursor moved on.
    pub open spec fn advanced(&self, old: &BoxReader<'a>, n: int) -> bool {
        &&& self.data == old.data
        &&& self.error == old.error
        &&& self.pos == old.pos + n
    }

    pub fn new(src: &'a [u8]) -> (r: BoxReader<'a>)
        ensures
            r.data == src,
            r.pos == 0,
            r.error is None,
    {
        BoxReader { data: src, pos: 0, error: None }
    }

    /// A cursor at `pos` over `data`.
    pub fn at(data: &'a [u8], pos: u64) -> (r: BoxReader<'a>)
        ensures
            r.data == data,
            r.pos == pos,
            r.error is None,
    {
        BoxReader { data, pos, error: None }
    }

    /// Whether `n` more bytes can be read at the cursor.
    pub fn fits_exec(&self, n: u64) -> (r: bool)
        ensures
            r == self.fits(n as int),
    {
        self.remaining(n)
    }

    fn remaining(&self, n: u64) -> (r: bool)
        ensures
            r == self.fits(n as int),
            self.data@.len() <= u64::MAX,
    {
        let len = self.data.len() as u64;
        self.pos <= len && len - self.pos >= n
    }

    pub fn stream_position(&mut self) -> (r: Result<u64, Error>)
        ensures
            *final(self) == *old(self),
            r == Ok::<u64, Error>(old(self).pos),
    {
        Ok(self.pos)
    }

    /// Moves the cursor `size` bytes forward (saturating); reads past the end then fail.
    pub fn skip(&mut self, size: u64) -> (r: Result<(), Error>)
        ensures
            r is Ok,
            final(self).data == old(self).data,
            final(self).error == old(self).error,
            final(self).pos == if old(self).pos + size <= u64::MAX {
                old(self).pos + size
            } else {
                u64::MAX as int
            },
    {
        self.pos = self.pos.saturating_add(size);
        Ok(())
    }

    /// Steps over `n` bytes that must all lie in the buffer.
    pub fn advance(&mut self, n: u64) -> (r: Result<(), Error>)
        ensures
            old(self).fits(n as int) ==> r is Ok && final(self).advanced(old(self), n as int),
            !old(self).fits(n as int) ==> r is Err && rv(r)->Err_0 == ErrorView::Eof
                && *final(self) == *old(self),
    {
        if !self.remaining(n) {
            return Err(Error::EOF());
        }
        self.pos = self.pos + n;
        Ok(())
    }

    pub fn read_u8(&mut self) -> (r: Result<u8, Error>)
        ensures
            old(self).fits(1) ==> r == Ok::<u8, Error>(old(self).data@[old(self).pos as int])
                && final(self).advanced(old(self), 1),
            !old(self).fits(1) ==> r is Err && rv(r)->Err_0 == ErrorView::Eof
                && *final(self) == *old(self),
    {
        if !self.remaining(1) {
            return Err(Error::EOF());
        }
        let v = self.data[self.pos as usize];
        self.pos = self.pos + 1;
        Ok(v)
    }

    pub fn read_u16(&mut self) -> (r: Result<u16, Error>)
        ensures
            old(self).fits(2) ==> r == Ok::<u16, Error>(be16(old(self).data@, old(self).pos as int))
                && final(self).advanced(old(self), 2),
            !old(self).fits(2) ==> r is Err && rv(r)->Err_0 == ErrorView::Eof
                && *final(self) == *old(self),
    {
        if !self.remaining(2) {
            return Err(Error::EOF());
        }
        let i = self.pos as usize;
        let v = (self.data[i] as u16) * 0x100 + self.data[i + 1] as u16;
        self.pos = self.pos + 2;
        Ok(v)
    }

    pub fn read_u32(&mut self) -> (r: Result<u32, Error>)
        ensures
            old(self).fits(4) ==> r == Ok::<u32, Error>(be32(old(self).data@, old(self).pos as int))
                && final(self).advanced(old(self), 4),
            !old(self).fits(4) ==> r is Err && rv(r)->Err_0 == ErrorView::Eof
                && *final(self) == *old(self),
    {
        if !self.remaining(4) {
            return Err(Error::EOF());
        }
        let i = self.pos as usize;
        let v = (self.data[i] as u32) * 0x1000000 + (self.data[i + 1] as u32) * 0x10000
            + (self.data[i + 2] as u32) * 0x100 + self.data[i + 3] as u32;
        self.pos = self.pos + 4;
        Ok(v)
    }

    pub fn read_i32(&mut self) -> (r: Result<i32, Error>)
        ensures
            old(self).fits(4) ==> r == Ok::<i32, Error>(
                be32(old(self).data@, old(self).pos as int) as i32,
            ) && final(self).advanced(old(self), 4),
            !old(self).fits(4) ==> r is Err && rv(r)->Err_0 == ErrorView::Eof
                && *final(self) == *old(self),
    {
        let v = self.read_u32()?;
        Ok(v as i32)
    }

    pub fn read_u64(&mut self) -> (r: Result<u64, Error>)
        ensures
            old(self).fits(8) ==> r == Ok::<u64, Error>(be64(old(self).data@, old(self).pos as int))
                && final(self).advanced(old(self), 8),
            !old(self).fits(8) ==> r is Err && rv(r)->Err_0 == ErrorView::Eof
                && *final(self) == *old(self),
    {
        if !self.remaining(8) {
            return Err(Error::EOF());
        }
        let hi = self.read_u32()?;
        let lo = self.read_u32()?;
        Ok((hi as u64) * 0x1_0000_0000 + lo as u64)
    }

    pub fn read_i64(&mut self) -> (r: Result<i64, Error>)
        ensures
            old(self).fits(8) ==> r == Ok::<i64, Error>(
                be64(old(self).data@, old(self).pos as int) as i64,
            ) && final(self).advanced(old(self), 8),
            !old(self).fits(8) ==> r is Err && rv(r)->Err_0 == ErrorView::Eof
                && *final(self) == *old(self),
    {
        let v = self.read_u64()?;
        Ok(v as i64)
    }

    /// Reads a string field of `len` bytes: it ends at the first NUL and must be UTF-8.
    pub fn read_string(&mut self, len: usize) -> (r: Result<String, Error>)
        ensures
            final(self).data == old(self).data,
            match (r, text_at(old(self).data@, old(self).pos as int, len as int)) {
                (Ok(s), Ok(t)) => s@ == t && final(self).pos == old(self).pos + len
                    && final(self).error == old(self).error,
                (Err(e), Err(f)) => {
                    &&& e@ == f
                    &&& old(self).fits(len as int) ==> {
                        &&& final(self).pos == old(self).pos + len
                        &&& final(self).error is Some
                        &&& final(self).error->Some_0@ == f
                    }
                    &&& !old(self).fits(len as int) ==> *final(self) == *old(self)
                },
                _ => false,
            },
    {
        if !self.remaining(len as u64) {
            return Err(Error::EOF());
        }
        let start = self.pos as usize;
        let dlen = self.data.len();
        let ghost seg = self.data@.subrange(start as int, start + len);
        let mut buf: Vec<u8> = Vec::new();
        let mut i: usize = 0;
        while i < len && self.data[start + i] != 0
            invariant
                dlen == self.data@.len(),
                start + len <= dlen,
                seg == self.data@.subrange(start as int, start + len),
                0 <= i <= len,
                buf@ == seg.subrange(0, i as int),
                nul_index(seg, 0) == nul_index(seg, i as int),
            decreases len - i,
        {
            buf.push(self.data[start + i]);
            i = i + 1;
        }
        assert(buf@ == before_nul(seg));
        match utf8_string(buf) {
            Some(s) => {
                self.pos = self.pos + len as u64;
                Ok(s)
            },
            None => {
                self.pos = self.pos + len as u64;
                self.error = Some(Error::InvalidData("invalid UTF-8 string".to_owned()));
                Err(Error::InvalidData("invalid UTF-8 string".to_owned()))
            },
        }
    }

    /// Reads a fixed-length text field of `len` bytes, all of which must be UTF-8.
    pub fn read_text(&mut self, len: usize) -> (r: Result<String, Error>)
        ensures
            final(self).data == old(self).data,
            match (r, fixed_text(old(self).data@, old(self).pos as int, len as int)) {
                (Ok(s), Ok(t)) => s@ == t && final(self).pos == old(self).pos + len
                    && final(self).error == old(self).error,
                (Err(e), Err(f)) => {
                    &&& e@ == f
                    &&& old(self).fits(len as int) ==> {
                        &&& final(self).pos == old(self).pos + len
                        &&& final(self).error is Some
                        &&& final(self).error->Some_0@ == f
                    }
                    &&& !old(self).fits(len as int) ==> *final(self) == *old(self)
                },
                _ => false,
            },
    {
        if !self.remaining(len as u64) {
            return Err(Error::EOF());
        }
        let start = self.pos as usize;
        let dlen = self.data.len();
        let ghost seg = self.data@.subrange(start as int, start + len);
        let mut buf: Vec<u8> = Vec::new();
        let mut i: usize = 0;
        while i < len
            invariant
                dlen == self.data@.len(),
                start + len <= dlen,
                seg == self.data@.subrange(start as int, start + len),
                0 <= i <= len,
                buf@ == seg.subrange(0, i as int),
            decreases len - i,
        {
            buf.push(self.data[start + i]);
            i = i + 1;
        }
        assert(buf@ =~= seg);
        match utf8_string(buf) {
            Some(s) => {
                self.pos = self.pos + len as u64;
                Ok(s)
            },
            None => {
                self.pos = self.pos + len as u64;
                self.error = Some(Error::InvalidData("invalid UTF-8 string".to_owned()));
                Err(Error::InvalidData("invalid UTF-8 string".to_owned()))
            },
        }
    }

    /// Reads the version byte and the 24-bit flags that open a full box.
    pub fn read_header_extra(&mut self) -> (r: Result<(u8, u32), Error>)
        ensures
            old(self).fits(4) ==> r == Ok::<(u8, u32), Error>(
                (old(self).data@[old(self).pos as int], be24(old(self).data@, old(self).pos + 1)),
            ) && final(self).advanced(old(self), 4),
            !old(self).fits(4) ==> r is Err && rv(r)->Err_0 == ErrorView::Eof
                && *final(self) == *old(self),
    {
        if !self.remaining(4) {
            return Err(Error::EOF());
        }
        let version = self.read_u8()?;
        let i = self.pos as usize;
        let flags = (self.data[i] as u32) * 0x10000 + (self.data[i + 1] as u32) * 0x100
            + self.data[i + 2] as u32;
        self.pos = self.pos + 3;
        Ok((version, flags))
    }

    /// The message of the last recorded error, or `"Ok"`.
    pub fn show_error(&self) -> (r: String)
        ensures
            self.error matches Some(e) ==> r@ == crate::error::message_of(e@),
            self.error is None ==> r@ == "Ok"@,
    {
        match &self.error {
            Some(error) => error.to_string(),
            None => "Ok".to_owned(),
        }
    }
}

} // verus!

verus! {

/// A cursor that reads box headers one after another.
pub struct BoxParser<'a> {
    pub reader: BoxReader<'a>,
}

/// A parser at the start of `src`.
pub fn parse<'a>(src: &'a [u8]) -> (r: BoxParser<'a>)
    ensures
        r.reader.data == src,
        r.reader.pos == 0,
{
    BoxParser { reader: BoxReader::new(src) }
}

impl<'a> BoxParser<'a> {
    pub fn get_reader(&mut self) -> (r: &mut BoxReader<'a>)
        ensures
            *r == old(self).reader,
            final(self).reader == *final(r),
    {
        &mut self.reader
    }

    /// Reads the next header.
    pub fn next_header(&mut self) -> (r: Result<BoxHeader, Error>)
        ensures
            final(self).reader.data == old(self).reader.data,
            rv(r) == spec_header(old(self).reader.data@, old(self).reader.pos as int),
            r is Ok ==> final(self).reader.pos == old(self).reader.pos + r->Ok_0.header_len,
    {
        BoxHeader::read(&mut self.reader)
    }

    /// Reads the next header, which must be of kind `header_type`.
    pub fn next_header_with_type(&mut self, header_type: BoxType) -> (r: Result<BoxHeader, Error>)
        ensures
            final(self).reader.data == old(self).reader.data,
            rv(r) == typed_header(old(self).reader.data@, old(self).reader.pos as int, header_type),
            r is Ok ==> final(self).reader.pos == old(self).reader.pos + r->Ok_0.header_len,
    {
        let header = self.next_header()?;
        if header.name != header_type {
            return Err(Error::InvalidBoxType());
        }
        Ok(header)
    }
}

/// The header at `d[p..]` when it is of kind `t`; another kind is an invalid box type.
pub open spec fn typed_header(d: Seq<u8>, p: int, t: BoxType) -> Result<BoxHeader, ErrorView> {
    match spec_header(d, p) {
        Err(e) => Err(e),
        Ok(h) => if h.name == t {
            Ok(h)
        } else {
            Err(ErrorView::InvalidBoxType)
        },
    }
}

} // verus!
