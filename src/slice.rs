//! Bounds-checked byte windows handed to the callbacks of the views.
use vstd::prelude::*;

verus! {

/// Little-endian `u16` stored at `s[o..o + 2]`.
pub open spec fn u16_le(s: Seq<u8>, o: int) -> u16 {
    (s[o] as int + s[o + 1] as int * 256) as u16
}

/// Big-endian `u16` stored at `s[o..o + 2]`.
pub open spec fn u16_be(s: Seq<u8>, o: int) -> u16 {
    (s[o] as int * 256 + s[o + 1] as int) as u16
}

/// Little-endian `u32` stored at `s[o..o + 4]`.
pub open spec fn u32_le(s: Seq<u8>, o: int) -> u32 {
    (s[o] as int + s[o + 1] as int * 256 + s[o + 2] as int * 65536 + s[o + 3] as int
        * 16777216) as u32
}

/// Big-endian `u32` stored at `s[o..o + 4]`.
pub open spec fn u32_be(s: Seq<u8>, o: int) -> u32 {
    (s[o] as int * 16777216 + s[o + 1] as int * 65536 + s[o + 2] as int * 256 + s[o
        + 3] as int) as u32
}

/// Little-endian bytes of a `u16`.
pub open spec fn u16_le_bytes(v: u16) -> Seq<u8> {
    seq![(v % 256) as u8, (v / 256) as u8]
}

/// Big-endian bytes of a `u16`.
pub open spec fn u16_be_bytes(v: u16) -> Seq<u8> {
    seq![(v / 256) as u8, (v % 256) as u8]
}

/// Little-endian bytes of a `u32`.
pub open spec fn u32_le_bytes(v: u32) -> Seq<u8> {
    seq![(v % 256) as u8, (v / 256 % 256) as u8, (v / 65536 % 256) as u8, (v / 16777216) as u8]
}

/// Big-endian bytes of a `u32`.
pub open spec fn u32_be_bytes(v: u32) -> Seq<u8> {
    seq![(v / 16777216) as u8, (v / 65536 % 256) as u8, (v / 256 % 256) as u8, (v % 256) as u8]
}

/// `s` with `src` written over `s[off..off + src.len()]`.
pub open spec fn splice(s: Seq<u8>, off: int, src: Seq<u8>) -> Seq<u8> {
    s.subrange(0, off) + src + s.subrange(off + src.len(), s.len() as int)
}

/// `len` copies of `value`.
pub open spec fn repeat(value: u8, len: nat) -> Seq<u8> {
    Seq::new(len, |i: int| value)
}

fn copy_out(src: &[u8], off: usize, dest: &mut [u8])
    requires
        off + old(dest)@.len() <= src@.len(),
    ensures
        final(dest)@ == src@.subrange(off as int, off + old(dest)@.len()),
{
    let n = dest.len();
    let slen = src.len();
    let mut i: usize = 0;
    while i < n
        invariant
            slen == src@.len(),
            n == dest@.len(),
            n == old(dest)@.len(),
            off + n <= src@.len(),
            0 <= i <= n,
            forall|j: int| 0 <= j < i ==> dest@[j] == src@[off + j],
        decreases n - i,
    {
        dest[i] = src[off + i];
        i = i + 1;
    }
    assert(dest@ =~= src@.subrange(off as int, off + n));
}

pub(crate) fn copy_in(dest: &mut [u8], off: usize, src: &[u8])
    requires
        off + src@.len() <= old(dest)@.len(),
    ensures
        final(dest)@ == splice(old(dest)@, off as int, src@),
{
    let n = src.len();
    let dlen = dest.len();
    let mut i: usize = 0;
    while i < n
        invariant
            dlen == dest@.len(),
            n == src@.len(),
            dest@.len() == old(dest)@.len(),
            off + n <= dest@.len(),
            0 <= i <= n,
            forall|k: int|
                0 <= k < dest@.len() ==> #[trigger] dest@[k] == if off <= k < off + i {
                    src@[k - off]
                } else {
                    old(dest)@[k]
                },
        decreases n - i,
    {
        dest[off + i] = src[i];
        i = i + 1;
    }
    assert(dest@ =~= splice(old(dest)@, off as int, src@));
}

fn fill_range(dest: &mut [u8], off: usize, len: usize, value: u8)
    requires
        off + len <= old(dest)@.len(),
    ensures
        final(dest)@ == splice(old(dest)@, off as int, repeat(value, len as nat)),
{
    let dlen = dest.len();
    let mut i: usize = 0;
    while i < len
        invariant
            dlen == dest@.len(),
            dest@.len() == old(dest)@.len(),
            off + len <= dest@.len(),
            0 <= i <= len,
            forall|k: int|
                0 <= k < dest@.len() ==> #[trigger] dest@[k] == if off <= k < off + i {
                    value
                } else {
                    old(dest)@[k]
                },
        decreases len - i,
    {
        dest[off + i] = value;
        i = i + 1;
    }
    assert(dest@ =~= splice(old(dest)@, off as int, repeat(value, len as nat)));
}

fn get_u16_le(s: &[u8], off: usize) -> (r: u16)
    requires
        off + 2 <= s@.len(),
    ensures
        r == u16_le(s@, off as int),
{
    s[off] as u16 + s[off + 1] as u16 * 256
}

fn get_u16_be(s: &[u8], off: usize) -> (r: u16)
    requires
        off + 2 <= s@.len(),
    ensures
        r == u16_be(s@, off as int),
{
    s[off] as u16 * 256 + s[off + 1] as u16
}

fn get_u32_le(s: &[u8], off: usize) -> (r: u32)
    requires
        off + 4 <= s@.len(),
    ensures
        r == u32_le(s@, off as int),
{
    s[off] as u32 + s[off + 1] as u32 * 256 + s[off + 2] as u32 * 65536 + s[off + 3] as u32
        * 16777216
}

fn get_u32_be(s: &[u8], off: usize) -> (r: u32)
    requires
        off + 4 <= s@.len(),
    ensures
        r == u32_be(s@, off as int),
{
    s[off] as u32 * 16777216 + s[off + 1] as u32 * 65536 + s[off + 2] as u32 * 256 + s[off
        + 3] as u32
}

fn put_u16_le(s: &mut [u8], off: usize, v: u16)
    requires
        off + 2 <= old(s)@.len(),
    ensures
        final(s)@ == splice(old(s)@, off as int, u16_le_bytes(v)),
{
    s[off] = (v % 256) as u8;
    s[off + 1] = (v / 256) as u8;
    assert(s@ =~= splice(old(s)@, off as int, u16_le_bytes(v)));
}

fn put_u16_be(s: &mut [u8], off: usize, v: u16)
    requires
        off + 2 <= old(s)@.len(),
    ensures
        final(s)@ == splice(old(s)@, off as int, u16_be_bytes(v)),
{
    s[off] = (v / 256) as u8;
    s[off + 1] = (v % 256) as u8;
    assert(s@ =~= splice(old(s)@, off as int, u16_be_bytes(v)));
}

fn put_u32_le(s: &mut [u8], off: usize, v: u32)
    requires
        off + 4 <= old(s)@.len(),
    ensures
        final(s)@ == splice(old(s)@, off as int, u32_le_bytes(v)),
{
    s[off] = (v % 256) as u8;
    s[off + 1] = (v / 256 % 256) as u8;
    s[off + 2] = (v / 65536 % 256) as u8;
    s[off + 3] = (v / 16777216) as u8;
    assert(s@ =~= splice(old(s)@, off as int, u32_le_bytes(v)));
}

fn put_u32_be(s: &mut [u8], off: usize, v: u32)
    requires
        off + 4 <= old(s)@.len(),
    ensures
        final(s)@ == splice(old(s)@, off as int, u32_be_bytes(v)),
{
    s[off] = (v / 16777216) as u8;
    s[off + 1] = (v / 65536 % 256) as u8;
    s[off + 2] = (v / 256 % 256) as u8;
    s[off + 3] = (v % 256) as u8;
    assert(s@ =~= splice(old(s)@, off as int, u32_be_bytes(v)));
}

/// Read-only slice wrapper.
///
/// Provides read-only access to a byte slice with bounds-checked
/// methods for reading primitives and copying data out.
#[derive(Debug)]
pub struct ROSlice<'a>(&'a [u8]);

impl<'a> View for ROSlice<'a> {
    type V = Seq<u8>;

    closed spec fn view(&self) -> Seq<u8> {
        self.0@
    }
}

impl<'a> ROSlice<'a> {
    /// Creates a new read-only slice wrapper.
    pub fn new(slice: &'a [u8]) -> (r: Self)
        ensures
            r@ == slice@,
    {
        ROSlice(slice)
    }

    /// Returns the length of the slice.
    pub fn len(&self) -> (r: usize)
        ensures
            r == self@.len(),
    {
        self.0.len()
    }

    /// Returns true if the slice is empty.
    pub fn is_empty(&self) -> (r: bool)
        ensures
            r == (self@.len() == 0),
    {
        self.0.len() == 0
    }

    /// Copies the entire slice to the destination buffer, which must have
    /// the slice's length.
    pub fn copy_to_slice(&self, dest: &mut [u8])
        requires
            old(dest)@.len() == self@.len(),
        ensures
            final(dest)@ == self@,
    {
        copy_out(self.0, 0, dest);
        assert(self@.subrange(0, self@.len() as int) =~= self@);
    }

    /// Copies `dest.len()` bytes starting at `offset` to the destination
    /// buffer.
    pub fn copy_to_slice_at(&self, offset: usize, dest: &mut [u8])
        requires
            offset + old(dest)@.len() <= self@.len(),
        ensures
            final(dest)@ == self@.subrange(offset as int, offset + old(dest)@.len()),
    {
        copy_out(self.0, offset, dest);
    }

    /// Tries to copy `dest.len()` bytes starting at `offset` to the
    /// destination buffer; `None`, with `dest` untouched, if the range
    /// exceeds the slice.
    pub fn try_copy_to_slice_at(&self, offset: usize, dest: &mut [u8]) -> (r: Option<()>)
        ensures
            r is Some <==> offset + old(dest)@.len() <= self@.len(),
            r is Some ==> final(dest)@ == self@.subrange(offset as int, offset + old(dest)@.len()),
            r is None ==> final(dest)@ == old(dest)@,
    {
        let limit = self.0.len();
        let end = match offset.checked_add(dest.len()) {
            Some(e) => e,
            None => return None,
        };
        if end > limit {
            return None;
        }
        copy_out(self.0, offset, dest);
        Some(())
    }

    /// Reads a `u8` at the given offset.
    pub fn read_u8_at(&self, offset: usize) -> (r: u8)
        requires
            offset < self@.len(),
        ensures
            r == self@[offset as int],
    {
        self.0[offset]
    }

    /// Reads an `i8` at the given offset.
    pub fn read_i8_at(&self, offset: usize) -> (r: i8)
        requires
            offset < self@.len(),
        ensures
            r == self@[offset as int] as i8,
    {
        self.0[offset] as i8
    }

    /// Tries to read a `u8` at the given offset; `None` if `offset >= len()`.
    pub fn try_read_u8_at(&self, offset: usize) -> (r: Option<u8>)
        ensures
            r == if offset < self@.len() {
                Some(self@[offset as int])
            } else {
                None::<u8>
            },
    {
        if offset < self.0.len() {
            Some(self.0[offset])
        } else {
            None
        }
    }

    /// Tries to read an `i8` at the given offset; `None` if
    /// `offset >= len()`.
    pub fn try_read_i8_at(&self, offset: usize) -> (r: Option<i8>)
        ensures
            r == if offset < self@.len() {
                Some(self@[offset as int] as i8)
            } else {
                None::<i8>
            },
    {
        if offset < self.0.len() {
            Some(self.0[offset] as i8)
        } else {
            None
        }
    }

    /// Reads a little-endian `u16` at the given offset.
    pub fn read_u16_le_at(&self, offset: usize) -> (r: u16)
        requires
            offset + 2 <= self@.len(),
        ensures
            r == u16_le(self@, offset as int),
    {
        get_u16_le(self.0, offset)
    }

    /// Tries to read a little-endian `u16` at the given offset; `None` if
    /// `offset + 2 > len()`.
    pub fn try_read_u16_le_at(&self, offset: usize) -> (r: Option<u16>)
        ensures
            r == if offset + 2 <= self@.len() {
                Some(u16_le(self@, offset as int))
            } else {
                None::<u16>
            },
    {
        if offset <= self.0.len() && 2 <= self.0.len() - offset {
            Some(get_u16_le(self.0, offset))
        } else {
            None
        }
    }

    /// Reads a big-endian `u16` at the given offset.
    pub fn read_u16_be_at(&self, offset: usize) -> (r: u16)
        requires
            offset + 2 <= self@.len(),
        ensures
            r == u16_be(self@, offset as int),
    {
        get_u16_be(self.0, offset)
    }

    /// Tries to read a big-endian `u16` at the given offset; `None` if
    /// `offset + 2 > len()`.
    pub fn try_read_u16_be_at(&self, offset: usize) -> (r: Option<u16>)
        ensures
            r == if offset + 2 <= self@.len() {
                Some(u16_be(self@, offset as int))
            } else {
                None::<u16>
            },
    {
        if offset <= self.0.len() && 2 <= self.0.len() - offset {
            Some(get_u16_be(self.0, offset))
        } else {
            None
        }
    }

    /// Reads a little-endian `i16` at the given offset.
    pub fn read_i16_le_at(&self, offset: usize) -> (r: i16)
        requires
            offset + 2 <= self@.len(),
        ensures
            r == u16_le(self@, offset as int) as i16,
    {
        get_u16_le(self.0, offset) as i16
    }

    /// Tries to read a little-endian `i16` at the given offset; `None` if
    /// `offset + 2 > len()`.
    pub fn try_read_i16_le_at(&self, offset: usize) -> (r: Option<i16>)
        ensures
            r == if offset + 2 <= self@.len() {
                Some(u16_le(self@, offset as int) as i16)
            } else {
                None::<i16>
            },
    {
        if offset <= self.0.len() && 2 <= self.0.len() - offset {
            Some(get_u16_le(self.0, offset) as i16)
        } else {
            None
        }
    }

    /// Reads a big-endian `i16` at the given offset.
    pub fn read_i16_be_at(&self, offset: usize) -> (r: i16)
        requires
            offset + 2 <= self@.len(),
        ensures
            r == u16_be(self@, offset as int) as i16,
    {
        get_u16_be(self.0, offset) as i16
    }

    /// Tries to read a big-endian `i16` at the given offset; `None` if
    /// `offset + 2 > len()`.
    pub fn try_read_i16_be_at(&self, offset: usize) -> (r: Option<i16>)
        ensures
            r == if offset + 2 <= self@.len() {
                Some(u16_be(self@, offset as int) as i16)
            } else {
                None::<i16>
            },
    {
        if offset <= self.0.len() && 2 <= self.0.len() - offset {
            Some(get_u16_be(self.0, offset) as i16)
        } else {
            None
        }
    }

    /// Reads a little-endian `u32` at the given offset.
    pub fn read_u32_le_at(&self, offset: usize) -> (r: u32)
        requires
            offset + 4 <= self@.len(),
        ensures
            r == u32_le(self@, offset as int),
    {
        get_u32_le(self.0, offset)
    }

    /// Tries to read a little-endian `u32` at the given offset; `None` if
    /// `offset + 4 > len()`.
    pub fn try_read_u32_le_at(&self, offset: usize) -> (r: Option<u32>)
        ensures
            r == if offset + 4 <= self@.len() {
                Some(u32_le(self@, offset as int))
            } else {
                None::<u32>
            },
    {
        if offset <= self.0.len() && 4 <= self.0.len() - offset {
            Some(get_u32_le(self.0, offset))
        } else {
            None
        }
    }

    /// Reads a big-endian `u32` at the given offset.
    pub fn read_u32_be_at(&self, offset: usize) -> (r: u32)
        requires
            offset + 4 <= self@.len(),
        ensures
            r == u32_be(self@, offset as int),
    {
        get_u32_be(self.0, offset)
    }

    /// Tries to read a big-endian `u32` at the given offset; `None` if
    /// `offset + 4 > len()`.
    pub fn try_read_u32_be_at(&self, offset: usize) -> (r: Option<u32>)
        ensures
            r == if offset + 4 <= self@.len() {
                Some(u32_be(self@, offset as int))
            } else {
                None::<u32>
            },
    {
        if offset <= self.0.len() && 4 <= self.0.len() - offset {
            Some(get_u32_be(self.0, offset))
        } else {
            None
        }
    }

    /// Reads a little-endian `i32` at the given offset.
    pub fn read_i32_le_at(&self, offset: usize) -> (r: i32)
        requires
            offset + 4 <= self@.len(),
        ensures
            r == u32_le(self@, offset as int) as i32,
    {
        get_u32_le(self.0, offset) as i32
    }

    /// Tries to read a little-endian `i32` at the given offset; `None` if
    /// `offset + 4 > len()`.
    pub fn try_read_i32_le_at(&self, offset: usize) -> (r: Option<i32>)
        ensures
            r == if offset + 4 <= self@.len() {
                Some(u32_le(self@, offset as int) as i32)
            } else {
                None::<i32>
            },
    {
        if offset <= self.0.len() && 4 <= self.0.len() - offset {
            Some(get_u32_le(self.0, offset) as i32)
        } else {
            None
        }
    }

    /// Reads a big-endian `i32` at the given offset.
    pub fn read_i32_be_at(&self, offset: usize) -> (r: i32)
        requires
            offset + 4 <= self@.len(),
        ensures
            r == u32_be(self@, offset as int) as i32,
    {
        get_u32_be(self.0, offset) as i32
    }

    /// Tries to read a big-endian `i32` at the given offset; `None` if
    /// `offset + 4 > len()`.
    pub fn try_read_i32_be_at(&self, offset: usize) -> (r: Option<i32>)
        ensures
            r == if offset + 4 <= self@.len() {
                Some(u32_be(self@, offset as int) as i32)
            } else {
                None::<i32>
            },
    {
        if offset <= self.0.len() && 4 <= self.0.len() - offset {
            Some(get_u32_be(self.0, offset) as i32)
        } else {
            None
        }
    }

}

/// Write-only slice wrapper.
///
/// Provides write-only access to a byte slice with bounds-checked
/// methods for writing primitives and copying data in. The underlying
/// data cannot be read through this wrapper.
pub struct WOSlice<'a>(&'a mut [u8]);

impl<'a> View for WOSlice<'a> {
    type V = Seq<u8>;

    closed spec fn view(&self) -> Seq<u8> {
        self.0@
    }
}

impl<'a> WOSlice<'a> {
    /// Creates a new write-only slice wrapper.
    pub fn new(slice: &'a mut [u8]) -> (r: Self)
        ensures
            r@ == old(slice)@,
    {
        WOSlice(slice)
    }

    /// Returns the length of the slice.
    pub fn len(&self) -> (r: usize)
        ensures
            r == self@.len(),
    {
        self.0.len()
    }

    /// Returns true if the slice is empty.
    pub fn is_empty(&self) -> (r: bool)
        ensures
            r == (self@.len() == 0),
    {
        self.0.len() == 0
    }

    /// Copies the source buffer, which must have the slice's length, over
    /// the entire slice.
    pub fn copy_from_slice(&mut self, src: &[u8])
        requires
            src@.len() == old(self)@.len(),
        ensures
            final(self)@ == src@,
    {
        copy_in(self.0, 0, src);
        assert(splice(old(self)@, 0, src@) =~= src@);
    }

    /// Copies the source buffer starting at `offset`.
    pub fn copy_from_slice_at(&mut self, offset: usize, src: &[u8])
        requires
            offset + src@.len() <= old(self)@.len(),
        ensures
            final(self)@ == splice(old(self)@, offset as int, src@),
    {
        copy_in(self.0, offset, src);
    }

    /// Tries to copy the source buffer starting at `offset`; `None`, with
    /// the slice untouched, if the range exceeds the slice.
    pub fn try_copy_from_slice_at(&mut self, offset: usize, src: &[u8]) -> (r: Option<()>)
        ensures
            r is Some <==> offset + src@.len() <= old(self)@.len(),
            r is Some ==> final(self)@ == splice(old(self)@, offset as int, src@),
            r is None ==> final(self)@ == old(self)@,
    {
        let limit = self.0.len();
        let end = match offset.checked_add(src.len()) {
            Some(e) => e,
            None => return None,
        };
        if end > limit {
            return None;
        }
        copy_in(self.0, offset, src);
        Some(())
    }

    /// Fills the entire slice with the given value.
    pub fn fill(&mut self, value: u8)
        ensures
            final(self)@ == repeat(value, old(self)@.len()),
    {
        let n = self.0.len();
        fill_range(self.0, 0, n, value);
        assert(splice(old(self)@, 0, repeat(value, n as nat)) =~= repeat(value, n as nat));
    }

    /// Fills `len` bytes starting at `offset` with the given value.
    pub fn fill_at(&mut self, offset: usize, len: usize, value: u8)
        requires
            offset + len <= old(self)@.len(),
        ensures
            final(self)@ == splice(old(self)@, offset as int, repeat(value, len as nat)),
    {
        fill_range(self.0, offset, len, value);
    }

    /// Tries to fill `len` bytes starting at `offset` with the given value;
    /// `None`, with the slice untouched, if the range exceeds the slice.
    pub fn try_fill_at(&mut self, offset: usize, len: usize, value: u8) -> (r: Option<()>)
        ensures
            r is Some <==> offset + len <= old(self)@.len(),
            r is Some ==> final(self)@ == splice(old(self)@, offset as int, repeat(value, len as nat)),
            r is None ==> final(self)@ == old(self)@,
    {
        let limit = self.0.len();
        let end = match offset.checked_add(len) {
            Some(e) => e,
            None => return None,
        };
        if end > limit {
            return None;
        }
        fill_range(self.0, offset, len, value);
        Some(())
    }

    /// Writes a `u8` at the given offset.
    pub fn write_u8_at(&mut self, offset: usize, value: u8)
        requires
            offset < old(self)@.len(),
        ensures
            final(self)@ == old(self)@.update(offset as int, value),
    {
        self.0[offset] = value;
    }

    /// Writes an `i8` at the given offset.
    pub fn write_i8_at(&mut self, offset: usize, value: i8)
        requires
            offset < old(self)@.len(),
        ensures
            final(self)@ == old(self)@.update(offset as int, value as u8),
    {
        self.0[offset] = value as u8;
    }

    /// Tries to write a `u8` at the given offset; `None`, with the slice
    /// untouched, if `offset >= len()`.
    pub fn try_write_u8_at(&mut self, offset: usize, value: u8) -> (r: Option<()>)
        ensures
            r is Some <==> offset < old(self)@.len(),
            r is Some ==> final(self)@ == old(self)@.update(offset as int, value),
            r is None ==> final(self)@ == old(self)@,
    {
        if offset < self.0.len() {
            self.0[offset] = value;
            Some(())
        } else {
            None
        }
    }

    /// Tries to write an `i8` at the given offset; `None`, with the slice
    /// untouched, if `offset >= len()`.
    pub fn try_write_i8_at(&mut self, offset: usize, value: i8) -> (r: Option<()>)
        ensures
            r is Some <==> offset < old(self)@.len(),
            r is Some ==> final(self)@ == old(self)@.update(offset as int, value as u8),
            r is None ==> final(self)@ == old(self)@,
    {
        if offset < self.0.len() {
            self.0[offset] = value as u8;
            Some(())
        } else {
            None
        }
    }

    /// Writes a little-endian `u16` at the given offset.
    pub fn write_u16_le_at(&mut self, offset: usize, value: u16)
        requires
            offset + 2 <= old(self)@.len(),
        ensures
            final(self)@ == splice(old(self)@, offset as int, u16_le_bytes(value)),
    {
        put_u16_le(self.0, offset, value);
    }

    /// Tries to write a little-endian `u16` at the given offset; `None`,
    /// with the slice untouched, if `offset + 2 > len()`.
    pub fn try_write_u16_le_at(&mut self, offset: usize, value: u16) -> (r: Option<()>)
        ensures
            r is Some <==> offset + 2 <= old(self)@.len(),
            r is Some ==> final(self)@ == splice(old(self)@, offset as int, u16_le_bytes(value)),
            r is None ==> final(self)@ == old(self)@,
    {
        if offset <= self.0.len() && 2 <= self.0.len() - offset {
            put_u16_le(self.0, offset, value);
            Some(())
        } else {
            None
        }
    }

    /// Writes a big-endian `u16` at the given offset.
    pub fn write_u16_be_at(&mut self, offset: usize, value: u16)
        requires
            offset + 2 <= old(self)@.len(),
        ensures
            final(self)@ == splice(old(self)@, offset as int, u16_be_bytes(value)),
    {
        put_u16_be(self.0, offset, value);
    }

    /// Tries to write a big-endian `u16` at the given offset; `None`,
    /// with the slice untouched, if `offset + 2 > len()`.
    pub fn try_write_u16_be_at(&mut self, offset: usize, value: u16) -> (r: Option<()>)
        ensures
            r is Some <==> offset + 2 <= old(self)@.len(),
            r is Some ==> final(self)@ == splice(old(self)@, offset as int, u16_be_bytes(value)),
            r is None ==> final(self)@ == old(self)@,
    {
        if offset <= self.0.len() && 2 <= self.0.len() - offset {
            put_u16_be(self.0, offset, value);
            Some(())
        } else {
            None
        }
    }

    /// Writes a little-endian `i16` at the given offset.
    pub fn write_i16_le_at(&mut self, offset: usize, value: i16)
        requires
            offset + 2 <= old(self)@.len(),
        ensures
            final(self)@ == splice(old(self)@, offset as int, u16_le_bytes(value as u16)),
    {
        put_u16_le(self.0, offset, value as u16);
    }

    /// Tries to write a little-endian `i16` at the given offset; `None`,
    /// with the slice untouched, if `offset + 2 > len()`.
    pub fn try_write_i16_le_at(&mut self, offset: usize, value: i16) -> (r: Option<()>)
        ensures
            r is Some <==> offset + 2 <= old(self)@.len(),
            r is Some ==> final(self)@ == splice(old(self)@, offset as int, u16_le_bytes(value as u16)),
            r is None ==> final(self)@ == old(self)@,
    {
        if offset <= self.0.len() && 2 <= self.0.len() - offset {
            put_u16_le(self.0, offset, value as u16);
            Some(())
        } else {
            None
        }
    }

    /// Writes a big-endian `i16` at the given offset.
    pub fn write_i16_be_at(&mut self, offset: usize, value: i16)
        requires
            offset + 2 <= old(self)@.len(),
        ensures
            final(self)@ == splice(old(self)@, offset as int, u16_be_bytes(value as u16)),
    {
        put_u16_be(self.0, offset, value as u16);
    }

    /// Tries to write a big-endian `i16` at the given offset; `None`,
    /// with the slice untouched, if `offset + 2 > len()`.
    pub fn try_write_i16_be_at(&mut self, offset: usize, value: i16) -> (r: Option<()>)
        ensures
            r is Some <==> offset + 2 <= old(self)@.len(),
            r is Some ==> final(self)@ == splice(old(self)@, offset as int, u16_be_bytes(value as u16)),
            r is None ==> final(self)@ == old(self)@,
    {
        if offset <= self.0.len() && 2 <= self.0.len() - offset {
            put_u16_be(self.0, offset, value as u16);
            Some(())
        } else {
            None
        }
    }

    /// Writes a little-endian `u32` at the given offset.
    pub fn write_u32_le_at(&mut self, offset: usize, value: u32)
        requires
            offset + 4 <= old(self)@.len(),
        ensures
            final(self)@ == splice(old(self)@, offset as int, u32_le_bytes(value)),
    {
        put_u32_le(self.0, offset, value);
    }

    /// Tries to write a little-endian `u32` at the given offset; `None`,
    /// with the slice untouched, if `offset + 4 > len()`.
    pub fn try_write_u32_le_at(&mut self, offset: usize, value: u32) -> (r: Option<()>)
        ensures
            r is Some <==> offset + 4 <= old(self)@.len(),
            r is Some ==> final(self)@ == splice(old(self)@, offset as int, u32_le_bytes(value)),
            r is None ==> final(self)@ == old(self)@,
    {
        if offset <= self.0.len() && 4 <= self.0.len() - offset {
            put_u32_le(self.0, offset, value);
            Some(())
        } else {
            None
        }
    }

    /// Writes a big-endian `u32` at the given offset.
    pub fn write_u32_be_at(&mut self, offset: usize, value: u32)
        requires
            offset + 4 <= old(self)@.len(),
        ensures
            final(self)@ == splice(old(self)@, offset as int, u32_be_bytes(value)),
    {
        put_u32_be(self.0, offset, value);
    }

    /// Tries to write a big-endian `u32` at the given offset; `None`,
    /// with the slice untouched, if `offset + 4 > len()`.
    pub fn try_write_u32_be_at(&mut self, offset: usize, value: u32) -> (r: Option<()>)
        ensures
            r is Some <==> offset + 4 <= old(self)@.len(),
            r is Some ==> final(self)@ == splice(old(self)@, offset as int, u32_be_bytes(value)),
            r is None ==> final(self)@ == old(self)@,
    {
        if offset <= self.0.len() && 4 <= self.0.len() - offset {
            put_u32_be(self.0, offset, value);
            Some(())
        } else {
            None
        }
    }

    /// Writes a little-endian `i32` at the given offset.
    pub fn write_i32_le_at(&mut self, offset: usize, value: i32)
        requires
            offset + 4 <= old(self)@.len(),
        ensures
            final(self)@ == splice(old(self)@, offset as int, u32_le_bytes(value as u32)),
    {
        put_u32_le(self.0, offset, value as u32);
    }

    /// Tries to write a little-endian `i32` at the given offset; `None`,
    /// with the slice untouched, if `offset + 4 > len()`.
    pub fn try_write_i32_le_at(&mut self, offset: usize, value: i32) -> (r: Option<()>)
        ensures
            r is Some <==> offset + 4 <= old(self)@.len(),
            r is Some ==> final(self)@ == splice(old(self)@, offset as int, u32_le_bytes(value as u32)),
            r is None ==> final(self)@ == old(self)@,
    {
        if offset <= self.0.len() && 4 <= self.0.len() - offset {
            put_u32_le(self.0, offset, value as u32);
            Some(())
        } else {
            None
        }
    }

    /// Writes a big-endian `i32` at the given offset.
    pub fn write_i32_be_at(&mut self, offset: usize, value: i32)
        requires
            offset + 4 <= old(self)@.len(),
        ensures
            final(self)@ == splice(old(self)@, offset as int, u32_be_bytes(value as u32)),
    {
        put_u32_be(self.0, offset, value as u32);
    }

    /// Tries to write a big-endian `i32` at the given offset; `None`,
    /// with the slice untouched, if `offset + 4 > len()`.
    pub fn try_write_i32_be_at(&mut self, offset: usize, value: i32) -> (r: Option<()>)
        ensures
            r is Some <==> offset + 4 <= old(self)@.len(),
            r is Some ==> final(self)@ == splice(old(self)@, offset as int, u32_be_bytes(value as u32)),
            r is None ==> final(self)@ == old(self)@,
    {
        if offset <= self.0.len() && 4 <= self.0.len() - offset {
            put_u32_be(self.0, offset, value as u32);
            Some(())
        } else {
            None
        }
    }

}

/// Read-write slice wrapper.
///
/// Provides full read and write access to a byte slice with bounds-checked
/// methods for reading/writing primitives and copying data.
pub struct RWSlice<'a>(&'a mut [u8]);

impl<'a> View for RWSlice<'a> {
    type V = Seq<u8>;

    closed spec fn view(&self) -> Seq<u8> {
        self.0@
    }
}

impl<'a> RWSlice<'a> {
    /// Creates a new read-write slice wrapper.
    pub fn new(slice: &'a mut [u8]) -> (r: Self)
        ensures
            r@ == old(slice)@,
    {
        RWSlice(slice)
    }

    /// Returns the length of the slice.
    pub fn len(&self) -> (r: usize)
        ensures
            r == self@.len(),
    {
        self.0.len()
    }

    /// Returns true if the slice is empty.
    pub fn is_empty(&self) -> (r: bool)
        ensures
            r == (self@.len() == 0),
    {
        self.0.len() == 0
    }

    /// Copies the entire slice to the destination buffer, which must have
    /// the slice's length.
    pub fn copy_to_slice(&self, dest: &mut [u8])
        requires
            old(dest)@.len() == self@.len(),
        ensures
            final(dest)@ == self@,
    {
        copy_out(self.0, 0, dest);
        assert(self@.subrange(0, self@.len() as int) =~= self@);
    }

    /// Copies `dest.len()` bytes starting at `offset` to the destination
    /// buffer.
    pub fn copy_to_slice_at(&self, offset: usize, dest: &mut [u8])
        requires
            offset + old(dest)@.len() <= self@.len(),
        ensures
            final(dest)@ == self@.subrange(offset as int, offset + old(dest)@.len()),
    {
        copy_out(self.0, offset, dest);
    }

    /// Tries to copy `dest.len()` bytes starting at `offset` to the
    /// destination buffer; `None`, with `dest` untouched, if the range
    /// exceeds the slice.
    pub fn try_copy_to_slice_at(&self, offset: usize, dest: &mut [u8]) -> (r: Option<()>)
        ensures
            r is Some <==> offset + old(dest)@.len() <= self@.len(),
            r is Some ==> final(dest)@ == self@.subrange(offset as int, offset + old(dest)@.len()),
            r is None ==> final(dest)@ == old(dest)@,
    {
        let limit = self.0.len();
        let end = match offset.checked_add(dest.len()) {
            Some(e) => e,
            None => return None,
        };
        if end > limit {
            return None;
        }
        copy_out(self.0, offset, dest);
        Some(())
    }

    /// Reads a `u8` at the given offset.
    pub fn read_u8_at(&self, offset: usize) -> (r: u8)
        requires
            offset < self@.len(),
        ensures
            r == self@[offset as int],
    {
        self.0[offset]
    }

    /// Reads an `i8` at the given offset.
    pub fn read_i8_at(&self, offset: usize) -> (r: i8)
        requires
            offset < self@.len(),
        ensures
            r == self@[offset as int] as i8,
    {
        self.0[offset] as i8
    }

    /// Tries to read a `u8` at the given offset; `None` if `offset >= len()`.
    pub fn try_read_u8_at(&self, offset: usize) -> (r: Option<u8>)
        ensures
            r == if offset < self@.len() {
                Some(self@[offset as int])
            } else {
                None::<u8>
            },
    {
        if offset < self.0.len() {
            Some(self.0[offset])
        } else {
            None
        }
    }

    /// Tries to read an `i8` at the given offset; `None` if
    /// `offset >= len()`.
    pub fn try_read_i8_at(&self, offset: usize) -> (r: Option<i8>)
        ensures
            r == if offset < self@.len() {
                Some(self@[offset as int] as i8)
            } else {
                None::<i8>
            },
    {
        if offset < self.0.len() {
            Some(self.0[offset] as i8)
        } else {
            None
        }
    }

    /// Reads a little-endian `u16` at the given offset.
    pub fn read_u16_le_at(&self, offset: usize) -> (r: u16)
        requires
            offset + 2 <= self@.len(),
        ensures
            r == u16_le(self@, offset as int),
    {
        get_u16_le(self.0, offset)
    }

    /// Tries to read a little-endian `u16` at the given offset; `None` if
    /// `offset + 2 > len()`.
    pub fn try_read_u16_le_at(&self, offset: usize) -> (r: Option<u16>)
        ensures
            r == if offset + 2 <= self@.len() {
                Some(u16_le(self@, offset as int))
            } else {
                None::<u16>
            },
    {
        if offset <= self.0.len() && 2 <= self.0.len() - offset {
            Some(get_u16_le(self.0, offset))
        } else {
            None
        }
    }

    /// Reads a big-endian `u16` at the given offset.
    pub fn read_u16_be_at(&self, offset: usize) -> (r: u16)
        requires
            offset + 2 <= self@.len(),
        ensures
            r == u16_be(self@, offset as int),
    {
        get_u16_be(self.0, offset)
    }

    /// Tries to read a big-endian `u16` at the given offset; `None` if
    /// `offset + 2 > len()`.
    pub fn try_read_u16_be_at(&self, offset: usize) -> (r: Option<u16>)
        ensures
            r == if offset + 2 <= self@.len() {
                Some(u16_be(self@, offset as int))
            } else {
                None::<u16>
            },
    {
        if offset <= self.0.len() && 2 <= self.0.len() - offset {
            Some(get_u16_be(self.0, offset))
        } else {
            None
        }
    }

    /// Reads a little-endian `i16` at the given offset.
    pub fn read_i16_le_at(&self, offset: usize) -> (r: i16)
        requires
            offset + 2 <= self@.len(),
        ensures
            r == u16_le(self@, offset as int) as i16,
    {
        get_u16_le(self.0, offset) as i16
    }

    /// Tries to read a little-endian `i16` at the given offset; `None` if
    /// `offset + 2 > len()`.
    pub fn try_read_i16_le_at(&self, offset: usize) -> (r: Option<i16>)
        ensures
            r == if offset + 2 <= self@.len() {
                Some(u16_le(self@, offset as int) as i16)
            } else {
                None::<i16>
            },
    {
        if offset <= self.0.len() && 2 <= self.0.len() - offset {
            Some(get_u16_le(self.0, offset) as i16)
        } else {
            None
        }
    }

    /// Reads a big-endian `i16` at the given offset.
    pub fn read_i16_be_at(&self, offset: usize) -> (r: i16)
        requires
            offset + 2 <= self@.len(),
        ensures
            r == u16_be(self@, offset as int) as i16,
    {
        get_u16_be(self.0, offset) as i16
    }

    /// Tries to read a big-endian `i16` at the given offset; `None` if
    /// `offset + 2 > len()`.
    pub fn try_read_i16_be_at(&self, offset: usize) -> (r: Option<i16>)
        ensures
            r == if offset + 2 <= self@.len() {
                Some(u16_be(self@, offset as int) as i16)
            } else {
                None::<i16>
            },
    {
        if offset <= self.0.len() && 2 <= self.0.len() - offset {
            Some(get_u16_be(self.0, offset) as i16)
        } else {
            None
        }
    }

    /// Reads a little-endian `u32` at the given offset.
    pub fn read_u32_le_at(&self, offset: usize) -> (r: u32)
        requires
            offset + 4 <= self@.len(),
        ensures
            r == u32_le(self@, offset as int),
    {
        get_u32_le(self.0, offset)
    }

    /// Tries to read a little-endian `u32` at the given offset; `None` if
    /// `offset + 4 > len()`.
    pub fn try_read_u32_le_at(&self, offset: usize) -> (r: Option<u32>)
        ensures
            r == if offset + 4 <= self@.len() {
                Some(u32_le(self@, offset as int))
            } else {
                None::<u32>
            },
    {
        if offset <= self.0.len() && 4 <= self.0.len() - offset {
            Some(get_u32_le(self.0, offset))
        } else {
            None
        }
    }

    /// Reads a big-endian `u32` at the given offset.
    pub fn read_u32_be_at(&self, offset: usize) -> (r: u32)
        requires
            offset + 4 <= self@.len(),
        ensures
            r == u32_be(self@, offset as int),
    {
        get_u32_be(self.0, offset)
    }

    /// Tries to read a big-endian `u32` at the given offset; `None` if
    /// `offset + 4 > len()`.
    pub fn try_read_u32_be_at(&self, offset: usize) -> (r: Option<u32>)
        ensures
            r == if offset + 4 <= self@.len() {
                Some(u32_be(self@, offset as int))
            } else {
                None::<u32>
            },
    {
        if offset <= self.0.len() && 4 <= self.0.len() - offset {
            Some(get_u32_be(self.0, offset))
        } else {
            None
        }
    }

    /// Reads a little-endian `i32` at the given offset.
    pub fn read_i32_le_at(&self, offset: usize) -> (r: i32)
        requires
            offset + 4 <= self@.len(),
        ensures
            r == u32_le(self@, offset as int) as i32,
    {
        get_u32_le(self.0, offset) as i32
    }

    /// Tries to read a little-endian `i32` at the given offset; `None` if
    /// `offset + 4 > len()`.
    pub fn try_read_i32_le_at(&self, offset: usize) -> (r: Option<i32>)
        ensures
            r == if offset + 4 <= self@.len() {
                Some(u32_le(self@, offset as int) as i32)
            } else {
                None::<i32>
            },
    {
        if offset <= self.0.len() && 4 <= self.0.len() - offset {
            Some(get_u32_le(self.0, offset) as i32)
        } else {
            None
        }
    }

    /// Reads a big-endian `i32` at the given offset.
    pub fn read_i32_be_at(&self, offset: usize) -> (r: i32)
        requires
            offset + 4 <= self@.len(),
        ensures
            r == u32_be(self@, offset as int) as i32,
    {
        get_u32_be(self.0, offset) as i32
    }

    /// Tries to read a big-endian `i32` at the given offset; `None` if
    /// `offset + 4 > len()`.
    pub fn try_read_i32_be_at(&self, offset: usize) -> (r: Option<i32>)
        ensures
            r == if offset + 4 <= self@.len() {
                Some(u32_be(self@, offset as int) as i32)
            } else {
                None::<i32>
            },
    {
        if offset <= self.0.len() && 4 <= self.0.len() - offset {
            Some(get_u32_be(self.0, offset) as i32)
        } else {
            None
        }
    }

    /// Copies the source buffer, which must have the slice's length, over
    /// the entire slice.
    pub fn copy_from_slice(&mut self, src: &[u8])
        requires
            src@.len() == old(self)@.len(),
        ensures
            final(self)@ == src@,
    {
        copy_in(self.0, 0, src);
        assert(splice(old(self)@, 0, src@) =~= src@);
    }

    /// Copies the source buffer starting at `offset`.
    pub fn copy_from_slice_at(&mut self, offset: usize, src: &[u8])
        requires
            offset + src@.len() <= old(self)@.len(),
        ensures
            final(self)@ == splice(old(self)@, offset as int, src@),
    {
        copy_in(self.0, offset, src);
    }

    /// Tries to copy the source buffer starting at `offset`; `None`, with
    /// the slice untouched, if the range exceeds the slice.
    pub fn try_copy_from_slice_at(&mut self, offset: usize, src: &[u8]) -> (r: Option<()>)
        ensures
            r is Some <==> offset + src@.len() <= old(self)@.len(),
            r is Some ==> final(self)@ == splice(old(self)@, offset as int, src@),
            r is None ==> final(self)@ == old(self)@,
    {
        let limit = self.0.len();
        let end = match offset.checked_add(src.len()) {
            Some(e) => e,
            None => return None,
        };
        if end > limit {
            return None;
        }
        copy_in(self.0, offset, src);
        Some(())
    }

    /// Fills the entire slice with the given value.
    pub fn fill(&mut self, value: u8)
        ensures
            final(self)@ == repeat(value, old(self)@.len()),
    {
        let n = self.0.len();
        fill_range(self.0, 0, n, value);
        assert(splice(old(self)@, 0, repeat(value, n as nat)) =~= repeat(value, n as nat));
    }

    /// Fills `len` bytes starting at `offset` with the given value.
    pub fn fill_at(&mut self, offset: usize, len: usize, value: u8)
        requires
            offset + len <= old(self)@.len(),
        ensures
            final(self)@ == splice(old(self)@, offset as int, repeat(value, len as nat)),
    {
        fill_range(self.0, offset, len, value);
    }

    /// Tries to fill `len` bytes starting at `offset` with the given value;
    /// `None`, with the slice untouched, if the range exceeds the slice.
    pub fn try_fill_at(&mut self, offset: usize, len: usize, value: u8) -> (r: Option<()>)
        ensures
            r is Some <==> offset + len <= old(self)@.len(),
            r is Some ==> final(self)@ == splice(old(self)@, offset as int, repeat(value, len as nat)),
            r is None ==> final(self)@ == old(self)@,
    {
        let limit = self.0.len();
        let end = match offset.checked_add(len) {
            Some(e) => e,
            None => return None,
        };
        if end > limit {
            return None;
        }
        fill_range(self.0, offset, len, value);
        Some(())
    }

    /// Writes a `u8` at the given offset.
    pub fn write_u8_at(&mut self, offset: usize, value: u8)
        requires
            offset < old(self)@.len(),
        ensures
            final(self)@ == old(self)@.update(offset as int, value),
    {
        self.0[offset] = value;
    }

    /// Writes an `i8` at the given offset.
    pub fn write_i8_at(&mut self, offset: usize, value: i8)
        requires
            offset < old(self)@.len(),
        ensures
            final(self)@ == old(self)@.update(offset as int, value as u8),
    {
        self.0[offset] = value as u8;
    }

    /// Tries to write a `u8` at the given offset; `None`, with the slice
    /// untouched, if `offset >= len()`.
    pub fn try_write_u8_at(&mut self, offset: usize, value: u8) -> (r: Option<()>)
        ensures
            r is Some <==> offset < old(self)@.len(),
            r is Some ==> final(self)@ == old(self)@.update(offset as int, value),
            r is None ==> final(self)@ == old(self)@,
    {
        if offset < self.0.len() {
            self.0[offset] = value;
            Some(())
        } else {
            None
        }
    }

    /// Tries to write an `i8` at the given offset; `None`, with the slice
    /// untouched, if `offset >= len()`.
    pub fn try_write_i8_at(&mut self, offset: usize, value: i8) -> (r: Option<()>)
        ensures
            r is Some <==> offset < old(self)@.len(),
            r is Some ==> final(self)@ == old(self)@.update(offset as int, value as u8),
            r is None ==> final(self)@ == old(self)@,
    {
        if offset < self.0.len() {
            self.0[offset] = value as u8;
            Some(())
        } else {
            None
        }
    }

    /// Writes a little-endian `u16` at the given offset.
    pub fn write_u16_le_at(&mut self, offset: usize, value: u16)
        requires
            offset + 2 <= old(self)@.len(),
        ensures
            final(self)@ == splice(old(self)@, offset as int, u16_le_bytes(value)),
    {
        put_u16_le(self.0, offset, value);
    }

    /// Tries to write a little-endian `u16` at the given offset; `None`,
    /// with the slice untouched, if `offset + 2 > len()`.
    pub fn try_write_u16_le_at(&mut self, offset: usize, value: u16) -> (r: Option<()>)
        ensures
            r is Some <==> offset + 2 <= old(self)@.len(),
            r is Some ==> final(self)@ == splice(old(self)@, offset as int, u16_le_bytes(value)),
            r is None ==> final(self)@ == old(self)@,
    {
        if offset <= self.0.len() && 2 <= self.0.len() - offset {
            put_u16_le(self.0, offset, value);
            Some(())
        } else {
            None
        }
    }

    /// Writes a big-endian `u16` at the given offset.
    pub fn write_u16_be_at(&mut self, offset: usize, value: u16)
        requires
            offset + 2 <= old(self)@.len(),
        ensures
            final(self)@ == splice(old(self)@, offset as int, u16_be_bytes(value)),
    {
        put_u16_be(self.0, offset, value);
    }

    /// Tries to write a big-endian `u16` at the given offset; `None`,
    /// with the slice untouched, if `offset + 2 > len()`.
    pub fn try_write_u16_be_at(&mut self, offset: usize, value: u16) -> (r: Option<()>)
        ensures
            r is Some <==> offset + 2 <= old(self)@.len(),
            r is Some ==> final(self)@ == splice(old(self)@, offset as int, u16_be_bytes(value)),
            r is None ==> final(self)@ == old(self)@,
    {
        if offset <= self.0.len() && 2 <= self.0.len() - offset {
            put_u16_be(self.0, offset, value);
            Some(())
        } else {
            None
        }
    }

    /// Writes a little-endian `i16` at the given offset.
    pub fn write_i16_le_at(&mut self, offset: usize, value: i16)
        requires
            offset + 2 <= old(self)@.len(),
        ensures
            final(self)@ == splice(old(self)@, offset as int, u16_le_bytes(value as u16)),
    {
        put_u16_le(self.0, offset, value as u16);
    }

    /// Tries to write a little-endian `i16` at the given offset; `None`,
    /// with the slice untouched, if `offset + 2 > len()`.
    pub fn try_write_i16_le_at(&mut self, offset: usize, value: i16) -> (r: Option<()>)
        ensures
            r is Some <==> offset + 2 <= old(self)@.len(),
            r is Some ==> final(self)@ == splice(old(self)@, offset as int, u16_le_bytes(value as u16)),
            r is None ==> final(self)@ == old(self)@,
    {
        if offset <= self.0.len() && 2 <= self.0.len() - offset {
            put_u16_le(self.0, offset, value as u16);
            Some(())
        } else {
            None
        }
    }

    /// Writes a big-endian `i16` at the given offset.
    pub fn write_i16_be_at(&mut self, offset: usize, value: i16)
        requires
            offset + 2 <= old(self)@.len(),
        ensures
            final(self)@ == splice(old(self)@, offset as int, u16_be_bytes(value as u16)),
    {
        put_u16_be(self.0, offset, value as u16);
    }

    /// Tries to write a big-endian `i16` at the given offset; `None`,
    /// with the slice untouched, if `offset + 2 > len()`.
    pub fn try_write_i16_be_at(&mut self, offset: usize, value: i16) -> (r: Option<()>)
        ensures
            r is Some <==> offset + 2 <= old(self)@.len(),
            r is Some ==> final(self)@ == splice(old(self)@, offset as int, u16_be_bytes(value as u16)),
            r is None ==> final(self)@ == old(self)@,
    {
        if offset <= self.0.len() && 2 <= self.0.len() - offset {
            put_u16_be(self.0, offset, value as u16);
            Some(())
        } else {
            None
        }
    }

    /// Writes a little-endian `u32` at the given offset.
    pub fn write_u32_le_at(&mut self, offset: usize, value: u32)
        requires
            offset + 4 <= old(self)@.len(),
        ensures
            final(self)@ == splice(old(self)@, offset as int, u32_le_bytes(value)),
    {
        put_u32_le(self.0, offset, value);
    }

    /// Tries to write a little-endian `u32` at the given offset; `None`,
    /// with the slice untouched, if `offset + 4 > len()`.
    pub fn try_write_u32_le_at(&mut self, offset: usize, value: u32) -> (r: Option<()>)
        ensures
            r is Some <==> offset + 4 <= old(self)@.len(),
            r is Some ==> final(self)@ == splice(old(self)@, offset as int, u32_le_bytes(value)),
            r is None ==> final(self)@ == old(self)@,
    {
        if offset <= self.0.len() && 4 <= self.0.len() - offset {
            put_u32_le(self.0, offset, value);
            Some(())
        } else {
            None
        }
    }

    /// Writes a big-endian `u32` at the given offset.
    pub fn write_u32_be_at(&mut self, offset: usize, value: u32)
        requires
            offset + 4 <= old(self)@.len(),
        ensures
            final(self)@ == splice(old(self)@, offset as int, u32_be_bytes(value)),
    {
        put_u32_be(self.0, offset, value);
    }

    /// Tries to write a big-endian `u32` at the given offset; `None`,
    /// with the slice untouched, if `offset + 4 > len()`.
    pub fn try_write_u32_be_at(&mut self, offset: usize, value: u32) -> (r: Option<()>)
        ensures
            r is Some <==> offset + 4 <= old(self)@.len(),
            r is Some ==> final(self)@ == splice(old(self)@, offset as int, u32_be_bytes(value)),
            r is None ==> final(self)@ == old(self)@,
    {
        if offset <= self.0.len() && 4 <= self.0.len() - offset {
            put_u32_be(self.0, offset, value);
            Some(())
        } else {
            None
        }
    }

    /// Writes a little-endian `i32` at the given offset.
    pub fn write_i32_le_at(&mut self, offset: usize, value: i32)
        requires
            offset + 4 <= old(self)@.len(),
        ensures
            final(self)@ == splice(old(self)@, offset as int, u32_le_bytes(value as u32)),
    {
        put_u32_le(self.0, offset, value as u32);
    }

    /// Tries to write a little-endian `i32` at the given offset; `None`,
    /// with the slice untouched, if `offset + 4 > len()`.
    pub fn try_write_i32_le_at(&mut self, offset: usize, value: i32) -> (r: Option<()>)
        ensures
            r is Some <==> offset + 4 <= old(self)@.len(),
            r is Some ==> final(self)@ == splice(old(self)@, offset as int, u32_le_bytes(value as u32)),
            r is None ==> final(self)@ == old(self)@,
    {
        if offset <= self.0.len() && 4 <= self.0.len() - offset {
            put_u32_le(self.0, offset, value as u32);
            Some(())
        } else {
            None
        }
    }

    /// Writes a big-endian `i32` at the given offset.
    pub fn write_i32_be_at(&mut self, offset: usize, value: i32)
        requires
            offset + 4 <= old(self)@.len(),
        ensures
            final(self)@ == splice(old(self)@, offset as int, u32_be_bytes(value as u32)),
    {
        put_u32_be(self.0, offset, value as u32);
    }

    /// Tries to write a big-endian `i32` at the given offset; `None`,
    /// with the slice untouched, if `offset + 4 > len()`.
    pub fn try_write_i32_be_at(&mut self, offset: usize, value: i32) -> (r: Option<()>)
        ensures
            r is Some <==> offset + 4 <= old(self)@.len(),
            r is Some ==> final(self)@ == splice(old(self)@, offset as int, u32_be_bytes(value as u32)),
            r is None ==> final(self)@ == old(self)@,
    {
        if offset <= self.0.len() && 4 <= self.0.len() - offset {
            put_u32_be(self.0, offset, value as u32);
            Some(())
        } else {
            None
        }
    }

}

} // verus!
