use vstd::prelude::*;
use vstd::slice::slice_subrange;

use crate::ImageInfoError;

verus! {

/// Big-endian value of the two bytes at `off`.
pub open spec fn be16(d: Seq<u8>, off: int) -> nat {
    d[off] as nat * 256 + d[off + 1] as nat
}

/// Little-endian value of the two bytes at `off`.
pub open spec fn le16(d: Seq<u8>, off: int) -> nat {
    d[off + 1] as nat * 256 + d[off] as nat
}

/// Big-endian value of the four bytes at `off`.
pub open spec fn be32(d: Seq<u8>, off: int) -> nat {
    be16(d, off) * 65536 + be16(d, off + 2)
}

/// Little-endian value of the four bytes at `off`.
pub open spec fn le32(d: Seq<u8>, off: int) -> nat {
    le16(d, off + 2) * 65536 + le16(d, off)
}

pub fn read_be16(d: &[u8], off: usize) -> (r: u16)
    requires
        off + 2 <= d@.len(),
    ensures
        r as nat == be16(d@, off as int),
{
    let _n = d.len();
    d[off] as u16 * 256 + d[off + 1] as u16
}

pub fn read_le16(d: &[u8], off: usize) -> (r: u16)
    requires
        off + 2 <= d@.len(),
    ensures
        r as nat == le16(d@, off as int),
{
    let _n = d.len();
    d[off + 1] as u16 * 256 + d[off] as u16
}

pub fn read_be32(d: &[u8], off: usize) -> (r: u32)
    requires
        off + 4 <= d@.len(),
    ensures
        r as nat == be32(d@, off as int),
{
    let _n = d.len();
    read_be16(d, off) as u32 * 65536 + read_be16(d, off + 2) as u32
}

pub fn read_le32(d: &[u8], off: usize) -> (r: u32)
    requires
        off + 4 <= d@.len(),
    ensures
        r as nat == le32(d@, off as int),
{
    let _n = d.len();
    read_le16(d, off + 2) as u32 * 65536 + read_le16(d, off) as u32
}

/// The bytes at `off` are exactly `tag`.
pub open spec fn has_tag(d: Seq<u8>, off: int, tag: Seq<u8>) -> bool {
    0 <= off && off + tag.len() <= d.len() && d.subrange(off, off + tag.len()) == tag
}

/// A tag that matches fixes the byte where it starts.
pub broadcast proof fn lemma_tag_first_byte(d: Seq<u8>, off: int, tag: Seq<u8>)
    ensures
        #[trigger] has_tag(d, off, tag) && tag.len() > 0 ==> d[off] == tag[0],
{
    if has_tag(d, off, tag) && tag.len() > 0 {
        assert(d.subrange(off, off + tag.len())[0] == d[off]);
    }
}

/// `e` holds the first bytes of `d`.
pub open spec fn is_prefix(e: Seq<u8>, d: Seq<u8>) -> bool {
    e.len() <= d.len() && forall|k: int| 0 <= k < e.len() ==> e[k] == #[trigger] d[k]
}

/// A tag found in a prefix is found at the same place in the whole.
pub broadcast proof fn lemma_tag_in_prefix(e: Seq<u8>, d: Seq<u8>, off: int, tag: Seq<u8>)
    ensures
        #[trigger] is_prefix(e, d) && #[trigger] has_tag(e, off, tag) ==> has_tag(d, off, tag),
{
    if is_prefix(e, d) && has_tag(e, off, tag) {
        assert(d.subrange(off, off + tag.len()) =~= e.subrange(off, off + tag.len()));
    }
}

/// A tag found in the whole, inside a prefix, is found in the prefix.
pub broadcast proof fn lemma_tag_from_whole(e: Seq<u8>, d: Seq<u8>, off: int, tag: Seq<u8>)
    ensures
        #[trigger] is_prefix(e, d) && #[trigger] has_tag(d, off, tag) && off + tag.len() <= e.len()
            ==> has_tag(e, off, tag),
{
    if is_prefix(e, d) && has_tag(d, off, tag) && off + tag.len() <= e.len() {
        assert(d.subrange(off, off + tag.len()) =~= e.subrange(off, off + tag.len()));
    }
}

pub fn match_tag(d: &[u8], off: usize, tag: &[u8]) -> (r: bool)
    ensures
        r == has_tag(d@, off as int, tag@),
{
    if tag.len() > d.len() || off > d.len() - tag.len() {
        return false;
    }
    let mut i: usize = 0;
    while i < tag.len()
        invariant
            off + tag@.len() <= d@.len() <= usize::MAX,
            i <= tag@.len(),
            forall|k: int| 0 <= k < i ==> d@[off + k] == tag@[k],
        decreases tag@.len() - i,
    {
        if d[off + i] != tag[i] {
            assert(d@.subrange(off as int, off + tag@.len())[i as int] != tag@[i as int]);
            return false;
        }
        i = i + 1;
    }
    assert(d@.subrange(off as int, off + tag@.len()) =~= tag@);
    true
}


/// Offset-addressed, bounds-checked reads over a byte source held in memory.
/// No read moves a cursor: each one depends on its offset alone.
pub struct ReadInterface<'a> {
    data: &'a [u8],
}

impl<'a> View for ReadInterface<'a> {
    type V = Seq<u8>;

    closed spec fn view(&self) -> Seq<u8> {
        self.data@
    }
}

/// A read of `length` bytes at `offset` stays inside a source of `len` bytes.
pub open spec fn in_bounds(len: nat, offset: nat, length: nat) -> bool {
    offset + length <= len
}

impl<'a> ReadInterface<'a> {
    pub fn new(data: &'a [u8]) -> (r: Self)
        ensures
            r@ == data@,
    {
        ReadInterface { data }
    }

    /// The whole source.
    pub fn bytes(&self) -> (r: &'a [u8])
        ensures
            r@ == self@,
    {
        self.data
    }

    /// Total length of the source.
    pub fn len(&self) -> (r: usize)
        ensures
            r == self@.len(),
    {
        self.data.len()
    }

    /// The `length` bytes at `offset`, or an I/O error when they run past the end.
    pub fn read_exact_at(&self, offset: usize, length: usize) -> (r: Result<&'a [u8], ImageInfoError>)
        ensures
            match r {
                Ok(b) => in_bounds(self@.len(), offset as nat, length as nat) && b@ == self@.subrange(
                    offset as int,
                    offset + length,
                ),
                Err(e) => !in_bounds(self@.len(), offset as nat, length as nat) && e
                    == ImageInfoError::IoError,
            },
    {
        let len = self.data.len();
        if offset > len || length > len - offset {
            return Err(ImageInfoError::IoError);
        }
        Ok(slice_subrange(self.data, offset, offset + length))
    }

    /// The byte at `offset`.
    pub fn read_u8(&self, offset: usize) -> (r: Result<u8, ImageInfoError>)
        ensures
            match r {
                Ok(v) => in_bounds(self@.len(), offset as nat, 1) && v == self@[offset as int],
                Err(e) => !in_bounds(self@.len(), offset as nat, 1) && e == ImageInfoError::IoError,
            },
    {
        if offset >= self.data.len() {
            return Err(ImageInfoError::IoError);
        }
        Ok(self.data[offset])
    }

    /// The little-endian two-byte value at `offset`.
    pub fn read_u16_le(&self, offset: usize) -> (r: Result<u16, ImageInfoError>)
        ensures
            match r {
                Ok(v) => in_bounds(self@.len(), offset as nat, 2) && v as nat == le16(self@, offset as int),
                Err(e) => !in_bounds(self@.len(), offset as nat, 2) && e == ImageInfoError::IoError,
            },
    {
        if offset > self.data.len() || self.data.len() - offset < 2 {
            return Err(ImageInfoError::IoError);
        }
        Ok(read_le16(self.data, offset))
    }

    /// The big-endian two-byte value at `offset`.
    pub fn read_u16_be(&self, offset: usize) -> (r: Result<u16, ImageInfoError>)
        ensures
            match r {
                Ok(v) => in_bounds(self@.len(), offset as nat, 2) && v as nat == be16(self@, offset as int),
                Err(e) => !in_bounds(self@.len(), offset as nat, 2) && e == ImageInfoError::IoError,
            },
    {
        if offset > self.data.len() || self.data.len() - offset < 2 {
            return Err(ImageInfoError::IoError);
        }
        Ok(read_be16(self.data, offset))
    }

    /// The little-endian four-byte value at `offset`.
    pub fn read_u32_le(&self, offset: usize) -> (r: Result<u32, ImageInfoError>)
        ensures
            match r {
                Ok(v) => in_bounds(self@.len(), offset as nat, 4) && v as nat == le32(self@, offset as int),
                Err(e) => !in_bounds(self@.len(), offset as nat, 4) && e == ImageInfoError::IoError,
            },
    {
        if offset > self.data.len() || self.data.len() - offset < 4 {
            return Err(ImageInfoError::IoError);
        }
        Ok(read_le32(self.data, offset))
    }

    /// The big-endian four-byte value at `offset`.
    pub fn read_u32_be(&self, offset: usize) -> (r: Result<u32, ImageInfoError>)
        ensures
            match r {
                Ok(v) => in_bounds(self@.len(), offset as nat, 4) && v as nat == be32(self@, offset as int),
                Err(e) => !in_bounds(self@.len(), offset as nat, 4) && e == ImageInfoError::IoError,
            },
    {
        if offset > self.data.len() || self.data.len() - offset < 4 {
            return Err(ImageInfoError::IoError);
        }
        Ok(read_be32(self.data, offset))
    }
}

} // verus!
