//! The positioned byte cursor the parser reads through.
//!
//! Every successful read advances the cursor by the width of the datum and
//! returns exactly the little-endian value of those bytes; a read that would
//! pass the end of the input fails with `UnexpectedEof` and leaves the
//! cursor where it was.  Seeks are bounded by the input: a record or chunk
//! whose declared size points past end-of-input is rejected as `Corrupt`
//! rather than silently accepted.

use vstd::prelude::*;

use crate::model::{ParseError, Vec3};
use crate::wire::{
    all_ascii, ascii_chars, le16_at, le32_at, le32i_at, lemma_first_non_nul_witness,
    lemma_first_nul_witness, nul_prefix, path_slice, utf8_lossy_of,
};

verus! {

/// The single-precision scalar (as bits) stored at `p`: x, then y, then z.
pub open spec fn vec3_at(d: Seq<u8>, p: int) -> Vec3 {
    Vec3 { x: le32_at(d, p), y: le32_at(d, p + 4), z: le32_at(d, p + 8) }
}

/// An extent block: bounds radius, then minimum extent, then maximum
/// extent; 28 bytes in all.
pub open spec fn extent_at(d: Seq<u8>, p: int) -> (u32, Vec3, Vec3) {
    (le32_at(d, p), vec3_at(d, p + 4), vec3_at(d, p + 16))
}

/// A cursor over a fully buffered MDX file.
pub struct MdxParser {
    data: Vec<u8>,
    pos: usize,
}

impl MdxParser {
    /// The bytes being parsed.
    pub closed spec fn bytes(self) -> Seq<u8> {
        self.data@
    }

    /// The cursor position.
    pub closed spec fn posi(self) -> int {
        self.pos as int
    }

    /// The cursor never passes the end of the input.
    pub open spec fn wf(self) -> bool {
        0 <= self.posi() <= self.bytes().len()
    }

    /// Wraps a fully buffered file for parsing.
    pub fn new(data: Vec<u8>) -> (r: Result<MdxParser, String>)
        ensures
            r is Ok,
            r matches Ok(p) ==> p.wf() && p.bytes() == data@ && p.posi() == 0,
    {
        Ok(MdxParser { data, pos: 0 })
    }

    /// The current cursor position.
    pub fn position(&self) -> (r: u64)
        requires
            self.wf(),
        ensures
            r == self.posi(),
    {
        self.pos as u64
    }

    /// The cursor position as a vector index.
    pub(crate) fn cur(&self) -> (r: usize)
        requires
            self.wf(),
        ensures
            r == self.posi(),
    {
        self.pos
    }

    /// Whether the cursor still lies before `start + size`, the end of the
    /// enclosing chunk or record.
    pub(crate) fn before(&self, start: usize, size: u32) -> (r: bool)
        requires
            self.wf(),
            start <= self.posi(),
        ensures
            r == (self.posi() < start + size),
    {
        (self.pos - start) < (size as usize)
    }

    /// How many bytes remain before end-of-input.
    pub(crate) fn remaining(&self) -> (r: usize)
        requires
            self.wf(),
        ensures
            r == self.bytes().len() - self.posi(),
    {
        self.data.len() - self.pos
    }

    /// Reads one byte.
    pub(crate) fn read_u8(&mut self) -> (r: Result<u8, ParseError>)
        requires
            old(self).wf(),
        ensures
            final(self).wf(),
            final(self).bytes() == old(self).bytes(),
            old(self).posi() + 1 <= final(self).bytes().len() ==> (r matches Ok(v) && v == final(self).bytes()[
                old(self).posi()] && final(self).posi() == old(self).posi() + 1),
            old(self).posi() + 1 > final(self).bytes().len() ==> (r matches Err(e) && e
                == ParseError::UnexpectedEof && *final(self) == *old(self)),
    {
        if self.pos < self.data.len() {
            let v = self.data[self.pos];
            self.pos = self.pos + 1;
            Ok(v)
        } else {
            Err(ParseError::UnexpectedEof)
        }
    }

    /// Reads a little-endian `u16`.
    pub(crate) fn read_u16(&mut self) -> (r: Result<u16, ParseError>)
        requires
            old(self).wf(),
        ensures
            final(self).wf(),
            final(self).bytes() == old(self).bytes(),
            old(self).posi() + 2 <= final(self).bytes().len() ==> (r matches Ok(v) && v == le16_at(
                final(self).bytes(),
                old(self).posi(),
            ) && final(self).posi() == old(self).posi() + 2),
            old(self).posi() + 2 > final(self).bytes().len() ==> (r matches Err(e) && e
                == ParseError::UnexpectedEof && *final(self) == *old(self)),
    {
        if self.data.len() - self.pos >= 2 {
            let b0 = self.data[self.pos];
            let b1 = self.data[self.pos + 1];
            self.pos = self.pos + 2;
            Ok((b0 as u16) | ((b1 as u16) << 8u16))
        } else {
            Err(ParseError::UnexpectedEof)
        }
    }

    /// Reads a little-endian `u32`.
    pub(crate) fn read_u32(&mut self) -> (r: Result<u32, ParseError>)
        requires
            old(self).wf(),
        ensures
            final(self).wf(),
            final(self).bytes() == old(self).bytes(),
            old(self).posi() + 4 <= final(self).bytes().len() ==> (r matches Ok(v) && v == le32_at(
                final(self).bytes(),
                old(self).posi(),
            ) && final(self).posi() == old(self).posi() + 4),
            old(self).posi() + 4 > final(self).bytes().len() ==> (r matches Err(e) && e
                == ParseError::UnexpectedEof && *final(self) == *old(self)),
    {
        if self.data.len() - self.pos >= 4 {
            let b0 = self.data[self.pos];
            let b1 = self.data[self.pos + 1];
            let b2 = self.data[self.pos + 2];
            let b3 = self.data[self.pos + 3];
            self.pos = self.pos + 4;
            Ok((b0 as u32) | ((b1 as u32) << 8u32) | ((b2 as u32) << 16u32) | ((b3 as u32)
                << 24u32))
        } else {
            Err(ParseError::UnexpectedEof)
        }
    }

    /// Reads a little-endian `i32`.
    pub(crate) fn read_i32(&mut self) -> (r: Result<i32, ParseError>)
        requires
            old(self).wf(),
        ensures
            final(self).wf(),
            final(self).bytes() == old(self).bytes(),
            old(self).posi() + 4 <= final(self).bytes().len() ==> (r matches Ok(v) && v == le32i_at(
                final(self).bytes(),
                old(self).posi(),
            ) && final(self).posi() == old(self).posi() + 4),
            old(self).posi() + 4 > final(self).bytes().len() ==> (r matches Err(e) && e
                == ParseError::UnexpectedEof && *final(self) == *old(self)),
    {
        match self.read_u32() {
            Ok(v) => Ok(
                #[verifier::truncate]
                (v as i32),
            ),
            Err(e) => Err(e),
        }
    }

    /// Reads the bit pattern of a single-precision scalar.
    pub(crate) fn read_scalar(&mut self) -> (r: Result<u32, ParseError>)
        requires
            old(self).wf(),
        ensures
            final(self).wf(),
            final(self).bytes() == old(self).bytes(),
            old(self).posi() + 4 <= final(self).bytes().len() ==> (r matches Ok(v) && v == le32_at(
                final(self).bytes(),
                old(self).posi(),
            ) && final(self).posi() == old(self).posi() + 4),
            old(self).posi() + 4 > final(self).bytes().len() ==> (r matches Err(e) && e
                == ParseError::UnexpectedEof && *final(self) == *old(self)),
    {
        self.read_u32()
    }

    /// Reads a four-byte chunk tag.
    pub fn read_keyword(&mut self) -> (r: Result<[u8; 4], ParseError>)
        requires
            old(self).wf(),
        ensures
            final(self).wf(),
            final(self).bytes() == old(self).bytes(),
            old(self).posi() + 4 <= final(self).bytes().len() ==> (r matches Ok(k) && k@ == final(self).bytes()
                .subrange(old(self).posi(), old(self).posi() + 4) && final(self).posi() == old(
                self,
            ).posi() + 4),
            old(self).posi() + 4 > final(self).bytes().len() ==> (r matches Err(e) && e
                == ParseError::UnexpectedEof && *final(self) == *old(self)),
    {
        if self.data.len() - self.pos >= 4 {
            let k = [
                self.data[self.pos],
                self.data[self.pos + 1],
                self.data[self.pos + 2],
                self.data[self.pos + 3],
            ];
            self.pos = self.pos + 4;
            proof {
                assert(k@ =~= self.bytes().subrange(old(self).posi(), old(self).posi() + 4));
            }
            Ok(k)
        } else {
            Err(ParseError::UnexpectedEof)
        }
    }

    /// Reads three scalars in order x, y, z.
    pub(crate) fn read_vec3(&mut self) -> (r: Result<Vec3, ParseError>)
        requires
            old(self).wf(),
        ensures
            final(self).wf(),
            final(self).bytes() == old(self).bytes(),
            old(self).posi() + 12 <= final(self).bytes().len() ==> (r matches Ok(v) && v == vec3_at(
                final(self).bytes(),
                old(self).posi(),
            ) && final(self).posi() == old(self).posi() + 12),
            old(self).posi() + 12 > final(self).bytes().len() ==> (r matches Err(e) && e
                == ParseError::UnexpectedEof && final(self).posi() <= old(self).posi() + 12),
    {
        let x = self.read_scalar()?;
        let y = self.read_scalar()?;
        let z = self.read_scalar()?;
        Ok(Vec3 { x, y, z })
    }

    /// Reads an extent block: bounds radius, minimum extent, maximum extent.
    pub(crate) fn read_extent(&mut self) -> (r: Result<(u32, Option<Vec3>, Option<Vec3>),
        ParseError>)
        requires
            old(self).wf(),
        ensures
            final(self).wf(),
            final(self).bytes() == old(self).bytes(),
            old(self).posi() + 28 <= final(self).bytes().len() ==> (r matches Ok(v) && {
                let (radius, emin, emax) = extent_at(final(self).bytes(), old(self).posi());
                v == (radius, Some(emin), Some(emax)) && final(self).posi() == old(self).posi() + 28
            }),
            old(self).posi() + 28 > final(self).bytes().len() ==> (r matches Err(e) && e
                == ParseError::UnexpectedEof && final(self).posi() <= old(self).posi() + 28),
    {
        let radius = self.read_scalar()?;
        let emin = self.read_vec3()?;
        let emax = self.read_vec3()?;
        Ok((radius, Some(emin), Some(emax)))
    }

    /// Reads a fixed-width string slot of `length` bytes; the logical string
    /// is the prefix up to the first null byte, and all `length` bytes are
    /// consumed.
    pub fn read_string(&mut self, length: usize) -> (r: Result<String, ParseError>)
        requires
            old(self).wf(),
        ensures
            final(self).wf(),
            final(self).bytes() == old(self).bytes(),
            old(self).posi() + length <= final(self).bytes().len() ==> (r matches Ok(s) && {
                let slot = final(self).bytes().subrange(old(self).posi(), old(self).posi() + length);
                &&& s@ == utf8_lossy_of(nul_prefix(slot))
                &&& (all_ascii(nul_prefix(slot)) ==> s@ == ascii_chars(nul_prefix(slot)))
                &&& final(self).posi() == old(self).posi() + length
            }),
            old(self).posi() + length > final(self).bytes().len() ==> (r matches Err(e) && e
                == ParseError::UnexpectedEof && *final(self) == *old(self)),
    {
        if self.data.len() - self.pos < length {
            return Err(ParseError::UnexpectedEof);
        }
        let ghost slot = self.bytes().subrange(self.posi(), self.posi() + length);
        let mut buf: Vec<u8> = Vec::new();
        let mut i: usize = 0;
        let mut hit_nul: bool = false;
        while i < length && !hit_nul
            invariant
                self.wf(),
                self.pos + length <= self.data.len(),
                self.posi() + length <= self.bytes().len(),
                slot == self.bytes().subrange(self.posi(), self.posi() + length),
                0 <= i <= length,
                !hit_nul ==> buf@ == slot.subrange(0, i as int) && (forall|k: int|
                    0 <= k < i ==> slot[k] != 0),
                hit_nul ==> i >= 1 && buf@ == slot.subrange(0, i - 1) && slot[i - 1] == 0 && (
                forall|k: int| 0 <= k < i - 1 ==> slot[k] != 0),
            decreases length - i,
        {
            let b = self.data[self.pos + i];
            proof {
                assert(b == slot[i as int]);
            }
            if b == 0 {
                hit_nul = true;
            } else {
                buf.push(b);
                proof {
                    assert(buf@ =~= slot.subrange(0, i + 1));
                }
            }
            i = i + 1;
        }
        proof {
            if hit_nul {
                lemma_first_nul_witness(slot, i - 1);
            } else {
                lemma_first_nul_witness(slot, length as int);
            }
            assert(buf@ =~= nul_prefix(slot));
        }
        let s = utf8_lossy(&buf);
        self.pos = self.pos + length;
        Ok(s)
    }

    /// Reads a 256-byte texture path slot.  The slot may be populated
    /// right-aligned: leading nulls are stripped before cutting at the next
    /// null.  All `length` bytes are consumed.
    pub(crate) fn read_path_string(&mut self, length: usize) -> (r: Result<String, ParseError>)
        requires
            old(self).wf(),
        ensures
            final(self).wf(),
            final(self).bytes() == old(self).bytes(),
            old(self).posi() + length <= final(self).bytes().len() ==> (r matches Ok(s) && {
                let slot = final(self).bytes().subrange(old(self).posi(), old(self).posi() + length);
                &&& s@ == utf8_lossy_of(path_slice(slot))
                &&& (all_ascii(path_slice(slot)) ==> s@ == ascii_chars(path_slice(slot)))
                &&& final(self).posi() == old(self).posi() + length
            }),
            old(self).posi() + length > final(self).bytes().len() ==> (r matches Err(e) && e
                == ParseError::UnexpectedEof && *final(self) == *old(self)),
    {
        if self.data.len() - self.pos < length {
            return Err(ParseError::UnexpectedEof);
        }
        let ghost slot = self.bytes().subrange(self.posi(), self.posi() + length);
        let mut start: usize = 0;
        while start < length && self.data[self.pos + start] == 0
            invariant
                self.wf(),
                self.pos + length <= self.data.len(),
                self.posi() + length <= self.bytes().len(),
                slot == self.bytes().subrange(self.posi(), self.posi() + length),
                0 <= start <= length,
                forall|k: int| 0 <= k < start ==> slot[k] == 0,
            decreases length - start,
        {
            start = start + 1;
        }
        proof {
            lemma_first_non_nul_witness(slot, start as int);
        }
        let ghost tail = slot.subrange(start as int, length as int);
        let mut buf: Vec<u8> = Vec::new();
        let mut i: usize = start;
        let mut hit_nul: bool = false;
        while i < length && !hit_nul
            invariant
                self.wf(),
                self.pos + length <= self.data.len(),
                self.posi() + length <= self.bytes().len(),
                slot == self.bytes().subrange(self.posi(), self.posi() + length),
                tail == slot.subrange(start as int, length as int),
                start <= i <= length,
                !hit_nul ==> buf@ == tail.subrange(0, i - start) && (forall|k: int|
                    start <= k < i ==> slot[k] != 0),
                hit_nul ==> i >= start + 1 && buf@ == tail.subrange(0, i - start - 1) && slot[i
                    - 1] == 0 && (forall|k: int| start <= k < i - 1 ==> slot[k] != 0),
            decreases length - i,
        {
            let b = self.data[self.pos + i];
            proof {
                assert(b == slot[i as int]);
            }
            if b == 0 {
                hit_nul = true;
            } else {
                buf.push(b);
                proof {
                    assert(buf@ =~= tail.subrange(0, i + 1 - start));
                }
            }
            i = i + 1;
        }
        proof {
            assert(forall|k: int|
                0 <= k < tail.len() ==> tail[k] == slot[k + start]);
            if hit_nul {
                lemma_first_nul_witness(tail, i - start - 1);
            } else {
                lemma_first_nul_witness(tail, (length - start) as int);
            }
            assert(buf@ =~= nul_prefix(tail));
        }
        let s = utf8_lossy(&buf);
        self.pos = self.pos + length;
        Ok(s)
    }

    /// Discards any trailing bytes: moves the cursor to end-of-input.
    pub(crate) fn finish(&mut self)
        requires
            old(self).wf(),
        ensures
            final(self).wf(),
            final(self).bytes() == old(self).bytes(),
            final(self).posi() == final(self).bytes().len(),
    {
        self.pos = self.data.len();
    }

    /// Moves the cursor to `base + offset`, failing with `Corrupt` when that
    /// position lies past end-of-input.
    pub(crate) fn seek_from(&mut self, base: usize, offset: u32) -> (r: Result<(), ParseError>)
        requires
            old(self).wf(),
            base <= old(self).bytes().len(),
        ensures
            final(self).wf(),
            final(self).bytes() == old(self).bytes(),
            base + offset <= final(self).bytes().len() ==> r is Ok && final(self).posi() == base + offset,
            base + offset > final(self).bytes().len() ==> (r matches Err(e) && e == ParseError::Corrupt
                && *final(self) == *old(self)),
    {
        let room = self.data.len() - base;
        if offset as usize <= room {
            self.pos = base + offset as usize;
            Ok(())
        } else {
            Err(ParseError::Corrupt)
        }
    }

    /// Advances the cursor by `count * width` bytes, failing with `Corrupt`
    /// when fewer bytes remain.
    pub(crate) fn skip_items(&mut self, count: u32, width: u32) -> (r: Result<(), ParseError>)
        requires
            old(self).wf(),
            width <= 16,
        ensures
            final(self).wf(),
            final(self).bytes() == old(self).bytes(),
            old(self).posi() + count * width <= final(self).bytes().len() ==> r is Ok && final(self).posi()
                == old(self).posi() + count * width,
            old(self).posi() + count * width > final(self).bytes().len() ==> (r matches Err(e) && e
                == ParseError::Corrupt && *final(self) == *old(self)),
    {
        let ghost c = count as int;
        let ghost w = width as int;
        proof {
            assert(c * w <= 0xFFFF_FFFF * 16) by (nonlinear_arith)
                requires
                    0 <= c <= 0xFFFF_FFFF,
                    0 <= w <= 16,
            ;
        }
        let total: u64 = (count as u64) * (width as u64);
        let room: u64 = (self.data.len() - self.pos) as u64;
        if total <= room {
            proof {
                assert(old(self).posi() + count * width <= self.bytes().len());
            }
            self.pos = self.pos + (total as usize);
            Ok(())
        } else {
            Err(ParseError::Corrupt)
        }
    }
}

/// Relies on `String::from_utf8_lossy`: invalid UTF-8 sequences are replaced
/// with the Unicode replacement character, and ASCII bytes decode
/// one-for-one into the same characters.
#[verifier::external_body]
fn utf8_lossy(b: &Vec<u8>) -> (r: String)
    ensures
        r@ == utf8_lossy_of(b@),
        all_ascii(b@) ==> r@ == ascii_chars(b@),
{
    String::from_utf8_lossy(b).into_owned()
}

} // verus!
