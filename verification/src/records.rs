//! Count-driven list readers: each reads a known number of fixed-width
//! items and is proved equal to the matching list function of the grammar.

use vstd::prelude::*;

use crate::grammar::{faces_at, geoset_anim_at, sequence_at, texture_at, u32s_at, vec2s_at, vec3s_at};
use crate::model::{Face, GeosetAnim, ParseError, Sequence, Texture, Vec2, Vec3};
use crate::reader::MdxParser;

verus! {

impl MdxParser {
    /// Reads `n` little-endian words, appending them to `out`.
    pub(crate) fn read_u32s(&mut self, n: u32, out: &mut Vec<u32>) -> (r: Result<(), ParseError>)
        requires
            old(self).wf(),
        ensures
            final(self).wf(),
            final(self).bytes() == old(self).bytes(),
            match u32s_at(old(self).bytes(), old(self).posi(), n as nat) {
                Ok(pair) => r is Ok && final(out)@ == old(out)@ + pair.0 && final(self).posi()
                    == pair.1,
                Err(e) => r == Err::<(), ParseError>(e),
            },
    {
        let ghost d = self.bytes();
        let ghost p0 = self.posi();
        let ghost base = out@;
        proof {
            match u32s_at(d, p0, n as nat) {
                Ok(pair) => {
                    assert(base.skip(base.len() as int) + pair.0 =~= pair.0);
                },
                Err(_) => {},
            }
        }
        let mut i: u32 = 0;
        while i < n
            invariant
                d == old(self).bytes(),
                p0 == old(self).posi(),
                base == old(out)@,
                self.wf(),
                self.bytes() == d,
                0 <= i <= n,
                out@.len() == base.len() + i,
                out@.subrange(0, base.len() as int) == base,
                match u32s_at(d, self.posi(), (n - i) as nat) {
                    Ok(pair) => u32s_at(d, p0, n as nat) == Ok::<_, ParseError>(
                        (out@.skip(base.len() as int) + pair.0, pair.1),
                    ),
                    Err(e) => u32s_at(d, p0, n as nat) == Err::<(Seq<u32>, int), _>(e),
                },
            decreases n - i,
        {
            let ghost cur = self.posi();
            let ghost pre = out@;
            match self.read_u32() {
                Ok(v) => {
                    out.push(v);
                    i = i + 1;
                    proof {
                        assert(pre.push(v).subrange(0, base.len() as int) =~= base);
                        match u32s_at(d, self.posi(), (n - i) as nat) {
                            Ok(pair) => {
                                assert(pre.push(v).skip(base.len() as int) + pair.0 =~= pre.skip(
                                    base.len() as int,
                                ) + (seq![v] + pair.0));
                            },
                            Err(_) => {},
                        }
                    }
                },
                Err(e) => {
                    return Err(e);
                },
            }
        }
        Ok(())
    }

    /// Reads `n` 12-byte vectors, appending them to `out`.
    pub(crate) fn read_vec3s(&mut self, n: u32, out: &mut Vec<Vec3>) -> (r: Result<(), ParseError>)
        requires
            old(self).wf(),
        ensures
            final(self).wf(),
            final(self).bytes() == old(self).bytes(),
            match vec3s_at(old(self).bytes(), old(self).posi(), n as nat) {
                Ok(pair) => r is Ok && final(out)@ == old(out)@ + pair.0 && final(self).posi()
                    == pair.1,
                Err(e) => r == Err::<(), ParseError>(e),
            },
    {
        let ghost d = self.bytes();
        let ghost p0 = self.posi();
        let ghost base = out@;
        proof {
            match vec3s_at(d, p0, n as nat) {
                Ok(pair) => {
                    assert(base.skip(base.len() as int) + pair.0 =~= pair.0);
                },
                Err(_) => {},
            }
        }
        let mut i: u32 = 0;
        while i < n
            invariant
                d == old(self).bytes(),
                p0 == old(self).posi(),
                base == old(out)@,
                self.wf(),
                self.bytes() == d,
                0 <= i <= n,
                out@.len() == base.len() + i,
                out@.subrange(0, base.len() as int) == base,
                match vec3s_at(d, self.posi(), (n - i) as nat) {
                    Ok(pair) => vec3s_at(d, p0, n as nat) == Ok::<_, ParseError>(
                        (out@.skip(base.len() as int) + pair.0, pair.1),
                    ),
                    Err(e) => vec3s_at(d, p0, n as nat) == Err::<(Seq<Vec3>, int), _>(e),
                },
            decreases n - i,
        {
            let ghost cur = self.posi();
            let ghost pre = out@;
            match self.read_vec3() {
                Ok(v) => {
                    out.push(v);
                    i = i + 1;
                    proof {
                        assert(pre.push(v).subrange(0, base.len() as int) =~= base);
                        match vec3s_at(d, self.posi(), (n - i) as nat) {
                            Ok(pair) => {
                                assert(pre.push(v).skip(base.len() as int) + pair.0 =~= pre.skip(
                                    base.len() as int,
                                ) + (seq![v] + pair.0));
                            },
                            Err(_) => {},
                        }
                    }
                },
                Err(e) => {
                    return Err(e);
                },
            }
        }
        Ok(())
    }

    /// Reads `n` texture coordinate pairs, appending them to `out`.
    pub(crate) fn read_vec2s(&mut self, n: u32, out: &mut Vec<Vec2>) -> (r: Result<(), ParseError>)
        requires
            old(self).wf(),
        ensures
            final(self).wf(),
            final(self).bytes() == old(self).bytes(),
            match vec2s_at(old(self).bytes(), old(self).posi(), n as nat) {
                Ok(pair) => r is Ok && final(out)@ == old(out)@ + pair.0 && final(self).posi()
                    == pair.1,
                Err(e) => r == Err::<(), ParseError>(e),
            },
    {
        let ghost d = self.bytes();
        let ghost p0 = self.posi();
        let ghost base = out@;
        proof {
            match vec2s_at(d, p0, n as nat) {
                Ok(pair) => {
                    assert(base.skip(base.len() as int) + pair.0 =~= pair.0);
                },
                Err(_) => {},
            }
        }
        let mut i: u32 = 0;
        while i < n
            invariant
                d == old(self).bytes(),
                p0 == old(self).posi(),
                base == old(out)@,
                self.wf(),
                self.bytes() == d,
                0 <= i <= n,
                out@.len() == base.len() + i,
                out@.subrange(0, base.len() as int) == base,
                match vec2s_at(d, self.posi(), (n - i) as nat) {
                    Ok(pair) => vec2s_at(d, p0, n as nat) == Ok::<_, ParseError>(
                        (out@.skip(base.len() as int) + pair.0, pair.1),
                    ),
                    Err(e) => vec2s_at(d, p0, n as nat) == Err::<(Seq<Vec2>, int), _>(e),
                },
            decreases n - i,
        {
            let ghost cur = self.posi();
            let ghost pre = out@;
            match self.read_vec2() {
                Ok(v) => {
                    out.push(v);
                    i = i + 1;
                    proof {
                        assert(pre.push(v).subrange(0, base.len() as int) =~= base);
                        match vec2s_at(d, self.posi(), (n - i) as nat) {
                            Ok(pair) => {
                                assert(pre.push(v).skip(base.len() as int) + pair.0 =~= pre.skip(
                                    base.len() as int,
                                ) + (seq![v] + pair.0));
                            },
                            Err(_) => {},
                        }
                    }
                },
                Err(e) => {
                    return Err(e);
                },
            }
        }
        Ok(())
    }

    /// Reads `n` triangles of three indices, appending them to `out`.
    pub(crate) fn read_faces(&mut self, n: u32, out: &mut Vec<Face>) -> (r: Result<(), ParseError>)
        requires
            old(self).wf(),
        ensures
            final(self).wf(),
            final(self).bytes() == old(self).bytes(),
            match faces_at(old(self).bytes(), old(self).posi(), n as nat) {
                Ok(pair) => r is Ok && final(out)@ == old(out)@ + pair.0 && final(self).posi()
                    == pair.1,
                Err(e) => r == Err::<(), ParseError>(e),
            },
    {
        let ghost d = self.bytes();
        let ghost p0 = self.posi();
        let ghost base = out@;
        proof {
            match faces_at(d, p0, n as nat) {
                Ok(pair) => {
                    assert(base.skip(base.len() as int) + pair.0 =~= pair.0);
                },
                Err(_) => {},
            }
        }
        let mut i: u32 = 0;
        while i < n
            invariant
                d == old(self).bytes(),
                p0 == old(self).posi(),
                base == old(out)@,
                self.wf(),
                self.bytes() == d,
                0 <= i <= n,
                out@.len() == base.len() + i,
                out@.subrange(0, base.len() as int) == base,
                match faces_at(d, self.posi(), (n - i) as nat) {
                    Ok(pair) => faces_at(d, p0, n as nat) == Ok::<_, ParseError>(
                        (out@.skip(base.len() as int) + pair.0, pair.1),
                    ),
                    Err(e) => faces_at(d, p0, n as nat) == Err::<(Seq<Face>, int), _>(e),
                },
            decreases n - i,
        {
            let ghost cur = self.posi();
            let ghost pre = out@;
            match self.read_face() {
                Ok(v) => {
                    out.push(v);
                    i = i + 1;
                    proof {
                        assert(pre.push(v).subrange(0, base.len() as int) =~= base);
                        match faces_at(d, self.posi(), (n - i) as nat) {
                            Ok(pair) => {
                                assert(pre.push(v).skip(base.len() as int) + pair.0 =~= pre.skip(
                                    base.len() as int,
                                ) + (seq![v] + pair.0));
                            },
                            Err(_) => {},
                        }
                    }
                },
                Err(e) => {
                    return Err(e);
                },
            }
        }
        Ok(())
    }

    /// Reads one texture coordinate pair.
    pub(crate) fn read_vec2(&mut self) -> (r: Result<Vec2, ParseError>)
        requires
            old(self).wf(),
        ensures
            final(self).wf(),
            final(self).bytes() == old(self).bytes(),
            old(self).posi() + 8 <= final(self).bytes().len() ==> (r matches Ok(v) && v == (Vec2 {
                u: crate::wire::le32_at(final(self).bytes(), old(self).posi()),
                v: crate::wire::le32_at(final(self).bytes(), old(self).posi() + 4),
            }) && final(self).posi() == old(self).posi() + 8),
            old(self).posi() + 8 > final(self).bytes().len() ==> (r matches Err(e) && e
                == ParseError::UnexpectedEof),
    {
        let u = self.read_scalar()?;
        let v = self.read_scalar()?;
        Ok(Vec2 { u, v })
    }

    /// Reads one triangle of three little-endian `u16` indices.
    pub(crate) fn read_face(&mut self) -> (r: Result<Face, ParseError>)
        requires
            old(self).wf(),
        ensures
            final(self).wf(),
            final(self).bytes() == old(self).bytes(),
            old(self).posi() + 6 <= final(self).bytes().len() ==> (r matches Ok(v) && v == (Face {
                indices: [
                    crate::wire::le16_at(final(self).bytes(), old(self).posi()),
                    crate::wire::le16_at(final(self).bytes(), old(self).posi() + 2),
                    crate::wire::le16_at(final(self).bytes(), old(self).posi() + 4),
                ],
            }) && final(self).posi() == old(self).posi() + 6),
            old(self).posi() + 6 > final(self).bytes().len() ==> (r matches Err(e) && e
                == ParseError::UnexpectedEof),
    {
        let i0 = self.read_u16()?;
        let i1 = self.read_u16()?;
        let i2 = self.read_u16()?;
        Ok(Face { indices: [i0, i1, i2] })
    }

    /// Reads `n` raw bytes, appending them to `out`.
    pub(crate) fn read_bytes(&mut self, n: u32, out: &mut Vec<u8>) -> (r: Result<(), ParseError>)
        requires
            old(self).wf(),
        ensures
            final(self).wf(),
            final(self).bytes() == old(self).bytes(),
            old(self).posi() + n <= final(self).bytes().len() ==> (r is Ok
                && final(out)@ == old(out)@ + final(self).bytes().subrange(
                    old(self).posi(),
                    old(self).posi() + n,
                )
                && final(self).posi() == old(self).posi() + n),
            old(self).posi() + n > final(self).bytes().len() ==> (r matches Err(e) && e
                == ParseError::UnexpectedEof),
    {
        let ghost d = self.bytes();
        let ghost p0 = self.posi();
        let ghost base = out@;
        if (n as usize) > self.remaining() {
            return Err(ParseError::UnexpectedEof);
        }
        proof {
            assert(base + d.subrange(p0, p0) =~= base);
        }
        let mut i: u32 = 0;
        while i < n
            invariant
                d == old(self).bytes(),
                p0 == old(self).posi(),
                base == old(out)@,
                self.wf(),
                self.bytes() == d,
                0 <= i <= n,
                0 <= p0,
                p0 + n <= d.len(),
                self.posi() == p0 + i,
                out@ == base + d.subrange(p0, p0 + i),
            decreases n - i,
        {
            let ghost pre = out@;
            match self.read_u8() {
                Ok(v) => {
                    out.push(v);
                    i = i + 1;
                    proof {
                        assert(d.subrange(p0, p0 + i) =~= d.subrange(p0, p0 + i - 1).push(
                            d[p0 + i - 1],
                        ));
                        assert(pre.push(v) =~= base + d.subrange(p0, p0 + i));
                    }
                },
                Err(e) => {
                    proof {
                        assert(false);
                    }
                    return Err(e);
                },
            }
        }
        Ok(())
    }

    /// Reads one 132-byte sequence record.
    pub(crate) fn read_sequence(&mut self) -> (r: Result<Sequence, ParseError>)
        requires
            old(self).wf(),
        ensures
            final(self).wf(),
            final(self).bytes() == old(self).bytes(),
            old(self).posi() + 132 <= final(self).bytes().len() ==> (r matches Ok(s)
                && s.deep_view() == sequence_at(final(self).bytes(), old(self).posi())
                && final(self).posi() == old(self).posi() + 132),
            old(self).posi() + 132 > final(self).bytes().len() ==> (r matches Err(e) && e
                == ParseError::UnexpectedEof),
    {
        let name = self.read_string(80)?;
        let interval_start = self.read_u32()?;
        let interval_end = self.read_u32()?;
        let move_speed = self.read_scalar()?;
        let non_looping_raw = self.read_u32()?;
        let rarity = self.read_scalar()?;
        // Sync point, unused.
        self.read_u32()?;
        let (radius, emin, emax) = self.read_extent()?;
        Ok(
            Sequence {
                name,
                interval: [interval_start, interval_end],
                move_speed,
                non_looping: non_looping_raw > 0,
                rarity,
                minimum_extent: emin,
                maximum_extent: emax,
                bounds_radius: radius,
            },
        )
    }

    /// Reads one 268-byte texture record.
    pub(crate) fn read_texture(&mut self) -> (r: Result<Texture, ParseError>)
        requires
            old(self).wf(),
        ensures
            final(self).wf(),
            final(self).bytes() == old(self).bytes(),
            old(self).posi() + 268 <= final(self).bytes().len() ==> (r matches Ok(t)
                && t.deep_view() == texture_at(final(self).bytes(), old(self).posi())
                && final(self).posi() == old(self).posi() + 268),
            old(self).posi() + 268 > final(self).bytes().len() ==> (r matches Err(e) && e
                == ParseError::UnexpectedEof),
    {
        let replaceable_id = self.read_u32()?;
        let path = self.read_path_string(256)?;
        // Unknown word, unused.
        self.read_u32()?;
        let flags = self.read_u32()?;
        Ok(Texture { replaceable_id, path, flags })
    }

    /// Reads one 28-byte geoset animation record.
    pub(crate) fn read_geoset_anim(&mut self) -> (r: Result<GeosetAnim, ParseError>)
        requires
            old(self).wf(),
        ensures
            final(self).wf(),
            final(self).bytes() == old(self).bytes(),
            old(self).posi() + 28 <= final(self).bytes().len() ==> (r matches Ok(a)
                && a.deep_view() == geoset_anim_at(final(self).bytes(), old(self).posi())
                && final(self).posi() == old(self).posi() + 28),
            old(self).posi() + 28 > final(self).bytes().len() ==> (r matches Err(e) && e
                == ParseError::UnexpectedEof),
    {
        // Per-record size word, unused.
        self.read_u32()?;
        let alpha = self.read_scalar()?;
        let flags = self.read_u32()?;
        let color = self.read_vec3()?;
        let geoset_raw = self.read_u32()?;
        Ok(
            GeosetAnim {
                geoset_id: if geoset_raw == 0xFFFF_FFFFu32 {
                    None
                } else {
                    Some(geoset_raw)
                },
                alpha,
                color: Some(color),
                flags,
            },
        )
    }
}

} // verus!
