//! The `sidx` segment index box: per-segment sizes, durations and
//! stream-access-point data for DASH-style files.

use vstd::prelude::*;

use crate::bigend::be16;
use crate::bigend::be24;
use crate::bigend::be32;
use crate::bigend::be64;
use crate::bigend::put_u16;
use crate::bigend::put_u32;
use crate::bigend::put_u64;
use crate::bigend::read_u16;
use crate::bigend::read_u32;
use crate::bigend::read_u64;
use crate::bigend::u16_be;
use crate::bigend::u32_be;
use crate::bigend::u64_be;
use crate::boxhead::read_box_header_ext;
use crate::boxhead::spec_ext_bytes;
use crate::boxhead::write_box_header_ext;
use crate::boxhead::BoxHeader;
use crate::boxhead::BoxType;
use crate::boxhead::HEADER_EXT_SIZE;
use crate::boxhead::HEADER_SIZE;
use crate::error::Error;

verus! {

/// One reference entry of a segment index.
#[derive(Debug, Clone, Copy, PartialEq, Eq, Structural)]
pub struct Segment {
    pub reference_type: bool,
    pub reference_size: u32,
    pub subsegment_duration: u32,
    pub starts_with_sap: bool,
    pub sap_type: u8,
    pub sap_delta_time: u32,
}

/// The segment index box.
#[derive(Debug, Clone, PartialEq, Eq)]
pub struct SidxBox {
    pub version: u8,
    pub flags: u32,
    pub reference_id: u32,
    pub timescale: u32,
    pub earliest_presentation_time: u64,
    pub first_offset: u64,
    pub reserved: u16,
    pub reference_count: u16,
    pub segments: Vec<Segment>,
}

/// The scalar fields of a parsed `sidx`, without the segment list.
#[derive(Debug, Clone, Copy, PartialEq, Eq, Structural)]
pub struct SidxHead {
    pub version: u8,
    pub flags: u32,
    pub reference_id: u32,
    pub timescale: u32,
    pub earliest_presentation_time: u64,
    pub first_offset: u64,
    pub reserved: u16,
    pub reference_count: u16,
}

/// The segment starting at byte `off` of `s`. The three-bit SAP type is
/// taken from bits 28 to 30 of the third word.
pub open spec fn spec_segment_at(s: Seq<u8>, off: int) -> Segment {
    let w0 = be32(s[off], s[off + 1], s[off + 2], s[off + 3]);
    let w1 = be32(s[off + 4], s[off + 5], s[off + 6], s[off + 7]);
    let w2 = be32(s[off + 8], s[off + 9], s[off + 10], s[off + 11]);
    Segment {
        reference_type: (w0 >> 31) == 1,
        reference_size: w0 & 0x7FFFFFFF,
        subsegment_duration: w1,
        starts_with_sap: (w2 >> 31) == 1,
        sap_type: ((w2 >> 28) & 0x7) as u8,
        sap_delta_time: w2 & 0x0FFFFFFF,
    }
}

impl Segment {
    /// Fields small enough for their packed bit ranges.
    pub open spec fn wf(self) -> bool {
        &&& self.reference_size <= 0x7FFFFFFF
        &&& self.sap_type <= 0x7
        &&& self.sap_delta_time <= 0x0FFFFFFF
    }

    pub open spec fn spec_pack_reference(self) -> u32 {
        ((if self.reference_type {
            1u32
        } else {
            0u32
        }) << 31) | self.reference_size
    }

    pub open spec fn spec_pack_sap(self) -> u32 {
        ((if self.starts_with_sap {
            1u32
        } else {
            0u32
        }) << 31) | ((self.sap_type as u32) << 28) | self.sap_delta_time
    }

    /// The 12-byte wire form.
    pub open spec fn spec_bytes(self) -> Seq<u8> {
        u32_be(self.spec_pack_reference()) + u32_be(self.subsegment_duration) + u32_be(
            self.spec_pack_sap(),
        )
    }

    pub fn size(&self) -> (r: usize)
        ensures
            r == 12,
    {
        12
    }

    pub fn read(buf: &Vec<u8>, pos: usize) -> (r: Result<(Segment, usize), Error>)
        ensures
            pos + 12 <= buf@.len() ==> (r matches Ok(v) && v.0 == spec_segment_at(
                buf@,
                pos as int,
            ) && v.1 == pos + 12),
            pos + 12 > buf@.len() ==> (r matches Err(e) && e == Error::IoError),
    {
        let (reference, p1) = match read_u32(buf, pos) {
            Ok(v) => v,
            Err(e) => { return Err(e); },
        };
        let reference_type = (reference >> 31) == 1;
        let reference_size = reference & 0x7FFFFFFF;
        let (subsegment_duration, p2) = match read_u32(buf, p1) {
            Ok(v) => v,
            Err(e) => { return Err(e); },
        };
        let (sap, p3) = match read_u32(buf, p2) {
            Ok(v) => v,
            Err(e) => { return Err(e); },
        };
        let starts_with_sap = (sap >> 31) == 1;
        let sap_type = ((sap >> 28) & 0x7) as u8;
        let sap_delta_time = sap & 0x0FFFFFFF;
        Ok(
            (
                Segment {
                    reference_type,
                    reference_size,
                    subsegment_duration,
                    starts_with_sap,
                    sap_type,
                    sap_delta_time,
                },
                p3,
            ),
        )
    }

    pub fn write(&self, out: &mut Vec<u8>) -> (r: Result<u64, Error>)
        requires
            self.wf(),
        ensures
            final(out)@ == old(out)@ + self.spec_bytes(),
            r == Ok::<u64, Error>(12),
    {
        let reference_type_flag: u32 = (if self.reference_type {
            1u32
        } else {
            0u32
        }) << 31;
        put_u32(out, reference_type_flag | self.reference_size);
        put_u32(out, self.subsegment_duration);
        let starts_with_sap_flag: u32 = (if self.starts_with_sap {
            1u32
        } else {
            0u32
        }) << 31;
        let sap_type: u32 = (self.sap_type as u32) << 28;
        put_u32(out, starts_with_sap_flag | sap_type | self.sap_delta_time);
        assert(out@ =~= old(out)@ + self.spec_bytes());
        Ok(12)
    }

    /// Parsing the wire form of a well-formed segment yields it back.
    pub proof fn lemma_round_trip(self)
        requires
            self.wf(),
        ensures
            spec_segment_at(self.spec_bytes(), 0) == self,
    {
        let w0 = self.spec_pack_reference();
        let w1 = self.subsegment_duration;
        let w2 = self.spec_pack_sap();
        let b = self.spec_bytes();
        crate::bigend::lemma_u32_be_val(w0);
        crate::bigend::lemma_u32_be_val(w1);
        crate::bigend::lemma_u32_be_val(w2);
        assert(be32(b[0], b[1], b[2], b[3]) == w0);
        assert(be32(b[4], b[5], b[6], b[7]) == w1);
        assert(be32(b[8], b[9], b[10], b[11]) == w2);
        let t: u32 = if self.reference_type { 1u32 } else { 0u32 };
        let sz = self.reference_size;
        assert(t <= 1 && sz <= 0x7FFFFFFF ==> (((t << 31) | sz) >> 31 == t && ((t << 31) | sz)
            & 0x7FFFFFFF == sz)) by (bit_vector);
        let f: u32 = if self.starts_with_sap { 1u32 } else { 0u32 };
        let ty = self.sap_type as u32;
        let d = self.sap_delta_time;
        assert(f <= 1 && ty <= 7 && d <= 0x0FFFFFFF ==> ((((f << 31) | (ty << 28) | d) >> 31 == f)
            && ((((f << 31) | (ty << 28) | d) >> 28) & 0x7 == ty) && (((f << 31) | (ty << 28) | d)
            & 0x0FFFFFFF == d))) by (bit_vector);
    }
}

/// The segment list starting at byte `off`.
pub open spec fn spec_segments_at(data: Seq<u8>, off: int, count: int) -> Seq<Segment> {
    Seq::new(count as nat, |i: int| spec_segment_at(data, off + 12 * i))
}

/// What a `sidx` payload (the bytes after the header) means.
pub open spec fn spec_parse_sidx(data: Seq<u8>) -> Option<(SidxHead, Seq<Segment>)> {
    if data.len() < 4 {
        None
    } else {
        let version = data[0];
        let flags = be24(data[1], data[2], data[3]);
        if version == 0 {
            if data.len() < 24 {
                None
            } else {
                let head = SidxHead {
                    version,
                    flags,
                    reference_id: be32(data[4], data[5], data[6], data[7]),
                    timescale: be32(data[8], data[9], data[10], data[11]),
                    earliest_presentation_time: be32(
                        data[12],
                        data[13],
                        data[14],
                        data[15],
                    ) as u64,
                    first_offset: be32(data[16], data[17], data[18], data[19]) as u64,
                    reserved: be16(data[20], data[21]),
                    reference_count: be16(data[22], data[23]),
                };
                if data.len() < 24 + 12 * (head.reference_count as int) {
                    None
                } else {
                    Some((head, spec_segments_at(data, 24, head.reference_count as int)))
                }
            }
        } else if version == 1 {
            if data.len() < 32 {
                None
            } else {
                let head = SidxHead {
                    version,
                    flags,
                    reference_id: be32(data[4], data[5], data[6], data[7]),
                    timescale: be32(data[8], data[9], data[10], data[11]),
                    earliest_presentation_time: be64(
                        data[12],
                        data[13],
                        data[14],
                        data[15],
                        data[16],
                        data[17],
                        data[18],
                        data[19],
                    ),
                    first_offset: be64(
                        data[20],
                        data[21],
                        data[22],
                        data[23],
                        data[24],
                        data[25],
                        data[26],
                        data[27],
                    ),
                    reserved: be16(data[28], data[29]),
                    reference_count: be16(data[30], data[31]),
                };
                if data.len() < 32 + 12 * (head.reference_count as int) {
                    None
                } else {
                    Some((head, spec_segments_at(data, 32, head.reference_count as int)))
                }
            }
        } else {
            None
        }
    }
}

impl SidxBox {
    pub fn get_type(&self) -> (r: BoxType)
        ensures
            r == BoxType::SidxBox,
    {
        BoxType::SidxBox
    }

    pub open spec fn spec_size(&self) -> u64 {
        (HEADER_SIZE + HEADER_EXT_SIZE + (if self.version == 1 {
            24int
        } else if self.version == 0 {
            16int
        } else {
            0int
        }) + 4 + 12 * (self.reference_count as int)) as u64
    }

    pub fn get_size(&self) -> (r: u64)
        ensures
            r == self.spec_size(),
    {
        let mut size: u64 = HEADER_SIZE + HEADER_EXT_SIZE;
        if self.version == 1 {
            size += 24;
        } else if self.version == 0 {
            size += 16;
        }
        size += 4;
        size += (self.reference_count as u64) * 12;
        size
    }

    /// Consistent version, counts and field ranges: what the writer needs
    /// so that reading its output restores the box.
    pub open spec fn wf(&self) -> bool {
        &&& self.version <= 1
        &&& self.flags < 0x1000000
        &&& self.version == 0 ==> self.earliest_presentation_time <= u32::MAX
            && self.first_offset <= u32::MAX
        &&& self.reference_count == self.segments@.len()
        &&& forall|i: int| 0 <= i < self.segments@.len() ==> self.segments@[i].wf()
    }

    /// The segment list serialization.
    pub open spec fn spec_segments_bytes(segments: Seq<Segment>) -> Seq<u8>
        decreases segments.len(),
    {
        if segments.len() == 0 {
            Seq::empty()
        } else {
            Self::spec_segments_bytes(segments.drop_last()) + segments.last().spec_bytes()
        }
    }

    /// The payload after the header.
    pub open spec fn spec_payload(&self) -> Seq<u8> {
        spec_ext_bytes(self.version, self.flags) + (if self.version == 1 {
            u32_be(self.reference_id) + u32_be(self.timescale) + u64_be(
                self.earliest_presentation_time,
            ) + u64_be(self.first_offset)
        } else {
            u32_be(self.reference_id) + u32_be(self.timescale) + u32_be(
                self.earliest_presentation_time as u32,
            ) + u32_be(self.first_offset as u32)
        }) + u16_be(self.reserved) + u16_be(self.reference_count) + Self::spec_segments_bytes(
            self.segments@,
        )
    }

    /// The full wire form.
    pub open spec fn spec_bytes(&self) -> Seq<u8> {
        BoxHeader { name: BoxType::SidxBox, size: self.spec_size() }.spec_bytes()
            + self.spec_payload()
    }

    pub fn write_box(&self, out: &mut Vec<u8>) -> (r: Result<u64, Error>)
        requires
            self.wf(),
        ensures
            final(out)@ == old(out)@ + self.spec_bytes(),
            r == Ok::<u64, Error>(self.spec_size()),
    {
        let size = self.get_size();
        let header = BoxHeader::new(self.get_type(), size);
        let _ = header.write(out);
        let _ = write_box_header_ext(out, self.version, self.flags);
        if self.version == 1 {
            put_u32(out, self.reference_id);
            put_u32(out, self.timescale);
            put_u64(out, self.earliest_presentation_time);
            put_u64(out, self.first_offset);
        } else {
            put_u32(out, self.reference_id);
            put_u32(out, self.timescale);
            put_u32(out, self.earliest_presentation_time as u32);
            put_u32(out, self.first_offset as u32);
        }
        put_u16(out, self.reserved);
        put_u16(out, self.reference_count);
        let ghost mid = out@;
        let mut i: usize = 0;
        while i < self.segments.len()
            invariant
                i <= self.segments@.len(),
                forall|j: int| 0 <= j < self.segments@.len() ==> self.segments@[j].wf(),
                out@ == mid + Self::spec_segments_bytes(self.segments@.take(i as int)),
            decreases self.segments@.len() - i,
        {
            let _ = self.segments[i].write(out);
            proof {
                let pre = self.segments@.take(i as int);
                let nxt = self.segments@.take(i + 1);
                assert(nxt.drop_last() =~= pre);
                assert(nxt.last() == self.segments@[i as int]);
                assert(out@ =~= mid + Self::spec_segments_bytes(nxt));
            }
            i = i + 1;
        }
        proof {
            assert(self.segments@.take(self.segments@.len() as int) =~= self.segments@);
            assert(out@ =~= old(out)@ + self.spec_bytes());
        }
        Ok(size)
    }

    /// Reads the payload of a `sidx` box whose header (already consumed)
    /// declared `size`; `pos` stands just after the header.
    pub fn read_box(buf: &Vec<u8>, pos: usize, size: u64) -> (r: Result<(SidxBox, usize), Error>)
        requires
            pos >= 8,
            pos - 8 + size <= usize::MAX,
        ensures
            r matches Ok(v) ==> pos - 8 + size <= buf@.len() && (match spec_parse_sidx(
                buf@.subrange(pos as int, pos - 8 + size),
            ) {
                Some(p) => {
                    &&& v.0.version == p.0.version
                    &&& v.0.flags == p.0.flags
                    &&& v.0.reference_id == p.0.reference_id
                    &&& v.0.timescale == p.0.timescale
                    &&& v.0.earliest_presentation_time == p.0.earliest_presentation_time
                    &&& v.0.first_offset == p.0.first_offset
                    &&& v.0.reserved == p.0.reserved
                    &&& v.0.reference_count == p.0.reference_count
                    &&& v.0.segments@ == p.1
                    &&& v.1 == pos - 8 + size
                },
                None => false,
            }),
            size >= 8 && pos - 8 + size <= buf@.len() && spec_parse_sidx(
                buf@.subrange(pos as int, pos - 8 + size),
            ) is Some ==> r is Ok,
            size >= 12 && pos - 8 + size <= buf@.len() && buf@[pos as int] > 1 ==> r
                == Err::<(SidxBox, usize), Error>(Error::InvalidData("version must be 0 or 1")),
    {
        let start = pos - 8;
        if size < 8 {
            return Err(Error::IoError);
        }
        let end = start + (size as usize);
        if end > buf.len() {
            return Err(Error::IoError);
        }
        let ghost data = buf@.subrange(pos as int, end as int);
        assert(data.len() == size - 8);
        if buf.len() - pos < 4 || end - pos < 4 {
            return Err(Error::IoError);
        }
        let ((version, flags), p1) = match read_box_header_ext(buf, pos) {
            Ok(v) => v,
            Err(e) => { return Err(e); },
        };
        proof {
            assert(data[0] == buf@[pos as int]);
            assert(data[1] == buf@[pos as int + 1] && data[2] == buf@[pos as int + 2] && data[3]
                == buf@[pos as int + 3]);
        }
        if version > 1 {
            return Err(Error::InvalidData("version must be 0 or 1"));
        }
        let fixed: usize = if version == 0 {
            20
        } else {
            28
        };
        if end - p1 < fixed {
            return Err(Error::IoError);
        }
        let (reference_id, p2) = match read_u32(buf, p1) {
            Ok(v) => v,
            Err(e) => { return Err(e); },
        };
        let (timescale, p3) = match read_u32(buf, p2) {
            Ok(v) => v,
            Err(e) => { return Err(e); },
        };
        let (earliest_presentation_time, first_offset, p5): (u64, u64, usize) = if version == 0 {
            let (e32, p4) = match read_u32(buf, p3) {
                Ok(v) => v,
                Err(e) => { return Err(e); },
            };
            let (fo32, p5) = match read_u32(buf, p4) {
                Ok(v) => v,
                Err(e) => { return Err(e); },
            };
            (e32 as u64, fo32 as u64, p5)
        } else {
            let (e64, p4) = match read_u64(buf, p3) {
                Ok(v) => v,
                Err(e) => { return Err(e); },
            };
            let (fo64, p5) = match read_u64(buf, p4) {
                Ok(v) => v,
                Err(e) => { return Err(e); },
            };
            (e64, fo64, p5)
        };
        let (reserved, p6) = match read_u16(buf, p5) {
            Ok(v) => v,
            Err(e) => { return Err(e); },
        };
        let (reference_count, p7) = match read_u16(buf, p6) {
            Ok(v) => v,
            Err(e) => { return Err(e); },
        };
        proof {
            assert(forall|k: int| 0 <= k < data.len() ==> data[k] == buf@[pos + k]);
        }
        let ghost segoff: int = if version == 0 { 24int } else { 32int };
        assert(p7 == pos + segoff);
        if (end - p7) / 12 < reference_count as usize {
            return Err(Error::IoError);
        }
        proof {
            let head = spec_parse_sidx(data).unwrap().0;
            assert(head.version == version && head.flags == flags && head.reference_id
                == reference_id && head.timescale == timescale && head.earliest_presentation_time
                == earliest_presentation_time && head.first_offset == first_offset && head.reserved
                == reserved && head.reference_count == reference_count);
        }
        let mut segments: Vec<Segment> = Vec::new();
        let mut i: usize = 0;
        while i < reference_count as usize
            invariant
                i <= reference_count as usize,
                p7 == pos + segoff,
                pos >= 8,
                segoff == 24 || segoff == 32,
                p7 + 12 * (reference_count as int) <= end <= buf@.len(),
                data == buf@.subrange(pos as int, end as int),
                data.len() == end - pos,
                segments@.len() == i,
                forall|j: int|
                    0 <= j < i ==> segments@[j] == spec_segment_at(data, segoff + 12 * j),
            decreases reference_count as int - i,
        {
            let (seg, _) = match Segment::read(buf, p7 + 12 * i) {
                Ok(v) => v,
                Err(e) => { return Err(e); },
            };
            proof {
                let rel = segoff + 12 * (i as int);
                let abs = p7 + 12 * (i as int);
                assert(be32(buf@[abs], buf@[abs + 1], buf@[abs + 2], buf@[abs + 3]) == be32(
                    data[rel],
                    data[rel + 1],
                    data[rel + 2],
                    data[rel + 3],
                ));
                assert(be32(buf@[abs + 4], buf@[abs + 5], buf@[abs + 6], buf@[abs + 7]) == be32(
                    data[rel + 4],
                    data[rel + 5],
                    data[rel + 6],
                    data[rel + 7],
                ));
                assert(be32(buf@[abs + 8], buf@[abs + 9], buf@[abs + 10], buf@[abs + 11]) == be32(
                    data[rel + 8],
                    data[rel + 9],
                    data[rel + 10],
                    data[rel + 11],
                ));
                assert(seg == spec_segment_at(data, rel));
            }
            segments.push(seg);
            i = i + 1;
        }
        let b = SidxBox {
            version,
            flags,
            reference_id,
            timescale,
            earliest_presentation_time,
            first_offset,
            reserved,
            reference_count,
            segments,
        };
        proof {
            let p = spec_parse_sidx(data).unwrap();
            assert(b.segments@ =~= p.1);
        }
        Ok((b, end))
    }
}

/// Serializing any well-formed `sidx` box and parsing the result yields
/// the box back, and its length is the declared size.
#[verifier::rlimit(100)]
pub proof fn lemma_sidx_round_trip(b: SidxBox)
    requires
        b.wf(),
    ensures
        b.spec_bytes().len() == b.spec_size(),
        spec_parse_sidx(b.spec_bytes().skip(8)) matches Some(p) && p.0 == (SidxHead {
            version: b.version,
            flags: b.flags,
            reference_id: b.reference_id,
            timescale: b.timescale,
            earliest_presentation_time: b.earliest_presentation_time,
            first_offset: b.first_offset,
            reserved: b.reserved,
            reference_count: b.reference_count,
        }) && p.1 == b.segments@,
{
    let payload = b.spec_payload();
    lemma_segments_bytes_len(b.segments@);
    assert(b.spec_bytes().skip(8) =~= payload);
    let data = payload;
    let segoff: int = if b.version == 0 { 24int } else { 32int };
    assert(data.len() == segoff + 12 * b.segments@.len());
    crate::bigend::lemma_u24_be_val(b.flags);
    assert(data[0] == b.version);
    assert(be24(data[1], data[2], data[3]) == b.flags);
    crate::bigend::lemma_u32_be_val(b.reference_id);
    crate::bigend::lemma_u32_be_val(b.timescale);
    assert(be32(data[4], data[5], data[6], data[7]) == b.reference_id);
    assert(be32(data[8], data[9], data[10], data[11]) == b.timescale);
    if b.version == 0 {
        crate::bigend::lemma_u32_be_val(b.earliest_presentation_time as u32);
        crate::bigend::lemma_u32_be_val(b.first_offset as u32);
        assert(be32(data[12], data[13], data[14], data[15]) == b.earliest_presentation_time);
        assert(be32(data[16], data[17], data[18], data[19]) == b.first_offset);
        crate::bigend::lemma_u16_be_val(b.reserved);
        crate::bigend::lemma_u16_be_val(b.reference_count);
        assert(be16(data[20], data[21]) == b.reserved);
        assert(be16(data[22], data[23]) == b.reference_count);
    } else {
        crate::bigend::lemma_u64_be_val(b.earliest_presentation_time);
        crate::bigend::lemma_u64_be_val(b.first_offset);
        assert(be64(
            data[12],
            data[13],
            data[14],
            data[15],
            data[16],
            data[17],
            data[18],
            data[19],
        ) == b.earliest_presentation_time);
        assert(be64(
            data[20],
            data[21],
            data[22],
            data[23],
            data[24],
            data[25],
            data[26],
            data[27],
        ) == b.first_offset);
        crate::bigend::lemma_u16_be_val(b.reserved);
        crate::bigend::lemma_u16_be_val(b.reference_count);
        assert(be16(data[28], data[29]) == b.reserved);
        assert(be16(data[30], data[31]) == b.reference_count);
    }
    let p = spec_parse_sidx(data).unwrap();
    assert forall|i: int| 0 <= i < b.segments@.len() implies p.1[i] == b.segments@[i] by {
        lemma_segments_bytes_at(b.segments@, i);
        let sb = SidxBox::spec_segments_bytes(b.segments@);
        assert(sb.subrange(12 * i, 12 * i + 12) == b.segments@[i].spec_bytes());
        b.segments@[i].lemma_round_trip();
        assert forall|k: int| 0 <= k < 12 implies data[segoff + 12 * i + k] == b.segments@[
            i
        ].spec_bytes()[k] by {
            assert(data[segoff + 12 * i + k] == sb[12 * i + k]);
            assert(sb[12 * i + k] == sb.subrange(12 * i, 12 * i + 12)[k]);
        }
        assert(p.1[i] == spec_segment_at(data, segoff + 12 * i));
        assert(spec_segment_at(data, segoff + 12 * i) == spec_segment_at(
            b.segments@[i].spec_bytes(),
            0,
        ));
    }
    assert(p.1 =~= b.segments@);
}

/// The segment list serialization is 12 bytes per segment.
pub proof fn lemma_segments_bytes_len(segments: Seq<Segment>)
    ensures
        SidxBox::spec_segments_bytes(segments).len() == 12 * segments.len(),
    decreases segments.len(),
{
    if segments.len() > 0 {
        lemma_segments_bytes_len(segments.drop_last());
    }
}

/// Each segment's bytes sit at their own offset of the list serialization.
pub proof fn lemma_segments_bytes_at(segments: Seq<Segment>, i: int)
    requires
        0 <= i < segments.len(),
    ensures
        SidxBox::spec_segments_bytes(segments).subrange(12 * i, 12 * i + 12)
            == segments[i].spec_bytes(),
    decreases segments.len(),
{
    lemma_segments_bytes_len(segments);
    if i == segments.len() - 1 {
        lemma_segments_bytes_len(segments.drop_last());
        assert(SidxBox::spec_segments_bytes(segments).subrange(12 * i, 12 * i + 12)
            =~= segments.last().spec_bytes());
    } else {
        lemma_segments_bytes_at(segments.drop_last(), i);
        lemma_segments_bytes_len(segments.drop_last());
        assert(SidxBox::spec_segments_bytes(segments).subrange(12 * i, 12 * i + 12)
            =~= SidxBox::spec_segments_bytes(segments.drop_last()).subrange(12 * i, 12 * i + 12));
    }
}

} // verus!
