//! The `mp4a` AAC sample entry and its `esds` elementary-stream
//! descriptor tree.

use vstd::prelude::*;

use crate::bigend::be16;
use crate::bigend::put_u16;
use crate::bigend::put_u24;
use crate::bigend::put_u32;
use crate::bigend::put_u64;
use crate::bigend::put_u8;
use crate::bigend::read_u16;
use crate::bigend::read_u32;
use crate::bigend::read_u8;
use crate::bigend::u16_be;
use crate::bigend::u24_be;
use crate::bigend::u32_be;
use crate::bigend::u64_be;
use crate::bigend::zero_bytes;
use crate::boxhead::BoxHeader;
use crate::boxhead::BoxType;
use crate::boxhead::HEADER_SIZE;
use crate::error::Error;
use crate::types::FixedPointU16;

verus! {

/// The decoder-specific info: AAC profile, frequency index and channel
/// configuration, bit-packed into two bytes.
#[derive(Debug, Clone, Copy, PartialEq, Eq, Structural)]
pub struct DecoderSpecificDescriptor {
    pub profile: u8,
    pub freq_index: u8,
    pub chan_conf: u8,
}

/// The decoder configuration descriptor.
#[derive(Debug, Clone, Copy, PartialEq, Eq, Structural)]
pub struct DecoderConfigDescriptor {
    pub object_type_indication: u8,
    pub stream_type: u8,
    pub up_stream: u8,
    pub buffer_size_db: u32,
    pub max_bitrate: u32,
    pub avg_bitrate: u32,
    pub dec_specific: DecoderSpecificDescriptor,
}

/// The synchronization-layer configuration descriptor (predefined form).
#[derive(Debug, Clone, Copy, PartialEq, Eq, Structural, Default)]
pub struct SLConfigDescriptor {}

/// The elementary stream descriptor.
#[derive(Debug, Clone, Copy, PartialEq, Eq, Structural)]
pub struct ESDescriptor {
    pub es_id: u16,
    pub dec_config: DecoderConfigDescriptor,
    pub sl_config: SLConfigDescriptor,
}

/// The `esds` box: version and flags, the descriptor tree, and any
/// trailing QuickTime payload kept verbatim.
#[derive(Debug, Clone, PartialEq, Eq)]
pub struct EsdsBox {
    pub version: u8,
    pub flags: u32,
    pub es_desc: ESDescriptor,
    pub qt_bytes: Option<Vec<u8>>,
}

impl Default for DecoderSpecificDescriptor {
    fn default() -> (r: Self)
        ensures
            r.profile == 2,
            r.freq_index == 4,
            r.chan_conf == 2,
    {
        Self { profile: 2, freq_index: 4, chan_conf: 2 }
    }
}

impl Default for DecoderConfigDescriptor {
    fn default() -> (r: Self)
        ensures
            r.object_type_indication == 0x40,
            r.stream_type == 0x05,
            r.up_stream == 0,
            r.buffer_size_db == 0,
            r.max_bitrate == 0,
            r.avg_bitrate == 0,
            r.dec_specific.profile == 2,
            r.dec_specific.freq_index == 4,
            r.dec_specific.chan_conf == 2,
    {
        Self {
            object_type_indication: 0x40,
            stream_type: 0x05,
            up_stream: 0,
            buffer_size_db: 0,
            max_bitrate: 0,
            avg_bitrate: 0,
            dec_specific: DecoderSpecificDescriptor::default(),
        }
    }
}

impl Default for ESDescriptor {
    fn default() -> (r: Self)
        ensures
            r.es_id == 1,
            r.dec_config.object_type_indication == 0x40,
    {
        Self {
            es_id: 1,
            dec_config: DecoderConfigDescriptor::default(),
            sl_config: SLConfigDescriptor {},
        }
    }
}

impl Default for EsdsBox {
    fn default() -> (r: Self)
        ensures
            r.version == 0,
            r.flags == 0,
            r.es_desc.es_id == 1,
            r.qt_bytes is None,
    {
        Self { version: 0, flags: 0, es_desc: ESDescriptor::default(), qt_bytes: None }
    }
}

// Canonical descriptor serialization: tag, one-byte size, body.

pub open spec fn spec_dec_specific_bytes(d: DecoderSpecificDescriptor) -> Seq<u8> {
    seq![
        0x05u8,
        2u8,
        (((d.profile & 0x1F) << 3) | ((d.freq_index >> 1) & 0x07)) as u8,
        (((d.freq_index & 0x01) << 7) | ((d.chan_conf & 0x0F) << 3)) as u8,
    ]
}

pub open spec fn spec_sl_config_bytes(d: SLConfigDescriptor) -> Seq<u8> {
    seq![0x06u8, 1u8, 0x02u8]
}

pub open spec fn spec_dec_config_bytes(d: DecoderConfigDescriptor) -> Seq<u8> {
    seq![
        0x04u8,
        17u8,
        d.object_type_indication,
        ((((d.stream_type & 0x3F) << 2) | ((d.up_stream & 0x01) << 1)) | 0x01) as u8,
    ] + u24_be(d.buffer_size_db & 0xFFFFFF) + u32_be(d.max_bitrate) + u32_be(d.avg_bitrate)
        + spec_dec_specific_bytes(d.dec_specific)
}

pub open spec fn spec_es_desc_bytes(d: ESDescriptor) -> Seq<u8> {
    seq![0x03u8, 25u8] + u16_be(d.es_id) + seq![0u8] + spec_dec_config_bytes(d.dec_config)
        + spec_sl_config_bytes(d.sl_config)
}

impl DecoderConfigDescriptor {
    /// Every bit-packed field fits its wire bits, so the serialization
    /// loses nothing.
    pub open spec fn canonical(&self) -> bool {
        &&& self.stream_type <= 0x3F
        &&& self.up_stream <= 1
        &&& self.buffer_size_db < 0x1000000
        &&& self.dec_specific.profile <= 0x1F
        &&& self.dec_specific.freq_index <= 0xF
        &&& self.dec_specific.chan_conf <= 0xF
    }
}

// Parsing of the descriptor tree. Offsets are relative to the start of
// the `esds` payload.

/// The size of a descriptor in the 7-bit most-significant-bit
/// continuation coding: up to four bytes, each contributing seven bits,
/// the last one with its high bit clear.
pub open spec fn spec_parse_desc_size(data: Seq<u8>, p: int, acc: u32, rounds: int) -> Option<
    (u32, int),
>
    decreases 4 - rounds,
{
    if rounds >= 4 {
        Some((acc, p))
    } else if p >= data.len() {
        None
    } else {
        let b = data[p];
        let acc2 = (acc << 7) | ((b & 0x7F) as u32);
        if (b & 0x80) == 0 {
            Some((acc2, p + 1))
        } else {
            spec_parse_desc_size(data, p + 1, acc2, rounds + 1)
        }
    }
}

/// A descriptor header at offset `p`: the tag byte, the coded size, and
/// the offset just after the header.
pub open spec fn spec_parse_desc(data: Seq<u8>, p: int) -> Option<(u8, u32, int)> {
    if p + 2 > data.len() {
        None
    } else {
        match spec_parse_desc_size(data, p + 1, 0, 0) {
            None => None,
            Some(s) => Some((data[p], s.0, s.1)),
        }
    }
}

/// The body of an `ESDescriptor` at offset `p`, with its nested decoder
/// configuration, decoder-specific info and synchronization-layer
/// descriptors; returns the descriptor and the offset just after it.
pub open spec fn spec_parse_es_desc(data: Seq<u8>, p: int) -> Option<(ESDescriptor, int)> {
    if p + 3 > data.len() {
        None
    } else {
        let es_id = be16(data[p], data[p + 1]);
        match spec_parse_desc(data, p + 3) {
            None => None,
            Some(dc) => {
                if dc.0 != 0x04 {
                    None
                } else if data.len() - dc.2 < 13 {
                    None
                } else {
                    let q = dc.2;
                    let packed = data[q + 1];
                    match spec_parse_desc(data, q + 13) {
                        None => None,
                        Some(ds) => {
                            if ds.0 != 0x05 {
                                None
                            } else if data.len() - ds.2 < 2 {
                                None
                            } else {
                                let b0 = data[ds.2];
                                let b1 = data[ds.2 + 1];
                                match spec_parse_desc(data, ds.2 + 2) {
                                    None => None,
                                    Some(sl) => {
                                        if sl.0 != 0x06 {
                                            None
                                        } else if sl.1 > data.len() - sl.2 {
                                            None
                                        } else {
                                            Some(
                                                (
                                                    ESDescriptor {
                                                        es_id,
                                                        dec_config: DecoderConfigDescriptor {
                                                            object_type_indication: data[q],
                                                            stream_type: packed >> 2,
                                                            up_stream: (packed >> 1) & 0x01,
                                                            buffer_size_db: crate::bigend::be24(
                                                                data[q + 2],
                                                                data[q + 3],
                                                                data[q + 4],
                                                            ),
                                                            max_bitrate: crate::bigend::be32(
                                                                data[q + 5],
                                                                data[q + 6],
                                                                data[q + 7],
                                                                data[q + 8],
                                                            ),
                                                            avg_bitrate: crate::bigend::be32(
                                                                data[q + 9],
                                                                data[q + 10],
                                                                data[q + 11],
                                                                data[q + 12],
                                                            ),
                                                            dec_specific: DecoderSpecificDescriptor {
                                                                profile: b0 >> 3,
                                                                freq_index: ((b0 & 0x07) << 1) | (
                                                                b1 >> 7),
                                                                chan_conf: (b1 >> 3) & 0x0F,
                                                            },
                                                        },
                                                        sl_config: SLConfigDescriptor {},
                                                    },
                                                    sl.2 + sl.1,
                                                ),
                                            )
                                        }
                                    },
                                }
                            }
                        },
                    }
                }
            },
        }
    }
}

/// Mathematical image of an `esds` box: the trailing QuickTime bytes as
/// a plain sequence.
pub ghost struct EsdsView {
    pub version: u8,
    pub flags: u32,
    pub es_desc: ESDescriptor,
    pub qt: Seq<u8>,
}

impl View for EsdsBox {
    type V = EsdsView;

    open spec fn view(&self) -> EsdsView {
        EsdsView {
            version: self.version,
            flags: self.flags,
            es_desc: self.es_desc,
            qt: self.spec_qt(),
        }
    }
}

/// What an `esds` payload (the bytes after the header) means: version
/// and flags, the elementary stream descriptor, and everything after it
/// kept verbatim.
pub open spec fn spec_parse_esds(data: Seq<u8>) -> Option<EsdsView> {
    if data.len() < 4 {
        None
    } else {
        match spec_parse_desc(data, 4) {
            None => None,
            Some(d) => {
                if d.0 != 0x03 {
                    None
                } else {
                    match spec_parse_es_desc(data, d.2) {
                        None => None,
                        Some(es) => Some(
                            EsdsView {
                                version: data[0],
                                flags: crate::bigend::be24(data[1], data[2], data[3]),
                                es_desc: es.0,
                                qt: data.skip(es.1),
                            },
                        ),
                    }
                }
            },
        }
    }
}

impl EsdsBox {
    pub open spec fn spec_qt(&self) -> Seq<u8> {
        match self.qt_bytes {
            Some(q) => q@,
            None => Seq::empty(),
        }
    }

    /// The payload after the header: version and flags, the elementary
    /// stream descriptor, then the QuickTime bytes verbatim.
    pub open spec fn spec_payload(&self) -> Seq<u8> {
        crate::boxhead::spec_ext_bytes(self.version, self.flags) + spec_es_desc_bytes(self.es_desc)
            + self.spec_qt()
    }

    pub open spec fn spec_size(&self) -> int {
        HEADER_SIZE + self.spec_payload().len()
    }

    pub open spec fn spec_bytes(&self) -> Seq<u8> {
        BoxHeader { name: BoxType::EsdsBox, size: self.spec_size() as u64 }.spec_bytes()
            + self.spec_payload()
    }

    pub open spec fn wf(&self) -> bool {
        &&& self.flags < 0x1000000
        &&& self.spec_qt().len() + 128 <= u32::MAX
    }

    pub fn box_size(&self) -> (r: u64)
        requires
            self.wf(),
        ensures
            r == self.spec_size(),
    {
        let qt_len: u64 = match &self.qt_bytes {
            Some(q) => q.len() as u64,
            None => 0,
        };
        HEADER_SIZE + 4 + 27 + qt_len
    }

    pub fn write_box(&self, out: &mut Vec<u8>) -> (r: Result<u64, Error>)
        requires
            self.wf(),
        ensures
            final(out)@ == old(out)@ + self.spec_bytes(),
            r == Ok::<u64, Error>(self.spec_size() as u64),
    {
        let size = self.box_size();
        let header = BoxHeader::new(BoxType::EsdsBox, size);
        let _ = header.write(out);
        let _ = crate::boxhead::write_box_header_ext(out, self.version, self.flags);
        put_u8(out, 0x03);
        put_u8(out, 25);
        put_u16(out, self.es_desc.es_id);
        put_u8(out, 0);
        put_u8(out, 0x04);
        put_u8(out, 17);
        let dc = &self.es_desc.dec_config;
        put_u8(out, dc.object_type_indication);
        put_u8(out, (((dc.stream_type & 0x3F) << 2) | ((dc.up_stream & 0x01) << 1)) | 0x01);
        put_u24(out, dc.buffer_size_db & 0xFFFFFF);
        put_u32(out, dc.max_bitrate);
        put_u32(out, dc.avg_bitrate);
        let ds = &dc.dec_specific;
        put_u8(out, 0x05);
        put_u8(out, 2);
        put_u8(out, ((ds.profile & 0x1F) << 3) | ((ds.freq_index >> 1) & 0x07));
        put_u8(out, ((ds.freq_index & 0x01) << 7) | ((ds.chan_conf & 0x0F) << 3));
        put_u8(out, 0x06);
        put_u8(out, 1);
        put_u8(out, 0x02);
        if let Some(ref q) = self.qt_bytes {
            crate::bigend::put_bytes(out, q);
        }
        proof {
            let bsd = self.es_desc.dec_config.buffer_size_db;
            assert(((bsd & 0xFFFFFF) & 0xFFFFFF) == (bsd & 0xFFFFFF)) by (bit_vector);
            assert(out@ =~= old(out)@ + self.spec_bytes());
        }
        Ok(size)
    }

    /// Reads the payload of an `esds` box whose header (already consumed)
    /// declared `size`; `pos` stands just after the header. Descriptor
    /// sizes use the 7-bit continuation coding; bytes after the top-level
    /// descriptor are kept verbatim as QuickTime payload.
    pub fn read_box(buf: &Vec<u8>, pos: usize, size: u64) -> (r: Result<(EsdsBox, usize), Error>)
        requires
            pos >= 8,
            pos - 8 + size <= usize::MAX,
        ensures
            r matches Ok(v) ==> size >= 8 && pos - 8 + size <= buf@.len() && (
            match spec_parse_esds(buf@.subrange(pos as int, pos - 8 + size)) {
                Some(p) => v.0@ == p && v.1 == pos - 8 + size,
                None => false,
            }),
            size >= 8 && pos - 8 + size <= buf@.len() && spec_parse_esds(
                buf@.subrange(pos as int, pos - 8 + size),
            ) is Some ==> r is Ok,
    {
        if size < 8 {
            return Err(Error::IoError);
        }
        let start = pos - 8;
        let end = start + (size as usize);
        if end > buf.len() {
            return Err(Error::IoError);
        }
        let ghost data = buf@.subrange(pos as int, end as int);
        proof {
            assert(forall|k: int| 0 <= k < data.len() ==> data[k] == buf@[pos + k]);
        }
        let ((version, flags), p0) = match crate::boxhead::read_box_header_ext(buf, pos) {
            Ok(v) => v,
            Err(e) => { return Err(e); },
        };
        if p0 > end {
            return Err(Error::IoError);
        }
        let ((tag, _dsize), p1) = match read_desc(buf, p0, end, Ghost(pos as int)) {
            Ok(v) => v,
            Err(e) => { return Err(e); },
        };
        if tag != 0x03 {
            return Err(Error::InvalidData("ESDescriptor not found"));
        }
        let (es_desc, p2) = match read_es_desc(buf, p1, end, Ghost(pos as int)) {
            Ok(v) => v,
            Err(e) => { return Err(e); },
        };
        let mut qt: Vec<u8> = Vec::new();
        let mut k: usize = p2;
        while k < end
            invariant
                pos <= p2 <= k <= end <= buf@.len(),
                data == buf@.subrange(pos as int, end as int),
                qt@.len() == k - p2,
                forall|m: int| 0 <= m < k - p2 ==> qt@[m] == data[p2 - pos + m],
            decreases end - k,
        {
            qt.push(buf[k]);
            k = k + 1;
        }
        proof {
            assert(qt@ =~= data.skip(p2 - pos));
        }
        let qt_bytes = if qt.len() > 0 {
            Some(qt)
        } else {
            None
        };
        let b = EsdsBox { version, flags, es_desc, qt_bytes };
        proof {
            let p = spec_parse_esds(data).unwrap();
            assert(b.spec_qt() =~= p.qt);
        }
        Ok((b, end))
    }
}

/// Serializing any well-formed `esds` box whose descriptor fields fit
/// their wire bits and parsing the result yields the box back, and its
/// length is the declared size.
#[verifier::rlimit(100)]
pub proof fn lemma_esds_round_trip(b: EsdsBox)
    requires
        b.wf(),
        b.es_desc.dec_config.canonical(),
    ensures
        b.spec_bytes().len() == b.spec_size(),
        spec_parse_esds(b.spec_bytes().skip(8)) == Some(b@),
{
    let data = b.spec_payload();
    assert(b.spec_bytes().skip(8) =~= data);
    let eb = spec_es_desc_bytes(b.es_desc);
    assert(eb.len() == 27);
    assert(data.len() == 4 + 27 + b.spec_qt().len());
    crate::bigend::lemma_u24_be_val(b.flags);
    assert(crate::bigend::be24(data[1], data[2], data[3]) == b.flags);
    assert((0u32 << 7) | ((25u8 & 0x7F) as u32) == 25u32 && (25u8 & 0x80) == 0 && (0u32 << 7) | ((
    17u8 & 0x7F) as u32) == 17u32 && (17u8 & 0x80) == 0 && (0u32 << 7) | ((2u8 & 0x7F) as u32)
        == 2u32 && (2u8 & 0x80) == 0 && (0u32 << 7) | ((1u8 & 0x7F) as u32) == 1u32 && (1u8 & 0x80)
        == 0) by (bit_vector);
    assert(data[4] == 0x03u8 && data[5] == 25u8);
    assert(spec_parse_desc(data, 4) == Some((0x03u8, 25u32, 6int)));
    let d = b.es_desc;
    crate::bigend::lemma_u16_be_val(d.es_id);
    assert(be16(data[6], data[7]) == d.es_id);
    assert(data[8] == 0u8);
    assert(data[9] == 0x04u8 && data[10] == 17u8);
    assert(spec_parse_desc(data, 9) == Some((0x04u8, 17u32, 11int)));
    let dc = d.dec_config;
    assert(data[11] == dc.object_type_indication);
    let st = dc.stream_type;
    let up = dc.up_stream;
    assert(st <= 0x3F && up <= 1 ==> (((((st & 0x3F) << 2) | ((up & 0x01) << 1)) | 0x01) >> 2 == st
        && ((((((st & 0x3F) << 2) | ((up & 0x01) << 1)) | 0x01) >> 1) & 0x01) == up))
        by (bit_vector);
    let bsd = dc.buffer_size_db;
    assert((bsd < 0x1000000 ==> (bsd & 0xFFFFFF) == bsd) && bsd & 0xFFFFFF < 0x1000000)
        by (bit_vector);
    crate::bigend::lemma_u24_be_val(bsd & 0xFFFFFF);
    assert(crate::bigend::be24(data[13], data[14], data[15]) == bsd);
    crate::bigend::lemma_u32_be_val(dc.max_bitrate);
    crate::bigend::lemma_u32_be_val(dc.avg_bitrate);
    assert(crate::bigend::be32(data[16], data[17], data[18], data[19]) == dc.max_bitrate);
    assert(crate::bigend::be32(data[20], data[21], data[22], data[23]) == dc.avg_bitrate);
    assert(data[24] == 0x05u8 && data[25] == 2u8);
    assert(spec_parse_desc(data, 24) == Some((0x05u8, 2u32, 26int)));
    let ds = dc.dec_specific;
    let pr = ds.profile;
    let fi = ds.freq_index;
    let cc = ds.chan_conf;
    assert(pr <= 0x1F && fi <= 0xF && cc <= 0xF ==> (((((pr & 0x1F) << 3) | ((fi >> 1) & 0x07))
        >> 3) == pr && ((((((pr & 0x1F) << 3) | ((fi >> 1) & 0x07)) & 0x07) << 1) | ((((fi & 0x01)
        << 7) | ((cc & 0x0F) << 3)) >> 7)) == fi && (((((fi & 0x01) << 7) | ((cc & 0x0F) << 3))
        >> 3) & 0x0F) == cc)) by (bit_vector);
    assert(data[28] == 0x06u8 && data[29] == 1u8 && data[30] == 0x02u8);
    assert(spec_parse_desc(data, 28) == Some((0x06u8, 1u32, 30int)));
    assert(spec_parse_es_desc(data, 6) == Some((d, 31int)));
    assert(data.skip(31) =~= b.spec_qt());
    assert(spec_parse_esds(data) == Some(b@));
}

/// Reads a descriptor header: a tag byte and a size in the 7-bit
/// most-significant-bit continuation coding, one to four bytes long.
/// `base` names the start of the surrounding payload window, so the
/// contract can speak of offsets inside it.
fn read_desc(buf: &Vec<u8>, pos: usize, end: usize, Ghost(base): Ghost<int>) -> (r: Result<
    ((u8, u32), usize),
    Error,
>)
    requires
        pos <= end <= buf@.len(),
        0 <= base <= pos,
    ensures
        r matches Ok(v) ==> pos < v.1 <= end && (match spec_parse_desc(
            buf@.subrange(base, end as int),
            pos - base,
        ) {
            Some(d) => v.0.0 == d.0 && v.0.1 == d.1 && v.1 - base == d.2,
            None => false,
        }),
        r is Err ==> spec_parse_desc(buf@.subrange(base, end as int), pos - base) is None,
{
    let ghost data = buf@.subrange(base, end as int);
    proof {
        assert(forall|k: int| 0 <= k < data.len() ==> data[k] == buf@[base + k]);
    }
    if end - pos < 2 {
        return Err(Error::IoError);
    }
    let tag = buf[pos];
    let mut size: u32 = 0;
    let mut p: usize = pos + 1;
    let mut cont = true;
    let mut rounds: usize = 0;
    while cont && rounds < 4
        invariant
            pos < p <= end <= buf@.len(),
            0 <= base <= pos,
            pos + 2 <= end,
            rounds <= 4,
            data == buf@.subrange(base, end as int),
            (if cont {
                spec_parse_desc_size(data, p - base, size, rounds as int)
            } else {
                Some(((size, (p - base) as int)))
            }) == spec_parse_desc_size(data, pos + 1 - base, 0u32, 0int),
        decreases 4 - rounds,
    {
        if p >= end {
            proof {
                assert(spec_parse_desc_size(data, p - base, size, rounds as int) is None);
            }
            return Err(Error::IoError);
        }
        let b = buf[p];
        proof {
            assert(data[p - base] == b);
        }
        size = (size << 7) | ((b & 0x7F) as u32);
        p = p + 1;
        cont = (b & 0x80) != 0;
        rounds = rounds + 1;
    }
    proof {
        assert(data[pos - base] == tag);
        assert(spec_parse_desc(data, pos - base) == Some((tag, size, (p - base) as int)));
    }
    Ok(((tag, size), p))
}

/// Reads the body of an `ESDescriptor` and its nested descriptors.
/// `base` names the start of the surrounding payload window.
fn read_es_desc(buf: &Vec<u8>, pos: usize, end: usize, Ghost(base): Ghost<int>) -> (r: Result<
    (ESDescriptor, usize),
    Error,
>)
    requires
        pos <= end <= buf@.len(),
        0 <= base <= pos,
    ensures
        r matches Ok(v) ==> pos <= v.1 <= end && (match spec_parse_es_desc(
            buf@.subrange(base, end as int),
            pos - base,
        ) {
            Some(d) => v.0 == d.0 && v.1 - base == d.1,
            None => false,
        }),
        r is Err ==> spec_parse_es_desc(buf@.subrange(base, end as int), pos - base) is None,
{
    let ghost data = buf@.subrange(base, end as int);
    proof {
        assert(forall|k: int| 0 <= k < data.len() ==> data[k] == buf@[base + k]);
    }
    if end - pos < 3 {
        return Err(Error::IoError);
    }
    let (es_id, p1) = match read_u16(buf, pos) {
        Ok(v) => v,
        Err(e) => { return Err(e); },
    };
    proof {
        assert(data[pos - base] == buf@[pos as int] && data[pos - base + 1] == buf@[pos as int
            + 1]);
    }
    let p2 = p1 + 1;  // flags byte
    let ((tag_dc, _), p3) = match read_desc(buf, p2, end, Ghost(base)) {
        Ok(v) => v,
        Err(e) => { return Err(e); },
    };
    if tag_dc != 0x04 {
        return Err(Error::InvalidData("DecoderConfigDescriptor not found"));
    }
    if end - p3 < 13 {
        return Err(Error::IoError);
    }
    let object_type_indication = buf[p3];
    let packed = buf[p3 + 1];
    let stream_type = packed >> 2;
    let up_stream = (packed >> 1) & 0x01;
    let (buffer_size_db, _) = match crate::bigend::read_u24(buf, p3 + 2) {
        Ok(v) => v,
        Err(e) => { return Err(e); },
    };
    let (max_bitrate, _) = match read_u32(buf, p3 + 5) {
        Ok(v) => v,
        Err(e) => { return Err(e); },
    };
    let (avg_bitrate, _) = match read_u32(buf, p3 + 9) {
        Ok(v) => v,
        Err(e) => { return Err(e); },
    };
    proof {
        assert(forall|k: int| 0 <= k < 13 ==> #[trigger] data[p3 - base + k] == buf@[p3 + k]);
    }
    let p4 = p3 + 13;
    let ((tag_ds, _), p5) = match read_desc(buf, p4, end, Ghost(base)) {
        Ok(v) => v,
        Err(e) => { return Err(e); },
    };
    if tag_ds != 0x05 {
        return Err(Error::InvalidData("DecoderSpecificDescriptor not found"));
    }
    if end - p5 < 2 {
        return Err(Error::IoError);
    }
    let b0 = buf[p5];
    let b1 = buf[p5 + 1];
    proof {
        assert(data[p5 - base] == b0 && data[p5 - base + 1] == b1);
    }
    let profile = b0 >> 3;
    let freq_index = ((b0 & 0x07) << 1) | (b1 >> 7);
    let chan_conf = (b1 >> 3) & 0x0F;
    let p6 = p5 + 2;
    let ((tag_sl, sl_size), p7) = match read_desc(buf, p6, end, Ghost(base)) {
        Ok(v) => v,
        Err(e) => { return Err(e); },
    };
    if tag_sl != 0x06 {
        return Err(Error::InvalidData("SLConfigDescriptor not found"));
    }
    if sl_size as usize > end - p7 {
        return Err(Error::IoError);
    }
    let p8 = p7 + sl_size as usize;
    let es_desc = ESDescriptor {
        es_id,
        dec_config: DecoderConfigDescriptor {
            object_type_indication,
            stream_type,
            up_stream,
            buffer_size_db,
            max_bitrate,
            avg_bitrate,
            dec_specific: DecoderSpecificDescriptor { profile, freq_index, chan_conf },
        },
        sl_config: SLConfigDescriptor {},
    };
    Ok((es_desc, p8))
}

/// The `mp4a` audio sample entry.
#[derive(Debug, Clone, PartialEq, Eq)]
pub struct Mp4aBox {
    pub data_reference_index: u16,
    pub channelcount: u16,
    pub samplesize: u16,
    pub samplerate: FixedPointU16,
    pub esds: Option<EsdsBox>,
    pub qt_bytes: Option<Vec<u8>>,
}

/// Mathematical image of an `mp4a` sample entry.
pub ghost struct Mp4aView {
    pub data_reference_index: u16,
    pub channelcount: u16,
    pub samplesize: u16,
    pub samplerate: FixedPointU16,
    pub esds: Option<EsdsView>,
    pub qt: Seq<u8>,
}

impl View for Mp4aBox {
    type V = Mp4aView;

    open spec fn view(&self) -> Mp4aView {
        Mp4aView {
            data_reference_index: self.data_reference_index,
            channelcount: self.channelcount,
            samplesize: self.samplesize,
            samplerate: self.samplerate,
            esds: match self.esds {
                Some(e) => Some(e@),
                None => None,
            },
            qt: self.spec_mp4a_qt(),
        }
    }
}

/// What an `mp4a` payload means: the 28-byte audio prefix, then an
/// `esds` sub-box when one follows under that code, and everything after
/// it kept verbatim. A sub-box under another code is kept verbatim with
/// the rest.
pub open spec fn spec_parse_mp4a(data: Seq<u8>) -> Option<Mp4aView> {
    if data.len() < 28 {
        None
    } else {
        let data_reference_index = be16(data[6], data[7]);
        let channelcount = be16(data[16], data[17]);
        let samplesize = be16(data[18], data[19]);
        let samplerate = FixedPointU16 {
            raw: crate::bigend::be32(data[24], data[25], data[26], data[27]),
        };
        if data.len() - 28 < 8 {
            Some(
                Mp4aView {
                    data_reference_index,
                    channelcount,
                    samplesize,
                    samplerate,
                    esds: None,
                    qt: data.skip(28),
                },
            )
        } else {
            match crate::boxhead::spec_parse_header(data.skip(28)) {
                None => None,
                Some(h) => {
                    if h.1 > data.len() + 8 {
                        None
                    } else if h.0 == BoxType::EsdsBox {
                        if h.1 < 8 || 28 + h.2 - 8 + h.1 > data.len() {
                            None
                        } else {
                            match spec_parse_esds(
                                data.subrange(28 + h.2, 28 + h.2 - 8 + h.1 as int),
                            ) {
                                None => None,
                                Some(e) => Some(
                                    Mp4aView {
                                        data_reference_index,
                                        channelcount,
                                        samplesize,
                                        samplerate,
                                        esds: Some(e),
                                        qt: data.skip(28 + h.2 - 8 + h.1 as int),
                                    },
                                ),
                            }
                        }
                    } else {
                        Some(
                            Mp4aView {
                                data_reference_index,
                                channelcount,
                                samplesize,
                                samplerate,
                                esds: None,
                                qt: data.skip(28),
                            },
                        )
                    }
                },
            }
        }
    }
}

impl Mp4aBox {
    pub open spec fn spec_mp4a_qt(&self) -> Seq<u8> {
        match self.qt_bytes {
            Some(q) => q@,
            None => Seq::empty(),
        }
    }

    pub open spec fn wf(&self) -> bool {
        &&& self.esds matches Some(e) && e.wf()
        &&& self.spec_mp4a_qt().len() + 256 <= u32::MAX
        &&& self.spec_size() <= u32::MAX
    }

    pub open spec fn spec_size(&self) -> int {
        HEADER_SIZE + 28 + (match self.esds {
            Some(e) => e.spec_size(),
            None => 0,
        }) + self.spec_mp4a_qt().len()
    }

    pub fn get_type(&self) -> (r: BoxType)
        ensures
            r == BoxType::Mp4aBox,
    {
        BoxType::Mp4aBox
    }

    pub fn get_size(&self) -> (r: u64)
        requires
            self.wf(),
        ensures
            r == self.spec_size(),
    {
        let mut size: u64 = HEADER_SIZE + 28;
        if let Some(ref esds) = self.esds {
            size += esds.box_size();
        }
        if let Some(ref q) = self.qt_bytes {
            size += q.len() as u64;
        }
        size
    }

    /// The payload after the header: the 28-byte audio prefix, then the
    /// `esds` box when present.
    pub open spec fn spec_payload(&self) -> Seq<u8> {
        zero_bytes(6) + u16_be(self.data_reference_index) + u64_be(0) + u16_be(self.channelcount)
            + u16_be(self.samplesize) + u32_be(0) + u32_be(self.samplerate.raw) + (
        match self.esds {
            Some(e) => e.spec_bytes(),
            None => Seq::empty(),
        }) + self.spec_mp4a_qt()
    }

    pub open spec fn spec_bytes(&self) -> Seq<u8> {
        BoxHeader { name: BoxType::Mp4aBox, size: self.spec_size() as u64 }.spec_bytes()
            + self.spec_payload()
    }

    pub fn write_box(&self, out: &mut Vec<u8>) -> (r: Result<u64, Error>)
        requires
            self.wf(),
        ensures
            final(out)@ == old(out)@ + self.spec_bytes(),
            r == Ok::<u64, Error>(self.spec_size() as u64),
    {
        let size = self.get_size();
        let header = BoxHeader::new(BoxType::Mp4aBox, size);
        let _ = header.write(out);
        put_u32(out, 0);
        put_u16(out, 0);
        put_u16(out, self.data_reference_index);
        put_u64(out, 0);
        put_u16(out, self.channelcount);
        put_u16(out, self.samplesize);
        put_u32(out, 0);
        put_u32(out, self.samplerate.raw_value());
        if let Some(ref esds) = self.esds {
            let _ = esds.write_box(out);
        }
        if let Some(ref q) = self.qt_bytes {
            crate::bigend::put_bytes(out, q);
        }
        proof {
            crate::bigend::lemma_zero_be();
            assert(u32_be(0) + u16_be(0) =~= zero_bytes(6));
            assert(out@ =~= old(out)@ + self.spec_bytes());
        }
        Ok(size)
    }

    /// Reads the payload of an `mp4a` box whose header (already consumed)
    /// declared `size`; `pos` stands just after the header. Bytes after
    /// the recognized sub-box are kept verbatim as QuickTime payload.
    #[verifier::rlimit(100)]
    pub fn read_box(buf: &Vec<u8>, pos: usize, size: u64) -> (r: Result<(Mp4aBox, usize), Error>)
        requires
            pos >= 8,
            pos - 8 + size <= usize::MAX,
        ensures
            r matches Ok(v) ==> size >= 8 && pos - 8 + size <= buf@.len() && (
            match spec_parse_mp4a(buf@.subrange(pos as int, pos - 8 + size)) {
                Some(p) => v.0@ == p && v.1 == pos - 8 + size,
                None => false,
            }),
            size >= 8 && pos - 8 + size <= buf@.len() && spec_parse_mp4a(
                buf@.subrange(pos as int, pos - 8 + size),
            ) is Some ==> r is Ok,
    {
        if size < 8 {
            return Err(Error::IoError);
        }
        let start = pos - 8;
        let end = start + (size as usize);
        if end > buf.len() {
            return Err(Error::IoError);
        }
        let ghost data = buf@.subrange(pos as int, end as int);
        if end - pos < 28 {
            return Err(Error::IoError);
        }
        proof {
            assert(forall|k: int| 0 <= k < data.len() ==> data[k] == buf@[pos + k]);
        }
        let (data_reference_index, _) = match read_u16(buf, pos + 6) {
            Ok(v) => v,
            Err(e) => { return Err(e); },
        };
        let (channelcount, _) = match read_u16(buf, pos + 16) {
            Ok(v) => v,
            Err(e) => { return Err(e); },
        };
        let (samplesize, _) = match read_u16(buf, pos + 18) {
            Ok(v) => v,
            Err(e) => { return Err(e); },
        };
        let (rate_raw, _) = match read_u32(buf, pos + 24) {
            Ok(v) => v,
            Err(e) => { return Err(e); },
        };
        let samplerate = FixedPointU16::new_raw(rate_raw);
        let mut esds: Option<EsdsBox> = None;
        let mut qt_bytes: Option<Vec<u8>> = None;
        let mut p: usize = pos + 28;
        if end - p >= 8 {
            proof {
                assert(data.skip(28) =~= buf@.skip(pos as int + 28).take(data.len() - 28));
            }
            let (sub, p1) = match BoxHeader::read(buf, p) {
                Ok(v) => v,
                Err(e) => { return Err(e); },
            };
            if p1 > end {
                return Err(Error::IoError);
            }
            proof {
                let inner = data.skip(28);
                let outer = buf@.skip(pos as int + 28);
                assert(inner.len() >= 8);
                assert(inner.len() == end - pos - 28);
                assert(forall|k: int| 0 <= k < inner.len() ==> inner[k] == outer[k]);
                assert(crate::boxhead::spec_parse_header(inner) == Some(
                    (sub.name, sub.size, (p1 - pos - 28) as int),
                ));
            }
            if sub.size > size {
                return Err(
                    Error::InvalidData("mp4a box contains a box with a larger size than it"),
                );
            }
            if let BoxType::EsdsBox = sub.name {
                if sub.size < 8 {
                    return Err(Error::IoError);
                }
                if sub.size > ((end - (p1 - 8)) as u64) {
                    return Err(Error::IoError);
                }
                proof {
                    let h = crate::boxhead::spec_parse_header(data.skip(28)).unwrap();
                    assert(h.0 == sub.name && h.1 == sub.size && 28 + h.2 == p1 - pos);
                    assert(buf@.subrange(p1 as int, p1 - 8 + sub.size as int) =~= data.subrange(
                        28 + h.2,
                        28 + h.2 - 8 + h.1 as int,
                    ));
                }
                let (e, p2) = match EsdsBox::read_box(buf, p1, sub.size) {
                    Ok(v) => v,
                    Err(e) => { return Err(e); },
                };
                esds = Some(e);
                p = p2;
            }
        }
        let ghost tail = p - pos;
        if p < end {
            let mut qt: Vec<u8> = Vec::new();
            let mut k: usize = p;
            while k < end
                invariant
                    pos <= p <= k <= end <= buf@.len(),
                    tail == p - pos,
                    data == buf@.subrange(pos as int, end as int),
                    qt@.len() == k - p,
                    forall|m: int| 0 <= m < k - p ==> qt@[m] == data[tail + m],
                decreases end - k,
            {
                qt.push(buf[k]);
                k = k + 1;
            }
            proof {
                assert(qt@ =~= data.skip(tail));
            }
            qt_bytes = Some(qt);
        }
        let b = Mp4aBox {
            data_reference_index,
            channelcount,
            samplesize,
            samplerate,
            esds,
            qt_bytes,
        };
        proof {
            let pv = spec_parse_mp4a(data).unwrap();
            assert(b.spec_mp4a_qt() =~= pv.qt);
            assert(b@ == pv);
        }
        Ok((b, end))
    }
}

/// The audio prefix fields of a well-formed `mp4a` payload read back as
/// the entry's fields, and the `esds` sub-box occupies the rest.
#[verifier::rlimit(100)]
#[verifier::spinoff_prover]
proof fn lemma_mp4a_prefix(b: Mp4aBox)
    requires
        b.wf(),
        b.spec_mp4a_qt().len() == 0,
    ensures
        b.spec_bytes().skip(8) == b.spec_payload(),
        b.spec_payload().len() == 28 + b.esds.unwrap().spec_size(),
        be16(b.spec_payload()[6], b.spec_payload()[7]) == b.data_reference_index,
        be16(b.spec_payload()[16], b.spec_payload()[17]) == b.channelcount,
        be16(b.spec_payload()[18], b.spec_payload()[19]) == b.samplesize,
        crate::bigend::be32(
            b.spec_payload()[24],
            b.spec_payload()[25],
            b.spec_payload()[26],
            b.spec_payload()[27],
        ) == b.samplerate.raw,
        b.spec_payload().skip(28) == b.esds.unwrap().spec_bytes(),
        b.spec_bytes().len() == b.spec_size(),
{
    let e = b.esds.unwrap();
    let data = b.spec_payload();
    assert(spec_es_desc_bytes(e.es_desc).len() == 27);
    assert(e.spec_bytes().len() == e.spec_size());
    assert(b.spec_bytes().skip(8) =~= data);
    assert(data.len() == 28 + e.spec_size());
    crate::bigend::lemma_u16_be_val(b.data_reference_index);
    crate::bigend::lemma_u16_be_val(b.channelcount);
    crate::bigend::lemma_u16_be_val(b.samplesize);
    crate::bigend::lemma_u32_be_val(b.samplerate.raw);
    assert(be16(data[6], data[7]) == b.data_reference_index);
    assert(be16(data[16], data[17]) == b.channelcount);
    assert(be16(data[18], data[19]) == b.samplesize);
    assert(crate::bigend::be32(data[24], data[25], data[26], data[27]) == b.samplerate.raw);
    assert(data.skip(28) =~= e.spec_bytes());
}

/// Serializing any well-formed `mp4a` entry whose descriptor fields fit
/// their wire bits and parsing the result yields the entry back, and its
/// length is the declared size.
#[verifier::rlimit(100)]
#[verifier::spinoff_prover]
pub proof fn lemma_mp4a_round_trip(b: Mp4aBox)
    requires
        b.wf(),
        b.esds.unwrap().es_desc.dec_config.canonical(),
        b.spec_mp4a_qt().len() == 0,
    ensures
        b.spec_bytes().len() == b.spec_size(),
        spec_parse_mp4a(b.spec_bytes().skip(8)) == Some(b@),
{
    let e = b.esds.unwrap();
    let data = b.spec_payload();
    lemma_mp4a_prefix(b);
    let hdr = BoxHeader { name: BoxType::EsdsBox, size: e.spec_size() as u64 };
    hdr.lemma_round_trip();
    assert(crate::boxhead::spec_parse_header(e.spec_bytes()) == Some(
        (BoxType::EsdsBox, e.spec_size() as u64, 8int),
    ));
    lemma_esds_round_trip(e);
    assert(data.subrange(28int + 8, 28 + e.spec_size() as int) =~= e.spec_bytes().skip(8));
    let pv = spec_parse_mp4a(data).unwrap();
    assert(pv.qt =~= b.spec_mp4a_qt());
    assert(spec_parse_mp4a(data) == Some(b@));
}


impl EsdsBox {
    /// Decides well-formedness of the descriptor box.
    pub fn check_wf(&self) -> (r: bool)
        ensures
            r <==> self.wf(),
    {
        if self.flags >= 0x1000000 {
            return false;
        }
        match &self.qt_bytes {
            Some(q) => (q.len() as u64) <= u32::MAX as u64 - 128,
            None => true,
        }
    }
}

impl Mp4aBox {
    /// Decides well-formedness of the entry.
    pub fn check_wf(&self) -> (r: bool)
        ensures
            r <==> self.wf(),
    {
        let esds = match &self.esds {
            Some(e) => e,
            None => {
                return false;
            },
        };
        if !esds.check_wf() {
            return false;
        }
        let mqt: u64 = match &self.qt_bytes {
            Some(q) => q.len() as u64,
            None => 0,
        };
        if mqt > u32::MAX as u64 - 256 {
            return false;
        }
        let eqt: u64 = match &esds.qt_bytes {
            Some(q) => q.len() as u64,
            None => 0,
        };
        let size: u64 = 36 + 39 + eqt + mqt;
        proof {
            assert(spec_es_desc_bytes(self.esds.unwrap().es_desc).len() == 27);
        }
        size <= u32::MAX as u64
    }
}

} // verus!
