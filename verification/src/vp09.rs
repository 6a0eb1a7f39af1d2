//! The `vp09` VP9 sample entry and its `vpcC` configuration box.

use vstd::prelude::*;

use crate::bigend::put_u16;
use crate::bigend::put_u32;
use crate::bigend::put_u64;
use crate::bigend::put_u8;
use crate::bigend::put_zeros;
use crate::bigend::read_u16;
use crate::bigend::read_u32;
use crate::bigend::u16_be;
use crate::bigend::u32_be;
use crate::bigend::u64_be;
use crate::bigend::zero_bytes;
use crate::boxhead::spec_ext_bytes;
use crate::boxhead::BoxHeader;
use crate::boxhead::BoxType;
use crate::boxhead::HEADER_EXT_SIZE;
use crate::boxhead::HEADER_SIZE;
use crate::error::Error;
use crate::types::FixedPointU16;
use crate::types::Vp9Config;

verus! {

/// The `vpcC` VP9 codec configuration.
#[derive(Debug, Clone, Copy, PartialEq, Eq, Structural)]
pub struct VpccBox {
    pub version: u8,
    pub flags: u32,
    pub profile: u8,
    pub level: u8,
    pub bit_depth: u8,
    pub chroma_subsampling: u8,
    pub video_full_range_flag: bool,
    pub color_primaries: u8,
    pub transfer_characteristics: u8,
    pub matrix_coefficients: u8,
    pub codec_initialization_data_size: u16,
}

impl VpccBox {
    pub open spec fn wf(&self) -> bool {
        &&& self.flags < 0x1000000
        &&& self.bit_depth <= 0xF
        &&& self.chroma_subsampling <= 0x7
    }

    pub open spec fn spec_size(&self) -> int {
        HEADER_SIZE + HEADER_EXT_SIZE + 8
    }

    /// The payload after the header.
    pub open spec fn spec_payload(&self) -> Seq<u8> {
        spec_ext_bytes(self.version, self.flags) + seq![
            self.profile,
            self.level,
            ((((self.bit_depth & 0xF) << 4) | ((self.chroma_subsampling & 0x7) << 1)) | (
            if self.video_full_range_flag {
                1u8
            } else {
                0u8
            })) as u8,
            self.color_primaries,
            self.transfer_characteristics,
            self.matrix_coefficients,
        ] + u16_be(self.codec_initialization_data_size)
    }

    pub open spec fn spec_bytes(&self) -> Seq<u8> {
        BoxHeader { name: BoxType::VpccBox, size: self.spec_size() as u64 }.spec_bytes()
            + self.spec_payload()
    }

    pub fn box_size(&self) -> (r: u64)
        ensures
            r == self.spec_size(),
    {
        HEADER_SIZE + HEADER_EXT_SIZE + 8
    }

    pub fn write_box(&self, out: &mut Vec<u8>) -> (r: Result<u64, Error>)
        requires
            self.wf(),
        ensures
            final(out)@ == old(out)@ + self.spec_bytes(),
            r == Ok::<u64, Error>(self.spec_size() as u64),
    {
        let size = self.box_size();
        let header = BoxHeader::new(BoxType::VpccBox, size);
        let _ = header.write(out);
        let _ = crate::boxhead::write_box_header_ext(out, self.version, self.flags);
        put_u8(out, self.profile);
        put_u8(out, self.level);
        let range: u8 = if self.video_full_range_flag {
            1
        } else {
            0
        };
        put_u8(out, ((self.bit_depth & 0xF) << 4) | ((self.chroma_subsampling & 0x7) << 1) | range);
        put_u8(out, self.color_primaries);
        put_u8(out, self.transfer_characteristics);
        put_u8(out, self.matrix_coefficients);
        put_u16(out, self.codec_initialization_data_size);
        assert(out@ =~= old(out)@ + self.spec_bytes());
        Ok(size)
    }

    /// Reads the payload of a `vpcC` box whose header (already consumed)
    /// declared `size`; `pos` stands just after the header.
    pub fn read_box(buf: &Vec<u8>, pos: usize, size: u64) -> (r: Result<(VpccBox, usize), Error>)
        requires
            pos >= 8,
            pos - 8 + size <= usize::MAX,
        ensures
            r matches Ok(v) ==> size >= 8 && pos - 8 + size <= buf@.len() && (
            match spec_parse_vpcc(buf@.subrange(pos as int, pos - 8 + size)) {
                Some(p) => v.0 == p && v.1 == pos - 8 + size,
                None => false,
            }),
            size >= 8 && pos - 8 + size <= buf@.len() && spec_parse_vpcc(
                buf@.subrange(pos as int, pos - 8 + size),
            ) is Some ==> r is Ok,
    {
        if size < 8 {
            return Err(Error::IoError);
        }
        let start = pos - 8;
        let end = start + (size as usize);
        if end > buf.len() {
            return Err(Error::IoError);
        }
        if end - pos < 12 {
            return Err(Error::IoError);
        }
        let ghost data = buf@.subrange(pos as int, end as int);
        proof {
            assert(forall|k: int| 0 <= k < data.len() ==> data[k] == buf@[pos + k]);
        }
        let ((version, flags), p0) = match crate::boxhead::read_box_header_ext(buf, pos) {
            Ok(v) => v,
            Err(e) => { return Err(e); },
        };
        let profile = buf[p0];
        let level = buf[p0 + 1];
        let packed = buf[p0 + 2];
        let bit_depth = packed >> 4;
        let chroma_subsampling = (packed >> 1) & 0x7;
        let video_full_range_flag = (packed & 0x1) == 1;
        let color_primaries = buf[p0 + 3];
        let transfer_characteristics = buf[p0 + 4];
        let matrix_coefficients = buf[p0 + 5];
        let (codec_initialization_data_size, _) = match read_u16(buf, p0 + 6) {
            Ok(v) => v,
            Err(e) => { return Err(e); },
        };
        Ok(
            (
                VpccBox {
                    version,
                    flags,
                    profile,
                    level,
                    bit_depth,
                    chroma_subsampling,
                    video_full_range_flag,
                    color_primaries,
                    transfer_characteristics,
                    matrix_coefficients,
                    codec_initialization_data_size,
                },
                end,
            ),
        )
    }
}

/// What a `vpcC` payload (the bytes after the header) means.
pub open spec fn spec_parse_vpcc(data: Seq<u8>) -> Option<VpccBox> {
    if data.len() < 12 {
        None
    } else {
        Some(
            VpccBox {
                version: data[0],
                flags: crate::bigend::be24(data[1], data[2], data[3]),
                profile: data[4],
                level: data[5],
                bit_depth: data[6] >> 4,
                chroma_subsampling: (data[6] >> 1) & 0x7,
                video_full_range_flag: (data[6] & 0x1) == 1,
                color_primaries: data[7],
                transfer_characteristics: data[8],
                matrix_coefficients: data[9],
                codec_initialization_data_size: crate::bigend::be16(data[10], data[11]),
            },
        )
    }
}

/// Serializing any well-formed `vpcC` box and parsing the result yields
/// the box back, and its length is the declared size.
pub proof fn lemma_vpcc_round_trip(b: VpccBox)
    requires
        b.wf(),
    ensures
        b.spec_bytes().len() == b.spec_size(),
        spec_parse_vpcc(b.spec_bytes().skip(8)) == Some(b),
{
    let data = b.spec_payload();
    assert(b.spec_bytes().skip(8) =~= data);
    crate::bigend::lemma_u24_be_val(b.flags);
    crate::bigend::lemma_u16_be_val(b.codec_initialization_data_size);
    assert(crate::bigend::be24(data[1], data[2], data[3]) == b.flags);
    assert(crate::bigend::be16(data[10], data[11]) == b.codec_initialization_data_size);
    let bd = b.bit_depth;
    let cs = b.chroma_subsampling;
    let fr: u8 = if b.video_full_range_flag {
        1u8
    } else {
        0u8
    };
    assert(bd <= 0xF && cs <= 0x7 && fr <= 1 ==> (((((bd & 0xF) << 4) | ((cs & 0x7) << 1)) | fr)
        >> 4 == bd && (((((bd & 0xF) << 4) | ((cs & 0x7) << 1)) | fr) >> 1) & 0x7 == cs && ((((bd
        & 0xF) << 4) | ((cs & 0x7) << 1)) | fr) & 0x1 == fr)) by (bit_vector);
    let p = spec_parse_vpcc(data).unwrap();
    assert(p.video_full_range_flag == b.video_full_range_flag);
    assert(p == b);
}

/// The `vp09` VP9 sample entry.
#[derive(Debug, Clone, PartialEq, Eq)]
pub struct Vp09Box {
    pub data_reference_index: u16,
    pub width: u16,
    pub height: u16,
    pub horizresolution: FixedPointU16,
    pub vertresolution: FixedPointU16,
    pub frame_count: u16,
    pub depth: u16,
    pub vpcc: VpccBox,
}

/// What a `vp09` payload means: the visual prefix fields, then the
/// nested `vpcC` configuration.
pub open spec fn spec_parse_vp09(data: Seq<u8>) -> Option<Vp09Box> {
    if data.len() < 86 {
        None
    } else {
        match crate::boxhead::spec_parse_header(data.skip(78)) {
            None => None,
            Some(h) => {
                if h.1 > data.len() + 8 {
                    None
                } else if h.0 == BoxType::VpccBox {
                    if h.1 < 8 || 78 + h.2 - 8 + h.1 > data.len() {
                        None
                    } else {
                        match spec_parse_vpcc(data.subrange(78 + h.2, 78 + h.2 - 8 + h.1 as int)) {
                            None => None,
                            Some(c) => Some(
                                Vp09Box {
                                    data_reference_index: crate::bigend::be16(data[6], data[7]),
                                    width: crate::bigend::be16(data[24], data[25]),
                                    height: crate::bigend::be16(data[26], data[27]),
                                    horizresolution: FixedPointU16 {
                                        raw: crate::bigend::be32(
                                            data[28],
                                            data[29],
                                            data[30],
                                            data[31],
                                        ),
                                    },
                                    vertresolution: FixedPointU16 {
                                        raw: crate::bigend::be32(
                                            data[32],
                                            data[33],
                                            data[34],
                                            data[35],
                                        ),
                                    },
                                    frame_count: crate::bigend::be16(data[40], data[41]),
                                    depth: crate::bigend::be16(data[74], data[75]),
                                    vpcc: c,
                                },
                            ),
                        }
                    }
                } else {
                    None
                }
            },
        }
    }
}

impl Vp09Box {
    pub fn new(config: &Vp9Config) -> (r: Self)
        ensures
            r.data_reference_index == 1,
            r.width == config.width,
            r.height == config.height,
            r.frame_count == 1,
            r.depth == 24,
            r.vpcc.version == 1,
            r.vpcc.profile == config.profile,
            r.vpcc.level == config.level,
            r.vpcc.bit_depth == config.bit_depth,
            r.vpcc.chroma_subsampling == config.chroma_subsampling,
            r.vpcc.video_full_range_flag == config.video_full_range_flag,
    {
        Vp09Box {
            data_reference_index: 1,
            width: config.width,
            height: config.height,
            horizresolution: FixedPointU16::new(0x48),
            vertresolution: FixedPointU16::new(0x48),
            frame_count: 1,
            depth: 24,
            vpcc: VpccBox {
                version: 1,
                flags: 0,
                profile: config.profile,
                level: config.level,
                bit_depth: config.bit_depth,
                chroma_subsampling: config.chroma_subsampling,
                video_full_range_flag: config.video_full_range_flag,
                color_primaries: config.color_primaries,
                transfer_characteristics: config.transfer_characteristics,
                matrix_coefficients: config.matrix_coefficients,
                codec_initialization_data_size: config.codec_initialization_data_size,
            },
        }
    }

    pub open spec fn wf(&self) -> bool {
        self.vpcc.wf()
    }

    pub open spec fn spec_size(&self) -> int {
        HEADER_SIZE + 8 + 70 + self.vpcc.spec_size()
    }

    pub fn get_type(&self) -> (r: BoxType)
        ensures
            r == BoxType::Vp09Box,
    {
        BoxType::Vp09Box
    }

    pub fn get_size(&self) -> (r: u64)
        ensures
            r == self.spec_size(),
    {
        HEADER_SIZE + 8 + 70 + self.vpcc.box_size()
    }

    /// The payload after the header.
    pub open spec fn spec_payload(&self) -> Seq<u8> {
        zero_bytes(6) + u16_be(self.data_reference_index) + zero_bytes(16) + u16_be(self.width)
            + u16_be(self.height) + u32_be(self.horizresolution.raw) + u32_be(
            self.vertresolution.raw,
        ) + zero_bytes(4) + u16_be(self.frame_count) + zero_bytes(32) + u16_be(self.depth)
            + u16_be(0xFFFF) + self.vpcc.spec_bytes()
    }

    pub open spec fn spec_bytes(&self) -> Seq<u8> {
        BoxHeader { name: BoxType::Vp09Box, size: self.spec_size() as u64 }.spec_bytes()
            + self.spec_payload()
    }

    pub fn write_box(&self, out: &mut Vec<u8>) -> (r: Result<u64, Error>)
        requires
            self.wf(),
        ensures
            final(out)@ == old(out)@ + self.spec_bytes(),
            r == Ok::<u64, Error>(self.spec_size() as u64),
    {
        let size = self.get_size();
        let header = BoxHeader::new(BoxType::Vp09Box, size);
        let _ = header.write(out);
        put_u32(out, 0);
        put_u16(out, 0);
        put_u16(out, self.data_reference_index);
        put_u32(out, 0);
        put_u64(out, 0);
        put_u32(out, 0);
        put_u16(out, self.width);
        put_u16(out, self.height);
        put_u32(out, self.horizresolution.raw_value());
        put_u32(out, self.vertresolution.raw_value());
        put_u32(out, 0);
        put_u16(out, self.frame_count);
        put_zeros(out, 32);
        put_u16(out, self.depth);
        put_u16(out, 0xFFFF);
        let _ = self.vpcc.write_box(out);
        proof {
            crate::bigend::lemma_zero_be();
            assert(u32_be(0) + u16_be(0) =~= zero_bytes(6));
            assert(u32_be(0) + u64_be(0) + u32_be(0) =~= zero_bytes(16));
            assert(out@ =~= old(out)@ + self.spec_bytes());
        }
        Ok(size)
    }

    /// Reads the payload of a `vp09` box whose header (already consumed)
    /// declared `size`; `pos` stands just after the header.
    #[verifier::rlimit(100)]
    pub fn read_box(buf: &Vec<u8>, pos: usize, size: u64) -> (r: Result<(Vp09Box, usize), Error>)
        requires
            pos >= 8,
            pos - 8 + size <= usize::MAX,
        ensures
            r matches Ok(v) ==> size >= 8 && pos - 8 + size <= buf@.len() && (
            match spec_parse_vp09(buf@.subrange(pos as int, pos - 8 + size)) {
                Some(p) => v.0 == p && v.1 == pos - 8 + size,
                None => false,
            }),
            size >= 8 && pos - 8 + size <= buf@.len() && spec_parse_vp09(
                buf@.subrange(pos as int, pos - 8 + size),
            ) is Some ==> r is Ok,
    {
        if size < 8 {
            return Err(Error::IoError);
        }
        let start = pos - 8;
        let end = start + (size as usize);
        if end > buf.len() {
            return Err(Error::IoError);
        }
        let ghost data = buf@.subrange(pos as int, end as int);
        if end - pos < 86 {
            return Err(Error::IoError);
        }
        proof {
            assert(forall|k: int| 0 <= k < data.len() ==> data[k] == buf@[pos + k]);
            assert(data.skip(78) =~= buf@.skip(pos as int + 78).take(data.len() - 78));
        }
        let (data_reference_index, _) = match read_u16(buf, pos + 6) {
            Ok(v) => v,
            Err(e) => { return Err(e); },
        };
        let (width, _) = match read_u16(buf, pos + 24) {
            Ok(v) => v,
            Err(e) => { return Err(e); },
        };
        let (height, _) = match read_u16(buf, pos + 26) {
            Ok(v) => v,
            Err(e) => { return Err(e); },
        };
        let (horiz_raw, _) = match read_u32(buf, pos + 28) {
            Ok(v) => v,
            Err(e) => { return Err(e); },
        };
        let (vert_raw, _) = match read_u32(buf, pos + 32) {
            Ok(v) => v,
            Err(e) => { return Err(e); },
        };
        let (frame_count, _) = match read_u16(buf, pos + 40) {
            Ok(v) => v,
            Err(e) => { return Err(e); },
        };
        let (depth, _) = match read_u16(buf, pos + 74) {
            Ok(v) => v,
            Err(e) => { return Err(e); },
        };
        let (sub, p) = match BoxHeader::read(buf, pos + 78) {
            Ok(v) => v,
            Err(e) => { return Err(e); },
        };
        if p > end {
            return Err(Error::IoError);
        }
        proof {
            let inner = data.skip(78);
            let outer = buf@.skip(pos as int + 78);
            assert(inner.len() >= 8);
            assert(inner.len() == end - pos - 78);
            assert(forall|k: int| 0 <= k < inner.len() ==> inner[k] == outer[k]);
            assert(crate::boxhead::spec_parse_header(inner) == Some(
                (sub.name, sub.size, (p - pos - 78) as int),
            ));
        }
        if sub.size > size {
            return Err(Error::InvalidData("vp09 box contains a box with a larger size than it"));
        }
        if let BoxType::VpccBox = sub.name {
            if sub.size < 8 {
                return Err(Error::IoError);
            }
            if sub.size > ((end - (p - 8)) as u64) {
                return Err(Error::IoError);
            }
            proof {
                let h = crate::boxhead::spec_parse_header(data.skip(78)).unwrap();
                assert(h.0 == sub.name && h.1 == sub.size && 78 + h.2 == p - pos);
                assert(buf@.subrange(p as int, p - 8 + sub.size as int) =~= data.subrange(
                    78 + h.2,
                    78 + h.2 - 8 + h.1 as int,
                ));
            }
            let (vpcc, _) = match VpccBox::read_box(buf, p, sub.size) {
                Ok(v) => v,
                Err(e) => { return Err(e); },
            };
            Ok(
                (
                    Vp09Box {
                        data_reference_index,
                        width,
                        height,
                        horizresolution: FixedPointU16::new_raw(horiz_raw),
                        vertresolution: FixedPointU16::new_raw(vert_raw),
                        frame_count,
                        depth,
                        vpcc,
                    },
                    end,
                ),
            )
        } else {
            Err(Error::InvalidData("vpcc not found"))
        }
    }
}


/// Serializing any well-formed `vp09` entry and parsing the result
/// yields the entry back, and its length is the declared size.
#[verifier::rlimit(100)]
pub proof fn lemma_vp09_round_trip(b: Vp09Box)
    requires
        b.wf(),
    ensures
        b.spec_bytes().len() == b.spec_size(),
        spec_parse_vp09(b.spec_bytes().skip(8)) == Some(b),
{
    let data = b.spec_payload();
    assert(b.spec_bytes().skip(8) =~= data);
    assert(data.len() == 78 + 20);
    crate::bigend::lemma_u16_be_val(b.data_reference_index);
    crate::bigend::lemma_u16_be_val(b.width);
    crate::bigend::lemma_u16_be_val(b.height);
    crate::bigend::lemma_u16_be_val(b.frame_count);
    crate::bigend::lemma_u16_be_val(b.depth);
    crate::bigend::lemma_u32_be_val(b.horizresolution.raw);
    crate::bigend::lemma_u32_be_val(b.vertresolution.raw);
    assert(crate::bigend::be16(data[6], data[7]) == b.data_reference_index);
    assert(crate::bigend::be16(data[24], data[25]) == b.width);
    assert(crate::bigend::be16(data[26], data[27]) == b.height);
    assert(crate::bigend::be32(data[28], data[29], data[30], data[31]) == b.horizresolution.raw);
    assert(crate::bigend::be32(data[32], data[33], data[34], data[35]) == b.vertresolution.raw);
    assert(crate::bigend::be16(data[40], data[41]) == b.frame_count);
    assert(crate::bigend::be16(data[74], data[75]) == b.depth);
    assert(data.skip(78) =~= b.vpcc.spec_bytes());
    let hdr = BoxHeader { name: BoxType::VpccBox, size: b.vpcc.spec_size() as u64 };
    hdr.lemma_round_trip();
    assert(crate::boxhead::spec_parse_header(b.vpcc.spec_bytes()) == Some(
        (BoxType::VpccBox, b.vpcc.spec_size() as u64, 8int),
    ));
    lemma_vpcc_round_trip(b.vpcc);
    assert(data.subrange(78int + 8, 78 + b.vpcc.spec_size() as int) =~= b.vpcc.spec_bytes().skip(
        8,
    ));
    assert(spec_parse_vp09(data) == Some(b));
}

impl VpccBox {
    /// Decides well-formedness of the configuration.
    pub fn check_wf(&self) -> (r: bool)
        ensures
            r <==> self.wf(),
    {
        self.flags < 0x1000000 && self.bit_depth <= 0xF && self.chroma_subsampling <= 0x7
    }
}

impl Vp09Box {
    /// Decides well-formedness of the entry.
    pub fn check_wf(&self) -> (r: bool)
        ensures
            r <==> self.wf(),
    {
        self.vpcc.check_wf()
    }
}

} // verus!
