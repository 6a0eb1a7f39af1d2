//! HEVC decoder configuration: the `hvcC` record with its parameter
//! arrays, and the `hvc1`/`hev1` sample entries that carry it.

use vstd::prelude::*;

use crate::bigend::be16;
use crate::bigend::be32;
use crate::bigend::be48;
use crate::bigend::put_u16;
use crate::bigend::put_u32;
use crate::bigend::put_u48;
use crate::bigend::put_u64;
use crate::bigend::put_u8;
use crate::bigend::put_zeros;
use crate::bigend::read_u16;
use crate::bigend::read_u32;
use crate::bigend::read_u48;
use crate::bigend::read_u8;
use crate::bigend::u16_be;
use crate::bigend::u32_be;
use crate::bigend::u48_be;
use crate::bigend::u64_be;
use crate::bigend::zero_bytes;
use crate::boxhead::spec_parse_header;
use crate::boxhead::BoxHeader;
use crate::boxhead::BoxType;
use crate::boxhead::HEADER_SIZE;
use crate::error::Error;
use crate::types::FixedPointU16;
use crate::types::HevcConfig;

verus! {

/// One NAL unit inside an `hvcC` parameter array. A well-formed unit
/// declares its payload length in `size`.
#[derive(Debug, Clone, PartialEq, Eq)]
pub struct HvcCArrayNalu {
    pub size: u16,
    pub data: Vec<u8>,
}

/// Mathematical image of a NAL unit entry.
pub ghost struct NaluView {
    pub size: u16,
    pub data: Seq<u8>,
}

impl View for HvcCArrayNalu {
    type V = NaluView;

    open spec fn view(&self) -> NaluView {
        NaluView { size: self.size, data: self.data@ }
    }
}

/// One parameter array of an `hvcC` record (e.g. the VPS, SPS or PPS set).
#[derive(Debug, Clone, PartialEq, Eq)]
pub struct HvcCArray {
    pub completeness: bool,
    pub nal_unit_type: u8,
    pub nalus: Vec<HvcCArrayNalu>,
}

/// Mathematical image of a parameter array.
pub ghost struct ArrayView {
    pub completeness: bool,
    pub nal_unit_type: u8,
    pub nalus: Seq<NaluView>,
}

impl View for HvcCArray {
    type V = ArrayView;

    open spec fn view(&self) -> ArrayView {
        ArrayView {
            completeness: self.completeness,
            nal_unit_type: self.nal_unit_type,
            nalus: self.nalus@.map_values(|n: HvcCArrayNalu| n@),
        }
    }
}

/// The HEVC decoder configuration record.
#[derive(Debug, Clone, PartialEq, Eq)]
pub struct HvcCBox {
    pub configuration_version: u8,
    pub general_profile_space: u8,
    pub general_tier_flag: bool,
    pub general_profile_idc: u8,
    pub general_profile_compatibility_flags: u32,
    pub general_constraint_indicator_flag: u64,
    pub general_level_idc: u8,
    pub min_spatial_segmentation_idc: u16,
    pub parallelism_type: u8,
    pub chroma_format_idc: u8,
    pub bit_depth_luma_minus8: u8,
    pub bit_depth_chroma_minus8: u8,
    pub avg_frame_rate: u16,
    pub constant_frame_rate: u8,
    pub num_temporal_layers: u8,
    pub temporal_id_nested: bool,
    pub length_size_minus_one: u8,
    pub arrays: Vec<HvcCArray>,
}

/// Mathematical image of an `hvcC` record.
pub ghost struct HvcCView {
    pub configuration_version: u8,
    pub general_profile_space: u8,
    pub general_tier_flag: bool,
    pub general_profile_idc: u8,
    pub general_profile_compatibility_flags: u32,
    pub general_constraint_indicator_flag: u64,
    pub general_level_idc: u8,
    pub min_spatial_segmentation_idc: u16,
    pub parallelism_type: u8,
    pub chroma_format_idc: u8,
    pub bit_depth_luma_minus8: u8,
    pub bit_depth_chroma_minus8: u8,
    pub avg_frame_rate: u16,
    pub constant_frame_rate: u8,
    pub num_temporal_layers: u8,
    pub temporal_id_nested: bool,
    pub length_size_minus_one: u8,
    pub arrays: Seq<ArrayView>,
}

impl View for HvcCBox {
    type V = HvcCView;

    open spec fn view(&self) -> HvcCView {
        HvcCView {
            configuration_version: self.configuration_version,
            general_profile_space: self.general_profile_space,
            general_tier_flag: self.general_tier_flag,
            general_profile_idc: self.general_profile_idc,
            general_profile_compatibility_flags: self.general_profile_compatibility_flags,
            general_constraint_indicator_flag: self.general_constraint_indicator_flag,
            general_level_idc: self.general_level_idc,
            min_spatial_segmentation_idc: self.min_spatial_segmentation_idc,
            parallelism_type: self.parallelism_type,
            chroma_format_idc: self.chroma_format_idc,
            bit_depth_luma_minus8: self.bit_depth_luma_minus8,
            bit_depth_chroma_minus8: self.bit_depth_chroma_minus8,
            avg_frame_rate: self.avg_frame_rate,
            constant_frame_rate: self.constant_frame_rate,
            num_temporal_layers: self.num_temporal_layers,
            temporal_id_nested: self.temporal_id_nested,
            length_size_minus_one: self.length_size_minus_one,
            arrays: self.arrays@.map_values(|a: HvcCArray| a@),
        }
    }
}

impl Default for HvcCBox {
    fn default() -> (r: Self)
        ensures
            r.configuration_version == 0,
            r.general_profile_space == 0,
            r.general_tier_flag == false,
            r.general_profile_idc == 0,
            r.general_profile_compatibility_flags == 0,
            r.general_constraint_indicator_flag == 0,
            r.general_level_idc == 0,
            r.min_spatial_segmentation_idc == 0,
            r.parallelism_type == 0,
            r.chroma_format_idc == 0,
            r.bit_depth_luma_minus8 == 0,
            r.bit_depth_chroma_minus8 == 0,
            r.avg_frame_rate == 0,
            r.constant_frame_rate == 0,
            r.num_temporal_layers == 0,
            r.temporal_id_nested == false,
            r.length_size_minus_one == 0,
            r.arrays@ == Seq::<HvcCArray>::empty(),
    {
        let r = HvcCBox {
            configuration_version: 0,
            general_profile_space: 0,
            general_tier_flag: false,
            general_profile_idc: 0,
            general_profile_compatibility_flags: 0,
            general_constraint_indicator_flag: 0,
            general_level_idc: 0,
            min_spatial_segmentation_idc: 0,
            parallelism_type: 0,
            chroma_format_idc: 0,
            bit_depth_luma_minus8: 0,
            bit_depth_chroma_minus8: 0,
            avg_frame_rate: 0,
            constant_frame_rate: 0,
            num_temporal_layers: 0,
            temporal_id_nested: false,
            length_size_minus_one: 0,
            arrays: Vec::new(),
        };
        proof {
            assert(r.arrays@ =~= Seq::<HvcCArray>::empty());
        }
        r
    }
}

// Serialization of the nested lists.

pub open spec fn spec_nalu_bytes(n: NaluView) -> Seq<u8> {
    u16_be(n.size) + n.data
}

pub open spec fn spec_nalus_bytes(s: Seq<NaluView>) -> Seq<u8>
    decreases s.len(),
{
    if s.len() == 0 {
        Seq::empty()
    } else {
        spec_nalu_bytes(s.first()) + spec_nalus_bytes(s.drop_first())
    }
}

pub open spec fn spec_array_bytes(a: ArrayView) -> Seq<u8> {
    seq![
        (((if a.completeness {
            1u8
        } else {
            0u8
        }) << 7) | (a.nal_unit_type & 0x3F)) as u8,
    ] + u16_be(a.nalus.len() as u16) + spec_nalus_bytes(a.nalus)
}

pub open spec fn spec_arrays_bytes(s: Seq<ArrayView>) -> Seq<u8>
    decreases s.len(),
{
    if s.len() == 0 {
        Seq::empty()
    } else {
        spec_array_bytes(s.first()) + spec_arrays_bytes(s.drop_first())
    }
}

// Parsing of the nested lists: each returns the parsed values and the
// offset just after them.

pub open spec fn spec_parse_nalus(data: Seq<u8>, off: int, count: int) -> Option<
    (Seq<NaluView>, int),
>
    decreases count,
{
    if count <= 0 {
        Some((Seq::empty(), off))
    } else if off + 2 > data.len() {
        None
    } else {
        let size = be16(data[off], data[off + 1]);
        if off + 2 + size > data.len() {
            None
        } else {
            let n = NaluView { size, data: data.subrange(off + 2, off + 2 + size) };
            match spec_parse_nalus(data, off + 2 + size, count - 1) {
                None => None,
                Some(rest) => Some((seq![n] + rest.0, rest.1)),
            }
        }
    }
}

pub open spec fn spec_parse_arrays(data: Seq<u8>, off: int, count: int) -> Option<
    (Seq<ArrayView>, int),
>
    decreases count,
{
    if count <= 0 {
        Some((Seq::empty(), off))
    } else if off + 3 > data.len() {
        None
    } else {
        let b = data[off];
        let num_nalus = be16(data[off + 1], data[off + 2]);
        match spec_parse_nalus(data, off + 3, num_nalus as int) {
            None => None,
            Some(nalus) => {
                let a = ArrayView {
                    completeness: (b >> 7) == 1,
                    nal_unit_type: b & 0x3F,
                    nalus: nalus.0,
                };
                match spec_parse_arrays(data, nalus.1, count - 1) {
                    None => None,
                    Some(rest) => Some((seq![a] + rest.0, rest.1)),
                }
            },
        }
    }
}

/// What an `hvcC` payload (the bytes after the header) means.
pub open spec fn spec_parse_hvcc(data: Seq<u8>) -> Option<HvcCView> {
    if data.len() < 23 {
        None
    } else {
        let b1 = data[1];
        let b21 = data[21];
        match spec_parse_arrays(data, 23, data[22] as int) {
            None => None,
            Some(arrays) => Some(
                HvcCView {
                    configuration_version: data[0],
                    general_profile_space: b1 >> 6,
                    general_tier_flag: ((b1 >> 5) & 0x1) == 1,
                    general_profile_idc: b1 & 0x1F,
                    general_profile_compatibility_flags: be32(data[2], data[3], data[4], data[5]),
                    general_constraint_indicator_flag: be48(
                        data[6],
                        data[7],
                        data[8],
                        data[9],
                        data[10],
                        data[11],
                    ),
                    general_level_idc: data[12],
                    min_spatial_segmentation_idc: be16(data[13], data[14]) & 0x0FFF,
                    parallelism_type: data[15] & 0x3,
                    chroma_format_idc: data[16] & 0x3,
                    bit_depth_luma_minus8: data[17] & 0x7,
                    bit_depth_chroma_minus8: data[18] & 0x7,
                    avg_frame_rate: be16(data[19], data[20]),
                    constant_frame_rate: (b21 >> 6) & 0x3,
                    num_temporal_layers: (b21 >> 3) & 0x7,
                    temporal_id_nested: ((b21 >> 2) & 0x1) == 1,
                    length_size_minus_one: b21 & 0x3,
                    arrays: arrays.0,
                },
            ),
        }
    }
}

impl NaluView {
    /// The declared size matches the payload.
    pub open spec fn wf(self) -> bool {
        self.size == self.data.len()
    }
}

impl ArrayView {
    pub open spec fn wf(self) -> bool {
        &&& self.nal_unit_type <= 0x3F
        &&& self.nalus.len() <= u16::MAX
        &&& forall|i: int| 0 <= i < self.nalus.len() ==> self.nalus[i].wf()
    }
}

impl HvcCArrayNalu {
    /// The declared size matches the payload.
    pub open spec fn wf(&self) -> bool {
        self@.wf()
    }
}

impl HvcCArray {
    pub open spec fn wf(&self) -> bool {
        &&& self@.wf()
        &&& forall|i: int| 0 <= i < self.nalus@.len() ==> self.nalus@[i].wf()
    }
}

impl HvcCBox {
    pub fn new() -> (r: Self)
        ensures
            r.configuration_version == 1,
            r.arrays@ == Seq::<HvcCArray>::empty(),
    {
        let mut b = HvcCBox::default();
        b.configuration_version = 1;
        b
    }

    /// Bit-packed fields inside their ranges, and every array well-formed.
    pub open spec fn wf(&self) -> bool {
        &&& self.general_profile_space <= 0x3
        &&& self.general_profile_idc <= 0x1F
        &&& self.general_constraint_indicator_flag < 0x1000000000000
        &&& self.min_spatial_segmentation_idc <= 0x0FFF
        &&& self.parallelism_type <= 0x3
        &&& self.chroma_format_idc <= 0x3
        &&& self.bit_depth_luma_minus8 <= 0x7
        &&& self.bit_depth_chroma_minus8 <= 0x7
        &&& self.constant_frame_rate <= 0x3
        &&& self.num_temporal_layers <= 0x7
        &&& self.length_size_minus_one <= 0x3
        &&& self.arrays@.len() <= u8::MAX
        &&& forall|i: int| 0 <= i < self.arrays@.len() ==> self.arrays@[i].wf()
        &&& spec_arrays_bytes(self@.arrays).len() + 128 <= u32::MAX
    }

    pub open spec fn spec_profile_byte(&self) -> u8 {
        ((((self.general_profile_space & 0x3) << 6) | ((if self.general_tier_flag {
            1u8
        } else {
            0u8
        }) << 5)) | (self.general_profile_idc & 0x1F)) as u8
    }

    pub open spec fn spec_layer_byte(&self) -> u8 {
        ((((self.constant_frame_rate & 0x3) << 6) | ((self.num_temporal_layers & 0x7) << 3) | ((
        if self.temporal_id_nested {
            1u8
        } else {
            0u8
        }) << 2)) | (self.length_size_minus_one & 0x3)) as u8
    }

    /// The payload after the header: 23 fixed bytes, then the arrays.
    pub open spec fn spec_payload(&self) -> Seq<u8> {
        seq![self.configuration_version, self.spec_profile_byte()] + u32_be(
            self.general_profile_compatibility_flags,
        ) + u48_be(self.general_constraint_indicator_flag) + seq![self.general_level_idc] + u16_be(
            (self.min_spatial_segmentation_idc & 0x0FFF) as u16,
        ) + seq![
            (self.parallelism_type & 0x3) as u8,
            (self.chroma_format_idc & 0x3) as u8,
            (self.bit_depth_luma_minus8 & 0x7) as u8,
            (self.bit_depth_chroma_minus8 & 0x7) as u8,
        ] + u16_be(self.avg_frame_rate) + seq![
            self.spec_layer_byte(),
            self.arrays@.len() as u8,
        ] + spec_arrays_bytes(self@.arrays)
    }

    pub open spec fn spec_size(&self) -> u64 {
        (HEADER_SIZE + 23 + spec_arrays_bytes(self@.arrays).len()) as u64
    }

    /// The full wire form.
    pub open spec fn spec_bytes(&self) -> Seq<u8> {
        BoxHeader { name: BoxType::HvcCBox, size: self.spec_size() }.spec_bytes()
            + self.spec_payload()
    }

    pub fn box_size(&self) -> (r: u64)
        requires
            self.wf(),
        ensures
            r == self.spec_size(),
    {
        let mut arrays_len: u64 = 0;
        let ghost views = self@.arrays;
        let mut i: usize = 0;
        proof {
            assert(views.take(0int) =~= Seq::<ArrayView>::empty());
        }
        while i < self.arrays.len()
            invariant
                self.wf(),
                i <= self.arrays@.len(),
                views == self@.arrays,
                arrays_len == spec_arrays_bytes(views.skip(views.len() - i)).len(),
                arrays_len + 128 <= u32::MAX,
            decreases self.arrays@.len() - i,
        {
            let idx = self.arrays.len() - 1 - i;
            let a = &self.arrays[idx];
            let mut nalus_len: u64 = 0;
            let ghost nviews = a@.nalus;
            let mut j: usize = 0;
            while j < a.nalus.len()
                invariant
                    a.wf(),
                    j <= a.nalus@.len(),
                    nviews == a@.nalus,
                    nalus_len == spec_nalus_bytes(nviews.skip(nviews.len() - j)).len(),
                    nalus_len <= j * (2 + u16::MAX as int),
                decreases a.nalus@.len() - j,
            {
                let jdx = a.nalus.len() - 1 - j;
                let n = &a.nalus[jdx];
                proof {
                    let tail = nviews.skip(nviews.len() - j);
                    let cur = nviews.skip(nviews.len() - (j + 1));
                    assert(cur.drop_first() =~= tail);
                    assert(cur.first() == nviews[jdx as int]);
                    assert(nviews[jdx as int].data.len() == n.size);
                }
                nalus_len = nalus_len + 2 + (n.size as u64);
                j = j + 1;
            }
            proof {
                assert(nviews.skip(0int) =~= nviews);
                let tail = views.skip(views.len() - i);
                let cur = views.skip(views.len() - (i + 1));
                assert(cur.drop_first() =~= tail);
                assert(cur.first() == views[idx as int]);
                lemma_arrays_bytes_len_bound(views, idx as int);
                lemma_arrays_suffix_le(views, idx as int);
            }
            arrays_len = arrays_len + 3 + nalus_len;
            i = i + 1;
        }
        proof {
            assert(views.skip(0int) =~= views);
        }
        HEADER_SIZE + 23 + arrays_len
    }

    pub fn box_type(&self) -> (r: BoxType)
        ensures
            r == BoxType::HvcCBox,
    {
        BoxType::HvcCBox
    }

    #[verifier::rlimit(100)]
    pub fn write_box(&self, out: &mut Vec<u8>) -> (r: Result<u64, Error>)
        requires
            self.wf(),
        ensures
            final(out)@ == old(out)@ + self.spec_bytes(),
            r == Ok::<u64, Error>(self.spec_size()),
    {
        let size = self.box_size();
        let header = BoxHeader::new(BoxType::HvcCBox, size);
        let _ = header.write(out);
        put_u8(out, self.configuration_version);
        let general_profile_space = (self.general_profile_space & 0x3) << 6;
        let general_tier_flag = (if self.general_tier_flag {
            1u8
        } else {
            0u8
        }) << 5;
        let general_profile_idc = self.general_profile_idc & 0x1F;
        put_u8(out, general_profile_space | general_tier_flag | general_profile_idc);
        put_u32(out, self.general_profile_compatibility_flags);
        put_u48(out, self.general_constraint_indicator_flag);
        put_u8(out, self.general_level_idc);
        put_u16(out, self.min_spatial_segmentation_idc & 0x0FFF);
        put_u8(out, self.parallelism_type & 0x3);
        put_u8(out, self.chroma_format_idc & 0x3);
        put_u8(out, self.bit_depth_luma_minus8 & 0x7);
        put_u8(out, self.bit_depth_chroma_minus8 & 0x7);
        put_u16(out, self.avg_frame_rate);
        let constant_frame_rate = (self.constant_frame_rate & 0x3) << 6;
        let num_temporal_layers = (self.num_temporal_layers & 0x7) << 3;
        let temporal_id_nested = (if self.temporal_id_nested {
            1u8
        } else {
            0u8
        }) << 2;
        let length_size_minus_one = self.length_size_minus_one & 0x3;
        put_u8(
            out,
            constant_frame_rate | num_temporal_layers | temporal_id_nested | length_size_minus_one,
        );
        put_u8(out, self.arrays.len() as u8);
        let ghost fixed = out@;
        let ghost views = self@.arrays;
        let mut i: usize = 0;
        while i < self.arrays.len()
            invariant
                self.wf(),
                i <= self.arrays@.len(),
                views == self@.arrays,
                out@ == fixed + spec_arrays_bytes(views.take(i as int)),
            decreases self.arrays@.len() - i,
        {
            let a = &self.arrays[i];
            let cbit: u8 = if a.completeness {
                1u8
            } else {
                0u8
            };
            let packed = (a.nal_unit_type & 0x3F) | (cbit << 7);
            put_u8(out, packed);
            put_u16(out, a.nalus.len() as u16);
            let ghost astart = out@;
            let ghost nviews = a@.nalus;
            let mut j: usize = 0;
            while j < a.nalus.len()
                invariant
                    a.wf(),
                    j <= a.nalus@.len(),
                    nviews == a@.nalus,
                    out@ == astart + spec_nalus_bytes(nviews.take(j as int)),
                decreases a.nalus@.len() - j,
            {
                let n = &a.nalus[j];
                put_u16(out, n.size);
                crate::bigend::put_bytes(out, &n.data);
                proof {
                    lemma_nalus_bytes_snoc(nviews, j as int);
                    assert(out@ =~= astart + spec_nalus_bytes(nviews.take(j + 1)));
                }
                j = j + 1;
            }
            proof {
                assert(nviews.take(nviews.len() as int) =~= nviews);
                lemma_arrays_bytes_snoc(views, i as int);
                let nt = a.nal_unit_type;
                assert(((cbit << 7) | (nt & 0x3F)) == ((nt & 0x3F) | (cbit << 7)))
                    by (bit_vector);
                assert(out@ =~= fixed + spec_arrays_bytes(views.take(i + 1)));
            }
            i = i + 1;
        }
        proof {
            assert(views.take(views.len() as int) =~= views);
            assert(out@ =~= old(out)@ + self.spec_bytes());
        }
        Ok(size)
    }

    /// Reads the payload of an `hvcC` box whose header (already consumed)
    /// declared `size`; `pos` stands just after the header. The arrays are
    /// read from inside the declared payload only.
    #[verifier::loop_isolation(false)]
    #[verifier::rlimit(100)]
    pub fn read_box(buf: &Vec<u8>, pos: usize, size: u64) -> (r: Result<(HvcCBox, usize), Error>)
        requires
            pos >= 8,
            pos - 8 + size <= usize::MAX,
        ensures
            r matches Ok(v) ==> size >= 8 && pos - 8 + size <= buf@.len() && (match spec_parse_hvcc(
                buf@.subrange(pos as int, pos - 8 + size),
            ) {
                Some(p) => v.0@ == p && v.1 == pos - 8 + size,
                None => false,
            }),
            size >= 8 && pos - 8 + size <= buf@.len() && spec_parse_hvcc(
                buf@.subrange(pos as int, pos - 8 + size),
            ) is Some ==> r is Ok,
    {
        if size < 8 {
            return Err(Error::IoError);
        }
        let start = pos - 8;
        let end = start + (size as usize);
        if end > buf.len() {
            return Err(Error::IoError);
        }
        let ghost data = buf@.subrange(pos as int, end as int);
        if end - pos < 23 {
            return Err(Error::IoError);
        }
        proof {
            assert(forall|k: int| 0 <= k < data.len() ==> data[k] == buf@[pos + k]);
        }
        let configuration_version = buf[pos];
        let b1 = buf[pos + 1];
        let general_profile_space = b1 >> 6;
        let general_tier_flag = ((b1 >> 5) & 0x1) == 1;
        let general_profile_idc = b1 & 0x1F;
        let (general_profile_compatibility_flags, _) = match read_u32(buf, pos + 2) {
            Ok(v) => v,
            Err(e) => { return Err(e); },
        };
        let (general_constraint_indicator_flag, _) = match read_u48(buf, pos + 6) {
            Ok(v) => v,
            Err(e) => { return Err(e); },
        };
        let general_level_idc = buf[pos + 12];
        let (mssi_raw, _) = match read_u16(buf, pos + 13) {
            Ok(v) => v,
            Err(e) => { return Err(e); },
        };
        let min_spatial_segmentation_idc = mssi_raw & 0x0FFF;
        let parallelism_type = buf[pos + 15] & 0x3;
        let chroma_format_idc = buf[pos + 16] & 0x3;
        let bit_depth_luma_minus8 = buf[pos + 17] & 0x7;
        let bit_depth_chroma_minus8 = buf[pos + 18] & 0x7;
        let (avg_frame_rate, _) = match read_u16(buf, pos + 19) {
            Ok(v) => v,
            Err(e) => { return Err(e); },
        };
        let b21 = buf[pos + 21];
        let constant_frame_rate = (b21 >> 6) & 0x3;
        let num_temporal_layers = (b21 >> 3) & 0x7;
        let temporal_id_nested = ((b21 >> 2) & 0x1) == 1;
        let length_size_minus_one = b21 & 0x3;
        let num_arrays = buf[pos + 22];
        let mut arrays: Vec<HvcCArray> = Vec::new();
        let mut p: usize = pos + 23;
        let mut i: usize = 0;
        let ghost whole = spec_parse_arrays(data, 23, num_arrays as int);
        while i < num_arrays as usize
            invariant
                i <= num_arrays as usize,
                pos + 23 <= p <= end <= buf@.len(),
                pos >= 8,
                data == buf@.subrange(pos as int, end as int),
                data.len() == end - pos >= 23,
                whole == spec_parse_arrays(data, 23, num_arrays as int),
                arrays@.len() == i,
                spec_parse_arrays(data, p - pos, num_arrays as int - i) matches Some(rest)
                    ==> (whole matches Some(w) && w.0 == arrays@.map_values(|a: HvcCArray| a@)
                    + rest.0 && w.1 == rest.1),
                spec_parse_arrays(data, p - pos, num_arrays as int - i) is None ==> whole is None,
            decreases num_arrays as int - i,
        {
            if end - p < 3 {
                proof {
                    assert(spec_parse_arrays(data, p - pos, num_arrays as int - i) is None);
                    assert(spec_parse_hvcc(data) is None);
                }
                return Err(Error::IoError);
            }
            let b = buf[p];
            let (num_nalus, mut q) = match read_u16(buf, p + 1) {
                Ok(v) => v,
                Err(e) => { return Err(e); },
            };
            let ghost nwhole = spec_parse_nalus(data, q - pos, num_nalus as int);
            let mut nalus: Vec<HvcCArrayNalu> = Vec::new();
            let mut j: usize = 0;
            while j < num_nalus as usize
                invariant
                    j <= num_nalus as usize,
                    pos + 23 <= q <= end <= buf@.len(),
                    pos >= 8,
                    data == buf@.subrange(pos as int, end as int),
                    data.len() == end - pos >= 23,
                    nalus@.len() == j,
                    spec_parse_nalus(data, q - pos, num_nalus as int - j) matches Some(rest) ==> (
                    nwhole matches Some(w) && w.0 == nalus@.map_values(|n: HvcCArrayNalu| n@)
                        + rest.0 && w.1 == rest.1),
                    spec_parse_nalus(data, q - pos, num_nalus as int - j) is None ==> nwhole
                        is None,
                decreases num_nalus as int - j,
            {
                if end - q < 2 {
                    proof {
                        assert(spec_parse_nalus(data, q - pos, num_nalus as int - j) is None);
                        assert(data[p - pos + 1] == buf@[p as int + 1] && data[p - pos + 2]
                            == buf@[p as int + 2]);
                        assert(spec_parse_arrays(data, p - pos, num_arrays as int - i) is None);
                        assert(spec_parse_hvcc(data) is None);
                    }
                    return Err(Error::IoError);
                }
                let (nsize, q1) = match read_u16(buf, q) {
                    Ok(v) => v,
                    Err(e) => { return Err(e); },
                };
                if end - q1 < nsize as usize {
                    proof {
                        assert(data[q - pos] == buf@[q as int] && data[q - pos + 1] == buf@[q as int
                            + 1]);
                        assert(spec_parse_nalus(data, q - pos, num_nalus as int - j) is None);
                        assert(data[p - pos + 1] == buf@[p as int + 1] && data[p - pos + 2]
                            == buf@[p as int + 2]);
                        assert(spec_parse_arrays(data, p - pos, num_arrays as int - i) is None);
                        assert(spec_parse_hvcc(data) is None);
                    }
                    return Err(Error::IoError);
                }
                let mut ndata: Vec<u8> = Vec::new();
                let mut k: usize = 0;
                while k < nsize as usize
                    invariant
                        k <= nsize as usize,
                        q1 + nsize as int <= end <= buf@.len(),
                        ndata@.len() == k,
                        forall|m: int| 0 <= m < k ==> ndata@[m] == buf@[q1 + m],
                    decreases nsize as int - k,
                {
                    ndata.push(buf[q1 + k]);
                    k = k + 1;
                }
                let n = HvcCArrayNalu { size: nsize, data: ndata };
                proof {
                    let off = q - pos;
                    assert(data[off] == buf@[q as int] && data[off + 1] == buf@[q as int + 1]);
                    assert(n@.data =~= data.subrange(off + 2, off + 2 + nsize as int));
                    let old_nalus = nalus@.map_values(|x: HvcCArrayNalu| x@);
                    assert(nalus@.push(n).map_values(|x: HvcCArrayNalu| x@) =~= old_nalus.push(
                        n@,
                    ));
                    match spec_parse_nalus(data, q1 + nsize - pos, num_nalus as int - (j + 1)) {
                        Some(rest) => {
                            assert(old_nalus.push(n@) + rest.0 =~= old_nalus + (seq![n@]
                                + rest.0));
                        },
                        None => {},
                    }
                }
                nalus.push(n);
                q = q1 + nsize as usize;
                j = j + 1;
            }
            proof {
                assert(spec_parse_nalus(data, q - pos, 0int) == Some(
                    (Seq::<NaluView>::empty(), (q - pos) as int),
                ));
                assert(nalus@.map_values(|n: HvcCArrayNalu| n@) + Seq::<NaluView>::empty()
                    =~= nalus@.map_values(|n: HvcCArrayNalu| n@));
            }
            let a = HvcCArray {
                completeness: (b >> 7) == 1,
                nal_unit_type: b & 0x3F,
                nalus,
            };
            proof {
                let off = p - pos;
                assert(data[off] == buf@[p as int]);
                assert(data[off + 1] == buf@[p as int + 1] && data[off + 2] == buf@[p as int + 2]);
                let old_arrays = arrays@.map_values(|x: HvcCArray| x@);
                assert(arrays@.push(a).map_values(|x: HvcCArray| x@) =~= old_arrays.push(a@));
                match spec_parse_arrays(data, q - pos, num_arrays as int - (i + 1)) {
                    Some(rest) => {
                        assert(old_arrays.push(a@) + rest.0 =~= old_arrays + (seq![a@] + rest.0));
                    },
                    None => {},
                }
            }
            arrays.push(a);
            p = q;
            i = i + 1;
        }
        proof {
            assert(spec_parse_arrays(data, p - pos, 0int) == Some(
                (Seq::<ArrayView>::empty(), (p - pos) as int),
            ));
            assert(arrays@.map_values(|a: HvcCArray| a@) + Seq::<ArrayView>::empty()
                =~= arrays@.map_values(|a: HvcCArray| a@));
        }
        let bx = HvcCBox {
            configuration_version,
            general_profile_space,
            general_tier_flag,
            general_profile_idc,
            general_profile_compatibility_flags,
            general_constraint_indicator_flag,
            general_level_idc,
            min_spatial_segmentation_idc,
            parallelism_type,
            chroma_format_idc,
            bit_depth_luma_minus8,
            bit_depth_chroma_minus8,
            avg_frame_rate,
            constant_frame_rate,
            num_temporal_layers,
            temporal_id_nested,
            length_size_minus_one,
            arrays,
        };
        Ok((bx, end))
    }
}



/// Parsing a serialized NAL unit list embedded in `data` yields the list.
pub proof fn lemma_parse_nalus(data: Seq<u8>, off: int, s: Seq<NaluView>)
    requires
        forall|i: int| 0 <= i < s.len() ==> s[i].wf(),
        0 <= off,
        off + spec_nalus_bytes(s).len() <= data.len(),
        data.subrange(off, off + spec_nalus_bytes(s).len()) == spec_nalus_bytes(s),
    ensures
        spec_parse_nalus(data, off, s.len() as int) == Some(
            (s, off + spec_nalus_bytes(s).len()),
        ),
    decreases s.len(),
{
    if s.len() == 0 {
        assert(spec_parse_nalus(data, off, 0int) == Some((Seq::<NaluView>::empty(), off)));
        assert(s =~= Seq::<NaluView>::empty());
    } else {
        let n = s.first();
        let nb = spec_nalu_bytes(n);
        let total = spec_nalus_bytes(s).len() as int;
        let bytes = spec_nalus_bytes(s);
        assert(bytes == nb + spec_nalus_bytes(s.drop_first()));
        crate::bigend::lemma_u16_be_val(n.size);
        assert forall|k: int| 0 <= k < total implies data[off + k] == bytes[k] by {
            assert(data.subrange(off, off + total)[k] == bytes[k]);
        }
        assert(data[off] == bytes[0] && data[off + 1] == bytes[1]);
        assert(bytes[0] == u16_be(n.size)[0] && bytes[1] == u16_be(n.size)[1]);
        assert(be16(data[off], data[off + 1]) == n.size);
        assert(n.wf());
        assert(nb.len() == 2 + n.data.len());
        assert forall|k: int|
            0 <= k < n.data.len() implies data.subrange(off + 2, off + 2 + n.size as int)[k]
            == n.data[k] by {
            assert(data.subrange(off, off + total)[2 + k] == bytes[2 + k]);
            assert(bytes[2 + k] == nb[2 + k]);
            assert(nb[2 + k] == n.data[k]);
        }
        assert(data.subrange(off + 2, off + 2 + n.size as int) =~= n.data);
        let rest = s.drop_first();
        let rb = spec_nalus_bytes(rest);
        assert forall|k: int|
            0 <= k < rb.len() implies data.subrange(off + nb.len(), off + total)[k] == rb[k] by {
            assert(data.subrange(off, off + total)[nb.len() + k] == bytes[nb.len() + k]);
            assert(bytes[nb.len() + k] == rb[k]);
        }
        assert(data.subrange(off + nb.len(), off + total) =~= rb);
        lemma_parse_nalus(data, off + nb.len(), rest);
        let parsed_head = NaluView {
            size: n.size,
            data: data.subrange(off + 2, off + 2 + n.size as int),
        };
        assert(parsed_head == n);
        assert(off + 2 + n.size as int == off + nb.len());
        assert(seq![n] + rest =~= s);
    }
}

/// Parsing a serialized parameter-array list embedded in `data` yields
/// the list.
pub proof fn lemma_parse_arrays(data: Seq<u8>, off: int, s: Seq<ArrayView>)
    requires
        forall|i: int| 0 <= i < s.len() ==> s[i].wf(),
        0 <= off,
        off + spec_arrays_bytes(s).len() <= data.len(),
        data.subrange(off, off + spec_arrays_bytes(s).len()) == spec_arrays_bytes(s),
    ensures
        spec_parse_arrays(data, off, s.len() as int) == Some(
            (s, off + spec_arrays_bytes(s).len()),
        ),
    decreases s.len(),
{
    if s.len() == 0 {
        assert(spec_parse_arrays(data, off, 0int) == Some((Seq::<ArrayView>::empty(), off)));
        assert(s =~= Seq::<ArrayView>::empty());
    } else {
        let a = s.first();
        let ab = spec_array_bytes(a);
        let bytes = spec_arrays_bytes(s);
        let total = bytes.len() as int;
        assert(bytes == ab + spec_arrays_bytes(s.drop_first()));
        assert forall|k: int| 0 <= k < total implies data[off + k] == bytes[k] by {
            assert(data.subrange(off, off + total)[k] == bytes[k]);
        }
        let cbit: u8 = if a.completeness { 1u8 } else { 0u8 };
        let nt = a.nal_unit_type;
        let packed = ab[0];
        assert(packed == ((cbit << 7) | (nt & 0x3F)));
        assert(cbit <= 1 && nt <= 0x3F ==> ((((cbit << 7) | (nt & 0x3F)) >> 7) == cbit && (((cbit
            << 7) | (nt & 0x3F)) & 0x3F) == nt)) by (bit_vector);
        assert(data[off] == bytes[0]);
        crate::bigend::lemma_u16_be_val(a.nalus.len() as u16);
        assert(data[off + 1] == bytes[1] && data[off + 2] == bytes[2]);
        assert(bytes[1] == u16_be(a.nalus.len() as u16)[0] && bytes[2] == u16_be(
            a.nalus.len() as u16,
        )[1]);
        assert(be16(data[off + 1], data[off + 2]) == a.nalus.len() as u16);
        let nb = spec_nalus_bytes(a.nalus);
        assert(ab.len() == 3 + nb.len());
        assert forall|k: int|
            0 <= k < nb.len() implies data.subrange(off + 3, off + 3 + nb.len() as int)[k]
            == nb[k] by {
            assert(data.subrange(off, off + total)[3 + k] == bytes[3 + k]);
            assert(bytes[3 + k] == ab[3 + k]);
            assert(ab[3 + k] == nb[k]);
        }
        assert(data.subrange(off + 3, off + 3 + nb.len() as int) =~= nb);
        lemma_parse_nalus(data, off + 3, a.nalus);
        let rest = s.drop_first();
        let rb = spec_arrays_bytes(rest);
        assert forall|k: int|
            0 <= k < rb.len() implies data.subrange(off + ab.len(), off + total)[k] == rb[k] by {
            assert(data.subrange(off, off + total)[ab.len() + k] == bytes[ab.len() + k]);
            assert(bytes[ab.len() + k] == rb[k]);
        }
        assert(data.subrange(off + ab.len(), off + total) =~= rb);
        lemma_parse_arrays(data, off + ab.len(), rest);
        let parsed_head = ArrayView {
            completeness: (data[off] >> 7) == 1,
            nal_unit_type: data[off] & 0x3F,
            nalus: a.nalus,
        };
        assert(parsed_head.completeness == a.completeness);
        assert(parsed_head == a);
        assert(seq![a] + rest =~= s);
    }
}

/// Serializing any well-formed `hvcC` record and parsing the result
/// yields the record back, and its length is the declared size.
#[verifier::rlimit(100)]
pub proof fn lemma_hvcc_round_trip(b: HvcCBox)
    requires
        b.wf(),
    ensures
        b.spec_bytes().len() == b.spec_size(),
        spec_parse_hvcc(b.spec_bytes().skip(8)) == Some(b@),
{
    let data = b.spec_payload();
    assert(b.spec_bytes().skip(8) =~= data);
    let ab = spec_arrays_bytes(b@.arrays);
    assert(data.len() == 23 + ab.len());
    let b1 = b.spec_profile_byte();
    let b21 = b.spec_layer_byte();
    assert(data[0] == b.configuration_version && data[1] == b1);
    let ps = b.general_profile_space;
    let tbit: u8 = if b.general_tier_flag { 1u8 } else { 0u8 };
    let idc = b.general_profile_idc;
    assert(ps <= 3 && tbit <= 1 && idc <= 0x1F ==> (((((ps & 0x3) << 6) | (tbit << 5)) | (idc
        & 0x1F)) >> 6 == ps && (((((ps & 0x3) << 6) | (tbit << 5)) | (idc & 0x1F)) >> 5) & 0x1
        == tbit && ((((ps & 0x3) << 6) | (tbit << 5)) | (idc & 0x1F)) & 0x1F == idc))
        by (bit_vector);
    crate::bigend::lemma_u32_be_val(b.general_profile_compatibility_flags);
    crate::bigend::lemma_u48_be_val(b.general_constraint_indicator_flag);
    assert(be32(data[2], data[3], data[4], data[5]) == b.general_profile_compatibility_flags);
    assert(be48(data[6], data[7], data[8], data[9], data[10], data[11])
        == b.general_constraint_indicator_flag);
    assert(data[12] == b.general_level_idc);
    crate::bigend::lemma_u16_be_val((b.min_spatial_segmentation_idc & 0x0FFF) as u16);
    let mssi = b.min_spatial_segmentation_idc;
    assert(mssi <= 0x0FFF ==> ((mssi & 0x0FFF) & 0x0FFF == mssi)) by (bit_vector);
    assert(be16(data[13], data[14]) & 0x0FFF == b.min_spatial_segmentation_idc);
    let pt = b.parallelism_type;
    let cfi = b.chroma_format_idc;
    let bdl = b.bit_depth_luma_minus8;
    let bdc = b.bit_depth_chroma_minus8;
    assert(pt <= 3 ==> (pt & 0x3) & 0x3 == pt) by (bit_vector);
    assert(cfi <= 3 ==> (cfi & 0x3) & 0x3 == cfi) by (bit_vector);
    assert(bdl <= 7 ==> (bdl & 0x7) & 0x7 == bdl) by (bit_vector);
    assert(bdc <= 7 ==> (bdc & 0x7) & 0x7 == bdc) by (bit_vector);
    crate::bigend::lemma_u16_be_val(b.avg_frame_rate);
    assert(be16(data[19], data[20]) == b.avg_frame_rate);
    assert(data[21] == b21 && data[22] == b.arrays@.len() as u8);
    let cfr = b.constant_frame_rate;
    let ntl = b.num_temporal_layers;
    let tin: u8 = if b.temporal_id_nested { 1u8 } else { 0u8 };
    let lsm = b.length_size_minus_one;
    assert(cfr <= 3 && ntl <= 7 && tin <= 1 && lsm <= 3 ==> ((((((cfr & 0x3) << 6) | ((ntl & 0x7)
        << 3) | (tin << 2)) | (lsm & 0x3)) >> 6) & 0x3 == cfr && (((((cfr & 0x3) << 6) | ((ntl
        & 0x7) << 3) | (tin << 2)) | (lsm & 0x3)) >> 3) & 0x7 == ntl && (((((cfr & 0x3) << 6) | ((
    ntl & 0x7) << 3) | (tin << 2)) | (lsm & 0x3)) >> 2) & 0x1 == tin && ((((cfr & 0x3) << 6) | ((
    ntl & 0x7) << 3) | (tin << 2)) | (lsm & 0x3)) & 0x3 == lsm)) by (bit_vector);
    assert(data.subrange(23int, 23 + ab.len() as int) =~= ab);
    assert forall|i: int| 0 <= i < b@.arrays.len() implies b@.arrays[i].wf() by {
        assert(b.arrays@[i].wf());
    }
    lemma_parse_arrays(data, 23, b@.arrays);
    let p = spec_parse_hvcc(data).unwrap();
    assert(p.general_profile_space == b.general_profile_space);
    assert(p.general_tier_flag == b.general_tier_flag);
    assert(p.temporal_id_nested == b.temporal_id_nested);
    assert(p == b@);
}

/// A suffix serializes to no more bytes than the whole.
pub proof fn lemma_arrays_suffix_le(s: Seq<ArrayView>, k: int)
    requires
        0 <= k <= s.len(),
    ensures
        spec_arrays_bytes(s.skip(k)).len() <= spec_arrays_bytes(s).len(),
    decreases k,
{
    if k > 0 {
        lemma_arrays_suffix_le(s.drop_first(), k - 1);
        assert(s.skip(k) =~= s.drop_first().skip(k - 1));
    } else {
        assert(s.skip(0int) =~= s);
    }
}

/// The serialized length of one array within bounds of the whole.
proof fn lemma_arrays_bytes_len_bound(views: Seq<ArrayView>, idx: int)
    requires
        0 <= idx < views.len(),
    ensures
        spec_arrays_bytes(views.skip(idx)).len() == spec_array_bytes(views[idx]).len()
            + spec_arrays_bytes(views.skip(idx + 1)).len(),
{
    let cur = views.skip(idx);
    assert(cur.first() == views[idx]);
    assert(cur.drop_first() =~= views.skip(idx + 1));
}

/// Appending one element extends the serialization at the end.
pub proof fn lemma_nalus_bytes_snoc(s: Seq<NaluView>, i: int)
    requires
        0 <= i < s.len(),
    ensures
        spec_nalus_bytes(s.take(i + 1)) == spec_nalus_bytes(s.take(i)) + spec_nalu_bytes(s[i]),
    decreases i,
{
    if i == 0 {
        assert(s.take(1int).first() == s[0]);
        assert(s.take(1int).drop_first() =~= Seq::<NaluView>::empty());
        assert(s.take(0int) =~= Seq::<NaluView>::empty());
        assert(spec_nalus_bytes(Seq::<NaluView>::empty()) == Seq::<u8>::empty());
        assert(spec_nalus_bytes(s.take(1int)) == spec_nalu_bytes(s.take(1int).first())
            + spec_nalus_bytes(s.take(1int).drop_first()));
        assert(spec_nalus_bytes(s.take(1int)) =~= spec_nalu_bytes(s[0]));
        assert(spec_nalus_bytes(s.take(0int)) + spec_nalu_bytes(s[0]) =~= spec_nalu_bytes(s[0]));
    } else {
        lemma_nalus_bytes_snoc(s.drop_first(), i - 1);
        let a = s.take(i + 1);
        let b = s.take(i);
        assert(a.first() == s[0] && b.first() == s[0]);
        assert(a.drop_first() =~= s.drop_first().take(i));
        assert(b.drop_first() =~= s.drop_first().take(i - 1));
        assert(s.drop_first()[i - 1] == s[i]);
        assert(spec_nalu_bytes(s[0]) + (spec_nalus_bytes(s.drop_first().take(i - 1))
            + spec_nalu_bytes(s[i])) =~= (spec_nalu_bytes(s[0]) + spec_nalus_bytes(
            s.drop_first().take(i - 1),
        )) + spec_nalu_bytes(s[i]));
    }
}

/// Appending one element extends the serialization at the end.
pub proof fn lemma_arrays_bytes_snoc(s: Seq<ArrayView>, i: int)
    requires
        0 <= i < s.len(),
    ensures
        spec_arrays_bytes(s.take(i + 1)) == spec_arrays_bytes(s.take(i)) + spec_array_bytes(s[i]),
    decreases i,
{
    if i == 0 {
        assert(s.take(1int).first() == s[0]);
        assert(s.take(1int).drop_first() =~= Seq::<ArrayView>::empty());
        assert(s.take(0int) =~= Seq::<ArrayView>::empty());
        assert(spec_arrays_bytes(Seq::<ArrayView>::empty()) == Seq::<u8>::empty());
        assert(spec_arrays_bytes(s.take(1int)) == spec_array_bytes(s.take(1int).first())
            + spec_arrays_bytes(s.take(1int).drop_first()));
        assert(spec_arrays_bytes(s.take(1int)) =~= spec_array_bytes(s[0]));
        assert(spec_arrays_bytes(s.take(0int)) + spec_array_bytes(s[0]) =~= spec_array_bytes(
            s[0],
        ));
    } else {
        lemma_arrays_bytes_snoc(s.drop_first(), i - 1);
        let a = s.take(i + 1);
        let b = s.take(i);
        assert(a.first() == s[0] && b.first() == s[0]);
        assert(a.drop_first() =~= s.drop_first().take(i));
        assert(b.drop_first() =~= s.drop_first().take(i - 1));
        assert(s.drop_first()[i - 1] == s[i]);
        assert(spec_array_bytes(s[0]) + (spec_arrays_bytes(s.drop_first().take(i - 1))
            + spec_array_bytes(s[i])) =~= (spec_array_bytes(s[0]) + spec_arrays_bytes(
            s.drop_first().take(i - 1),
        )) + spec_array_bytes(s[i]));
    }
}


/// The `hvc1` HEVC sample entry: a 78-byte visual prefix followed by the
/// `hvcC` configuration record.
#[derive(Debug, Clone, PartialEq, Eq)]
pub struct Hvc1Box {
    pub data_reference_index: u16,
    pub width: u16,
    pub height: u16,
    pub horizresolution: FixedPointU16,
    pub vertresolution: FixedPointU16,
    pub frame_count: u16,
    pub depth: u16,
    pub hvcc: HvcCBox,
}

/// Mathematical image of an `hvc1` entry.
pub ghost struct Hvc1View {
    pub data_reference_index: u16,
    pub width: u16,
    pub height: u16,
    pub horizresolution: FixedPointU16,
    pub vertresolution: FixedPointU16,
    pub frame_count: u16,
    pub depth: u16,
    pub hvcc: HvcCView,
}

impl View for Hvc1Box {
    type V = Hvc1View;

    open spec fn view(&self) -> Hvc1View {
        Hvc1View {
            data_reference_index: self.data_reference_index,
            width: self.width,
            height: self.height,
            horizresolution: self.horizresolution,
            vertresolution: self.vertresolution,
            frame_count: self.frame_count,
            depth: self.depth,
            hvcc: self.hvcc@,
        }
    }
}

impl Default for Hvc1Box {
    fn default() -> (r: Self)
        ensures
            r.data_reference_index == 0,
            r.width == 0,
            r.height == 0,
            r.horizresolution.raw == 0x48 * 0x10000,
            r.vertresolution.raw == 0x48 * 0x10000,
            r.frame_count == 1,
            r.depth == 0x0018,
            r.hvcc.arrays@ == Seq::<HvcCArray>::empty(),
            r.hvcc.configuration_version == 0,
    {
        Hvc1Box {
            data_reference_index: 0,
            width: 0,
            height: 0,
            horizresolution: FixedPointU16::new(0x48),
            vertresolution: FixedPointU16::new(0x48),
            frame_count: 1,
            depth: 0x0018,
            hvcc: HvcCBox::default(),
        }
    }
}

/// What an `hvc1` (or `hev1`) payload means: the visual prefix fields,
/// then the nested `hvcC` record.
pub open spec fn spec_parse_hvc1(data: Seq<u8>) -> Option<Hvc1View> {
    if data.len() < 86 {
        None
    } else {
        match spec_parse_header(data.skip(78)) {
            None => None,
            Some(h) => {
                if h.1 > data.len() + 8 {
                    None
                } else if h.0 == BoxType::HvcCBox {
                    if h.1 < 8 || 78 + h.2 - 8 + h.1 > data.len() {
                        None
                    } else {
                        match spec_parse_hvcc(data.subrange(78 + h.2, 78 + h.2 - 8 + h.1 as int)) {
                            None => None,
                            Some(c) => Some(
                                Hvc1View {
                                    data_reference_index: be16(data[6], data[7]),
                                    width: be16(data[24], data[25]),
                                    height: be16(data[26], data[27]),
                                    horizresolution: FixedPointU16 {
                                        raw: be32(data[28], data[29], data[30], data[31]),
                                    },
                                    vertresolution: FixedPointU16 {
                                        raw: be32(data[32], data[33], data[34], data[35]),
                                    },
                                    frame_count: be16(data[40], data[41]),
                                    depth: be16(data[74], data[75]),
                                    hvcc: c,
                                },
                            ),
                        }
                    }
                } else {
                    None
                }
            },
        }
    }
}

impl Hvc1Box {
    /// Builds the entry from a configuration, applying the documented
    /// defaults to every unset field.
    pub fn new(config: &HevcConfig) -> (r: Self)
        ensures
            r.data_reference_index == 1,
            r.width == config.width.unwrap_or(0u16),
            r.height == config.height.unwrap_or(0u16),
            r.horizresolution.raw == 0x48 * 0x10000,
            r.vertresolution.raw == 0x48 * 0x10000,
            r.frame_count == 1,
            r.depth == 0x0018,
            r.hvcc.configuration_version == config.configuration_version.unwrap_or(1u8),
            r.hvcc.general_profile_space == config.general_profile_space.unwrap_or(0u8),
            r.hvcc.general_tier_flag == config.general_tier_flag.unwrap_or(false),
            r.hvcc.general_profile_idc == config.general_profile_idc.unwrap_or(1u8),
            r.hvcc.general_profile_compatibility_flags
                == config.general_profile_compatibility_flags.unwrap_or(0u32),
            r.hvcc.general_constraint_indicator_flag
                == config.general_constraint_indicator_flag.unwrap_or(0u64),
            r.hvcc.general_level_idc == config.general_level_idc.unwrap_or(93u8),
            r.hvcc.min_spatial_segmentation_idc
                == config.min_spatial_segmentation_idc.unwrap_or(0u16),
            r.hvcc.parallelism_type == config.parallelism_type.unwrap_or(0u8),
            r.hvcc.chroma_format_idc == config.chroma_format_idc.unwrap_or(1u8),
            r.hvcc.bit_depth_luma_minus8 == config.bit_depth_luma_minus8.unwrap_or(0u8),
            r.hvcc.bit_depth_chroma_minus8 == config.bit_depth_chroma_minus8.unwrap_or(0u8),
            r.hvcc.avg_frame_rate == config.avg_frame_rate.unwrap_or(0u16),
            r.hvcc.constant_frame_rate == config.constant_frame_rate.unwrap_or(0u8),
            r.hvcc.num_temporal_layers == config.num_temporal_layers.unwrap_or(1u8),
            r.hvcc.temporal_id_nested == config.temporal_id_nested.unwrap_or(false),
            r.hvcc.length_size_minus_one == config.length_size_minus_one.unwrap_or(3u8),
            config.arrays matches Some(a) ==> r.hvcc@.arrays == a@.map_values(
                |x: HvcCArray| x@,
            ),
            config.arrays is None ==> r.hvcc.arrays@ == Seq::<HvcCArray>::empty(),
    {
        let arrays: Vec<HvcCArray> = match &config.arrays {
            Some(a) => clone_arrays(a),
            None => Vec::new(),
        };
        proof {
            if config.arrays is None {
                assert(arrays@ =~= Seq::<HvcCArray>::empty());
            }
        }
        Self {
            data_reference_index: 1,
            width: unwrap_or_u16(&config.width, 0),
            height: unwrap_or_u16(&config.height, 0),
            horizresolution: FixedPointU16::new(0x48),
            vertresolution: FixedPointU16::new(0x48),
            frame_count: 1,
            depth: 0x0018,
            hvcc: HvcCBox {
                configuration_version: unwrap_or_u8(&config.configuration_version, 1),
                general_profile_space: unwrap_or_u8(&config.general_profile_space, 0),
                general_tier_flag: unwrap_or_bool(&config.general_tier_flag, false),
                general_profile_idc: unwrap_or_u8(&config.general_profile_idc, 1),
                general_profile_compatibility_flags: unwrap_or_u32(
                    &config.general_profile_compatibility_flags,
                    0,
                ),
                general_constraint_indicator_flag: unwrap_or_u64(
                    &config.general_constraint_indicator_flag,
                    0,
                ),
                general_level_idc: unwrap_or_u8(&config.general_level_idc, 93),
                min_spatial_segmentation_idc: unwrap_or_u16(
                    &config.min_spatial_segmentation_idc,
                    0,
                ),
                parallelism_type: unwrap_or_u8(&config.parallelism_type, 0),
                chroma_format_idc: unwrap_or_u8(&config.chroma_format_idc, 1),
                bit_depth_luma_minus8: unwrap_or_u8(&config.bit_depth_luma_minus8, 0),
                bit_depth_chroma_minus8: unwrap_or_u8(&config.bit_depth_chroma_minus8, 0),
                avg_frame_rate: unwrap_or_u16(&config.avg_frame_rate, 0),
                constant_frame_rate: unwrap_or_u8(&config.constant_frame_rate, 0),
                num_temporal_layers: unwrap_or_u8(&config.num_temporal_layers, 1),
                temporal_id_nested: unwrap_or_bool(&config.temporal_id_nested, false),
                length_size_minus_one: unwrap_or_u8(&config.length_size_minus_one, 3),
                arrays,
            },
        }
    }

    pub fn get_type(&self) -> (r: BoxType)
        ensures
            r == BoxType::Hvc1Box,
    {
        BoxType::Hvc1Box
    }

    pub open spec fn spec_size(&self) -> u64 {
        (HEADER_SIZE + 8 + 70 + self.hvcc.spec_size()) as u64
    }

    pub fn get_size(&self) -> (r: u64)
        requires
            self.wf(),
        ensures
            r == self.spec_size(),
    {
        HEADER_SIZE + 8 + 70 + self.hvcc.box_size()
    }

    pub open spec fn wf(&self) -> bool {
        self.hvcc.wf()
    }

    /// The payload after the header: the 78-byte visual prefix, then the
    /// nested `hvcC` box.
    pub open spec fn spec_payload(&self) -> Seq<u8> {
        zero_bytes(6) + u16_be(self.data_reference_index) + zero_bytes(16) + u16_be(self.width)
            + u16_be(self.height) + u32_be(self.horizresolution.raw) + u32_be(
            self.vertresolution.raw,
        ) + zero_bytes(4) + u16_be(self.frame_count) + zero_bytes(32) + u16_be(self.depth)
            + u16_be(0xFFFF) + self.hvcc.spec_bytes()
    }

    /// The full wire form.
    pub open spec fn spec_bytes(&self) -> Seq<u8> {
        BoxHeader { name: BoxType::Hvc1Box, size: self.spec_size() }.spec_bytes()
            + self.spec_payload()
    }

    pub fn write_box(&self, out: &mut Vec<u8>) -> (r: Result<u64, Error>)
        requires
            self.wf(),
        ensures
            final(out)@ == old(out)@ + self.spec_bytes(),
            r == Ok::<u64, Error>(self.spec_size()),
    {
        let size = self.get_size();
        let header = BoxHeader::new(BoxType::Hvc1Box, size);
        let _ = header.write(out);
        self.write_payload(out);
        proof {
            assert(out@ =~= old(out)@ + self.spec_bytes());
        }
        Ok(size)
    }

    /// Writes the payload shared by `hvc1` and `hev1`.
    fn write_payload(&self, out: &mut Vec<u8>)
        requires
            self.wf(),
        ensures
            final(out)@ == old(out)@ + self.spec_payload(),
    {
        put_u32(out, 0);
        put_u16(out, 0);
        put_u16(out, self.data_reference_index);
        put_u32(out, 0);
        put_u64(out, 0);
        put_u32(out, 0);
        put_u16(out, self.width);
        put_u16(out, self.height);
        put_u32(out, self.horizresolution.raw_value());
        put_u32(out, self.vertresolution.raw_value());
        put_u32(out, 0);
        put_u16(out, self.frame_count);
        put_zeros(out, 32);
        put_u16(out, self.depth);
        put_u16(out, 0xFFFF);
        let _ = self.hvcc.write_box(out);
        proof {
            crate::bigend::lemma_zero_be();
            assert(u32_be(0) + u16_be(0) =~= zero_bytes(6));
            assert(u32_be(0) + u64_be(0) + u32_be(0) =~= zero_bytes(16));
            assert(out@ =~= old(out)@ + self.spec_payload());
        }
    }

    /// Reads the payload of an `hvc1` or `hev1` box whose header (already
    /// consumed) declared `size`; `pos` stands just after the header.
    #[verifier::rlimit(100)]
    pub fn read_box(buf: &Vec<u8>, pos: usize, size: u64) -> (r: Result<(Hvc1Box, usize), Error>)
        requires
            pos >= 8,
            pos - 8 + size <= usize::MAX,
        ensures
            r matches Ok(v) ==> size >= 8 && pos - 8 + size <= buf@.len() && (match spec_parse_hvc1(
                buf@.subrange(pos as int, pos - 8 + size),
            ) {
                Some(p) => v.0@ == p && v.1 == pos - 8 + size,
                None => false,
            }),
            size >= 8 && pos - 8 + size <= buf@.len() && spec_parse_hvc1(
                buf@.subrange(pos as int, pos - 8 + size),
            ) is Some ==> r is Ok,
            size >= 94 && pos - 8 + size <= buf@.len() && (match spec_parse_header(
                buf@.subrange(pos as int, pos - 8 + size).skip(78),
            ) {
                Some(h) => 78 + h.2 <= size - 8 && h.1 > size,
                None => false,
            }) ==> r == Err::<(Hvc1Box, usize), Error>(
                Error::InvalidData("hev1 box contains a box with a larger size than it"),
            ),
            size >= 94 && pos - 8 + size <= buf@.len() && (match spec_parse_header(
                buf@.subrange(pos as int, pos - 8 + size).skip(78),
            ) {
                Some(h) => 78 + h.2 <= size - 8 && h.1 <= size && h.0 != BoxType::HvcCBox,
                None => false,
            }) ==> r == Err::<(Hvc1Box, usize), Error>(Error::InvalidData("hvcc not found")),
    {
        if size < 8 {
            return Err(Error::IoError);
        }
        let start = pos - 8;
        let end = start + (size as usize);
        if end > buf.len() {
            return Err(Error::IoError);
        }
        let ghost data = buf@.subrange(pos as int, end as int);
        if end - pos < 86 {
            return Err(Error::IoError);
        }
        proof {
            assert(forall|k: int| 0 <= k < data.len() ==> data[k] == buf@[pos + k]);
        }
        let (data_reference_index, _) = match read_u16(buf, pos + 6) {
            Ok(v) => v,
            Err(e) => { return Err(e); },
        };
        let (width, _) = match read_u16(buf, pos + 24) {
            Ok(v) => v,
            Err(e) => { return Err(e); },
        };
        let (height, _) = match read_u16(buf, pos + 26) {
            Ok(v) => v,
            Err(e) => { return Err(e); },
        };
        let (horiz_raw, _) = match read_u32(buf, pos + 28) {
            Ok(v) => v,
            Err(e) => { return Err(e); },
        };
        let (vert_raw, _) = match read_u32(buf, pos + 32) {
            Ok(v) => v,
            Err(e) => { return Err(e); },
        };
        let (frame_count, _) = match read_u16(buf, pos + 40) {
            Ok(v) => v,
            Err(e) => { return Err(e); },
        };
        let (depth, _) = match read_u16(buf, pos + 74) {
            Ok(v) => v,
            Err(e) => { return Err(e); },
        };
        let horizresolution = FixedPointU16::new_raw(horiz_raw);
        let vertresolution = FixedPointU16::new_raw(vert_raw);
        proof {
            assert(data.skip(78) =~= buf@.skip(pos as int + 78).take(data.len() - 78));
        }
        let (sub, p) = match BoxHeader::read(buf, pos + 78) {
            Ok(v) => v,
            Err(e) => { return Err(e); },
        };
        if p > end {
            return Err(Error::IoError);
        }
        proof {
            let inner = data.skip(78);
            let outer = buf@.skip(pos as int + 78);
            assert(inner.len() >= 8);
            assert(inner.len() == end - pos - 78);
            assert(forall|k: int| 0 <= k < inner.len() ==> inner[k] == outer[k]);
            assert(spec_parse_header(inner) == Some(
                (sub.name, sub.size, (p - pos - 78) as int),
            ));
        }
        if sub.size > size {
            return Err(Error::InvalidData("hev1 box contains a box with a larger size than it"));
        }
        if let BoxType::HvcCBox = sub.name {
            if sub.size < 8 {
                return Err(Error::IoError);
            }
            if sub.size > ((end - (p - 8)) as u64) {
                return Err(Error::IoError);
            }
            proof {
                let h = spec_parse_header(data.skip(78)).unwrap();
                assert(h.0 == sub.name && h.1 == sub.size && 78 + h.2 == p - pos);
                assert(buf@.subrange(p as int, p - 8 + sub.size as int) =~= data.subrange(
                    78 + h.2,
                    78 + h.2 - 8 + h.1 as int,
                ));
            }
            let (hvcc, _) = match HvcCBox::read_box(buf, p, sub.size) {
                Ok(v) => v,
                Err(e) => { return Err(e); },
            };
            let b = Hvc1Box {
                data_reference_index,
                width,
                height,
                horizresolution,
                vertresolution,
                frame_count,
                depth,
                hvcc,
            };
            Ok((b, end))
        } else {
            Err(Error::InvalidData("hvcc not found"))
        }
    }
}

/// Serializing any well-formed `hvc1` entry and parsing the result yields
/// the entry back, and its length is the declared size.
#[verifier::rlimit(100)]
#[verifier::spinoff_prover]
pub proof fn lemma_hvc1_round_trip(b: Hvc1Box)
    requires
        b.wf(),
    ensures
        b.spec_bytes().len() == b.spec_size(),
        spec_parse_hvc1(b.spec_bytes().skip(8)) == Some(b@),
{
    let data = b.spec_payload();
    assert(b.spec_bytes().skip(8) =~= data);
    assert(data.len() == 78 + b.hvcc.spec_size());
    crate::bigend::lemma_u16_be_val(b.data_reference_index);
    crate::bigend::lemma_u16_be_val(b.width);
    crate::bigend::lemma_u16_be_val(b.height);
    crate::bigend::lemma_u16_be_val(b.frame_count);
    crate::bigend::lemma_u16_be_val(b.depth);
    crate::bigend::lemma_u32_be_val(b.horizresolution.raw);
    crate::bigend::lemma_u32_be_val(b.vertresolution.raw);
    assert(be16(data[6], data[7]) == b.data_reference_index);
    assert(be16(data[24], data[25]) == b.width);
    assert(be16(data[26], data[27]) == b.height);
    assert(be32(data[28], data[29], data[30], data[31]) == b.horizresolution.raw);
    assert(be32(data[32], data[33], data[34], data[35]) == b.vertresolution.raw);
    assert(be16(data[40], data[41]) == b.frame_count);
    assert(be16(data[74], data[75]) == b.depth);
    assert(data.skip(78) =~= b.hvcc.spec_bytes());
    let hdr = BoxHeader { name: BoxType::HvcCBox, size: b.hvcc.spec_size() };
    hdr.lemma_round_trip();
    assert(spec_parse_header(b.hvcc.spec_bytes()) == Some(
        (BoxType::HvcCBox, b.hvcc.spec_size(), 8int),
    ));
    lemma_hvcc_round_trip(b.hvcc);
    assert(data.subrange(78int + 8, 78 + b.hvcc.spec_size() as int) =~= b.hvcc.spec_bytes().skip(
        8,
    ));
    assert(spec_parse_hvc1(data) == Some(b@));
}

/// The `hev1` HEVC sample entry: the same layout as `hvc1` under its own
/// four-character code.
#[derive(Debug, Clone, PartialEq, Eq, Default)]
pub struct Hev1Box {
    pub entry: Hvc1Box,
}

impl Hev1Box {
    pub fn get_type(&self) -> (r: BoxType)
        ensures
            r == BoxType::Hev1Box,
    {
        BoxType::Hev1Box
    }

    pub open spec fn spec_size(&self) -> u64 {
        self.entry.spec_size()
    }

    pub open spec fn wf(&self) -> bool {
        self.entry.wf()
    }

    pub fn get_size(&self) -> (r: u64)
        requires
            self.wf(),
        ensures
            r == self.spec_size(),
    {
        self.entry.get_size()
    }

    /// The full wire form: the `hvc1` payload under the `hev1` code.
    pub open spec fn spec_bytes(&self) -> Seq<u8> {
        BoxHeader { name: BoxType::Hev1Box, size: self.spec_size() }.spec_bytes()
            + self.entry.spec_payload()
    }

    pub fn write_box(&self, out: &mut Vec<u8>) -> (r: Result<u64, Error>)
        requires
            self.wf(),
        ensures
            final(out)@ == old(out)@ + self.spec_bytes(),
            r == Ok::<u64, Error>(self.spec_size()),
    {
        let size = self.entry.get_size();
        let header = BoxHeader::new(BoxType::Hev1Box, size);
        let _ = header.write(out);
        self.entry.write_payload(out);
        proof {
            assert(out@ =~= old(out)@ + self.spec_bytes());
        }
        Ok(size)
    }

    pub fn read_box(buf: &Vec<u8>, pos: usize, size: u64) -> (r: Result<(Hev1Box, usize), Error>)
        requires
            pos >= 8,
            pos - 8 + size <= usize::MAX,
        ensures
            r matches Ok(v) ==> size >= 8 && pos - 8 + size <= buf@.len() && (match spec_parse_hvc1(
                buf@.subrange(pos as int, pos - 8 + size),
            ) {
                Some(p) => v.0.entry@ == p && v.1 == pos - 8 + size,
                None => false,
            }),
            size >= 8 && pos - 8 + size <= buf@.len() && spec_parse_hvc1(
                buf@.subrange(pos as int, pos - 8 + size),
            ) is Some ==> r is Ok,
    {
        match Hvc1Box::read_box(buf, pos, size) {
            Ok((entry, p)) => Ok((Hev1Box { entry }, p)),
            Err(e) => Err(e),
        }
    }
}


/// Copies a byte vector.
pub fn clone_bytes(v: &Vec<u8>) -> (r: Vec<u8>)
    ensures
        r@ == v@,
{
    let mut out: Vec<u8> = Vec::new();
    let mut i: usize = 0;
    while i < v.len()
        invariant
            i <= v@.len(),
            out@ == v@.take(i as int),
        decreases v@.len() - i,
    {
        out.push(v[i]);
        assert(out@ =~= v@.take(i + 1));
        i = i + 1;
    }
    assert(out@ =~= v@);
    out
}

/// Copies a parameter-array list, preserving its mathematical image.
pub fn clone_arrays(v: &Vec<HvcCArray>) -> (r: Vec<HvcCArray>)
    ensures
        r@.map_values(|a: HvcCArray| a@) == v@.map_values(|a: HvcCArray| a@),
        r@.len() == v@.len(),
        forall|i: int| 0 <= i < v@.len() ==> r@[i]@ == v@[i]@,
{
    let mut out: Vec<HvcCArray> = Vec::new();
    let mut i: usize = 0;
    while i < v.len()
        invariant
            i <= v@.len(),
            out@.len() == i,
            forall|j: int| 0 <= j < i ==> out@[j]@ == v@[j]@,
        decreases v@.len() - i,
    {
        let a = &v[i];
        let mut nalus: Vec<HvcCArrayNalu> = Vec::new();
        let mut j: usize = 0;
        while j < a.nalus.len()
            invariant
                j <= a.nalus@.len(),
                nalus@.len() == j,
                forall|k: int| 0 <= k < j ==> nalus@[k]@ == a.nalus@[k]@,
            decreases a.nalus@.len() - j,
        {
            let n = &a.nalus[j];
            nalus.push(HvcCArrayNalu { size: n.size, data: clone_bytes(&n.data) });
            j = j + 1;
        }
        let c = HvcCArray {
            completeness: a.completeness,
            nal_unit_type: a.nal_unit_type,
            nalus,
        };
        proof {
            assert(c@.nalus =~= a@.nalus);
            assert(c@ == a@);
        }
        out.push(c);
        i = i + 1;
    }
    proof {
        assert(out@.map_values(|a: HvcCArray| a@) =~= v@.map_values(|a: HvcCArray| a@));
    }
    out
}

/// Takes the value of an optional field or the given default.
pub fn unwrap_or_u8(v: &Option<u8>, d: u8) -> (r: u8)
    ensures
        r == v.unwrap_or(d),
{
    match v {
        Some(x) => *x,
        None => d,
    }
}

/// Takes the value of an optional field or the given default.
pub fn unwrap_or_u16(v: &Option<u16>, d: u16) -> (r: u16)
    ensures
        r == v.unwrap_or(d),
{
    match v {
        Some(x) => *x,
        None => d,
    }
}

/// Takes the value of an optional field or the given default.
pub fn unwrap_or_u32(v: &Option<u32>, d: u32) -> (r: u32)
    ensures
        r == v.unwrap_or(d),
{
    match v {
        Some(x) => *x,
        None => d,
    }
}

/// Takes the value of an optional field or the given default.
pub fn unwrap_or_u64(v: &Option<u64>, d: u64) -> (r: u64)
    ensures
        r == v.unwrap_or(d),
{
    match v {
        Some(x) => *x,
        None => d,
    }
}

/// Takes the value of an optional field or the given default.
pub fn unwrap_or_bool(v: &Option<bool>, d: bool) -> (r: bool)
    ensures
        r == v.unwrap_or(d),
{
    match v {
        Some(x) => *x,
        None => d,
    }
}


/// A prefix of the array list serializes to no more bytes than the whole.
pub proof fn lemma_arrays_take_le(s: Seq<ArrayView>, i: int)
    requires
        0 <= i <= s.len(),
    ensures
        spec_arrays_bytes(s.take(i)).len() <= spec_arrays_bytes(s).len(),
    decreases s.len() - i,
{
    if i == s.len() {
        assert(s.take(i) =~= s);
    } else {
        lemma_arrays_bytes_snoc(s, i);
        lemma_arrays_take_le(s, i + 1);
    }
}

impl HvcCBox {
    /// Decides well-formedness: every bit-packed field in range, every
    /// array and NAL unit consistent, and the serialized arrays short
    /// enough for the record's 32-bit size field.
    #[verifier::loop_isolation(false)]
    pub fn check_wf(&self) -> (r: bool)
        ensures
            r <==> self.wf(),
    {
        if !(self.general_profile_space <= 0x3 && self.general_profile_idc <= 0x1F
            && self.general_constraint_indicator_flag < 0x1000000000000
            && self.min_spatial_segmentation_idc <= 0x0FFF && self.parallelism_type <= 0x3
            && self.chroma_format_idc <= 0x3 && self.bit_depth_luma_minus8 <= 0x7
            && self.bit_depth_chroma_minus8 <= 0x7 && self.constant_frame_rate <= 0x3
            && self.num_temporal_layers <= 0x7 && self.length_size_minus_one <= 0x3) {
            return false;
        }
        if self.arrays.len() > 0xFF {
            return false;
        }
        let ghost views = self@.arrays;
        let mut total: u64 = 0;
        let mut i: usize = 0;
        proof {
            assert(views.take(0int) =~= Seq::<ArrayView>::empty());
        }
        while i < self.arrays.len()
            invariant
                i <= self.arrays@.len(),
                views == self@.arrays,
                total == spec_arrays_bytes(views.take(i as int)).len(),
                total <= i * 0x100000003,
                forall|j: int| 0 <= j < i ==> (#[trigger] views[j]).wf(),
            decreases self.arrays@.len() - i,
        {
            let a = &self.arrays[i];
            if a.nal_unit_type > 0x3F || a.nalus.len() > 0xFFFF {
                proof {
                    assert(!views[i as int].wf());
                    assert(!self.arrays@[i as int].wf());
                }
                return false;
            }
            let ghost nviews = a@.nalus;
            let mut inner: u64 = 0;
            let mut j: usize = 0;
            proof {
                assert(nviews.take(0int) =~= Seq::<NaluView>::empty());
            }
            while j < a.nalus.len()
                invariant
                    j <= a.nalus@.len(),
                    nviews == a@.nalus,
                    inner == spec_nalus_bytes(nviews.take(j as int)).len(),
                    inner <= j * 0x10001,
                    forall|k: int| 0 <= k < j ==> (#[trigger] nviews[k]).wf(),
                decreases a.nalus@.len() - j,
            {
                let n = &a.nalus[j];
                if n.data.len() != n.size as usize {
                    proof {
                        assert(!nviews[j as int].wf());
                        assert(!views[i as int].wf());
                        assert(!self.arrays@[i as int].wf());
                    }
                    return false;
                }
                proof {
                    lemma_nalus_bytes_snoc(nviews, j as int);
                }
                inner = inner + 2 + (n.size as u64);
                j = j + 1;
            }
            proof {
                assert(nviews.take(nviews.len() as int) =~= nviews);
                lemma_arrays_bytes_snoc(views, i as int);
                assert(views[i as int].wf());
            }
            total = total + 3 + inner;
            i = i + 1;
        }
        proof {
            assert(views.take(views.len() as int) =~= views);
            assert forall|j: int|
                0 <= j < self.arrays@.len() implies (#[trigger] self.arrays@[j]).wf() by {
                assert(views[j].wf());
                assert forall|k: int|
                    0 <= k < self.arrays@[j].nalus@.len() implies (#[trigger] self.arrays@[
                    j
                ].nalus@[k]).wf() by {
                    assert(views[j].nalus[k].wf());
                }
            }
        }
        total + 128 <= u32::MAX as u64
    }
}


impl Hvc1Box {
    /// Decides well-formedness of the entry.
    pub fn check_wf(&self) -> (r: bool)
        ensures
            r <==> self.wf(),
    {
        self.hvcc.check_wf()
    }
}

impl Hev1Box {
    /// Decides well-formedness of the entry.
    pub fn check_wf(&self) -> (r: bool)
        ensures
            r <==> self.wf(),
    {
        self.entry.hvcc.check_wf()
    }
}

} // verus!
