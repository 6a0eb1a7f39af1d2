//! The `avc1` AVC sample entry and its `avcC` decoder configuration.

use vstd::prelude::*;

use crate::bigend::be16;
use crate::bigend::put_u16;
use crate::bigend::put_u32;
use crate::bigend::put_u64;
use crate::bigend::put_u8;
use crate::bigend::put_zeros;
use crate::bigend::read_u16;
use crate::bigend::read_u32;
use crate::bigend::read_u8;
use crate::bigend::u16_be;
use crate::bigend::u32_be;
use crate::bigend::u64_be;
use crate::bigend::zero_bytes;
use crate::boxhead::BoxHeader;
use crate::boxhead::BoxType;
use crate::boxhead::HEADER_SIZE;
use crate::error::Error;
use crate::types::AvcConfig;
use crate::types::FixedPointU16;

verus! {

/// One parameter-set NAL unit: a length-prefixed byte string.
#[derive(Debug, Clone, PartialEq, Eq)]
pub struct NalUnit {
    pub bytes: Vec<u8>,
}

impl NalUnit {
    /// Fits its 16-bit length prefix.
    pub open spec fn wf(&self) -> bool {
        self.bytes@.len() <= u16::MAX
    }

    pub open spec fn spec_bytes(&self) -> Seq<u8> {
        u16_be(self.bytes@.len() as u16) + self.bytes@
    }

    pub fn size(&self) -> (r: u64)
        requires
            self.wf(),
        ensures
            r == self.spec_bytes().len(),
    {
        2 + self.bytes.len() as u64
    }

    pub fn write(&self, out: &mut Vec<u8>)
        requires
            self.wf(),
        ensures
            final(out)@ == old(out)@ + self.spec_bytes(),
    {
        put_u16(out, self.bytes.len() as u16);
        crate::bigend::put_bytes(out, &self.bytes);
        assert(out@ =~= old(out)@ + self.spec_bytes());
    }
}

/// The serialization of a parameter-set list (without its count byte).
pub open spec fn spec_nal_list_bytes(s: Seq<Seq<u8>>) -> Seq<u8>
    decreases s.len(),
{
    if s.len() == 0 {
        Seq::empty()
    } else {
        spec_nal_list_bytes(s.drop_last()) + u16_be(s.last().len() as u16) + s.last()
    }
}

/// Front decomposition of the parameter-set serialization.
pub proof fn lemma_nal_list_first(s: Seq<Seq<u8>>)
    requires
        s.len() > 0,
    ensures
        spec_nal_list_bytes(s) == u16_be(s[0].len() as u16) + s[0] + spec_nal_list_bytes(
            s.drop_first(),
        ),
    decreases s.len(),
{
    if s.len() == 1 {
        assert(s.drop_last() =~= Seq::<Seq<u8>>::empty());
        assert(s.drop_first() =~= Seq::<Seq<u8>>::empty());
        assert(spec_nal_list_bytes(s) =~= u16_be(s[0].len() as u16) + s[0] + spec_nal_list_bytes(
            s.drop_first(),
        ));
    } else {
        lemma_nal_list_first(s.drop_last());
        assert(s.drop_last()[0] == s[0]);
        assert(s.drop_last().drop_first() =~= s.drop_first().drop_last());
        assert(s.drop_first().last() == s.last());
        assert(spec_nal_list_bytes(s) =~= u16_be(s[0].len() as u16) + s[0] + spec_nal_list_bytes(
            s.drop_first(),
        ));
    }
}

/// Parsing of a length-prefixed parameter-set list: the sets and the
/// offset just after them.
pub open spec fn spec_parse_psets(data: Seq<u8>, off: int, count: int) -> Option<
    (Seq<Seq<u8>>, int),
>
    decreases count,
{
    if count <= 0 {
        Some((Seq::empty(), off))
    } else if off + 2 > data.len() {
        None
    } else {
        let size = be16(data[off], data[off + 1]);
        if off + 2 + size > data.len() {
            None
        } else {
            match spec_parse_psets(data, off + 2 + size, count - 1) {
                None => None,
                Some(rest) => Some(
                    (seq![data.subrange(off + 2, off + 2 + size)] + rest.0, rest.1),
                ),
            }
        }
    }
}

/// Parsing a serialized parameter-set list embedded in `data` yields the
/// list.
pub proof fn lemma_parse_psets(data: Seq<u8>, off: int, s: Seq<Seq<u8>>)
    requires
        forall|i: int| 0 <= i < s.len() ==> #[trigger] s[i].len() <= u16::MAX,
        0 <= off,
        off + spec_nal_list_bytes(s).len() <= data.len(),
        data.subrange(off, off + spec_nal_list_bytes(s).len()) == spec_nal_list_bytes(s),
    ensures
        spec_parse_psets(data, off, s.len() as int) == Some(
            (s, off + spec_nal_list_bytes(s).len()),
        ),
    decreases s.len(),
{
    if s.len() == 0 {
        assert(spec_parse_psets(data, off, 0int) == Some((Seq::<Seq<u8>>::empty(), off)));
        assert(s =~= Seq::<Seq<u8>>::empty());
    } else {
        let n = s.first();
        lemma_nal_list_first(s);
        let nb = u16_be(n.len() as u16) + n;
        let bytes = spec_nal_list_bytes(s);
        let total = bytes.len() as int;
        assert(bytes == nb + spec_nal_list_bytes(s.drop_first()));
        crate::bigend::lemma_u16_be_val(n.len() as u16);
        assert forall|k: int| 0 <= k < total implies data[off + k] == bytes[k] by {
            assert(data.subrange(off, off + total)[k] == bytes[k]);
        }
        assert(data[off] == bytes[0] && data[off + 1] == bytes[1]);
        assert(bytes[0] == u16_be(n.len() as u16)[0] && bytes[1] == u16_be(n.len() as u16)[1]);
        assert(be16(data[off], data[off + 1]) == n.len() as u16);
        assert(nb.len() == 2 + n.len());
        assert forall|k: int|
            0 <= k < n.len() implies data.subrange(off + 2, off + 2 + n.len() as int)[k]
            == n[k] by {
            assert(data.subrange(off, off + total)[2 + k] == bytes[2 + k]);
            assert(bytes[2 + k] == nb[2 + k]);
            assert(nb[2 + k] == n[k]);
        }
        assert(data.subrange(off + 2, off + 2 + n.len() as int) =~= n);
        let rest = s.drop_first();
        let rb = spec_nal_list_bytes(rest);
        assert forall|k: int|
            0 <= k < rb.len() implies data.subrange(off + nb.len(), off + total)[k] == rb[k] by {
            assert(data.subrange(off, off + total)[nb.len() + k] == bytes[nb.len() + k]);
            assert(bytes[nb.len() + k] == rb[k]);
        }
        assert(data.subrange(off + nb.len(), off + total) =~= rb);
        lemma_parse_psets(data, off + nb.len(), rest);
        assert(off + 2 + n.len() as int == off + nb.len());
        assert(seq![n] + rest =~= s);
    }
}

/// The `avcC` decoder configuration record.
#[derive(Debug, Clone, PartialEq, Eq)]
pub struct AvcCBox {
    pub configuration_version: u8,
    pub avc_profile_indication: u8,
    pub profile_compatibility: u8,
    pub avc_level_indication: u8,
    pub length_size_minus_one: u8,
    pub sequence_parameter_sets: Vec<NalUnit>,
    pub picture_parameter_sets: Vec<NalUnit>,
}

/// Mathematical image of an `avcC` record: the parameter sets as plain
/// byte strings.
pub ghost struct AvcCView {
    pub configuration_version: u8,
    pub avc_profile_indication: u8,
    pub profile_compatibility: u8,
    pub avc_level_indication: u8,
    pub length_size_minus_one: u8,
    pub sequence_parameter_sets: Seq<Seq<u8>>,
    pub picture_parameter_sets: Seq<Seq<u8>>,
}

impl View for AvcCBox {
    type V = AvcCView;

    open spec fn view(&self) -> AvcCView {
        AvcCView {
            configuration_version: self.configuration_version,
            avc_profile_indication: self.avc_profile_indication,
            profile_compatibility: self.profile_compatibility,
            avc_level_indication: self.avc_level_indication,
            length_size_minus_one: self.length_size_minus_one,
            sequence_parameter_sets: self.sequence_parameter_sets@.map_values(
                |n: NalUnit| n.bytes@,
            ),
            picture_parameter_sets: self.picture_parameter_sets@.map_values(|n: NalUnit| n.bytes@),
        }
    }
}

/// What an `avcC` payload (the bytes after the header) means. The
/// two-bit length field is extracted from its byte; the remaining bits of
/// that byte are not represented.
pub open spec fn spec_parse_avcc(data: Seq<u8>) -> Option<AvcCView> {
    if data.len() < 7 {
        None
    } else {
        match spec_parse_psets(data, 6, (data[5] & 0x1F) as int) {
            None => None,
            Some(sps) => {
                if sps.1 + 1 > data.len() {
                    None
                } else {
                    match spec_parse_psets(data, sps.1 + 1, data[sps.1] as int) {
                        None => None,
                        Some(pps) => Some(
                            AvcCView {
                                configuration_version: data[0],
                                avc_profile_indication: data[1],
                                profile_compatibility: data[2],
                                avc_level_indication: data[3],
                                length_size_minus_one: data[4] & 0x3,
                                sequence_parameter_sets: sps.0,
                                picture_parameter_sets: pps.0,
                            },
                        ),
                    }
                }
            },
        }
    }
}

impl AvcCBox {
    /// Builds the record from raw SPS and PPS parameter sets, with the
    /// profile fields copied out of the SPS.
    pub fn new(sps: &Vec<u8>, pps: &Vec<u8>) -> (r: Self)
        requires
            sps@.len() >= 4,
            sps@.len() <= u16::MAX,
            pps@.len() <= u16::MAX,
        ensures
            r.configuration_version == 1,
            r.avc_profile_indication == sps@[1],
            r.profile_compatibility == sps@[2],
            r.avc_level_indication == sps@[3],
            r.length_size_minus_one == 0xFF,
            r.sequence_parameter_sets@.len() == 1,
            r.sequence_parameter_sets@[0].bytes@ == sps@,
            r.picture_parameter_sets@.len() == 1,
            r.picture_parameter_sets@[0].bytes@ == pps@,
    {
        let mut sps_list: Vec<NalUnit> = Vec::new();
        sps_list.push(NalUnit { bytes: crate::hevc::clone_bytes(sps) });
        let mut pps_list: Vec<NalUnit> = Vec::new();
        pps_list.push(NalUnit { bytes: crate::hevc::clone_bytes(pps) });
        AvcCBox {
            configuration_version: 1,
            avc_profile_indication: sps[1],
            profile_compatibility: sps[2],
            avc_level_indication: sps[3],
            length_size_minus_one: 0xFF,
            sequence_parameter_sets: sps_list,
            picture_parameter_sets: pps_list,
        }
    }

    pub open spec fn wf(&self) -> bool {
        &&& self.sequence_parameter_sets@.len() <= 0x1F
        &&& self.picture_parameter_sets@.len() <= u8::MAX
        &&& forall|i: int|
            0 <= i < self.sequence_parameter_sets@.len() ==> self.sequence_parameter_sets@[i].wf()
        &&& forall|i: int|
            0 <= i < self.picture_parameter_sets@.len() ==> self.picture_parameter_sets@[i].wf()
        &&& self.spec_size() + 128 <= u32::MAX
    }

    pub open spec fn spec_sps_bytes(&self) -> Seq<u8> {
        spec_nal_list_bytes(self.sequence_parameter_sets@.map_values(|n: NalUnit| n.bytes@))
    }

    pub open spec fn spec_pps_bytes(&self) -> Seq<u8> {
        spec_nal_list_bytes(self.picture_parameter_sets@.map_values(|n: NalUnit| n.bytes@))
    }

    /// The payload after the header.
    pub open spec fn spec_payload(&self) -> Seq<u8> {
        seq![
            self.configuration_version,
            self.avc_profile_indication,
            self.profile_compatibility,
            self.avc_level_indication,
            self.length_size_minus_one,
            (0xE0u8 | (self.sequence_parameter_sets@.len() as u8 & 0x1F)) as u8,
        ] + self.spec_sps_bytes() + seq![self.picture_parameter_sets@.len() as u8]
            + self.spec_pps_bytes()
    }

    pub open spec fn spec_size(&self) -> int {
        HEADER_SIZE + self.spec_payload().len()
    }

    pub open spec fn spec_bytes(&self) -> Seq<u8> {
        BoxHeader { name: BoxType::AvcCBox, size: self.spec_size() as u64 }.spec_bytes()
            + self.spec_payload()
    }

    pub fn box_size(&self) -> (r: u64)
        requires
            self.wf(),
        ensures
            r == self.spec_size(),
    {
        let mut size: u64 = HEADER_SIZE + 7;
        let ghost spsv = self.sequence_parameter_sets@.map_values(|n: NalUnit| n.bytes@);
        let mut i: usize = 0;
        proof {
            lemma_nal_list_take_len(spsv, 0int);
        }
        while i < self.sequence_parameter_sets.len()
            invariant
                self.wf(),
                i <= self.sequence_parameter_sets@.len(),
                spsv == self.sequence_parameter_sets@.map_values(|n: NalUnit| n.bytes@),
                size == HEADER_SIZE + 7 + spec_nal_list_bytes(spsv.take(i as int)).len(),
                size <= HEADER_SIZE + 7 + spec_nal_list_bytes(spsv).len(),
            decreases self.sequence_parameter_sets@.len() - i,
        {
            proof {
                lemma_nal_list_take_step(spsv, i as int);
                lemma_nal_list_take_le(spsv, i + 1);
            }
            size = size + self.sequence_parameter_sets[i].size();
            i = i + 1;
        }
        proof {
            assert(spsv.take(spsv.len() as int) =~= spsv);
        }
        let ghost ppsv = self.picture_parameter_sets@.map_values(|n: NalUnit| n.bytes@);
        let mut j: usize = 0;
        proof {
            lemma_nal_list_take_len(ppsv, 0int);
        }
        while j < self.picture_parameter_sets.len()
            invariant
                self.wf(),
                j <= self.picture_parameter_sets@.len(),
                spsv == self.sequence_parameter_sets@.map_values(|n: NalUnit| n.bytes@),
                ppsv == self.picture_parameter_sets@.map_values(|n: NalUnit| n.bytes@),
                size == HEADER_SIZE + 7 + spec_nal_list_bytes(spsv).len() + spec_nal_list_bytes(
                    ppsv.take(j as int),
                ).len(),
                size <= HEADER_SIZE + 7 + spec_nal_list_bytes(spsv).len() + spec_nal_list_bytes(
                    ppsv,
                ).len(),
            decreases self.picture_parameter_sets@.len() - j,
        {
            proof {
                lemma_nal_list_take_step(ppsv, j as int);
                lemma_nal_list_take_le(ppsv, j + 1);
            }
            size = size + self.picture_parameter_sets[j].size();
            j = j + 1;
        }
        proof {
            assert(ppsv.take(ppsv.len() as int) =~= ppsv);
        }
        size
    }

    pub fn write_box(&self, out: &mut Vec<u8>) -> (r: Result<u64, Error>)
        requires
            self.wf(),
        ensures
            final(out)@ == old(out)@ + self.spec_bytes(),
            r == Ok::<u64, Error>(self.spec_size() as u64),
    {
        let size = self.box_size();
        let header = BoxHeader::new(BoxType::AvcCBox, size);
        let _ = header.write(out);
        put_u8(out, self.configuration_version);
        put_u8(out, self.avc_profile_indication);
        put_u8(out, self.profile_compatibility);
        put_u8(out, self.avc_level_indication);
        put_u8(out, self.length_size_minus_one);
        put_u8(out, 0xE0 | (self.sequence_parameter_sets.len() as u8 & 0x1F));
        let ghost spsv = self.sequence_parameter_sets@.map_values(|n: NalUnit| n.bytes@);
        let ghost mid = out@;
        let mut i: usize = 0;
        while i < self.sequence_parameter_sets.len()
            invariant
                self.wf(),
                i <= self.sequence_parameter_sets@.len(),
                spsv == self.sequence_parameter_sets@.map_values(|n: NalUnit| n.bytes@),
                out@ == mid + spec_nal_list_bytes(spsv.take(i as int)),
            decreases self.sequence_parameter_sets@.len() - i,
        {
            self.sequence_parameter_sets[i].write(out);
            proof {
                lemma_nal_list_take_step(spsv, i as int);
                assert(out@ =~= mid + spec_nal_list_bytes(spsv.take(i + 1)));
            }
            i = i + 1;
        }
        proof {
            assert(spsv.take(spsv.len() as int) =~= spsv);
        }
        put_u8(out, self.picture_parameter_sets.len() as u8);
        let ghost ppsv = self.picture_parameter_sets@.map_values(|n: NalUnit| n.bytes@);
        let ghost mid2 = out@;
        let mut j: usize = 0;
        while j < self.picture_parameter_sets.len()
            invariant
                self.wf(),
                j <= self.picture_parameter_sets@.len(),
                ppsv == self.picture_parameter_sets@.map_values(|n: NalUnit| n.bytes@),
                out@ == mid2 + spec_nal_list_bytes(ppsv.take(j as int)),
            decreases self.picture_parameter_sets@.len() - j,
        {
            self.picture_parameter_sets[j].write(out);
            proof {
                lemma_nal_list_take_step(ppsv, j as int);
                assert(out@ =~= mid2 + spec_nal_list_bytes(ppsv.take(j + 1)));
            }
            j = j + 1;
        }
        proof {
            assert(ppsv.take(ppsv.len() as int) =~= ppsv);
            assert(out@ =~= old(out)@ + self.spec_bytes());
        }
        Ok(size)
    }

    /// Reads the payload of an `avcC` box whose header (already consumed)
    /// declared `size`; `pos` stands just after the header. The parameter
    /// sets are read from inside the declared payload only.
    #[verifier::loop_isolation(false)]
    #[verifier::rlimit(100)]
    pub fn read_box(buf: &Vec<u8>, pos: usize, size: u64) -> (r: Result<(AvcCBox, usize), Error>)
        requires
            pos >= 8,
            pos - 8 + size <= usize::MAX,
        ensures
            r matches Ok(v) ==> size >= 8 && pos - 8 + size <= buf@.len() && (
            match spec_parse_avcc(buf@.subrange(pos as int, pos - 8 + size)) {
                Some(p) => v.0@ == p && v.1 == pos - 8 + size,
                None => false,
            }),
            size >= 8 && pos - 8 + size <= buf@.len() && spec_parse_avcc(
                buf@.subrange(pos as int, pos - 8 + size),
            ) is Some ==> r is Ok,
    {
        if size < 8 {
            return Err(Error::IoError);
        }
        let start = pos - 8;
        let end = start + (size as usize);
        if end > buf.len() {
            return Err(Error::IoError);
        }
        let ghost data = buf@.subrange(pos as int, end as int);
        if end - pos < 7 {
            return Err(Error::IoError);
        }
        proof {
            assert(forall|k: int| 0 <= k < data.len() ==> data[k] == buf@[pos + k]);
        }
        let configuration_version = buf[pos];
        let avc_profile_indication = buf[pos + 1];
        let profile_compatibility = buf[pos + 2];
        let avc_level_indication = buf[pos + 3];
        let length_size_minus_one = buf[pos + 4] & 0x3;
        let num_sps = (buf[pos + 5] & 0x1F) as usize;
        let mut p: usize = pos + 6;
        let mut sequence_parameter_sets: Vec<NalUnit> = Vec::new();
        let mut i: usize = 0;
        let ghost swhole = spec_parse_psets(data, 6, num_sps as int);
        while i < num_sps
            invariant
                i <= num_sps,
                pos + 6 <= p <= end <= buf@.len(),
                data == buf@.subrange(pos as int, end as int),
                data.len() == end - pos >= 7,
                swhole == spec_parse_psets(data, 6, num_sps as int),
                sequence_parameter_sets@.len() == i,
                spec_parse_psets(data, p - pos, num_sps as int - i) matches Some(rest) ==> (swhole
                    matches Some(w) && w.0 == sequence_parameter_sets@.map_values(
                    |n: NalUnit| n.bytes@,
                ) + rest.0 && w.1 == rest.1),
                spec_parse_psets(data, p - pos, num_sps as int - i) is None ==> swhole is None,
            decreases num_sps - i,
        {
            let ghost off = p - pos;
            proof {
                if off + 2 <= data.len() {
                    assert(data[off] == buf@[p as int] && data[off + 1] == buf@[p as int + 1]);
                }
            }
            let (n, q) = match read_nal_unit(buf, p, end) {
                Ok(v) => v,
                Err(e) => {
                    proof {
                        assert(spec_parse_psets(data, off, num_sps as int - i) is None);
                        assert(spec_parse_avcc(data) is None);
                    }
                    return Err(e);
                },
            };
            proof {
                assert(data[off] == buf@[p as int] && data[off + 1] == buf@[p as int + 1]);
                let len = be16(data[off], data[off + 1]) as int;
                assert(n.bytes@ =~= data.subrange(off + 2, off + 2 + len));
                let old_sets = sequence_parameter_sets@.map_values(|x: NalUnit| x.bytes@);
                assert(sequence_parameter_sets@.push(n).map_values(|x: NalUnit| x.bytes@)
                    =~= old_sets.push(n.bytes@));
                match spec_parse_psets(data, off + 2 + len, num_sps as int - (i + 1)) {
                    Some(rest) => {
                        assert(old_sets.push(n.bytes@) + rest.0 =~= old_sets + (seq![n.bytes@]
                            + rest.0));
                    },
                    None => {},
                }
            }
            sequence_parameter_sets.push(n);
            p = q;
            i = i + 1;
        }
        proof {
            assert(spec_parse_psets(data, p - pos, 0int) == Some(
                (Seq::<Seq<u8>>::empty(), (p - pos) as int),
            ));
            assert(sequence_parameter_sets@.map_values(|n: NalUnit| n.bytes@) + Seq::<
                Seq<u8>,
            >::empty() =~= sequence_parameter_sets@.map_values(|n: NalUnit| n.bytes@));
        }
        if end - p < 1 {
            proof {
                assert(spec_parse_avcc(data) is None);
            }
            return Err(Error::IoError);
        }
        let num_pps = buf[p] as usize;
        proof {
            assert(data[p - pos] == buf@[p as int]);
        }
        p = p + 1;
        let mut picture_parameter_sets: Vec<NalUnit> = Vec::new();
        let mut j: usize = 0;
        let ghost sps_end = (p - 1 - pos) as int;
        let ghost pwhole = spec_parse_psets(data, p - pos, num_pps as int);
        while j < num_pps
            invariant
                j <= num_pps,
                pos + 7 <= p <= end <= buf@.len(),
                data == buf@.subrange(pos as int, end as int),
                data.len() == end - pos >= 7,
                pwhole == spec_parse_psets(data, sps_end + 1, num_pps as int),
                picture_parameter_sets@.len() == j,
                spec_parse_psets(data, p - pos, num_pps as int - j) matches Some(rest) ==> (pwhole
                    matches Some(w) && w.0 == picture_parameter_sets@.map_values(
                    |n: NalUnit| n.bytes@,
                ) + rest.0 && w.1 == rest.1),
                spec_parse_psets(data, p - pos, num_pps as int - j) is None ==> pwhole is None,
                swhole == spec_parse_psets(data, 6, num_sps as int),
                swhole matches Some(w) && w.0 == sequence_parameter_sets@.map_values(
                    |n: NalUnit| n.bytes@,
                ) && w.1 == sps_end,
                num_pps == data[sps_end],
            decreases num_pps - j,
        {
            let ghost off = p - pos;
            proof {
                if off + 2 <= data.len() {
                    assert(data[off] == buf@[p as int] && data[off + 1] == buf@[p as int + 1]);
                }
            }
            let (n, q) = match read_nal_unit(buf, p, end) {
                Ok(v) => v,
                Err(e) => {
                    proof {
                        assert(spec_parse_psets(data, off, num_pps as int - j) is None);
                        assert(spec_parse_avcc(data) is None);
                    }
                    return Err(e);
                },
            };
            proof {
                assert(data[off] == buf@[p as int] && data[off + 1] == buf@[p as int + 1]);
                let len = be16(data[off], data[off + 1]) as int;
                assert(n.bytes@ =~= data.subrange(off + 2, off + 2 + len));
                let old_sets = picture_parameter_sets@.map_values(|x: NalUnit| x.bytes@);
                assert(picture_parameter_sets@.push(n).map_values(|x: NalUnit| x.bytes@)
                    =~= old_sets.push(n.bytes@));
                match spec_parse_psets(data, off + 2 + len, num_pps as int - (j + 1)) {
                    Some(rest) => {
                        assert(old_sets.push(n.bytes@) + rest.0 =~= old_sets + (seq![n.bytes@]
                            + rest.0));
                    },
                    None => {},
                }
            }
            picture_parameter_sets.push(n);
            p = q;
            j = j + 1;
        }
        proof {
            assert(spec_parse_psets(data, p - pos, 0int) == Some(
                (Seq::<Seq<u8>>::empty(), (p - pos) as int),
            ));
            assert(picture_parameter_sets@.map_values(|n: NalUnit| n.bytes@) + Seq::<
                Seq<u8>,
            >::empty() =~= picture_parameter_sets@.map_values(|n: NalUnit| n.bytes@));
        }
        let bx = AvcCBox {
            configuration_version,
            avc_profile_indication,
            profile_compatibility,
            avc_level_indication,
            length_size_minus_one,
            sequence_parameter_sets,
            picture_parameter_sets,
        };
        proof {
            let pv = spec_parse_avcc(data).unwrap();
            assert(bx@ == pv);
        }
        Ok((bx, end))
    }
}

/// Reads one length-prefixed parameter set, bounded by `end`: it
/// succeeds exactly when the prefix and the declared bytes fit, and
/// returns those bytes.
fn read_nal_unit(buf: &Vec<u8>, pos: usize, end: usize) -> (r: Result<(NalUnit, usize), Error>)
    requires
        pos <= end <= buf@.len(),
    ensures
        r is Ok <==> pos + 2 <= end && pos + 2 + be16(buf@[pos as int], buf@[pos as int + 1])
            <= end,
        r matches Ok(v) ==> v.0.bytes@ == buf@.subrange(
            pos as int + 2,
            pos as int + 2 + be16(buf@[pos as int], buf@[pos as int + 1]),
        ) && v.1 == pos + 2 + be16(buf@[pos as int], buf@[pos as int + 1]),
    {
    if end - pos < 2 {
        return Err(Error::IoError);
    }
    let (len, p1) = match read_u16(buf, pos) {
        Ok(v) => v,
        Err(e) => { return Err(e); },
    };
    if end - p1 < len as usize {
        return Err(Error::IoError);
    }
    let mut bytes: Vec<u8> = Vec::new();
    let mut k: usize = 0;
    while k < len as usize
        invariant
            p1 == pos + 2,
            p1 + len as int <= end <= buf@.len(),
            k <= len as usize,
            bytes@.len() == k,
            forall|m: int| 0 <= m < k ==> bytes@[m] == buf@[p1 + m],
        decreases len as int - k,
    {
        bytes.push(buf[p1 + k]);
        k = k + 1;
    }
    proof {
        assert(bytes@ =~= buf@.subrange(pos as int + 2, pos as int + 2 + len as int));
    }
    Ok((NalUnit { bytes }, p1 + len as usize))
}

/// Step lemma for serializing a parameter-set list left to right.
pub proof fn lemma_nal_list_take_step(s: Seq<Seq<u8>>, i: int)
    requires
        0 <= i < s.len(),
    ensures
        spec_nal_list_bytes(s.take(i + 1)) == spec_nal_list_bytes(s.take(i)) + u16_be(
            s[i].len() as u16,
        ) + s[i],
{
    let a = s.take(i + 1);
    assert(a.drop_last() =~= s.take(i));
    assert(a.last() == s[i]);
}

pub proof fn lemma_nal_list_take_len(s: Seq<Seq<u8>>, i: int)
    ensures
        spec_nal_list_bytes(s.take(0int)) == Seq::<u8>::empty(),
{
    assert(s.take(0int) =~= Seq::<Seq<u8>>::empty());
}

/// A prefix of the list serializes to at most the whole.
pub proof fn lemma_nal_list_take_le(s: Seq<Seq<u8>>, i: int)
    requires
        0 <= i <= s.len(),
    ensures
        spec_nal_list_bytes(s.take(i)).len() <= spec_nal_list_bytes(s).len(),
    decreases s.len() - i,
{
    if i == s.len() {
        assert(s.take(i) =~= s);
    } else {
        lemma_nal_list_take_step(s, i);
        lemma_nal_list_take_le(s, i + 1);
    }
}

/// The `avc1` AVC sample entry: a 78-byte visual prefix followed by the
/// `avcC` configuration record.
#[derive(Debug, Clone, PartialEq, Eq)]
pub struct Avc1Box {
    pub data_reference_index: u16,
    pub width: u16,
    pub height: u16,
    pub horizresolution: FixedPointU16,
    pub vertresolution: FixedPointU16,
    pub frame_count: u16,
    pub depth: u16,
    pub avcc: AvcCBox,
}

/// Mathematical image of an `avc1` sample entry.
pub ghost struct Avc1View {
    pub data_reference_index: u16,
    pub width: u16,
    pub height: u16,
    pub horizresolution: FixedPointU16,
    pub vertresolution: FixedPointU16,
    pub frame_count: u16,
    pub depth: u16,
    pub avcc: AvcCView,
}

impl View for Avc1Box {
    type V = Avc1View;

    open spec fn view(&self) -> Avc1View {
        Avc1View {
            data_reference_index: self.data_reference_index,
            width: self.width,
            height: self.height,
            horizresolution: self.horizresolution,
            vertresolution: self.vertresolution,
            frame_count: self.frame_count,
            depth: self.depth,
            avcc: self.avcc@,
        }
    }
}

/// What an `avc1` payload means: the visual prefix fields, then the
/// nested `avcC` record.
pub open spec fn spec_parse_avc1(data: Seq<u8>) -> Option<Avc1View> {
    if data.len() < 86 {
        None
    } else {
        match crate::boxhead::spec_parse_header(data.skip(78)) {
            None => None,
            Some(h) => {
                if h.1 > data.len() + 8 {
                    None
                } else if h.0 == BoxType::AvcCBox {
                    if h.1 < 8 || 78 + h.2 - 8 + h.1 > data.len() {
                        None
                    } else {
                        match spec_parse_avcc(data.subrange(78 + h.2, 78 + h.2 - 8 + h.1 as int)) {
                            None => None,
                            Some(c) => Some(
                                Avc1View {
                                    data_reference_index: be16(data[6], data[7]),
                                    width: be16(data[24], data[25]),
                                    height: be16(data[26], data[27]),
                                    horizresolution: FixedPointU16 {
                                        raw: crate::bigend::be32(
                                            data[28],
                                            data[29],
                                            data[30],
                                            data[31],
                                        ),
                                    },
                                    vertresolution: FixedPointU16 {
                                        raw: crate::bigend::be32(
                                            data[32],
                                            data[33],
                                            data[34],
                                            data[35],
                                        ),
                                    },
                                    frame_count: be16(data[40], data[41]),
                                    depth: be16(data[74], data[75]),
                                    avcc: c,
                                },
                            ),
                        }
                    }
                } else {
                    None
                }
            },
        }
    }
}

impl Default for Avc1Box {
    fn default() -> (r: Self)
        ensures
            r.data_reference_index == 0,
            r.width == 0,
            r.height == 0,
            r.frame_count == 1,
            r.depth == 0x0018,
    {
        Avc1Box {
            data_reference_index: 0,
            width: 0,
            height: 0,
            horizresolution: FixedPointU16::new(0x48),
            vertresolution: FixedPointU16::new(0x48),
            frame_count: 1,
            depth: 0x0018,
            avcc: AvcCBox {
                configuration_version: 0,
                avc_profile_indication: 0,
                profile_compatibility: 0,
                avc_level_indication: 0,
                length_size_minus_one: 0,
                sequence_parameter_sets: Vec::new(),
                picture_parameter_sets: Vec::new(),
            },
        }
    }
}

impl Avc1Box {
    /// Builds the entry from an AVC configuration.
    pub fn new(config: &AvcConfig) -> (r: Result<Avc1Box, Error>)
        ensures
            config.seq_param_set@.len() >= 4 && config.seq_param_set@.len() <= u16::MAX
                && config.pic_param_set@.len() <= u16::MAX <==> r is Ok,
            r matches Ok(b) ==> b.data_reference_index == 1 && b.width == config.width && b.height
                == config.height && b.frame_count == 1 && b.depth == 0x0018
                && b.avcc.configuration_version == 1 && b.avcc.avc_profile_indication
                == config.seq_param_set@[1] && b.avcc.profile_compatibility
                == config.seq_param_set@[2] && b.avcc.avc_level_indication
                == config.seq_param_set@[3] && b.avcc.sequence_parameter_sets@.len() == 1
                && b.avcc.sequence_parameter_sets@[0].bytes@ == config.seq_param_set@
                && b.avcc.picture_parameter_sets@.len() == 1
                && b.avcc.picture_parameter_sets@[0].bytes@ == config.pic_param_set@,
            config.seq_param_set@.len() < 4 ==> (r matches Err(Error::InvalidData(_))),
    {
        if config.seq_param_set.len() < 4 {
            return Err(Error::InvalidData("sequence parameter set too short"));
        }
        if config.seq_param_set.len() > 0xFFFF || config.pic_param_set.len() > 0xFFFF {
            return Err(Error::InvalidData("parameter set too long"));
        }
        Ok(
            Avc1Box {
                data_reference_index: 1,
                width: config.width,
                height: config.height,
                horizresolution: FixedPointU16::new(0x48),
                vertresolution: FixedPointU16::new(0x48),
                frame_count: 1,
                depth: 0x0018,
                avcc: AvcCBox::new(&config.seq_param_set, &config.pic_param_set),
            },
        )
    }

    pub open spec fn wf(&self) -> bool {
        self.avcc.wf()
    }

    pub open spec fn spec_size(&self) -> int {
        HEADER_SIZE + 8 + 70 + self.avcc.spec_size()
    }

    pub fn get_type(&self) -> (r: BoxType)
        ensures
            r == BoxType::Avc1Box,
    {
        BoxType::Avc1Box
    }

    pub fn get_size(&self) -> (r: u64)
        requires
            self.wf(),
        ensures
            r == self.spec_size(),
    {
        HEADER_SIZE + 8 + 70 + self.avcc.box_size()
    }

    /// The payload after the header.
    pub open spec fn spec_payload(&self) -> Seq<u8> {
        zero_bytes(6) + u16_be(self.data_reference_index) + zero_bytes(16) + u16_be(self.width)
            + u16_be(self.height) + u32_be(self.horizresolution.raw) + u32_be(
            self.vertresolution.raw,
        ) + zero_bytes(4) + u16_be(self.frame_count) + zero_bytes(32) + u16_be(self.depth)
            + u16_be(0xFFFF) + self.avcc.spec_bytes()
    }

    pub open spec fn spec_bytes(&self) -> Seq<u8> {
        BoxHeader { name: BoxType::Avc1Box, size: self.spec_size() as u64 }.spec_bytes()
            + self.spec_payload()
    }

    #[verifier::rlimit(100)]
    pub fn write_box(&self, out: &mut Vec<u8>) -> (r: Result<u64, Error>)
        requires
            self.wf(),
        ensures
            final(out)@ == old(out)@ + self.spec_bytes(),
            r == Ok::<u64, Error>(self.spec_size() as u64),
    {
        let size = self.get_size();
        let header = BoxHeader::new(BoxType::Avc1Box, size);
        let _ = header.write(out);
        put_u32(out, 0);
        put_u16(out, 0);
        put_u16(out, self.data_reference_index);
        put_u32(out, 0);
        put_u64(out, 0);
        put_u32(out, 0);
        put_u16(out, self.width);
        put_u16(out, self.height);
        put_u32(out, self.horizresolution.raw_value());
        put_u32(out, self.vertresolution.raw_value());
        put_u32(out, 0);
        put_u16(out, self.frame_count);
        put_zeros(out, 32);
        put_u16(out, self.depth);
        put_u16(out, 0xFFFF);
        let _ = self.avcc.write_box(out);
        proof {
            crate::bigend::lemma_zero_be();
            assert(u32_be(0) + u16_be(0) =~= zero_bytes(6));
            assert(u32_be(0) + u64_be(0) + u32_be(0) =~= zero_bytes(16));
            assert(out@ =~= old(out)@ + self.spec_bytes());
        }
        Ok(size)
    }

    /// Reads the payload of an `avc1` box whose header (already consumed)
    /// declared `size`; `pos` stands just after the header.
    #[verifier::rlimit(100)]
    pub fn read_box(buf: &Vec<u8>, pos: usize, size: u64) -> (r: Result<(Avc1Box, usize), Error>)
        requires
            pos >= 8,
            pos - 8 + size <= usize::MAX,
        ensures
            r matches Ok(v) ==> size >= 8 && pos - 8 + size <= buf@.len() && (
            match spec_parse_avc1(buf@.subrange(pos as int, pos - 8 + size)) {
                Some(p) => v.0@ == p && v.1 == pos - 8 + size,
                None => false,
            }),
            size >= 8 && pos - 8 + size <= buf@.len() && spec_parse_avc1(
                buf@.subrange(pos as int, pos - 8 + size),
            ) is Some ==> r is Ok,
    {
        if size < 8 {
            return Err(Error::IoError);
        }
        let start = pos - 8;
        let end = start + (size as usize);
        if end > buf.len() {
            return Err(Error::IoError);
        }
        let ghost data = buf@.subrange(pos as int, end as int);
        if end - pos < 86 {
            return Err(Error::IoError);
        }
        proof {
            assert(forall|k: int| 0 <= k < data.len() ==> data[k] == buf@[pos + k]);
            assert(data.skip(78) =~= buf@.skip(pos as int + 78).take(data.len() - 78));
        }
        let (data_reference_index, _) = match read_u16(buf, pos + 6) {
            Ok(v) => v,
            Err(e) => { return Err(e); },
        };
        let (width, _) = match read_u16(buf, pos + 24) {
            Ok(v) => v,
            Err(e) => { return Err(e); },
        };
        let (height, _) = match read_u16(buf, pos + 26) {
            Ok(v) => v,
            Err(e) => { return Err(e); },
        };
        let (horiz_raw, _) = match read_u32(buf, pos + 28) {
            Ok(v) => v,
            Err(e) => { return Err(e); },
        };
        let (vert_raw, _) = match read_u32(buf, pos + 32) {
            Ok(v) => v,
            Err(e) => { return Err(e); },
        };
        let (frame_count, _) = match read_u16(buf, pos + 40) {
            Ok(v) => v,
            Err(e) => { return Err(e); },
        };
        let (depth, _) = match read_u16(buf, pos + 74) {
            Ok(v) => v,
            Err(e) => { return Err(e); },
        };
        let (sub, p) = match BoxHeader::read(buf, pos + 78) {
            Ok(v) => v,
            Err(e) => { return Err(e); },
        };
        if p > end {
            return Err(Error::IoError);
        }
        proof {
            let inner = data.skip(78);
            let outer = buf@.skip(pos as int + 78);
            assert(inner.len() >= 8);
            assert(inner.len() == end - pos - 78);
            assert(forall|k: int| 0 <= k < inner.len() ==> inner[k] == outer[k]);
            assert(crate::boxhead::spec_parse_header(inner) == Some(
                (sub.name, sub.size, (p - pos - 78) as int),
            ));
        }
        if sub.size > size {
            return Err(Error::InvalidData("avc1 box contains a box with a larger size than it"));
        }
        if let BoxType::AvcCBox = sub.name {
            if sub.size < 8 {
                return Err(Error::IoError);
            }
            if sub.size > ((end - (p - 8)) as u64) {
                return Err(Error::IoError);
            }
            proof {
                let h = crate::boxhead::spec_parse_header(data.skip(78)).unwrap();
                assert(h.0 == sub.name && h.1 == sub.size && 78 + h.2 == p - pos);
                assert(buf@.subrange(p as int, p - 8 + sub.size as int) =~= data.subrange(
                    78 + h.2,
                    78 + h.2 - 8 + h.1 as int,
                ));
            }
            let (avcc, _) = match AvcCBox::read_box(buf, p, sub.size) {
                Ok(v) => v,
                Err(e) => { return Err(e); },
            };
            Ok(
                (
                    Avc1Box {
                        data_reference_index,
                        width,
                        height,
                        horizresolution: FixedPointU16::new_raw(horiz_raw),
                        vertresolution: FixedPointU16::new_raw(vert_raw),
                        frame_count,
                        depth,
                        avcc,
                    },
                    end,
                ),
            )
        } else {
            Err(Error::InvalidData("avcc not found"))
        }
    }
}


/// Serializing any well-formed `avcC` record whose length field fits its
/// two wire bits and parsing the result yields the record back, and its
/// length is the declared size.
#[verifier::rlimit(100)]
pub proof fn lemma_avcc_round_trip(b: AvcCBox)
    requires
        b.wf(),
        b.length_size_minus_one <= 3,
    ensures
        b.spec_bytes().len() == b.spec_size(),
        spec_parse_avcc(b.spec_bytes().skip(8)) == Some(b@),
{
    let data = b.spec_payload();
    assert(b.spec_bytes().skip(8) =~= data);
    let spsv = b@.sequence_parameter_sets;
    let ppsv = b@.picture_parameter_sets;
    let sb = spec_nal_list_bytes(spsv);
    let pb = spec_nal_list_bytes(ppsv);
    assert(data.len() == 7 + sb.len() + pb.len());
    let nsps = spsv.len() as u8;
    let lsm = b.length_size_minus_one;
    assert((nsps <= 0x1F ==> ((0xE0u8 | (nsps & 0x1F)) & 0x1F) == nsps) && (lsm <= 3 ==> (lsm
        & 0x3) == lsm)) by (bit_vector);
    assert(data[5] == (0xE0u8 | (nsps & 0x1F)));
    assert forall|i: int| 0 <= i < spsv.len() implies #[trigger] spsv[i].len() <= u16::MAX by {
        assert(b.sequence_parameter_sets@[i].wf());
    }
    assert(data.subrange(6, 6 + sb.len() as int) =~= sb);
    lemma_parse_psets(data, 6, spsv);
    assert(data[6 + sb.len() as int] == ppsv.len() as u8);
    assert forall|i: int| 0 <= i < ppsv.len() implies #[trigger] ppsv[i].len() <= u16::MAX by {
        assert(b.picture_parameter_sets@[i].wf());
    }
    assert(data.subrange(7 + sb.len() as int, 7 + sb.len() as int + pb.len() as int) =~= pb);
    lemma_parse_psets(data, 7 + sb.len() as int, ppsv);
    let p = spec_parse_avcc(data).unwrap();
    assert(p == b@);
}

/// Serializing any well-formed `avc1` entry whose length field fits its
/// two wire bits and parsing the result yields the entry back, and its
/// length is the declared size.
#[verifier::rlimit(100)]
pub proof fn lemma_avc1_round_trip(b: Avc1Box)
    requires
        b.wf(),
        b.avcc.length_size_minus_one <= 3,
    ensures
        b.spec_bytes().len() == b.spec_size(),
        spec_parse_avc1(b.spec_bytes().skip(8)) == Some(b@),
{
    let data = b.spec_payload();
    assert(b.spec_bytes().skip(8) =~= data);
    lemma_avcc_round_trip(b.avcc);
    assert(data.len() == 78 + b.avcc.spec_size());
    crate::bigend::lemma_u16_be_val(b.data_reference_index);
    crate::bigend::lemma_u16_be_val(b.width);
    crate::bigend::lemma_u16_be_val(b.height);
    crate::bigend::lemma_u16_be_val(b.frame_count);
    crate::bigend::lemma_u16_be_val(b.depth);
    crate::bigend::lemma_u32_be_val(b.horizresolution.raw);
    crate::bigend::lemma_u32_be_val(b.vertresolution.raw);
    assert(be16(data[6], data[7]) == b.data_reference_index);
    assert(be16(data[24], data[25]) == b.width);
    assert(be16(data[26], data[27]) == b.height);
    assert(crate::bigend::be32(data[28], data[29], data[30], data[31]) == b.horizresolution.raw);
    assert(crate::bigend::be32(data[32], data[33], data[34], data[35]) == b.vertresolution.raw);
    assert(be16(data[40], data[41]) == b.frame_count);
    assert(be16(data[74], data[75]) == b.depth);
    assert(data.skip(78) =~= b.avcc.spec_bytes());
    let hdr = BoxHeader { name: BoxType::AvcCBox, size: b.avcc.spec_size() as u64 };
    hdr.lemma_round_trip();
    assert(crate::boxhead::spec_parse_header(b.avcc.spec_bytes()) == Some(
        (BoxType::AvcCBox, b.avcc.spec_size() as u64, 8int),
    ));
    assert(data.subrange(78int + 8, 78 + b.avcc.spec_size() as int) =~= b.avcc.spec_bytes().skip(
        8,
    ));
    assert(spec_parse_avc1(data) == Some(b@));
}

impl AvcCBox {
    /// Decides well-formedness: parameter-set counts and lengths in
    /// range, and the record short enough for its 32-bit size field.
    #[verifier::loop_isolation(false)]
    pub fn check_wf(&self) -> (r: bool)
        ensures
            r <==> self.wf(),
    {
        if self.sequence_parameter_sets.len() > 0x1F || self.picture_parameter_sets.len() > 0xFF {
            return false;
        }
        let ghost spsv = self.sequence_parameter_sets@.map_values(|n: NalUnit| n.bytes@);
        let mut sps_total: u64 = 0;
        let mut i: usize = 0;
        proof {
            lemma_nal_list_take_len(spsv, 0int);
        }
        while i < self.sequence_parameter_sets.len()
            invariant
                i <= self.sequence_parameter_sets@.len(),
                spsv == self.sequence_parameter_sets@.map_values(|n: NalUnit| n.bytes@),
                sps_total == spec_nal_list_bytes(spsv.take(i as int)).len(),
                sps_total <= i * 0x10001,
                forall|j: int|
                    0 <= j < i ==> (#[trigger] self.sequence_parameter_sets@[j]).wf(),
            decreases self.sequence_parameter_sets@.len() - i,
        {
            let n = &self.sequence_parameter_sets[i];
            if n.bytes.len() > 0xFFFF {
                proof {
                    assert(!self.sequence_parameter_sets@[i as int].wf());
                }
                return false;
            }
            proof {
                lemma_nal_list_take_step(spsv, i as int);
            }
            sps_total = sps_total + 2 + (n.bytes.len() as u64);
            i = i + 1;
        }
        let ghost ppsv = self.picture_parameter_sets@.map_values(|n: NalUnit| n.bytes@);
        let mut pps_total: u64 = 0;
        let mut j: usize = 0;
        proof {
            assert(spsv.take(spsv.len() as int) =~= spsv);
            lemma_nal_list_take_len(ppsv, 0int);
        }
        while j < self.picture_parameter_sets.len()
            invariant
                j <= self.picture_parameter_sets@.len(),
                ppsv == self.picture_parameter_sets@.map_values(|n: NalUnit| n.bytes@),
                pps_total == spec_nal_list_bytes(ppsv.take(j as int)).len(),
                pps_total <= j * 0x10001,
                forall|k: int| 0 <= k < j ==> (#[trigger] self.picture_parameter_sets@[k]).wf(),
            decreases self.picture_parameter_sets@.len() - j,
        {
            let n = &self.picture_parameter_sets[j];
            if n.bytes.len() > 0xFFFF {
                proof {
                    assert(!self.picture_parameter_sets@[j as int].wf());
                }
                return false;
            }
            proof {
                lemma_nal_list_take_step(ppsv, j as int);
            }
            pps_total = pps_total + 2 + (n.bytes.len() as u64);
            j = j + 1;
        }
        proof {
            assert(ppsv.take(ppsv.len() as int) =~= ppsv);
        }
        let size: u64 = 8 + 7 + sps_total + pps_total;
        size + 128 <= u32::MAX as u64
    }
}

impl Avc1Box {
    /// Decides well-formedness of the entry.
    pub fn check_wf(&self) -> (r: bool)
        ensures
            r <==> self.wf(),
    {
        self.avcc.check_wf()
    }
}

} // verus!
