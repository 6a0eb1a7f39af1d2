//! The `Opus` sample entry and its `dOps` decoder configuration box.

use vstd::prelude::*;

use crate::bigend::be16;
use crate::bigend::be32;
use crate::bigend::put_u16;
use crate::bigend::put_u32;
use crate::bigend::put_u64;
use crate::bigend::put_u8;
use crate::bigend::read_u16;
use crate::bigend::read_u32;
use crate::bigend::read_u8;
use crate::bigend::u16_be;
use crate::bigend::u32_be;
use crate::bigend::u64_be;
use crate::bigend::zero_bytes;
use crate::boxhead::spec_parse_header;
use crate::boxhead::BoxHeader;
use crate::boxhead::BoxType;
use crate::boxhead::HEADER_SIZE;
use crate::error::Error;
use crate::types::FixedPointU16;
use crate::types::OpusConfig;

verus! {

/// The Opus channel mapping table, present when the mapping family is
/// nonzero.
#[derive(Debug, Clone, PartialEq, Eq)]
pub struct ChannelMappingTable {
    pub stream_count: u8,
    pub coupled_count: u8,
    pub channel_mapping: Vec<u8>,
}

/// Mathematical image of a channel mapping table.
pub ghost struct CmtView {
    pub stream_count: u8,
    pub coupled_count: u8,
    pub channel_mapping: Seq<u8>,
}

impl View for ChannelMappingTable {
    type V = CmtView;

    open spec fn view(&self) -> CmtView {
        CmtView {
            stream_count: self.stream_count,
            coupled_count: self.coupled_count,
            channel_mapping: self.channel_mapping@,
        }
    }
}

impl Default for ChannelMappingTable {
    fn default() -> (r: Self)
        ensures
            r.stream_count == 0,
            r.coupled_count == 2,
            r.channel_mapping@ == Seq::<u8>::empty(),
    {
        let r = Self { stream_count: 0, coupled_count: 2, channel_mapping: Vec::new() };
        proof {
            assert(r.channel_mapping@ =~= Seq::<u8>::empty());
        }
        r
    }
}

/// The `dOps` box.
#[derive(Debug, Clone, PartialEq, Eq)]
pub struct DopsBox {
    pub version: u8,
    pub output_channel_count: u8,
    pub pre_skip: u16,
    pub input_sample_rate: u32,
    pub output_gain: i16,
    pub channel_mapping_family: u8,
    pub channel_mapping_table: Option<ChannelMappingTable>,
}

/// Mathematical image of a `dOps` box.
pub ghost struct DopsView {
    pub version: u8,
    pub output_channel_count: u8,
    pub pre_skip: u16,
    pub input_sample_rate: u32,
    pub output_gain: i16,
    pub channel_mapping_family: u8,
    pub channel_mapping_table: Option<CmtView>,
}

impl View for DopsBox {
    type V = DopsView;

    open spec fn view(&self) -> DopsView {
        DopsView {
            version: self.version,
            output_channel_count: self.output_channel_count,
            pre_skip: self.pre_skip,
            input_sample_rate: self.input_sample_rate,
            output_gain: self.output_gain,
            channel_mapping_family: self.channel_mapping_family,
            channel_mapping_table: match self.channel_mapping_table {
                Some(t) => Some(t@),
                None => None,
            },
        }
    }
}

impl Default for DopsBox {
    /// Stereo, with the Opus defaults of zero pre-skip and unity gain.
    fn default() -> (r: Self)
        ensures
            r@ == (DopsView {
                version: 0u8,
                output_channel_count: 2u8,
                pre_skip: 0u16,
                input_sample_rate: 0u32,
                output_gain: 0i16,
                channel_mapping_family: 0u8,
                channel_mapping_table: None,
            }),
    {
        Self {
            version: 0,
            output_channel_count: 2,
            pre_skip: 0,
            input_sample_rate: 0,
            output_gain: 0,
            channel_mapping_family: 0,
            channel_mapping_table: None,
        }
    }
}

/// What a `dOps` payload (the bytes after the header) means. The channel
/// mapping table must fit inside the payload.
pub open spec fn spec_parse_dops(data: Seq<u8>) -> Option<DopsView> {
    if data.len() < 11 {
        None
    } else {
        let version = data[0];
        let output_channel_count = data[1];
        let pre_skip = be16(data[2], data[3]);
        let input_sample_rate = be32(data[4], data[5], data[6], data[7]);
        let output_gain = be16(data[8], data[9]) as i16;
        let channel_mapping_family = data[10];
        if channel_mapping_family != 0 {
            if data.len() < 13 + output_channel_count {
                None
            } else {
                Some(
                    DopsView {
                        version,
                        output_channel_count,
                        pre_skip,
                        input_sample_rate,
                        output_gain,
                        channel_mapping_family,
                        channel_mapping_table: Some(
                            CmtView {
                                stream_count: data[11],
                                coupled_count: data[12],
                                channel_mapping: data.subrange(
                                    13,
                                    13 + output_channel_count as int,
                                ),
                            },
                        ),
                    },
                )
            }
        } else {
            Some(
                DopsView {
                    version,
                    output_channel_count,
                    pre_skip,
                    input_sample_rate,
                    output_gain,
                    channel_mapping_family,
                    channel_mapping_table: None,
                },
            )
        }
    }
}

impl DopsBox {
    /// The table is present exactly when the mapping family asks for it,
    /// and lists one entry per output channel.
    pub open spec fn wf(&self) -> bool {
        &&& self.channel_mapping_family != 0 ==> (self.channel_mapping_table matches Some(t)
            && t.channel_mapping@.len() == self.output_channel_count)
        &&& self.channel_mapping_family == 0 ==> self.channel_mapping_table is None
    }

    pub open spec fn spec_size(&self) -> u64 {
        (HEADER_SIZE + 11 + (if self.channel_mapping_family != 0 {
            self.output_channel_count as int + 2
        } else {
            0int
        })) as u64
    }

    pub fn box_size(&self) -> (r: u64)
        ensures
            r == self.spec_size(),
    {
        let mut channel_table_size: u64 = 0;
        if self.channel_mapping_family != 0 {
            channel_table_size = self.output_channel_count as u64 + 2;
        }
        HEADER_SIZE + 11 + channel_table_size
    }

    pub fn box_type(&self) -> (r: BoxType)
        ensures
            r == BoxType::DopsBox,
    {
        BoxType::DopsBox
    }

    pub fn new(config: &OpusConfig) -> (r: Self)
        ensures
            r@ == (DopsView {
                version: 0u8,
                output_channel_count: config.chan_conf.spec_value(),
                pre_skip: config.pre_skip,
                input_sample_rate: config.freq_index.spec_freq(),
                output_gain: 0i16,
                channel_mapping_family: 0u8,
                channel_mapping_table: None,
            }),
    {
        Self {
            version: 0,
            output_channel_count: config.chan_conf.as_u8(),
            pre_skip: config.pre_skip,
            input_sample_rate: config.freq_index.freq(),
            output_gain: 0,
            channel_mapping_family: 0,
            channel_mapping_table: None,
        }
    }

    /// The payload after the header.
    pub open spec fn spec_payload(&self) -> Seq<u8> {
        seq![self.version, self.output_channel_count] + u16_be(self.pre_skip) + u32_be(
            self.input_sample_rate,
        ) + u16_be(self.output_gain as u16) + seq![self.channel_mapping_family] + (
        match self.channel_mapping_table {
            Some(t) => (if self.channel_mapping_family != 0 {
                seq![t.stream_count, t.coupled_count] + t.channel_mapping@
            } else {
                Seq::empty()
            }),
            None => Seq::empty(),
        })
    }

    /// The full wire form.
    pub open spec fn spec_bytes(&self) -> Seq<u8> {
        BoxHeader { name: BoxType::DopsBox, size: self.spec_size() }.spec_bytes()
            + self.spec_payload()
    }

    pub fn write_box(&self, out: &mut Vec<u8>) -> (r: Result<u64, Error>)
        requires
            self.wf(),
        ensures
            final(out)@ == old(out)@ + self.spec_bytes(),
            r == Ok::<u64, Error>(self.spec_size()),
    {
        let size = self.box_size();
        let header = BoxHeader::new(BoxType::DopsBox, size);
        let _ = header.write(out);
        put_u8(out, self.version);
        put_u8(out, self.output_channel_count);
        put_u16(out, self.pre_skip);
        put_u32(out, self.input_sample_rate);
        put_u16(out, self.output_gain as u16);
        put_u8(out, self.channel_mapping_family);
        if self.channel_mapping_family != 0 {
            let table = match &self.channel_mapping_table {
                Some(t) => t,
                None => {
                    proof {
                        assert(false);
                    }
                    return Err(Error::InvalidData("channel mapping table missing"));
                },
            };
            put_u8(out, table.stream_count);
            put_u8(out, table.coupled_count);
            crate::bigend::put_bytes(out, &table.channel_mapping);
        }
        assert(out@ =~= old(out)@ + self.spec_bytes());
        Ok(size)
    }

    /// Reads the payload of a `dOps` box whose header (already consumed)
    /// declared `size`; `pos` stands just after the header. The mapping
    /// table is read from inside the declared payload only.
    pub fn read_box(buf: &Vec<u8>, pos: usize, size: u64) -> (r: Result<(DopsBox, usize), Error>)
        requires
            pos >= 8,
            pos - 8 + size <= usize::MAX,
        ensures
            r matches Ok(v) ==> size >= 8 && pos - 8 + size <= buf@.len() && (match spec_parse_dops(
                buf@.subrange(pos as int, pos - 8 + size),
            ) {
                Some(p) => v.0@ == p && v.1 == pos - 8 + size,
                None => false,
            }),
            size >= 8 && pos - 8 + size <= buf@.len() && spec_parse_dops(
                buf@.subrange(pos as int, pos - 8 + size),
            ) is Some ==> r is Ok,
    {
        if size < 8 {
            return Err(Error::IoError);
        }
        let start = pos - 8;
        let end = start + (size as usize);
        if end > buf.len() {
            return Err(Error::IoError);
        }
        let ghost data = buf@.subrange(pos as int, end as int);
        if end - pos < 11 {
            return Err(Error::IoError);
        }
        let (version, p1) = match read_u8(buf, pos) {
            Ok(v) => v,
            Err(e) => { return Err(e); },
        };
        let (output_channel_count, p2) = match read_u8(buf, p1) {
            Ok(v) => v,
            Err(e) => { return Err(e); },
        };
        let (pre_skip, p3) = match read_u16(buf, p2) {
            Ok(v) => v,
            Err(e) => { return Err(e); },
        };
        let (input_sample_rate, p4) = match read_u32(buf, p3) {
            Ok(v) => v,
            Err(e) => { return Err(e); },
        };
        let (gain_bits, p5) = match read_u16(buf, p4) {
            Ok(v) => v,
            Err(e) => { return Err(e); },
        };
        let output_gain = gain_bits as i16;
        let (channel_mapping_family, p6) = match read_u8(buf, p5) {
            Ok(v) => v,
            Err(e) => { return Err(e); },
        };
        proof {
            assert(forall|k: int| 0 <= k < data.len() ==> data[k] == buf@[pos + k]);
        }
        let mut channel_mapping_table: Option<ChannelMappingTable> = None;
        if channel_mapping_family != 0 {
            if end - p6 < 2 || end - (p6 + 2) < output_channel_count as usize {
                return Err(Error::IoError);
            }
            let (stream_count, p7) = match read_u8(buf, p6) {
                Ok(v) => v,
                Err(e) => { return Err(e); },
            };
            let (coupled_count, p8) = match read_u8(buf, p7) {
                Ok(v) => v,
                Err(e) => { return Err(e); },
            };
            let mut channel_mapping: Vec<u8> = Vec::new();
            let mut i: usize = 0;
            while i < output_channel_count as usize
                invariant
                    i <= output_channel_count as usize,
                    p8 == pos + 13,
                    pos + 13 + output_channel_count as int <= end <= buf@.len(),
                    data == buf@.subrange(pos as int, end as int),
                    channel_mapping@.len() == i,
                    forall|j: int| 0 <= j < i ==> channel_mapping@[j] == data[13 + j],
                decreases output_channel_count as int - i,
            {
                let (bv, _) = match read_u8(buf, p8 + i) {
                    Ok(v) => v,
                    Err(e) => { return Err(e); },
                };
                channel_mapping.push(bv);
                i = i + 1;
            }
            proof {
                assert(channel_mapping@ =~= data.subrange(13, 13 + output_channel_count as int));
            }
            channel_mapping_table = Some(
                ChannelMappingTable { stream_count, coupled_count, channel_mapping },
            );
        }
        let b = DopsBox {
            version,
            output_channel_count,
            pre_skip,
            input_sample_rate,
            output_gain,
            channel_mapping_family,
            channel_mapping_table,
        };
        Ok((b, end))
    }
}

/// Serializing any well-formed `dOps` box and parsing the result yields
/// the box back, and its length is the declared size.
pub proof fn lemma_dops_round_trip(b: DopsBox)
    requires
        b.wf(),
    ensures
        b.spec_bytes().len() == b.spec_size(),
        spec_parse_dops(b.spec_bytes().skip(8)) == Some(b@),
{
    let data = b.spec_payload();
    assert(b.spec_bytes().skip(8) =~= data);
    crate::bigend::lemma_u16_be_val(b.pre_skip);
    crate::bigend::lemma_u32_be_val(b.input_sample_rate);
    crate::bigend::lemma_u16_be_val(b.output_gain as u16);
    assert(be16(data[2], data[3]) == b.pre_skip);
    assert(be32(data[4], data[5], data[6], data[7]) == b.input_sample_rate);
    assert(be16(data[8], data[9]) == b.output_gain as u16);
    crate::bigend::lemma_i16_bits(b.output_gain);
    if b.channel_mapping_family != 0 {
        let t = b.channel_mapping_table.unwrap();
        assert(data.len() == 13 + t.channel_mapping@.len());
        assert(data.subrange(13, 13 + b.output_channel_count as int) =~= t.channel_mapping@);
        assert(spec_parse_dops(data) == Some(b@));
    } else {
        assert(spec_parse_dops(data) == Some(b@));
    }
}

/// The `Opus` audio sample entry.
#[derive(Debug, Clone, PartialEq, Eq)]
pub struct OpusBox {
    pub data_reference_index: u16,
    pub channel_count: u16,
    pub sample_size: u16,
    pub sample_rate: FixedPointU16,
    pub dops_box: Option<DopsBox>,
}

/// Mathematical image of an `Opus` sample entry.
pub ghost struct OpusView {
    pub data_reference_index: u16,
    pub channel_count: u16,
    pub sample_size: u16,
    pub sample_rate: FixedPointU16,
    pub dops_box: Option<DopsView>,
}

impl View for OpusBox {
    type V = OpusView;

    open spec fn view(&self) -> OpusView {
        OpusView {
            data_reference_index: self.data_reference_index,
            channel_count: self.channel_count,
            sample_size: self.sample_size,
            sample_rate: self.sample_rate,
            dops_box: match self.dops_box {
                Some(d) => Some(d@),
                None => None,
            },
        }
    }
}

impl Default for OpusBox {
    fn default() -> (r: Self)
        ensures
            r.data_reference_index == 0,
            r.channel_count == 2,
            r.sample_size == 16,
            r.sample_rate.raw == 48000 * 0x10000,
            r@.dops_box matches Some(d) && d == (DopsView {
                version: 0u8,
                output_channel_count: 2u8,
                pre_skip: 0u16,
                input_sample_rate: 0u32,
                output_gain: 0i16,
                channel_mapping_family: 0u8,
                channel_mapping_table: None,
            }),
    {
        Self {
            data_reference_index: 0,
            channel_count: 2,
            sample_size: 16,
            sample_rate: FixedPointU16::new(48000),
            dops_box: Some(DopsBox::default()),
        }
    }
}

/// What an `Opus` payload (the bytes after the header) means. The 28-byte
/// audio sample-entry prefix is followed by one sub-box header; a `dOps`
/// sub-box is parsed, anything else is skipped.
pub open spec fn spec_parse_opus(data: Seq<u8>) -> Option<OpusView> {
    if data.len() < 36 {
        None
    } else {
        let data_reference_index = be16(data[6], data[7]);
        let channel_count = be16(data[16], data[17]);
        let sample_size = be16(data[18], data[19]);
        let sample_rate = FixedPointU16 { raw: be32(data[24], data[25], data[26], data[27]) };
        match spec_parse_header(data.skip(28)) {
            None => None,
            Some(h) => {
                if h.1 > data.len() + 8 {
                    None
                } else if h.0 == BoxType::DopsBox {
                    if h.1 < 8 || 28 + h.2 - 8 + h.1 > data.len() {
                        None
                    } else {
                        match spec_parse_dops(
                            data.subrange(28 + h.2, 28 + h.2 - 8 + h.1 as int),
                        ) {
                            None => None,
                            Some(d) => Some(
                                OpusView {
                                    data_reference_index,
                                    channel_count,
                                    sample_size,
                                    sample_rate,
                                    dops_box: Some(d),
                                },
                            ),
                        }
                    }
                } else {
                    Some(
                        OpusView {
                            data_reference_index,
                            channel_count,
                            sample_size,
                            sample_rate,
                            dops_box: None,
                        },
                    )
                }
            },
        }
    }
}

impl OpusBox {
    pub fn new(config: &OpusConfig) -> (r: Self)
        ensures
            r.data_reference_index == 1,
            r.channel_count == config.chan_conf.spec_value(),
            r.sample_size == 16,
            r.sample_rate.raw == ((config.freq_index.spec_freq() as u16) as u32) * 0x10000,
            r@.dops_box matches Some(d) && d == (DopsView {
                version: 0u8,
                output_channel_count: config.chan_conf.spec_value(),
                pre_skip: config.pre_skip,
                input_sample_rate: config.freq_index.spec_freq(),
                output_gain: 0i16,
                channel_mapping_family: 0u8,
                channel_mapping_table: None,
            }),
    {
        let freq = config.freq_index.freq();
        Self {
            channel_count: config.chan_conf.as_u8() as u16,
            sample_size: 16,
            sample_rate: FixedPointU16::new(#[verifier::truncate] (freq as u16)),
            dops_box: Some(DopsBox::new(config)),
            data_reference_index: 1,
        }
    }

    pub fn get_type(&self) -> (r: BoxType)
        ensures
            r == BoxType::OpusBox,
    {
        BoxType::OpusBox
    }

    pub open spec fn spec_size(&self) -> u64 {
        (HEADER_SIZE + 28 + (match self.dops_box {
            Some(d) => d.spec_size() as int,
            None => 0int,
        })) as u64
    }

    pub fn get_size(&self) -> (r: u64)
        ensures
            r == self.spec_size(),
    {
        let mut size: u64 = HEADER_SIZE + 28;
        if let Some(ref dops_box) = self.dops_box {
            size += dops_box.box_size();
        }
        size
    }

    /// A nested `dOps` box must be well-formed; without one the entry
    /// cannot round-trip, since the reader expects a sub-box header.
    pub open spec fn wf(&self) -> bool {
        self.dops_box matches Some(d) && d.wf()
    }

    /// The payload after the header.
    pub open spec fn spec_payload(&self) -> Seq<u8> {
        zero_bytes(6) + u16_be(self.data_reference_index) + u64_be(0) + u16_be(self.channel_count)
            + u16_be(self.sample_size) + u32_be(0) + u32_be(self.sample_rate.raw) + (
        match self.dops_box {
            Some(d) => d.spec_bytes(),
            None => Seq::empty(),
        })
    }

    /// The full wire form.
    pub open spec fn spec_bytes(&self) -> Seq<u8> {
        BoxHeader { name: BoxType::OpusBox, size: self.spec_size() }.spec_bytes()
            + self.spec_payload()
    }

    pub fn write_box(&self, out: &mut Vec<u8>) -> (r: Result<u64, Error>)
        requires
            self.wf(),
        ensures
            final(out)@ == old(out)@ + self.spec_bytes(),
            r == Ok::<u64, Error>(self.spec_size()),
    {
        let size = self.get_size();
        let header = BoxHeader::new(BoxType::OpusBox, size);
        let _ = header.write(out);
        put_u32(out, 0);
        put_u16(out, 0);
        put_u16(out, self.data_reference_index);
        put_u64(out, 0);
        put_u16(out, self.channel_count);
        put_u16(out, self.sample_size);
        put_u32(out, 0);
        put_u32(out, self.sample_rate.raw_value());
        if let Some(ref dops_box) = self.dops_box {
            let _ = dops_box.write_box(out);
        }
        proof {
            crate::bigend::lemma_zero_be();
            assert(u32_be(0) + u16_be(0) =~= zero_bytes(6));
            assert(out@ =~= old(out)@ + self.spec_bytes());
        }
        Ok(size)
    }

    /// Reads the payload of an `Opus` box whose header (already consumed)
    /// declared `size`; `pos` stands just after the header.
    #[verifier::rlimit(100)]
    pub fn read_box(buf: &Vec<u8>, pos: usize, size: u64) -> (r: Result<(OpusBox, usize), Error>)
        requires
            pos >= 8,
            pos - 8 + size <= usize::MAX,
        ensures
            r matches Ok(v) ==> size >= 8 && pos - 8 + size <= buf@.len() && (match spec_parse_opus(
                buf@.subrange(pos as int, pos - 8 + size),
            ) {
                Some(p) => v.0@ == p && v.1 == pos - 8 + size,
                None => false,
            }),
            size >= 8 && pos - 8 + size <= buf@.len() && spec_parse_opus(
                buf@.subrange(pos as int, pos - 8 + size),
            ) is Some ==> r is Ok,
    {
        if size < 8 {
            return Err(Error::IoError);
        }
        let start = pos - 8;
        let end = start + (size as usize);
        if end > buf.len() {
            return Err(Error::IoError);
        }
        let ghost data = buf@.subrange(pos as int, end as int);
        if end - pos < 36 {
            return Err(Error::IoError);
        }
        let (_, q1) = match read_u32(buf, pos) {
            Ok(v) => v,
            Err(e) => { return Err(e); },
        };
        let (_, q2) = match read_u16(buf, q1) {
            Ok(v) => v,
            Err(e) => { return Err(e); },
        };
        let (data_reference_index, q3) = match read_u16(buf, q2) {
            Ok(v) => v,
            Err(e) => { return Err(e); },
        };
        let (_, q4) = match read_u16(buf, q3) {
            Ok(v) => v,
            Err(e) => { return Err(e); },
        };
        let (_, q5) = match read_u16(buf, q4) {
            Ok(v) => v,
            Err(e) => { return Err(e); },
        };
        let (_, q6) = match read_u32(buf, q5) {
            Ok(v) => v,
            Err(e) => { return Err(e); },
        };
        let (channel_count, q7) = match read_u16(buf, q6) {
            Ok(v) => v,
            Err(e) => { return Err(e); },
        };
        let (sample_size, q8) = match read_u16(buf, q7) {
            Ok(v) => v,
            Err(e) => { return Err(e); },
        };
        let (_, q9) = match read_u32(buf, q8) {
            Ok(v) => v,
            Err(e) => { return Err(e); },
        };
        let (rate_raw, q10) = match read_u32(buf, q9) {
            Ok(v) => v,
            Err(e) => { return Err(e); },
        };
        let sample_rate = FixedPointU16::new_raw(rate_raw);
        proof {
            assert(forall|k: int| 0 <= k < data.len() ==> data[k] == buf@[pos + k]);
            assert(data.skip(28) =~= buf@.skip(pos as int + 28).take(data.len() - 28));
        }
        let (sub, p) = match BoxHeader::read(buf, q10) {
            Ok(v) => v,
            Err(e) => { return Err(e); },
        };
        if p > end {
            return Err(Error::IoError);
        }
        proof {
            let inner = data.skip(28);
            let outer = buf@.skip(q10 as int);
            assert(inner.len() >= 8);
            assert(inner.len() == end - q10);
            assert(forall|k: int| 0 <= k < inner.len() ==> inner[k] == outer[k]);
            assert(spec_parse_header(inner) == Some((sub.name, sub.size, (p - q10) as int)));
        }
        if sub.size > size {
            return Err(Error::InvalidData("opus box contains a box with a larger size than it"));
        }
        let mut dops_box: Option<DopsBox> = None;
        if let BoxType::DopsBox = sub.name {
            if sub.size < 8 {
                return Err(Error::IoError);
            }
            if sub.size > ((end - (p - 8)) as u64) {
                return Err(Error::IoError);
            }
            let (d, _) = match DopsBox::read_box(buf, p, sub.size) {
                Ok(v) => v,
                Err(e) => { return Err(e); },
            };
            proof {
                let h = spec_parse_header(data.skip(28)).unwrap();
                assert(h.0 == sub.name && h.1 == sub.size && 28 + h.2 == p - pos);
                assert(buf@.subrange(p as int, p - 8 + sub.size as int) =~= data.subrange(
                    28 + h.2,
                    28 + h.2 - 8 + h.1 as int,
                ));
            }
            dops_box = Some(d);
        }
        let b = OpusBox { data_reference_index, channel_count, sample_size, sample_rate, dops_box };
        Ok((b, end))
    }
}

/// Serializing any well-formed `Opus` entry and parsing the result yields
/// the entry back, and its length is the declared size.
#[verifier::rlimit(60)]
pub proof fn lemma_opus_round_trip(b: OpusBox)
    requires
        b.wf(),
    ensures
        b.spec_bytes().len() == b.spec_size(),
        spec_parse_opus(b.spec_bytes().skip(8)) == Some(b@),
{
    let d = b.dops_box.unwrap();
    let data = b.spec_payload();
    assert(b.spec_bytes().skip(8) =~= data);
    assert(data.len() == 28 + d.spec_size());
    crate::bigend::lemma_u16_be_val(b.data_reference_index);
    crate::bigend::lemma_u16_be_val(b.channel_count);
    crate::bigend::lemma_u16_be_val(b.sample_size);
    crate::bigend::lemma_u32_be_val(b.sample_rate.raw);
    assert(be16(data[6], data[7]) == b.data_reference_index);
    assert(be16(data[16], data[17]) == b.channel_count);
    assert(be16(data[18], data[19]) == b.sample_size);
    assert(be32(data[24], data[25], data[26], data[27]) == b.sample_rate.raw);
    assert(data.skip(28) =~= d.spec_bytes());
    let hdr = BoxHeader { name: BoxType::DopsBox, size: d.spec_size() };
    hdr.lemma_round_trip();
    assert(spec_parse_header(d.spec_bytes()) == Some((BoxType::DopsBox, d.spec_size(), 8int)));
    lemma_dops_round_trip(d);
    assert(data.subrange(28int + 8, 28 + d.spec_size() as int) =~= d.spec_bytes().skip(8));
    assert(spec_parse_opus(data) == Some(b@));
}


impl DopsBox {
    /// Decides well-formedness: the mapping table is present with one
    /// entry per channel exactly when the family is nonzero.
    pub fn check_wf(&self) -> (r: bool)
        ensures
            r <==> self.wf(),
    {
        if self.channel_mapping_family != 0 {
            match &self.channel_mapping_table {
                Some(t) => t.channel_mapping.len() == self.output_channel_count as usize,
                None => false,
            }
        } else {
            match &self.channel_mapping_table {
                Some(_) => false,
                None => true,
            }
        }
    }
}

impl OpusBox {
    /// Decides well-formedness of the entry.
    pub fn check_wf(&self) -> (r: bool)
        ensures
            r <==> self.wf(),
    {
        match &self.dops_box {
            Some(d) => d.check_wf(),
            None => false,
        }
    }
}

} // verus!
