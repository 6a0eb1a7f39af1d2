//! The movie box tree the writer emits: `mvhd`, per-track `trak` with
//! `tkhd`/`edts`/`mdia`/`minf`, and the assembled `moov`.

use vstd::prelude::*;

use crate::bigend::put_u16;
use crate::bigend::put_u32;
use crate::bigend::put_u64;
use crate::bigend::put_zeros;
use crate::bigend::u16_be;
use crate::bigend::u32_be;
use crate::bigend::u64_be;
use crate::bigend::zero_bytes;
use crate::boxhead::spec_ext_bytes;
use crate::boxhead::write_box_header_ext;
use crate::boxhead::BoxHeader;
use crate::boxhead::BoxType;
use crate::boxhead::HEADER_EXT_SIZE;
use crate::boxhead::HEADER_SIZE;
use crate::error::Error;
use crate::stbl::StblBox;
use crate::types::FixedPointU16;
use crate::types::FixedPointU8;
use crate::types::FourCC;

verus! {

/// The unity transformation matrix of `mvhd` and `tkhd`.
pub open spec fn spec_matrix_bytes() -> Seq<u8> {
    u32_be(0x00010000) + u32_be(0) + u32_be(0) + u32_be(0) + u32_be(0x00010000) + u32_be(0)
        + u32_be(0) + u32_be(0) + u32_be(0x40000000)
}

/// Writes the unity matrix.
pub fn put_matrix(out: &mut Vec<u8>)
    ensures
        final(out)@ == old(out)@ + spec_matrix_bytes(),
{
    put_u32(out, 0x00010000);
    put_u32(out, 0);
    put_u32(out, 0);
    put_u32(out, 0);
    put_u32(out, 0x00010000);
    put_u32(out, 0);
    put_u32(out, 0);
    put_u32(out, 0);
    put_u32(out, 0x40000000);
    assert(out@ =~= old(out)@ + spec_matrix_bytes());
}

/// The movie header box.
#[derive(Debug, Clone, PartialEq, Eq)]
pub struct MvhdBox {
    pub version: u8,
    pub flags: u32,
    pub creation_time: u64,
    pub modification_time: u64,
    pub timescale: u32,
    pub duration: u64,
    pub rate: FixedPointU16,
}

impl Default for MvhdBox {
    fn default() -> (r: Self)
        ensures
            r.version == 0,
            r.flags == 0,
            r.creation_time == 0,
            r.modification_time == 0,
            r.timescale == 1000,
            r.duration == 0,
            r.rate.raw == 0x00010000,
    {
        MvhdBox {
            version: 0,
            flags: 0,
            creation_time: 0,
            modification_time: 0,
            timescale: 1000,
            duration: 0,
            rate: FixedPointU16::new(1),
        }
    }
}

impl MvhdBox {
    /// Version 1 carries 64-bit times; version 0 requires them to fit in
    /// 32 bits.
    pub open spec fn wf(&self) -> bool {
        &&& self.version <= 1
        &&& self.flags < 0x1000000
        &&& (self.version == 0 ==> self.creation_time <= u32::MAX && self.modification_time
            <= u32::MAX && self.duration <= u32::MAX)
    }

    pub open spec fn spec_size(&self) -> int {
        if self.version == 1 {
            120
        } else {
            108
        }
    }

    pub fn get_size(&self) -> (r: u64)
        ensures
            r == self.spec_size(),
    {
        if self.version == 1 {
            120
        } else {
            108
        }
    }

    pub open spec fn spec_times_bytes(&self) -> Seq<u8> {
        if self.version == 1 {
            u64_be(self.creation_time) + u64_be(self.modification_time) + u32_be(self.timescale)
                + u64_be(self.duration)
        } else {
            u32_be(self.creation_time as u32) + u32_be(self.modification_time as u32) + u32_be(
                self.timescale,
            ) + u32_be(self.duration as u32)
        }
    }

    pub open spec fn spec_bytes(&self) -> Seq<u8> {
        BoxHeader { name: BoxType::MvhdBox, size: self.spec_size() as u64 }.spec_bytes()
            + spec_ext_bytes(self.version, self.flags) + self.spec_times_bytes() + u32_be(
            self.rate.raw,
        ) + u16_be(0x0100) + zero_bytes(10) + spec_matrix_bytes() + zero_bytes(24) + u32_be(
            0xFFFFFFFF,
        )
    }

    pub fn write_box(&self, out: &mut Vec<u8>) -> (r: Result<u64, Error>)
        requires
            self.wf(),
        ensures
            final(out)@ == old(out)@ + self.spec_bytes(),
            r == Ok::<u64, Error>(self.spec_size() as u64),
    {
        let size = self.get_size();
        let header = BoxHeader::new(BoxType::MvhdBox, size);
        let _ = header.write(out);
        let _ = write_box_header_ext(out, self.version, self.flags);
        if self.version == 1 {
            put_u64(out, self.creation_time);
            put_u64(out, self.modification_time);
            put_u32(out, self.timescale);
            put_u64(out, self.duration);
        } else {
            put_u32(out, self.creation_time as u32);
            put_u32(out, self.modification_time as u32);
            put_u32(out, self.timescale);
            put_u32(out, self.duration as u32);
        }
        put_u32(out, self.rate.raw_value());
        put_u16(out, 0x0100);
        put_zeros(out, 10);
        put_matrix(out);
        put_zeros(out, 24);
        put_u32(out, 0xFFFFFFFF);
        assert(out@ =~= old(out)@ + self.spec_bytes());
        Ok(size)
    }
}

/// The track header box.
#[derive(Debug, Clone, PartialEq, Eq)]
pub struct TkhdBox {
    pub version: u8,
    pub flags: u32,
    pub creation_time: u64,
    pub modification_time: u64,
    pub track_id: u32,
    pub duration: u64,
    pub layer: u16,
    pub alternate_group: u16,
    pub volume: FixedPointU8,
    pub width: FixedPointU16,
    pub height: FixedPointU16,
}

/// Track flags: enabled, in movie, in preview.
pub const TRACK_FLAG_DEFAULT: u32 = 0x000007;

impl TkhdBox {
    pub open spec fn wf(&self) -> bool {
        &&& self.version <= 1
        &&& self.flags < 0x1000000
        &&& (self.version == 0 ==> self.creation_time <= u32::MAX && self.modification_time
            <= u32::MAX && self.duration <= u32::MAX)
    }

    pub open spec fn spec_size(&self) -> int {
        if self.version == 1 {
            104
        } else {
            92
        }
    }

    pub fn get_size(&self) -> (r: u64)
        ensures
            r == self.spec_size(),
    {
        if self.version == 1 {
            104
        } else {
            92
        }
    }

    pub open spec fn spec_times_bytes(&self) -> Seq<u8> {
        if self.version == 1 {
            u64_be(self.creation_time) + u64_be(self.modification_time) + u32_be(self.track_id)
                + u32_be(0) + u64_be(self.duration)
        } else {
            u32_be(self.creation_time as u32) + u32_be(self.modification_time as u32) + u32_be(
                self.track_id,
            ) + u32_be(0) + u32_be(self.duration as u32)
        }
    }

    pub open spec fn spec_bytes(&self) -> Seq<u8> {
        BoxHeader { name: BoxType::TkhdBox, size: self.spec_size() as u64 }.spec_bytes()
            + spec_ext_bytes(self.version, self.flags) + self.spec_times_bytes() + zero_bytes(8)
            + u16_be(self.layer) + u16_be(self.alternate_group) + u16_be(self.volume.raw)
            + u16_be(0) + spec_matrix_bytes() + u32_be(self.width.raw) + u32_be(self.height.raw)
    }

    pub fn write_box(&self, out: &mut Vec<u8>) -> (r: Result<u64, Error>)
        requires
            self.wf(),
        ensures
            final(out)@ == old(out)@ + self.spec_bytes(),
            r == Ok::<u64, Error>(self.spec_size() as u64),
    {
        let size = self.get_size();
        let header = BoxHeader::new(BoxType::TkhdBox, size);
        let _ = header.write(out);
        let _ = write_box_header_ext(out, self.version, self.flags);
        if self.version == 1 {
            put_u64(out, self.creation_time);
            put_u64(out, self.modification_time);
            put_u32(out, self.track_id);
            put_u32(out, 0);
            put_u64(out, self.duration);
        } else {
            put_u32(out, self.creation_time as u32);
            put_u32(out, self.modification_time as u32);
            put_u32(out, self.track_id);
            put_u32(out, 0);
            put_u32(out, self.duration as u32);
        }
        put_zeros(out, 8);
        put_u16(out, self.layer);
        put_u16(out, self.alternate_group);
        put_u16(out, self.volume.raw_value());
        put_u16(out, 0);
        put_matrix(out);
        put_u32(out, self.width.raw_value());
        put_u32(out, self.height.raw_value());
        assert(out@ =~= old(out)@ + self.spec_bytes());
        Ok(size)
    }
}

/// Packs an ISO-639-2/T language code into the 15-bit `mdhd` field:
/// three five-bit groups, each letter offset by 0x60.
pub open spec fn spec_pack_language(c0: u8, c1: u8, c2: u8) -> u16 {
    (((((c0 - 0x60) as u8) & 0x1F) as u16) << 10) | (((((c1 - 0x60) as u8) & 0x1F) as u16) << 5)
        | ((((c2 - 0x60) as u8) & 0x1F) as u16)
}

pub fn pack_language(c0: u8, c1: u8, c2: u8) -> (r: u16)
    requires
        0x60 <= c0,
        0x60 <= c1,
        0x60 <= c2,
    ensures
        r == spec_pack_language(c0, c1, c2),
        r < 0x8000,
{
    let r = ((((c0 - 0x60) & 0x1F) as u16) << 10) | ((((c1 - 0x60) & 0x1F) as u16) << 5) | (((c2
        - 0x60) & 0x1F) as u16);
    proof {
        let a = (c0 - 0x60) as u8;
        let b = (c1 - 0x60) as u8;
        let c = (c2 - 0x60) as u8;
        assert(((((a & 0x1F) as u16) << 10) | (((b & 0x1F) as u16) << 5) | ((c
            & 0x1F) as u16)) < 0x8000) by (bit_vector);
    }
    r
}

/// Recovers the three letters of a packed language code.
pub fn unpack_language(code: u16) -> (r: (u8, u8, u8))
    ensures
        r.0 == ((code >> 10) & 0x1F) + 0x60,
        r.1 == ((code >> 5) & 0x1F) + 0x60,
        r.2 == (code & 0x1F) + 0x60,
{
    proof {
        assert(((code >> 10) & 0x1F) < 0x20 && ((code >> 5) & 0x1F) < 0x20 && (code & 0x1F)
            < 0x20) by (bit_vector);
    }
    (
        (((code >> 10) & 0x1F) as u8) + 0x60,
        (((code >> 5) & 0x1F) as u8) + 0x60,
        ((code & 0x1F) as u8) + 0x60,
    )
}

/// Packing then unpacking a language code restores its letters, as long
/// as each letter fits its five-bit group.
pub proof fn lemma_language_round_trip(c0: u8, c1: u8, c2: u8)
    requires
        0x60 <= c0 < 0x80,
        0x60 <= c1 < 0x80,
        0x60 <= c2 < 0x80,
    ensures
        (spec_pack_language(c0, c1, c2) >> 10) & 0x1F == c0 - 0x60,
        (spec_pack_language(c0, c1, c2) >> 5) & 0x1F == c1 - 0x60,
        spec_pack_language(c0, c1, c2) & 0x1F == c2 - 0x60,
{
    let a = (c0 - 0x60) as u8;
    let b = (c1 - 0x60) as u8;
    let c = (c2 - 0x60) as u8;
    assert(a < 0x20 && b < 0x20 && c < 0x20 ==> ((((((a & 0x1F) as u16) << 10) | (((b
        & 0x1F) as u16) << 5) | ((c & 0x1F) as u16)) >> 10) & 0x1F == a as u16 && (((((a
        & 0x1F) as u16) << 10) | (((b & 0x1F) as u16) << 5) | ((c & 0x1F) as u16)) >> 5) & 0x1F
        == b as u16 && ((((a & 0x1F) as u16) << 10) | (((b & 0x1F) as u16) << 5) | ((c
        & 0x1F) as u16)) & 0x1F == c as u16)) by (bit_vector);
}

/// The media header box.
#[derive(Debug, Clone, PartialEq, Eq)]
pub struct MdhdBox {
    pub version: u8,
    pub flags: u32,
    pub creation_time: u64,
    pub modification_time: u64,
    pub timescale: u32,
    pub duration: u64,
    pub language: u16,
}

impl MdhdBox {
    pub open spec fn wf(&self) -> bool {
        &&& self.version <= 1
        &&& self.flags < 0x1000000
        &&& (self.version == 0 ==> self.creation_time <= u32::MAX && self.modification_time
            <= u32::MAX && self.duration <= u32::MAX)
    }

    pub open spec fn spec_size(&self) -> int {
        if self.version == 1 {
            44
        } else {
            32
        }
    }

    pub fn get_size(&self) -> (r: u64)
        ensures
            r == self.spec_size(),
    {
        if self.version == 1 {
            44
        } else {
            32
        }
    }

    pub open spec fn spec_times_bytes(&self) -> Seq<u8> {
        if self.version == 1 {
            u64_be(self.creation_time) + u64_be(self.modification_time) + u32_be(self.timescale)
                + u64_be(self.duration)
        } else {
            u32_be(self.creation_time as u32) + u32_be(self.modification_time as u32) + u32_be(
                self.timescale,
            ) + u32_be(self.duration as u32)
        }
    }

    pub open spec fn spec_bytes(&self) -> Seq<u8> {
        BoxHeader { name: BoxType::MdhdBox, size: self.spec_size() as u64 }.spec_bytes()
            + spec_ext_bytes(self.version, self.flags) + self.spec_times_bytes() + u16_be(
            self.language,
        ) + u16_be(0)
    }

    pub fn write_box(&self, out: &mut Vec<u8>) -> (r: Result<u64, Error>)
        requires
            self.wf(),
        ensures
            final(out)@ == old(out)@ + self.spec_bytes(),
            r == Ok::<u64, Error>(self.spec_size() as u64),
    {
        let size = self.get_size();
        let header = BoxHeader::new(BoxType::MdhdBox, size);
        let _ = header.write(out);
        let _ = write_box_header_ext(out, self.version, self.flags);
        if self.version == 1 {
            put_u64(out, self.creation_time);
            put_u64(out, self.modification_time);
            put_u32(out, self.timescale);
            put_u64(out, self.duration);
        } else {
            put_u32(out, self.creation_time as u32);
            put_u32(out, self.modification_time as u32);
            put_u32(out, self.timescale);
            put_u32(out, self.duration as u32);
        }
        put_u16(out, self.language);
        put_u16(out, 0);
        assert(out@ =~= old(out)@ + self.spec_bytes());
        Ok(size)
    }
}

/// The handler reference box.
#[derive(Debug, Clone, PartialEq, Eq)]
pub struct HdlrBox {
    pub version: u8,
    pub flags: u32,
    pub handler_type: FourCC,
    pub name: Vec<u8>,
}

impl HdlrBox {
    pub open spec fn wf(&self) -> bool {
        &&& self.flags < 0x1000000
        &&& self.name@.len() + 64 <= u32::MAX
    }

    pub open spec fn spec_size(&self) -> int {
        HEADER_SIZE + HEADER_EXT_SIZE + 20 + self.name@.len() + 1
    }

    pub fn get_size(&self) -> (r: u64)
        requires
            self.wf(),
        ensures
            r == self.spec_size(),
    {
        HEADER_SIZE + HEADER_EXT_SIZE + 20 + (self.name.len() as u64) + 1
    }

    pub open spec fn spec_bytes(&self) -> Seq<u8> {
        BoxHeader { name: BoxType::HdlrBox, size: self.spec_size() as u64 }.spec_bytes()
            + spec_ext_bytes(self.version, self.flags) + u32_be(0) + self.handler_type.value@
            + zero_bytes(12) + self.name@ + seq![0u8]
    }

    pub fn write_box(&self, out: &mut Vec<u8>) -> (r: Result<u64, Error>)
        requires
            self.wf(),
        ensures
            final(out)@ == old(out)@ + self.spec_bytes(),
            r == Ok::<u64, Error>(self.spec_size() as u64),
    {
        let size = self.get_size();
        let header = BoxHeader::new(BoxType::HdlrBox, size);
        let _ = header.write(out);
        let _ = write_box_header_ext(out, self.version, self.flags);
        put_u32(out, 0);
        self.handler_type.put(out);
        put_zeros(out, 12);
        crate::bigend::put_bytes(out, &self.name);
        crate::bigend::put_u8(out, 0);
        assert(out@ =~= old(out)@ + self.spec_bytes());
        Ok(size)
    }
}

/// The video media header box.
#[derive(Debug, Clone, Copy, PartialEq, Eq, Structural)]
pub struct VmhdBox {
    pub version: u8,
    pub flags: u32,
    pub graphics_mode: u16,
    pub op_color_red: u16,
    pub op_color_green: u16,
    pub op_color_blue: u16,
}

impl VmhdBox {
    pub open spec fn wf(&self) -> bool {
        self.flags < 0x1000000
    }

    pub open spec fn spec_size(&self) -> int {
        20
    }

    pub open spec fn spec_bytes(&self) -> Seq<u8> {
        BoxHeader { name: BoxType::VmhdBox, size: 20 }.spec_bytes() + spec_ext_bytes(
            self.version,
            self.flags,
        ) + u16_be(self.graphics_mode) + u16_be(self.op_color_red) + u16_be(self.op_color_green)
            + u16_be(self.op_color_blue)
    }

    pub fn write_box(&self, out: &mut Vec<u8>) -> (r: Result<u64, Error>)
        requires
            self.wf(),
        ensures
            final(out)@ == old(out)@ + self.spec_bytes(),
            r == Ok::<u64, Error>(20),
    {
        let header = BoxHeader::new(BoxType::VmhdBox, 20);
        let _ = header.write(out);
        let _ = write_box_header_ext(out, self.version, self.flags);
        put_u16(out, self.graphics_mode);
        put_u16(out, self.op_color_red);
        put_u16(out, self.op_color_green);
        put_u16(out, self.op_color_blue);
        assert(out@ =~= old(out)@ + self.spec_bytes());
        Ok(20)
    }
}

/// The sound media header box.
#[derive(Debug, Clone, Copy, PartialEq, Eq, Structural)]
pub struct SmhdBox {
    pub version: u8,
    pub flags: u32,
    pub balance: crate::types::FixedPointI8,
}

impl SmhdBox {
    pub open spec fn wf(&self) -> bool {
        self.flags < 0x1000000
    }

    pub open spec fn spec_size(&self) -> int {
        16
    }

    pub open spec fn spec_bytes(&self) -> Seq<u8> {
        BoxHeader { name: BoxType::SmhdBox, size: 16 }.spec_bytes() + spec_ext_bytes(
            self.version,
            self.flags,
        ) + u16_be(self.balance.raw as u16) + u16_be(0)
    }

    pub fn write_box(&self, out: &mut Vec<u8>) -> (r: Result<u64, Error>)
        requires
            self.wf(),
        ensures
            final(out)@ == old(out)@ + self.spec_bytes(),
            r == Ok::<u64, Error>(16),
    {
        let header = BoxHeader::new(BoxType::SmhdBox, 16);
        let _ = header.write(out);
        let _ = write_box_header_ext(out, self.version, self.flags);
        put_u16(out, self.balance.raw_value() as u16);
        put_u16(out, 0);
        assert(out@ =~= old(out)@ + self.spec_bytes());
        Ok(16)
    }
}

/// The data information box with one self-contained `url ` entry.
#[derive(Debug, Clone, Copy, PartialEq, Eq, Structural, Default)]
pub struct DinfBox {}

impl DinfBox {
    pub open spec fn spec_size(&self) -> int {
        36
    }

    /// `dinf` wraps a `dref` with one `url ` entry whose flag marks the
    /// data as held in this file.
    pub open spec fn spec_bytes(&self) -> Seq<u8> {
        BoxHeader { name: BoxType::DinfBox, size: 36 }.spec_bytes() + BoxHeader {
            name: BoxType::DrefBox,
            size: 28,
        }.spec_bytes() + spec_ext_bytes(0, 0) + u32_be(1) + BoxHeader {
            name: BoxType::UrlBox,
            size: 12,
        }.spec_bytes() + spec_ext_bytes(0, 1)
    }

    pub fn write_box(&self, out: &mut Vec<u8>) -> (r: Result<u64, Error>)
        ensures
            final(out)@ == old(out)@ + self.spec_bytes(),
            r == Ok::<u64, Error>(36),
    {
        let dinf_header = BoxHeader::new(BoxType::DinfBox, 36);
        let _ = dinf_header.write(out);
        let dref_header = BoxHeader::new(BoxType::DrefBox, 28);
        let _ = dref_header.write(out);
        let _ = write_box_header_ext(out, 0, 0);
        put_u32(out, 1);
        let url_header = BoxHeader::new(BoxType::UrlBox, 12);
        let _ = url_header.write(out);
        let _ = write_box_header_ext(out, 0, 1);
        assert(out@ =~= old(out)@ + self.spec_bytes());
        Ok(36)
    }
}

/// One edit-list entry.
#[derive(Debug, Clone, Copy, PartialEq, Eq, Structural)]
pub struct ElstEntry {
    pub segment_duration: u64,
    pub media_time: u64,
    pub media_rate: u16,
    pub media_rate_fraction: u16,
}

/// The edit-list box, version 0.
#[derive(Debug, Clone, PartialEq, Eq)]
pub struct ElstBox {
    pub version: u8,
    pub flags: u32,
    pub entries: Vec<ElstEntry>,
}

/// Serialization of a version-0 edit list, 12 bytes per entry.
pub open spec fn spec_elst_entries_bytes(s: Seq<ElstEntry>) -> Seq<u8>
    decreases s.len(),
{
    if s.len() == 0 {
        Seq::empty()
    } else {
        spec_elst_entries_bytes(s.drop_last()) + u32_be(s.last().segment_duration as u32) + u32_be(
            s.last().media_time as u32,
        ) + u16_be(s.last().media_rate) + u16_be(s.last().media_rate_fraction)
    }
}

pub proof fn lemma_elst_entries_bytes_len(s: Seq<ElstEntry>)
    ensures
        spec_elst_entries_bytes(s).len() == 12 * s.len(),
    decreases s.len(),
{
    if s.len() > 0 {
        lemma_elst_entries_bytes_len(s.drop_last());
    }
}

impl ElstBox {
    pub open spec fn wf(&self) -> bool {
        &&& self.version == 0
        &&& self.flags < 0x1000000
        &&& 16 + 12 * self.entries@.len() <= u32::MAX
        &&& forall|i: int|
            0 <= i < self.entries@.len() ==> (#[trigger] self.entries@[i]).segment_duration
                <= u32::MAX && self.entries@[i].media_time <= u32::MAX
    }

    pub open spec fn spec_size(&self) -> int {
        HEADER_SIZE + HEADER_EXT_SIZE + 4 + 12 * self.entries@.len()
    }

    pub fn get_size(&self) -> (r: u64)
        requires
            self.wf(),
        ensures
            r == self.spec_size(),
    {
        HEADER_SIZE + HEADER_EXT_SIZE + 4 + 12 * (self.entries.len() as u64)
    }

    pub open spec fn spec_bytes(&self) -> Seq<u8> {
        BoxHeader { name: BoxType::ElstBox, size: self.spec_size() as u64 }.spec_bytes()
            + spec_ext_bytes(self.version, self.flags) + u32_be(self.entries@.len() as u32)
            + spec_elst_entries_bytes(self.entries@)
    }

    pub fn write_box(&self, out: &mut Vec<u8>) -> (r: Result<u64, Error>)
        requires
            self.wf(),
        ensures
            final(out)@ == old(out)@ + self.spec_bytes(),
            r == Ok::<u64, Error>(self.spec_size() as u64),
    {
        proof {
            lemma_elst_entries_bytes_len(self.entries@);
        }
        let size = self.get_size();
        let header = BoxHeader::new(BoxType::ElstBox, size);
        let _ = header.write(out);
        let _ = write_box_header_ext(out, self.version, self.flags);
        put_u32(out, self.entries.len() as u32);
        let ghost mid = out@;
        let mut i: usize = 0;
        while i < self.entries.len()
            invariant
                i <= self.entries@.len(),
                forall|j: int|
                    0 <= j < self.entries@.len() ==> (#[trigger] self.entries@[j]).segment_duration
                        <= u32::MAX && self.entries@[j].media_time <= u32::MAX,
                out@ == mid + spec_elst_entries_bytes(self.entries@.take(i as int)),
            decreases self.entries@.len() - i,
        {
            let e = self.entries[i];
            put_u32(out, e.segment_duration as u32);
            put_u32(out, e.media_time as u32);
            put_u16(out, e.media_rate);
            put_u16(out, e.media_rate_fraction);
            proof {
                let nxt = self.entries@.take(i + 1);
                assert(nxt.drop_last() =~= self.entries@.take(i as int));
                assert(nxt.last() == self.entries@[i as int]);
                assert(out@ =~= mid + spec_elst_entries_bytes(nxt));
            }
            i = i + 1;
        }
        proof {
            assert(self.entries@.take(self.entries@.len() as int) =~= self.entries@);
            assert(out@ =~= old(out)@ + self.spec_bytes());
        }
        Ok(size)
    }
}

/// The edit box, holding an optional edit list.
#[derive(Debug, Clone, PartialEq, Eq)]
pub struct EdtsBox {
    pub elst: Option<ElstBox>,
}

impl EdtsBox {
    pub open spec fn wf(&self) -> bool {
        self.elst matches Some(e) ==> e.wf()
    }

    pub open spec fn spec_size(&self) -> int {
        HEADER_SIZE + (match self.elst {
            Some(e) => e.spec_size(),
            None => 0,
        })
    }

    pub fn get_size(&self) -> (r: u64)
        requires
            self.wf(),
        ensures
            r == self.spec_size(),
    {
        let mut size: u64 = HEADER_SIZE;
        if let Some(ref e) = self.elst {
            size += e.get_size();
        }
        size
    }

    pub open spec fn spec_bytes(&self) -> Seq<u8> {
        BoxHeader { name: BoxType::EdtsBox, size: self.spec_size() as u64 }.spec_bytes() + (
        match self.elst {
            Some(e) => e.spec_bytes(),
            None => Seq::empty(),
        })
    }

    pub fn write_box(&self, out: &mut Vec<u8>) -> (r: Result<u64, Error>)
        requires
            self.wf(),
        ensures
            final(out)@ == old(out)@ + self.spec_bytes(),
            r == Ok::<u64, Error>(self.spec_size() as u64),
    {
        let size = self.get_size();
        let header = BoxHeader::new(BoxType::EdtsBox, size);
        let _ = header.write(out);
        if let Some(ref e) = self.elst {
            let _ = e.write_box(out);
            proof {
                lemma_elst_entries_bytes_len(e.entries@);
            }
        }
        assert(out@ =~= old(out)@ + self.spec_bytes());
        Ok(size)
    }
}


/// The media information box.
#[derive(Debug, Clone, PartialEq, Eq)]
pub struct MinfBox {
    pub vmhd: Option<VmhdBox>,
    pub smhd: Option<SmhdBox>,
    pub dinf: DinfBox,
    pub stbl: StblBox,
}

impl MinfBox {
    pub open spec fn wf(&self) -> bool {
        &&& self.vmhd matches Some(v) ==> v.wf()
        &&& self.smhd matches Some(s) ==> s.wf()
        &&& self.stbl.wf()
    }

    #[verifier::opaque]
    pub open spec fn spec_size(&self) -> int {
        HEADER_SIZE + (match self.vmhd {
            Some(v) => v.spec_size(),
            None => 0,
        }) + (match self.smhd {
            Some(s) => s.spec_size(),
            None => 0,
        }) + self.dinf.spec_size() + self.stbl.spec_size()
    }

    pub fn get_size(&self) -> (r: u64)
        requires
            self.wf(),
        ensures
            r == self.spec_size(),
            r <= u32::MAX as u64 + 80,
    {
        proof {
            reveal(MinfBox::spec_size);
            self.stbl.lemma_bytes_len();
        }
        let mut size: u64 = HEADER_SIZE;
        if let Some(ref v) = self.vmhd {
            size += 20;
        }
        if let Some(ref s) = self.smhd {
            size += 16;
        }
        size += 36;
        size += self.stbl.get_size();
        size
    }

    /// A well-formed media-information box serializes to exactly its
    /// declared size.
    pub proof fn lemma_bytes_len(&self)
        requires
            self.wf(),
        ensures
            self.spec_bytes().len() == self.spec_size(),
            8 <= self.spec_size() <= u32::MAX + 80,
    {
        reveal(MinfBox::spec_size);
        reveal(MinfBox::spec_bytes);
        self.stbl.lemma_bytes_len();
    }

    #[verifier::opaque]
    pub open spec fn spec_bytes(&self) -> Seq<u8> {
        u32_be(self.spec_size() as u32) + u32_be(BoxType::MinfBox.spec_code()) + (
        match self.vmhd {
            Some(v) => v.spec_bytes(),
            None => Seq::empty(),
        }) + (match self.smhd {
            Some(s) => s.spec_bytes(),
            None => Seq::empty(),
        }) + self.dinf.spec_bytes() + self.stbl.spec_bytes()
    }

    pub fn write_box(&self, out: &mut Vec<u8>) -> (r: Result<u64, Error>)
        requires
            self.wf(),
        ensures
            final(out)@ == old(out)@ + self.spec_bytes(),
            r == Ok::<u64, Error>(self.spec_size() as u64),
    {
        proof {
            reveal(MinfBox::spec_size);
            reveal(MinfBox::spec_bytes);
            self.stbl.lemma_bytes_len();
        }
        let size = self.get_size();
        put_u32(out, #[verifier::truncate] (size as u32));
        put_u32(out, BoxType::MinfBox.to_code());
        if let Some(ref v) = self.vmhd {
            let _ = v.write_box(out);
        }
        if let Some(ref s) = self.smhd {
            let _ = s.write_box(out);
        }
        let _ = self.dinf.write_box(out);
        let _ = self.stbl.write_box(out);
        assert(out@ =~= old(out)@ + self.spec_bytes());
        Ok(size)
    }
}

/// The media box.
#[derive(Debug, Clone, PartialEq, Eq)]
pub struct MdiaBox {
    pub mdhd: MdhdBox,
    pub hdlr: HdlrBox,
    pub minf: MinfBox,
}

impl MdiaBox {
    pub open spec fn wf(&self) -> bool {
        &&& self.mdhd.wf()
        &&& self.hdlr.wf()
        &&& self.minf.wf()
    }

    pub open spec fn spec_size(&self) -> int {
        HEADER_SIZE + self.mdhd.spec_size() + self.hdlr.spec_size() + self.minf.spec_size()
    }

    pub fn get_size(&self) -> (r: u64)
        requires
            self.wf(),
        ensures
            r == self.spec_size(),
    {
        proof {
            self.minf.lemma_bytes_len();
        }
        HEADER_SIZE + self.mdhd.get_size() + self.hdlr.get_size() + self.minf.get_size()
    }

    pub open spec fn spec_bytes(&self) -> Seq<u8> {
        u32_be(self.spec_size() as u32) + u32_be(BoxType::MdiaBox.spec_code())
            + self.mdhd.spec_bytes() + self.hdlr.spec_bytes() + self.minf.spec_bytes()
    }

    pub fn write_box(&self, out: &mut Vec<u8>) -> (r: Result<u64, Error>)
        requires
            self.wf(),
        ensures
            final(out)@ == old(out)@ + self.spec_bytes(),
            r == Ok::<u64, Error>(self.spec_size() as u64),
    {
        let size = self.get_size();
        put_u32(out, #[verifier::truncate] (size as u32));
        put_u32(out, BoxType::MdiaBox.to_code());
        let _ = self.mdhd.write_box(out);
        let _ = self.hdlr.write_box(out);
        let _ = self.minf.write_box(out);
        assert(out@ =~= old(out)@ + self.spec_bytes());
        Ok(size)
    }
}

/// The track box.
#[derive(Debug, Clone, PartialEq, Eq)]
pub struct TrakBox {
    pub tkhd: TkhdBox,
    pub edts: Option<EdtsBox>,
    pub mdia: MdiaBox,
}

impl TrakBox {
    pub open spec fn wf(&self) -> bool {
        &&& self.tkhd.wf()
        &&& self.edts matches Some(e) ==> e.wf()
        &&& self.mdia.wf()
    }

    #[verifier::opaque]
    pub open spec fn spec_size(&self) -> int {
        HEADER_SIZE + self.tkhd.spec_size() + (match self.edts {
            Some(e) => e.spec_size(),
            None => 0,
        }) + self.mdia.spec_size()
    }

    pub fn get_size(&self) -> (r: u64)
        requires
            self.wf(),
        ensures
            r == self.spec_size(),
    {
        proof {
            reveal(TrakBox::spec_size);
            self.mdia.minf.lemma_bytes_len();
        }
        let mut size: u64 = HEADER_SIZE + self.tkhd.get_size();
        if let Some(ref e) = self.edts {
            size += e.get_size();
        }
        let m = self.mdia.get_size();
        size + m
    }

    #[verifier::opaque]
    pub open spec fn spec_bytes(&self) -> Seq<u8> {
        u32_be(self.spec_size() as u32) + u32_be(BoxType::TrakBox.spec_code())
            + self.tkhd.spec_bytes() + (match self.edts {
            Some(e) => e.spec_bytes(),
            None => Seq::empty(),
        }) + self.mdia.spec_bytes()
    }

    /// A well-formed track serializes to exactly its declared size.
    #[verifier::rlimit(100)]
    #[verifier::spinoff_prover]
    pub proof fn lemma_bytes_len(&self)
        requires
            self.wf(),
        ensures
            self.spec_bytes().len() == self.spec_size(),
            8 <= self.spec_size() <= 4 * (u32::MAX as int),
    {
        reveal(TrakBox::spec_size);
        reveal(TrakBox::spec_bytes);
        self.mdia.minf.lemma_bytes_len();
        match self.edts {
            Some(e) => match e.elst {
                Some(l) => lemma_elst_entries_bytes_len(l.entries@),
                None => (),
            },
            None => (),
        }
    }

    #[verifier::rlimit(100)]
    #[verifier::spinoff_prover]
    pub fn write_box(&self, out: &mut Vec<u8>) -> (r: Result<u64, Error>)
        requires
            self.wf(),
        ensures
            final(out)@ == old(out)@ + self.spec_bytes(),
            r == Ok::<u64, Error>(self.spec_size() as u64),
    {
        proof {
            reveal(TrakBox::spec_size);
            reveal(TrakBox::spec_bytes);
            self.mdia.minf.lemma_bytes_len();
        }
        let size = self.get_size();
        put_u32(out, #[verifier::truncate] (size as u32));
        put_u32(out, BoxType::TrakBox.to_code());
        let _ = self.tkhd.write_box(out);
        if let Some(ref e) = self.edts {
            let _ = e.write_box(out);
        }
        let _ = self.mdia.write_box(out);
        assert(out@ =~= old(out)@ + self.spec_bytes());
        Ok(size)
    }
}

/// Serialization of a track list.
pub open spec fn spec_traks_bytes(s: Seq<TrakBox>) -> Seq<u8>
    decreases s.len(),
{
    if s.len() == 0 {
        Seq::empty()
    } else {
        spec_traks_bytes(s.drop_last()) + s.last().spec_bytes()
    }
}

/// The movie box: movie header plus the tracks.
#[derive(Debug, Clone, PartialEq, Eq)]
pub struct MoovBox {
    pub mvhd: MvhdBox,
    pub traks: Vec<TrakBox>,
}

impl Default for MoovBox {
    fn default() -> (r: Self)
        ensures
            r.mvhd.version == 0,
            r.mvhd.flags == 0,
            r.mvhd.creation_time == 0,
            r.mvhd.modification_time == 0,
            r.mvhd.timescale == 1000,
            r.mvhd.duration == 0,
            r.traks@ == Seq::<TrakBox>::empty(),
    {
        let r = MoovBox { mvhd: MvhdBox::default(), traks: Vec::new() };
        proof {
            assert(r.traks@ =~= Seq::<TrakBox>::empty());
        }
        r
    }
}

impl MoovBox {
    pub open spec fn wf(&self) -> bool {
        &&& self.mvhd.wf()
        &&& forall|i: int| 0 <= i < self.traks@.len() ==> (#[trigger] self.traks@[i]).wf()
        &&& self.spec_size() <= u32::MAX
    }

    pub open spec fn spec_size(&self) -> int {
        HEADER_SIZE + self.mvhd.spec_size() + spec_traks_bytes(self.traks@).len()
    }

    #[verifier::rlimit(100)]
    pub fn get_size(&self) -> (r: u64)
        requires
            self.wf(),
        ensures
            r == self.spec_size(),
    {
        let mut size: u64 = HEADER_SIZE + self.mvhd.get_size();
        let mut i: usize = 0;
        proof {
            assert(self.traks@.take(0int) =~= Seq::<TrakBox>::empty());
        }
        while i < self.traks.len()
            invariant
                i <= self.traks@.len(),
                forall|j: int| 0 <= j < self.traks@.len() ==> (#[trigger] self.traks@[j]).wf(),
                size == HEADER_SIZE + self.mvhd.spec_size() + spec_traks_bytes(
                    self.traks@.take(i as int),
                ).len(),
                size <= HEADER_SIZE + self.mvhd.spec_size() + spec_traks_bytes(self.traks@).len(),
                HEADER_SIZE + self.mvhd.spec_size() + spec_traks_bytes(self.traks@).len()
                    <= u32::MAX,
            decreases self.traks@.len() - i,
        {
            proof {
                let nxt = self.traks@.take(i + 1);
                assert(nxt.drop_last() =~= self.traks@.take(i as int));
                assert(nxt.last() == self.traks@[i as int]);
                self.traks@[i as int].lemma_bytes_len();
                lemma_traks_take_le(self.traks@, i + 1);
                assert(spec_traks_bytes(nxt).len() == spec_traks_bytes(
                    self.traks@.take(i as int),
                ).len() + self.traks@[i as int].spec_size());
                assert(size + self.traks@[i as int].spec_size() <= HEADER_SIZE
                    + self.mvhd.spec_size() + spec_traks_bytes(self.traks@).len());
            }
            size = size + self.traks[i].get_size();
            i = i + 1;
        }
        proof {
            assert(self.traks@.take(self.traks@.len() as int) =~= self.traks@);
        }
        size
    }

    pub open spec fn spec_bytes(&self) -> Seq<u8> {
        u32_be(self.spec_size() as u32) + u32_be(BoxType::MoovBox.spec_code())
            + self.mvhd.spec_bytes() + spec_traks_bytes(self.traks@)
    }

    #[verifier::rlimit(100)]
    pub fn write_box(&self, out: &mut Vec<u8>) -> (r: Result<u64, Error>)
        requires
            self.wf(),
        ensures
            final(out)@ == old(out)@ + self.spec_bytes(),
            r == Ok::<u64, Error>(self.spec_size() as u64),
    {
        let size = self.get_size();
        put_u32(out, #[verifier::truncate] (size as u32));
        put_u32(out, BoxType::MoovBox.to_code());
        let _ = self.mvhd.write_box(out);
        let ghost mid = out@;
        let mut i: usize = 0;
        while i < self.traks.len()
            invariant
                i <= self.traks@.len(),
                forall|j: int| 0 <= j < self.traks@.len() ==> (#[trigger] self.traks@[j]).wf(),
                out@ == mid + spec_traks_bytes(self.traks@.take(i as int)),
            decreases self.traks@.len() - i,
        {
            let _ = self.traks[i].write_box(out);
            proof {
                self.traks@[i as int].lemma_bytes_len();
                let nxt = self.traks@.take(i + 1);
                assert(nxt.drop_last() =~= self.traks@.take(i as int));
                assert(nxt.last() == self.traks@[i as int]);
                assert(out@ =~= mid + spec_traks_bytes(nxt));
            }
            i = i + 1;
        }
        proof {
            assert(self.traks@.take(self.traks@.len() as int) =~= self.traks@);
            assert(out@ =~= old(out)@ + self.spec_bytes());
        }
        Ok(size)
    }
}

/// A prefix of the track list serializes to at most the whole.
pub proof fn lemma_traks_take_le(s: Seq<TrakBox>, i: int)
    requires
        0 <= i <= s.len(),
    ensures
        spec_traks_bytes(s.take(i)).len() <= spec_traks_bytes(s).len(),
    decreases s.len() - i,
{
    if i == s.len() {
        assert(s.take(i) =~= s);
    } else {
        let nxt = s.take(i + 1);
        assert(nxt.drop_last() =~= s.take(i));
        assert(nxt.last() == s[i]);
        lemma_traks_take_le(s, i + 1);
    }
}


impl MvhdBox {
    /// Decides well-formedness of the movie header.
    pub fn check_wf(&self) -> (r: bool)
        ensures
            r <==> self.wf(),
    {
        self.version <= 1 && self.flags < 0x1000000 && (self.version != 0 || (self.creation_time
            <= u32::MAX as u64 && self.modification_time <= u32::MAX as u64 && self.duration
            <= u32::MAX as u64))
    }
}

impl TkhdBox {
    /// Decides well-formedness of the track header.
    pub fn check_wf(&self) -> (r: bool)
        ensures
            r <==> self.wf(),
    {
        self.version <= 1 && self.flags < 0x1000000 && (self.version != 0 || (self.creation_time
            <= u32::MAX as u64 && self.modification_time <= u32::MAX as u64 && self.duration
            <= u32::MAX as u64))
    }
}

impl MdhdBox {
    /// Decides well-formedness of the media header.
    pub fn check_wf(&self) -> (r: bool)
        ensures
            r <==> self.wf(),
    {
        self.version <= 1 && self.flags < 0x1000000 && (self.version != 0 || (self.creation_time
            <= u32::MAX as u64 && self.modification_time <= u32::MAX as u64 && self.duration
            <= u32::MAX as u64))
    }
}

impl HdlrBox {
    /// Decides well-formedness of the handler box.
    pub fn check_wf(&self) -> (r: bool)
        ensures
            r <==> self.wf(),
    {
        self.flags < 0x1000000 && self.name.len() as u64 <= u32::MAX as u64 - 64
    }
}

impl ElstBox {
    /// Decides well-formedness of the edit list.
    #[verifier::loop_isolation(false)]
    pub fn check_wf(&self) -> (r: bool)
        ensures
            r <==> self.wf(),
    {
        if !(self.version == 0 && self.flags < 0x1000000 && self.entries.len() as u64 <= ((
        u32::MAX - 16) / 12) as u64) {
            return false;
        }
        let mut i: usize = 0;
        while i < self.entries.len()
            invariant
                i <= self.entries@.len(),
                forall|j: int|
                    0 <= j < i ==> (#[trigger] self.entries@[j]).segment_duration <= u32::MAX
                        && self.entries@[j].media_time <= u32::MAX,
            decreases self.entries@.len() - i,
        {
            let e = self.entries[i];
            if e.segment_duration > u32::MAX as u64 || e.media_time > u32::MAX as u64 {
                return false;
            }
            i = i + 1;
        }
        true
    }
}

impl EdtsBox {
    /// Decides well-formedness of the edit box.
    pub fn check_wf(&self) -> (r: bool)
        ensures
            r <==> self.wf(),
    {
        match &self.elst {
            Some(e) => e.check_wf(),
            None => true,
        }
    }
}

impl VmhdBox {
    /// Decides well-formedness of the video media header.
    pub fn check_wf(&self) -> (r: bool)
        ensures
            r <==> self.wf(),
    {
        self.flags < 0x1000000
    }
}

impl SmhdBox {
    /// Decides well-formedness of the sound media header.
    pub fn check_wf(&self) -> (r: bool)
        ensures
            r <==> self.wf(),
    {
        self.flags < 0x1000000
    }
}

impl MinfBox {
    /// Decides well-formedness of the media information box.
    pub fn check_wf(&self) -> (r: bool)
        ensures
            r <==> self.wf(),
    {
        let vm = match &self.vmhd {
            Some(v) => v.check_wf(),
            None => true,
        };
        let sm = match &self.smhd {
            Some(s) => s.check_wf(),
            None => true,
        };
        vm && sm && self.stbl.check_wf()
    }
}

impl MdiaBox {
    /// Decides well-formedness of the media box.
    pub fn check_wf(&self) -> (r: bool)
        ensures
            r <==> self.wf(),
    {
        self.mdhd.check_wf() && self.hdlr.check_wf() && self.minf.check_wf()
    }
}

impl TrakBox {
    /// Decides well-formedness of the track box.
    pub fn check_wf(&self) -> (r: bool)
        ensures
            r <==> self.wf(),
    {
        let ed = match &self.edts {
            Some(e) => e.check_wf(),
            None => true,
        };
        self.tkhd.check_wf() && ed && self.mdia.check_wf()
    }
}

impl MoovBox {
    /// Decides well-formedness of the movie box: header and tracks
    /// well-formed, and the whole box short enough for its 32-bit size
    /// field.
    #[verifier::loop_isolation(false)]
    pub fn check_wf(&self) -> (r: bool)
        ensures
            r <==> self.wf(),
    {
        if !self.mvhd.check_wf() {
            return false;
        }
        let mut size: u64 = HEADER_SIZE + self.mvhd.get_size();
        let mut i: usize = 0;
        proof {
            assert(self.traks@.take(0int) =~= Seq::<TrakBox>::empty());
        }
        while i < self.traks.len()
            invariant
                i <= self.traks@.len(),
                forall|j: int| 0 <= j < i ==> (#[trigger] self.traks@[j]).wf(),
                size == HEADER_SIZE + self.mvhd.spec_size() + spec_traks_bytes(
                    self.traks@.take(i as int),
                ).len(),
                size <= u32::MAX,
            decreases self.traks@.len() - i,
        {
            let t = &self.traks[i];
            if !t.check_wf() {
                return false;
            }
            proof {
                let nxt = self.traks@.take(i + 1);
                assert(nxt.drop_last() =~= self.traks@.take(i as int));
                assert(nxt.last() == self.traks@[i as int]);
                self.traks@[i as int].lemma_bytes_len();
            }
            size = size + t.get_size();
            if size > u32::MAX as u64 {
                proof {
                    lemma_traks_take_le(self.traks@, i + 1);
                }
                return false;
            }
            i = i + 1;
        }
        proof {
            assert(self.traks@.take(self.traks@.len() as int) =~= self.traks@);
        }
        true
    }
}

} // verus!
