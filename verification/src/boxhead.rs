//! Box identity and the length-prefixed box header.
//!
//! On the wire a box starts with a 4-byte size and a four-character code;
//! a size of 1 switches to a 64-bit `largesize` that follows the code.
//! Full boxes add a 1-byte version and 3-byte flags.

use vstd::prelude::*;

use crate::bigend::be24;
use crate::bigend::be32;
use crate::bigend::be64;
use crate::bigend::read_u24;
use crate::bigend::read_u32;
use crate::bigend::read_u64;
use crate::bigend::read_u8;
use crate::bigend::put_u24;
use crate::bigend::put_u32;
use crate::bigend::put_u64;
use crate::bigend::put_u8;
use crate::bigend::u24_be;
use crate::bigend::u32_be;
use crate::bigend::u64_be;
use crate::error::Error;

verus! {

/// Size of a compact box header: 4-byte size plus 4-byte code.
pub const HEADER_SIZE: u64 = 8;

/// Size of the version/flags extension of a full box.
pub const HEADER_EXT_SIZE: u64 = 4;

/// Every four-character code this crate knows, plus `UnknownBox` carrying
/// an unrecognized code.
#[derive(Debug, Clone, Copy, PartialEq, Eq, Structural)]
pub enum BoxType {
    FtypBox,
    MvhdBox,
    MfhdBox,
    FreeBox,
    MdatBox,
    MoovBox,
    MvexBox,
    MehdBox,
    TrexBox,
    EmsgBox,
    MoofBox,
    TkhdBox,
    TfhdBox,
    TfdtBox,
    EdtsBox,
    MdiaBox,
    ElstBox,
    MfraBox,
    MdhdBox,
    HdlrBox,
    MinfBox,
    VmhdBox,
    SmhdBox,
    StblBox,
    StsdBox,
    SttsBox,
    CttsBox,
    StssBox,
    StscBox,
    StszBox,
    StcoBox,
    Co64Box,
    TrakBox,
    TrafBox,
    TrunBox,
    UdtaBox,
    MetaBox,
    DinfBox,
    DrefBox,
    UrlBox,
    Avc1Box,
    AvcCBox,
    Hev1Box,
    Hvc1Box,
    HvcCBox,
    Mp4aBox,
    EsdsBox,
    Tx3gBox,
    VpccBox,
    Vp09Box,
    DataBox,
    IlstBox,
    SidxBox,
    OpusBox,
    DopsBox,
    WideBox,
    UuidBox,
    UnknownBox(u32),
}

impl BoxType {
    /// The four-character code of this box type, as a 32-bit value.
    pub open spec fn spec_code(self) -> u32 {
        match self {
            BoxType::FtypBox => 0x66747970,
            BoxType::MvhdBox => 0x6D766864,
            BoxType::MfhdBox => 0x6D666864,
            BoxType::FreeBox => 0x66726565,
            BoxType::MdatBox => 0x6D646174,
            BoxType::MoovBox => 0x6D6F6F76,
            BoxType::MvexBox => 0x6D766578,
            BoxType::MehdBox => 0x6D656864,
            BoxType::TrexBox => 0x74726578,
            BoxType::EmsgBox => 0x656D7367,
            BoxType::MoofBox => 0x6D6F6F66,
            BoxType::TkhdBox => 0x746B6864,
            BoxType::TfhdBox => 0x74666864,
            BoxType::TfdtBox => 0x74666474,
            BoxType::EdtsBox => 0x65647473,
            BoxType::MdiaBox => 0x6D646961,
            BoxType::ElstBox => 0x656C7374,
            BoxType::MfraBox => 0x6D667261,
            BoxType::MdhdBox => 0x6D646864,
            BoxType::HdlrBox => 0x68646C72,
            BoxType::MinfBox => 0x6D696E66,
            BoxType::VmhdBox => 0x766D6864,
            BoxType::SmhdBox => 0x736D6864,
            BoxType::StblBox => 0x7374626C,
            BoxType::StsdBox => 0x73747364,
            BoxType::SttsBox => 0x73747473,
            BoxType::CttsBox => 0x63747473,
            BoxType::StssBox => 0x73747373,
            BoxType::StscBox => 0x73747363,
            BoxType::StszBox => 0x7374737A,
            BoxType::StcoBox => 0x7374636F,
            BoxType::Co64Box => 0x636F3634,
            BoxType::TrakBox => 0x7472616B,
            BoxType::TrafBox => 0x74726166,
            BoxType::TrunBox => 0x7472756E,
            BoxType::UdtaBox => 0x75647461,
            BoxType::MetaBox => 0x6D657461,
            BoxType::DinfBox => 0x64696E66,
            BoxType::DrefBox => 0x64726566,
            BoxType::UrlBox => 0x75726C20,
            BoxType::Avc1Box => 0x61766331,
            BoxType::AvcCBox => 0x61766343,
            BoxType::Hev1Box => 0x68657631,
            BoxType::Hvc1Box => 0x68766331,
            BoxType::HvcCBox => 0x68766343,
            BoxType::Mp4aBox => 0x6D703461,
            BoxType::EsdsBox => 0x65736473,
            BoxType::Tx3gBox => 0x74783367,
            BoxType::VpccBox => 0x76706343,
            BoxType::Vp09Box => 0x76703039,
            BoxType::DataBox => 0x64617461,
            BoxType::IlstBox => 0x696C7374,
            BoxType::SidxBox => 0x73696478,
            BoxType::OpusBox => 0x4F707573,
            BoxType::DopsBox => 0x644F7073,
            BoxType::WideBox => 0x77696465,
            BoxType::UuidBox => 0x75756964,
            BoxType::UnknownBox(v) => v,
        }
    }

    /// Whether `v` is one of the recognized codes.
    pub open spec fn spec_known_code(v: u32) -> bool {
        v == 0x66747970 || v == 0x6D766864 || v == 0x6D666864 || v == 0x66726565 || v == 0x6D646174 || v == 0x6D6F6F76 || v == 0x6D766578 || v == 0x6D656864 || v == 0x74726578 || v == 0x656D7367 || v == 0x6D6F6F66 || v == 0x746B6864 || v == 0x74666864 || v == 0x74666474 || v == 0x65647473 || v == 0x6D646961 || v == 0x656C7374 || v == 0x6D667261 || v == 0x6D646864 || v == 0x68646C72 || v == 0x6D696E66 || v == 0x766D6864 || v == 0x736D6864 || v == 0x7374626C || v == 0x73747364 || v == 0x73747473 || v == 0x63747473 || v == 0x73747373 || v == 0x73747363 || v == 0x7374737A || v == 0x7374636F || v == 0x636F3634 || v == 0x7472616B || v == 0x74726166 || v == 0x7472756E || v == 0x75647461 || v == 0x6D657461 || v == 0x64696E66 || v == 0x64726566 || v == 0x75726C20 || v == 0x61766331 || v == 0x61766343 || v == 0x68657631 || v == 0x68766331 || v == 0x68766343 || v == 0x6D703461 || v == 0x65736473 || v == 0x74783367 || v == 0x76706343 || v == 0x76703039 || v == 0x64617461 || v == 0x696C7374 || v == 0x73696478 || v == 0x4F707573 || v == 0x644F7073 || v == 0x77696465 || v == 0x75756964
    }

    /// The box type a 32-bit code denotes.
    pub open spec fn spec_from_code(v: u32) -> BoxType {
        if v == 0x66747970 {
            BoxType::FtypBox
        } else if v == 0x6D766864 {
            BoxType::MvhdBox
        } else if v == 0x6D666864 {
            BoxType::MfhdBox
        } else if v == 0x66726565 {
            BoxType::FreeBox
        } else if v == 0x6D646174 {
            BoxType::MdatBox
        } else if v == 0x6D6F6F76 {
            BoxType::MoovBox
        } else if v == 0x6D766578 {
            BoxType::MvexBox
        } else if v == 0x6D656864 {
            BoxType::MehdBox
        } else if v == 0x74726578 {
            BoxType::TrexBox
        } else if v == 0x656D7367 {
            BoxType::EmsgBox
        } else if v == 0x6D6F6F66 {
            BoxType::MoofBox
        } else if v == 0x746B6864 {
            BoxType::TkhdBox
        } else if v == 0x74666864 {
            BoxType::TfhdBox
        } else if v == 0x74666474 {
            BoxType::TfdtBox
        } else if v == 0x65647473 {
            BoxType::EdtsBox
        } else if v == 0x6D646961 {
            BoxType::MdiaBox
        } else if v == 0x656C7374 {
            BoxType::ElstBox
        } else if v == 0x6D667261 {
            BoxType::MfraBox
        } else if v == 0x6D646864 {
            BoxType::MdhdBox
        } else if v == 0x68646C72 {
            BoxType::HdlrBox
        } else if v == 0x6D696E66 {
            BoxType::MinfBox
        } else if v == 0x766D6864 {
            BoxType::VmhdBox
        } else if v == 0x736D6864 {
            BoxType::SmhdBox
        } else if v == 0x7374626C {
            BoxType::StblBox
        } else if v == 0x73747364 {
            BoxType::StsdBox
        } else if v == 0x73747473 {
            BoxType::SttsBox
        } else if v == 0x63747473 {
            BoxType::CttsBox
        } else if v == 0x73747373 {
            BoxType::StssBox
        } else if v == 0x73747363 {
            BoxType::StscBox
        } else if v == 0x7374737A {
            BoxType::StszBox
        } else if v == 0x7374636F {
            BoxType::StcoBox
        } else if v == 0x636F3634 {
            BoxType::Co64Box
        } else if v == 0x7472616B {
            BoxType::TrakBox
        } else if v == 0x74726166 {
            BoxType::TrafBox
        } else if v == 0x7472756E {
            BoxType::TrunBox
        } else if v == 0x75647461 {
            BoxType::UdtaBox
        } else if v == 0x6D657461 {
            BoxType::MetaBox
        } else if v == 0x64696E66 {
            BoxType::DinfBox
        } else if v == 0x64726566 {
            BoxType::DrefBox
        } else if v == 0x75726C20 {
            BoxType::UrlBox
        } else if v == 0x61766331 {
            BoxType::Avc1Box
        } else if v == 0x61766343 {
            BoxType::AvcCBox
        } else if v == 0x68657631 {
            BoxType::Hev1Box
        } else if v == 0x68766331 {
            BoxType::Hvc1Box
        } else if v == 0x68766343 {
            BoxType::HvcCBox
        } else if v == 0x6D703461 {
            BoxType::Mp4aBox
        } else if v == 0x65736473 {
            BoxType::EsdsBox
        } else if v == 0x74783367 {
            BoxType::Tx3gBox
        } else if v == 0x76706343 {
            BoxType::VpccBox
        } else if v == 0x76703039 {
            BoxType::Vp09Box
        } else if v == 0x64617461 {
            BoxType::DataBox
        } else if v == 0x696C7374 {
            BoxType::IlstBox
        } else if v == 0x73696478 {
            BoxType::SidxBox
        } else if v == 0x4F707573 {
            BoxType::OpusBox
        } else if v == 0x644F7073 {
            BoxType::DopsBox
        } else if v == 0x77696465 {
            BoxType::WideBox
        } else if v == 0x75756964 {
            BoxType::UuidBox
        } else {
            BoxType::UnknownBox(v)
        }
    }

    pub fn to_code(self) -> (r: u32)
        ensures
            r == self.spec_code(),
    {
        match self {
            BoxType::FtypBox => 0x66747970,
            BoxType::MvhdBox => 0x6D766864,
            BoxType::MfhdBox => 0x6D666864,
            BoxType::FreeBox => 0x66726565,
            BoxType::MdatBox => 0x6D646174,
            BoxType::MoovBox => 0x6D6F6F76,
            BoxType::MvexBox => 0x6D766578,
            BoxType::MehdBox => 0x6D656864,
            BoxType::TrexBox => 0x74726578,
            BoxType::EmsgBox => 0x656D7367,
            BoxType::MoofBox => 0x6D6F6F66,
            BoxType::TkhdBox => 0x746B6864,
            BoxType::TfhdBox => 0x74666864,
            BoxType::TfdtBox => 0x74666474,
            BoxType::EdtsBox => 0x65647473,
            BoxType::MdiaBox => 0x6D646961,
            BoxType::ElstBox => 0x656C7374,
            BoxType::MfraBox => 0x6D667261,
            BoxType::MdhdBox => 0x6D646864,
            BoxType::HdlrBox => 0x68646C72,
            BoxType::MinfBox => 0x6D696E66,
            BoxType::VmhdBox => 0x766D6864,
            BoxType::SmhdBox => 0x736D6864,
            BoxType::StblBox => 0x7374626C,
            BoxType::StsdBox => 0x73747364,
            BoxType::SttsBox => 0x73747473,
            BoxType::CttsBox => 0x63747473,
            BoxType::StssBox => 0x73747373,
            BoxType::StscBox => 0x73747363,
            BoxType::StszBox => 0x7374737A,
            BoxType::StcoBox => 0x7374636F,
            BoxType::Co64Box => 0x636F3634,
            BoxType::TrakBox => 0x7472616B,
            BoxType::TrafBox => 0x74726166,
            BoxType::TrunBox => 0x7472756E,
            BoxType::UdtaBox => 0x75647461,
            BoxType::MetaBox => 0x6D657461,
            BoxType::DinfBox => 0x64696E66,
            BoxType::DrefBox => 0x64726566,
            BoxType::UrlBox => 0x75726C20,
            BoxType::Avc1Box => 0x61766331,
            BoxType::AvcCBox => 0x61766343,
            BoxType::Hev1Box => 0x68657631,
            BoxType::Hvc1Box => 0x68766331,
            BoxType::HvcCBox => 0x68766343,
            BoxType::Mp4aBox => 0x6D703461,
            BoxType::EsdsBox => 0x65736473,
            BoxType::Tx3gBox => 0x74783367,
            BoxType::VpccBox => 0x76706343,
            BoxType::Vp09Box => 0x76703039,
            BoxType::DataBox => 0x64617461,
            BoxType::IlstBox => 0x696C7374,
            BoxType::SidxBox => 0x73696478,
            BoxType::OpusBox => 0x4F707573,
            BoxType::DopsBox => 0x644F7073,
            BoxType::WideBox => 0x77696465,
            BoxType::UuidBox => 0x75756964,
            BoxType::UnknownBox(v) => v,
        }
    }

    pub fn from_code(v: u32) -> (r: BoxType)
        ensures
            r == Self::spec_from_code(v),
    {
        match v {
            0x66747970 => BoxType::FtypBox,
            0x6D766864 => BoxType::MvhdBox,
            0x6D666864 => BoxType::MfhdBox,
            0x66726565 => BoxType::FreeBox,
            0x6D646174 => BoxType::MdatBox,
            0x6D6F6F76 => BoxType::MoovBox,
            0x6D766578 => BoxType::MvexBox,
            0x6D656864 => BoxType::MehdBox,
            0x74726578 => BoxType::TrexBox,
            0x656D7367 => BoxType::EmsgBox,
            0x6D6F6F66 => BoxType::MoofBox,
            0x746B6864 => BoxType::TkhdBox,
            0x74666864 => BoxType::TfhdBox,
            0x74666474 => BoxType::TfdtBox,
            0x65647473 => BoxType::EdtsBox,
            0x6D646961 => BoxType::MdiaBox,
            0x656C7374 => BoxType::ElstBox,
            0x6D667261 => BoxType::MfraBox,
            0x6D646864 => BoxType::MdhdBox,
            0x68646C72 => BoxType::HdlrBox,
            0x6D696E66 => BoxType::MinfBox,
            0x766D6864 => BoxType::VmhdBox,
            0x736D6864 => BoxType::SmhdBox,
            0x7374626C => BoxType::StblBox,
            0x73747364 => BoxType::StsdBox,
            0x73747473 => BoxType::SttsBox,
            0x63747473 => BoxType::CttsBox,
            0x73747373 => BoxType::StssBox,
            0x73747363 => BoxType::StscBox,
            0x7374737A => BoxType::StszBox,
            0x7374636F => BoxType::StcoBox,
            0x636F3634 => BoxType::Co64Box,
            0x7472616B => BoxType::TrakBox,
            0x74726166 => BoxType::TrafBox,
            0x7472756E => BoxType::TrunBox,
            0x75647461 => BoxType::UdtaBox,
            0x6D657461 => BoxType::MetaBox,
            0x64696E66 => BoxType::DinfBox,
            0x64726566 => BoxType::DrefBox,
            0x75726C20 => BoxType::UrlBox,
            0x61766331 => BoxType::Avc1Box,
            0x61766343 => BoxType::AvcCBox,
            0x68657631 => BoxType::Hev1Box,
            0x68766331 => BoxType::Hvc1Box,
            0x68766343 => BoxType::HvcCBox,
            0x6D703461 => BoxType::Mp4aBox,
            0x65736473 => BoxType::EsdsBox,
            0x74783367 => BoxType::Tx3gBox,
            0x76706343 => BoxType::VpccBox,
            0x76703039 => BoxType::Vp09Box,
            0x64617461 => BoxType::DataBox,
            0x696C7374 => BoxType::IlstBox,
            0x73696478 => BoxType::SidxBox,
            0x4F707573 => BoxType::OpusBox,
            0x644F7073 => BoxType::DopsBox,
            0x77696465 => BoxType::WideBox,
            0x75756964 => BoxType::UuidBox,
            _ => BoxType::UnknownBox(v),
        }
    }

    /// A type round-trips through its code unless it is an
    /// `UnknownBox` that shadows a recognized code.
    pub proof fn lemma_code_round_trip(self)
        requires
            self matches BoxType::UnknownBox(v) ==> !Self::spec_known_code(v),
        ensures
            Self::spec_from_code(self.spec_code()) == self,
    {
    }
}

/// The size-and-type prefix of every box. `size` is the whole box's length
/// in bytes, including the header itself.
#[derive(Debug, Clone, Copy, PartialEq, Eq, Structural)]
pub struct BoxHeader {
    pub name: BoxType,
    pub size: u64,
}

/// The result of scanning a header: the type, the declared size, and how
/// many bytes the header occupied.
pub open spec fn spec_parse_header(data: Seq<u8>) -> Option<(BoxType, u64, int)> {
    if data.len() < 8 {
        None
    } else {
        let s32 = be32(data[0], data[1], data[2], data[3]);
        let t = BoxType::spec_from_code(be32(data[4], data[5], data[6], data[7]));
        if s32 == 1 {
            if data.len() < 16 {
                None
            } else {
                Some(
                    (
                        t,
                        be64(
                            data[8],
                            data[9],
                            data[10],
                            data[11],
                            data[12],
                            data[13],
                            data[14],
                            data[15],
                        ),
                        16int,
                    ),
                )
            }
        } else {
            Some((t, s32 as u64, 8int))
        }
    }
}

impl BoxHeader {
    pub fn new(name: BoxType, size: u64) -> (r: BoxHeader)
        ensures
            r.name == name,
            r.size == size,
    {
        BoxHeader { name, size }
    }

    /// The wire form: the compact 8-byte header, or the 16-byte form with
    /// `largesize` exactly when the size exceeds 32 bits.
    pub open spec fn spec_bytes(self) -> Seq<u8> {
        if self.size > u32::MAX {
            u32_be(1) + u32_be(self.name.spec_code()) + u64_be(self.size)
        } else {
            u32_be(self.size as u32) + u32_be(self.name.spec_code())
        }
    }

    /// A header's size never collides with the `largesize` marker: a size
    /// of 1 cannot name a real box, so it is excluded by well-formedness.
    pub open spec fn wf(self) -> bool {
        &&& self.size != 1
        &&& (self.name matches BoxType::UnknownBox(v) ==> !BoxType::spec_known_code(v))
    }

    pub fn read(buf: &Vec<u8>, pos: usize) -> (r: Result<(BoxHeader, usize), Error>)
        ensures
            pos <= buf@.len() ==> (match spec_parse_header(buf@.skip(pos as int)) {
                Some(h) => r matches Ok(v) && v.0.name == h.0 && v.0.size == h.1 && v.1 == pos
                    + h.2,
                None => r matches Err(e) && e == Error::IoError,
            }),
            pos > buf@.len() ==> (r matches Err(e) && e == Error::IoError),
    {
        let ghost data = buf@.skip(pos as int);
        let (s32, p1) = match read_u32(buf, pos) {
            Ok(v) => v,
            Err(e) => { return Err(e); },
        };
        let (code, p2) = match read_u32(buf, p1) {
            Ok(v) => v,
            Err(e) => { return Err(e); },
        };
        proof {
            assert(data.len() >= 8);
            assert(data[0] == buf@[pos as int] && data[1] == buf@[pos as int + 1] && data[2]
                == buf@[pos as int + 2] && data[3] == buf@[pos as int + 3]);
            assert(data[4] == buf@[pos as int + 4] && data[5] == buf@[pos as int + 5] && data[6]
                == buf@[pos as int + 6] && data[7] == buf@[pos as int + 7]);
        }
        let name = BoxType::from_code(code);
        if s32 == 1 {
            let (largesize, p3) = match read_u64(buf, p2) {
                Ok(v) => v,
                Err(e) => { return Err(e); },
            };
            proof {
                assert(data.len() >= 16);
                assert(forall|i: int| 8 <= i < 16 ==> data[i] == buf@[pos + i]);
            }
            Ok((BoxHeader { name, size: largesize }, p3))
        } else {
            Ok((BoxHeader { name, size: s32 as u64 }, p2))
        }
    }

    /// Writes the header; the `largesize` form is chosen exactly when
    /// `size` does not fit in 32 bits.
    pub fn write(&self, out: &mut Vec<u8>) -> (r: Result<u64, Error>)
        ensures
            final(out)@ == old(out)@ + self.spec_bytes(),
            self.size > u32::MAX ==> r == Ok::<u64, Error>(16),
            self.size <= u32::MAX ==> r == Ok::<u64, Error>(8),
    {
        if self.size > u32::MAX as u64 {
            put_u32(out, 1);
            put_u32(out, self.name.to_code());
            put_u64(out, self.size);
            assert(out@ =~= old(out)@ + self.spec_bytes());
            Ok(16)
        } else {
            put_u32(out, self.size as u32);
            put_u32(out, self.name.to_code());
            assert(out@ =~= old(out)@ + self.spec_bytes());
            Ok(8)
        }
    }

    /// Parsing the wire form of a well-formed header yields the header
    /// back, consuming 16 bytes exactly when `largesize` was emitted.
    pub proof fn lemma_round_trip(self)
        requires
            self.wf(),
        ensures
            self.size > u32::MAX ==> spec_parse_header(self.spec_bytes()) == Some(
                (self.name, self.size, 16int),
            ),
            self.size <= u32::MAX ==> spec_parse_header(self.spec_bytes()) == Some(
                (self.name, self.size, 8int),
            ),
    {
        let b = self.spec_bytes();
        let c = self.name.spec_code();
        if self.size > u32::MAX {
            assert(b.len() == 16);
            crate::bigend::lemma_u32_be_val(1);
            assert(be32(b[0], b[1], b[2], b[3]) == 1);
            crate::bigend::lemma_u32_be_val(c);
            assert(be32(b[4], b[5], b[6], b[7]) == c);
            crate::bigend::lemma_u64_be_val(self.size);
            assert(be64(b[8], b[9], b[10], b[11], b[12], b[13], b[14], b[15]) == self.size);
            self.name.lemma_code_round_trip();
        } else {
            assert(b.len() == 8);
            crate::bigend::lemma_u32_be_val(self.size as u32);
            assert(be32(b[0], b[1], b[2], b[3]) == self.size as u32);
            crate::bigend::lemma_u32_be_val(c);
            assert(be32(b[4], b[5], b[6], b[7]) == c);
            self.name.lemma_code_round_trip();
        }
    }
}

/// The version/flags extension of a full box.
pub open spec fn spec_ext_bytes(version: u8, flags: u32) -> Seq<u8> {
    seq![version] + u24_be(flags)
}

pub fn read_box_header_ext(buf: &Vec<u8>, pos: usize) -> (r: Result<((u8, u32), usize), Error>)
    ensures
        pos + 4 <= buf@.len() ==> (r matches Ok(v) && v.0.0 == buf@[pos as int] && v.0.1 == be24(
            buf@[pos as int + 1],
            buf@[pos as int + 2],
            buf@[pos as int + 3],
        ) && v.0.1 < 0x1000000 && v.1 == pos + 4),
        pos + 4 > buf@.len() ==> (r matches Err(e) && e == Error::IoError),
{
    let (version, p1) = match read_u8(buf, pos) {
        Ok(v) => v,
        Err(e) => { return Err(e); },
    };
    let (flags, p2) = match read_u24(buf, p1) {
        Ok(v) => v,
        Err(e) => { return Err(e); },
    };
    proof {
        let (b0, b1, b2) = (buf@[pos as int + 1], buf@[pos as int + 2], buf@[pos as int + 3]);
        assert(be24(b0, b1, b2) < 0x1000000) by {
            assert((((b0 as u32) << 16) | ((b1 as u32) << 8) | (b2 as u32)) < 0x1000000)
                by (bit_vector);
        }
    }
    Ok(((version, flags), p2))
}

pub fn write_box_header_ext(out: &mut Vec<u8>, version: u8, flags: u32) -> (r: Result<u64, Error>)
    requires
        flags < 0x1000000,
    ensures
        final(out)@ == old(out)@ + spec_ext_bytes(version, flags),
        r == Ok::<u64, Error>(4),
{
    put_u8(out, version);
    put_u24(out, flags);
    assert(out@ =~= old(out)@ + spec_ext_bytes(version, flags));
    Ok(4)
}

} // verus!
