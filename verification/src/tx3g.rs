//! The `tx3g` timed-text sample entry.

use vstd::prelude::*;

use crate::bigend::put_u16;
use crate::bigend::put_u32;
use crate::bigend::put_u8;
use crate::bigend::read_u16;
use crate::bigend::read_u32;
use crate::bigend::u16_be;
use crate::bigend::u32_be;
use crate::bigend::zero_bytes;
use crate::boxhead::BoxHeader;
use crate::boxhead::BoxType;
use crate::boxhead::HEADER_SIZE;
use crate::error::Error;
use crate::types::TtxtConfig;

verus! {

/// An RGBA colour, one byte per channel.
#[derive(Debug, Clone, Copy, PartialEq, Eq, Structural, Default)]
pub struct RgbaColor {
    pub red: u8,
    pub green: u8,
    pub blue: u8,
    pub alpha: u8,
}

/// The style record of a text sample entry.
#[derive(Debug, Clone, Copy, PartialEq, Eq, Structural)]
pub struct StyleRecord {
    pub start_char: u16,
    pub end_char: u16,
    pub font_id: u16,
    pub face_style_flags: u8,
    pub font_size: u8,
    pub font_color: RgbaColor,
}

/// The `tx3g` sample entry.
#[derive(Debug, Clone, Copy, PartialEq, Eq)]
pub struct Tx3gBox {
    pub data_reference_index: u16,
    pub display_flags: u32,
    pub horizontal_justification: i8,
    pub vertical_justification: i8,
    pub bg_color_rgba: RgbaColor,
    pub box_record: [i16; 4],
    pub style_record: StyleRecord,
}

/// Mathematical image of a `tx3g` sample entry.
pub ghost struct Tx3gView {
    pub data_reference_index: u16,
    pub display_flags: u32,
    pub horizontal_justification: i8,
    pub vertical_justification: i8,
    pub bg_color_rgba: RgbaColor,
    pub box_record: Seq<i16>,
    pub style_record: StyleRecord,
}

impl View for Tx3gBox {
    type V = Tx3gView;

    open spec fn view(&self) -> Tx3gView {
        Tx3gView {
            data_reference_index: self.data_reference_index,
            display_flags: self.display_flags,
            horizontal_justification: self.horizontal_justification,
            vertical_justification: self.vertical_justification,
            bg_color_rgba: self.bg_color_rgba,
            box_record: self.box_record@,
            style_record: self.style_record,
        }
    }
}

/// What a `tx3g` payload (the bytes after the header) means.
pub open spec fn spec_parse_tx3g(data: Seq<u8>) -> Option<Tx3gView> {
    if data.len() < 38 {
        None
    } else {
        Some(
            Tx3gView {
                data_reference_index: crate::bigend::be16(data[6], data[7]),
                display_flags: crate::bigend::be32(data[8], data[9], data[10], data[11]),
                horizontal_justification: data[12] as i8,
                vertical_justification: data[13] as i8,
                bg_color_rgba: RgbaColor {
                    red: data[14],
                    green: data[15],
                    blue: data[16],
                    alpha: data[17],
                },
                box_record: seq![
                    crate::bigend::be16(data[18], data[19]) as i16,
                    crate::bigend::be16(data[20], data[21]) as i16,
                    crate::bigend::be16(data[22], data[23]) as i16,
                    crate::bigend::be16(data[24], data[25]) as i16,
                ],
                style_record: StyleRecord {
                    start_char: crate::bigend::be16(data[26], data[27]),
                    end_char: crate::bigend::be16(data[28], data[29]),
                    font_id: crate::bigend::be16(data[30], data[31]),
                    face_style_flags: data[32],
                    font_size: data[33],
                    font_color: RgbaColor {
                        red: data[34],
                        green: data[35],
                        blue: data[36],
                        alpha: data[37],
                    },
                },
            },
        )
    }
}

impl Default for Tx3gBox {
    fn default() -> (r: Self)
        ensures
            r.data_reference_index == 0,
            r.display_flags == 0,
            r.horizontal_justification == 1,
            r.vertical_justification == -1,
            r.style_record.font_id == 1,
            r.style_record.font_size == 16,
    {
        Tx3gBox {
            data_reference_index: 0,
            display_flags: 0,
            horizontal_justification: 1,
            vertical_justification: -1,
            bg_color_rgba: RgbaColor { red: 0, green: 0, blue: 0, alpha: 255 },
            box_record: [0, 0, 0, 0],
            style_record: StyleRecord {
                start_char: 0,
                end_char: 0,
                font_id: 1,
                face_style_flags: 0,
                font_size: 16,
                font_color: RgbaColor { red: 255, green: 255, blue: 255, alpha: 255 },
            },
        }
    }
}

impl Tx3gBox {
    pub fn new(_config: &TtxtConfig) -> (r: Self)
        ensures
            r.data_reference_index == 1,
            r.style_record.font_id == 1,
    {
        Tx3gBox {
            data_reference_index: 1,
            display_flags: 0,
            horizontal_justification: 1,
            vertical_justification: -1,
            bg_color_rgba: RgbaColor { red: 0, green: 0, blue: 0, alpha: 255 },
            box_record: [0, 0, 0, 0],
            style_record: StyleRecord {
                start_char: 0,
                end_char: 0,
                font_id: 1,
                face_style_flags: 0,
                font_size: 16,
                font_color: RgbaColor { red: 255, green: 255, blue: 255, alpha: 255 },
            },
        }
    }

    pub open spec fn spec_size(&self) -> int {
        HEADER_SIZE + 8 + 30
    }

    pub fn get_type(&self) -> (r: BoxType)
        ensures
            r == BoxType::Tx3gBox,
    {
        BoxType::Tx3gBox
    }

    pub fn get_size(&self) -> (r: u64)
        ensures
            r == self.spec_size(),
    {
        HEADER_SIZE + 8 + 30
    }

    /// The payload after the header.
    pub open spec fn spec_payload(&self) -> Seq<u8> {
        zero_bytes(6) + u16_be(self.data_reference_index) + u32_be(self.display_flags) + seq![
            self.horizontal_justification as u8,
            self.vertical_justification as u8,
            self.bg_color_rgba.red,
            self.bg_color_rgba.green,
            self.bg_color_rgba.blue,
            self.bg_color_rgba.alpha,
        ] + u16_be(self.box_record[0] as u16) + u16_be(self.box_record[1] as u16) + u16_be(
            self.box_record[2] as u16,
        ) + u16_be(self.box_record[3] as u16) + u16_be(self.style_record.start_char) + u16_be(
            self.style_record.end_char,
        ) + u16_be(self.style_record.font_id) + seq![
            self.style_record.face_style_flags,
            self.style_record.font_size,
            self.style_record.font_color.red,
            self.style_record.font_color.green,
            self.style_record.font_color.blue,
            self.style_record.font_color.alpha,
        ]
    }

    pub open spec fn spec_bytes(&self) -> Seq<u8> {
        BoxHeader { name: BoxType::Tx3gBox, size: self.spec_size() as u64 }.spec_bytes()
            + self.spec_payload()
    }

    pub fn write_box(&self, out: &mut Vec<u8>) -> (r: Result<u64, Error>)
        ensures
            final(out)@ == old(out)@ + self.spec_bytes(),
            r == Ok::<u64, Error>(self.spec_size() as u64),
    {
        let size = self.get_size();
        let header = BoxHeader::new(BoxType::Tx3gBox, size);
        let _ = header.write(out);
        put_u32(out, 0);
        put_u16(out, 0);
        put_u16(out, self.data_reference_index);
        put_u32(out, self.display_flags);
        put_u8(out, self.horizontal_justification as u8);
        put_u8(out, self.vertical_justification as u8);
        put_u8(out, self.bg_color_rgba.red);
        put_u8(out, self.bg_color_rgba.green);
        put_u8(out, self.bg_color_rgba.blue);
        put_u8(out, self.bg_color_rgba.alpha);
        put_u16(out, self.box_record[0] as u16);
        put_u16(out, self.box_record[1] as u16);
        put_u16(out, self.box_record[2] as u16);
        put_u16(out, self.box_record[3] as u16);
        put_u16(out, self.style_record.start_char);
        put_u16(out, self.style_record.end_char);
        put_u16(out, self.style_record.font_id);
        put_u8(out, self.style_record.face_style_flags);
        put_u8(out, self.style_record.font_size);
        put_u8(out, self.style_record.font_color.red);
        put_u8(out, self.style_record.font_color.green);
        put_u8(out, self.style_record.font_color.blue);
        put_u8(out, self.style_record.font_color.alpha);
        proof {
            crate::bigend::lemma_zero_be();
            assert(u32_be(0) + u16_be(0) =~= zero_bytes(6));
            assert(out@ =~= old(out)@ + self.spec_bytes());
        }
        Ok(size)
    }

    /// Reads the payload of a `tx3g` box whose header (already consumed)
    /// declared `size`; `pos` stands just after the header.
    pub fn read_box(buf: &Vec<u8>, pos: usize, size: u64) -> (r: Result<(Tx3gBox, usize), Error>)
        requires
            pos >= 8,
            pos - 8 + size <= usize::MAX,
        ensures
            r matches Ok(v) ==> size >= 8 && pos - 8 + size <= buf@.len() && (
            match spec_parse_tx3g(buf@.subrange(pos as int, pos - 8 + size)) {
                Some(p) => v.0@ == p && v.1 == pos - 8 + size,
                None => false,
            }),
            size >= 8 && pos - 8 + size <= buf@.len() && spec_parse_tx3g(
                buf@.subrange(pos as int, pos - 8 + size),
            ) is Some ==> r is Ok,
    {
        if size < 8 {
            return Err(Error::IoError);
        }
        let start = pos - 8;
        let end = start + (size as usize);
        if end > buf.len() {
            return Err(Error::IoError);
        }
        if end - pos < 38 {
            return Err(Error::IoError);
        }
        let ghost data = buf@.subrange(pos as int, end as int);
        proof {
            assert(forall|k: int| 0 <= k < data.len() ==> data[k] == buf@[pos + k]);
        }
        let (data_reference_index, _) = match read_u16(buf, pos + 6) {
            Ok(v) => v,
            Err(e) => { return Err(e); },
        };
        let (display_flags, _) = match read_u32(buf, pos + 8) {
            Ok(v) => v,
            Err(e) => { return Err(e); },
        };
        let horizontal_justification = buf[pos + 12] as i8;
        let vertical_justification = buf[pos + 13] as i8;
        let bg_color_rgba = RgbaColor {
            red: buf[pos + 14],
            green: buf[pos + 15],
            blue: buf[pos + 16],
            alpha: buf[pos + 17],
        };
        let (br0, _) = match read_u16(buf, pos + 18) {
            Ok(v) => v,
            Err(e) => { return Err(e); },
        };
        let (br1, _) = match read_u16(buf, pos + 20) {
            Ok(v) => v,
            Err(e) => { return Err(e); },
        };
        let (br2, _) = match read_u16(buf, pos + 22) {
            Ok(v) => v,
            Err(e) => { return Err(e); },
        };
        let (br3, _) = match read_u16(buf, pos + 24) {
            Ok(v) => v,
            Err(e) => { return Err(e); },
        };
        let (start_char, _) = match read_u16(buf, pos + 26) {
            Ok(v) => v,
            Err(e) => { return Err(e); },
        };
        let (end_char, _) = match read_u16(buf, pos + 28) {
            Ok(v) => v,
            Err(e) => { return Err(e); },
        };
        let (font_id, _) = match read_u16(buf, pos + 30) {
            Ok(v) => v,
            Err(e) => { return Err(e); },
        };
        let face_style_flags = buf[pos + 32];
        let font_size = buf[pos + 33];
        let font_color = RgbaColor {
            red: buf[pos + 34],
            green: buf[pos + 35],
            blue: buf[pos + 36],
            alpha: buf[pos + 37],
        };
        let b = Tx3gBox {
            data_reference_index,
            display_flags,
            horizontal_justification,
            vertical_justification,
            bg_color_rgba,
            box_record: [br0 as i16, br1 as i16, br2 as i16, br3 as i16],
            style_record: StyleRecord {
                start_char,
                end_char,
                font_id,
                face_style_flags,
                font_size,
                font_color,
            },
        };
        proof {
            let p = spec_parse_tx3g(data).unwrap();
            assert(b@.box_record =~= p.box_record);
        }
        Ok((b, end))
    }
}

/// Serializing any `tx3g` entry and parsing the result yields the entry
/// back, and its length is the declared size.
#[verifier::rlimit(100)]
pub proof fn lemma_tx3g_round_trip(b: Tx3gBox)
    ensures
        b.spec_bytes().len() == b.spec_size(),
        spec_parse_tx3g(b.spec_bytes().skip(8)) == Some(b@),
{
    let data = b.spec_payload();
    assert(b.spec_bytes().skip(8) =~= data);
    crate::bigend::lemma_u16_be_val(b.data_reference_index);
    crate::bigend::lemma_u32_be_val(b.display_flags);
    crate::bigend::lemma_u16_be_val(b.box_record[0] as u16);
    crate::bigend::lemma_u16_be_val(b.box_record[1] as u16);
    crate::bigend::lemma_u16_be_val(b.box_record[2] as u16);
    crate::bigend::lemma_u16_be_val(b.box_record[3] as u16);
    crate::bigend::lemma_u16_be_val(b.style_record.start_char);
    crate::bigend::lemma_u16_be_val(b.style_record.end_char);
    crate::bigend::lemma_u16_be_val(b.style_record.font_id);
    crate::bigend::lemma_i16_bits(b.box_record[0]);
    crate::bigend::lemma_i16_bits(b.box_record[1]);
    crate::bigend::lemma_i16_bits(b.box_record[2]);
    crate::bigend::lemma_i16_bits(b.box_record[3]);
    let hj = b.horizontal_justification;
    let vj = b.vertical_justification;
    assert(((hj as u8) as i8) == hj && ((vj as u8) as i8) == vj) by (bit_vector);
    assert(crate::bigend::be16(data[6], data[7]) == b.data_reference_index);
    assert(crate::bigend::be32(data[8], data[9], data[10], data[11]) == b.display_flags);
    let p = spec_parse_tx3g(data).unwrap();
    assert(p.box_record =~= b@.box_record);
    assert(p == b@);
}

} // verus!
