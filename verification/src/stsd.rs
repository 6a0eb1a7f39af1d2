//! The `stsd` sample description box: at most one sample entry of a
//! closed set of codecs; additional entries are tolerated and ignored.

use vstd::prelude::*;

use crate::avc::Avc1Box;
use crate::bigend::put_u32;
use crate::bigend::u32_be;
use crate::boxhead::read_box_header_ext;
use crate::boxhead::spec_ext_bytes;
use crate::boxhead::write_box_header_ext;
use crate::boxhead::BoxHeader;
use crate::boxhead::BoxType;
use crate::boxhead::HEADER_EXT_SIZE;
use crate::boxhead::HEADER_SIZE;
use crate::error::Error;
use crate::hevc::Hev1Box;
use crate::hevc::Hvc1Box;
use crate::mp4a::spec_es_desc_bytes;
use crate::mp4a::Mp4aBox;
use crate::opus::OpusBox;
use crate::tx3g::Tx3gBox;
use crate::vp09::Vp09Box;

verus! {

/// The sample description box. At most one of the entries is set; the
/// writer emits the first set entry in the listed order.
#[derive(Debug, Clone, PartialEq, Eq)]
pub struct StsdBox {
    pub version: u8,
    pub flags: u32,
    pub avc1: Option<Avc1Box>,
    pub hev1: Option<Hev1Box>,
    pub hvc1: Option<Hvc1Box>,
    pub vp09: Option<Vp09Box>,
    pub mp4a: Option<Mp4aBox>,
    pub opus: Option<OpusBox>,
    pub tx3g: Option<Tx3gBox>,
}

impl Default for StsdBox {
    fn default() -> (r: Self)
        ensures
            r.version == 0,
            r.flags == 0,
            r.avc1 is None,
            r.hev1 is None,
            r.hvc1 is None,
            r.vp09 is None,
            r.mp4a is None,
            r.opus is None,
            r.tx3g is None,
    {
        StsdBox {
            version: 0,
            flags: 0,
            avc1: None,
            hev1: None,
            hvc1: None,
            vp09: None,
            mp4a: None,
            opus: None,
            tx3g: None,
        }
    }
}

impl StsdBox {
    pub fn get_type(&self) -> (r: BoxType)
        ensures
            r == BoxType::StsdBox,
    {
        BoxType::StsdBox
    }

    /// The serialization of the entry the writer selects: the first set
    /// entry in declaration order, or nothing.
    #[verifier::opaque]
    pub open spec fn spec_entry_bytes(&self) -> Seq<u8> {
        if self.avc1 is Some {
            self.avc1.unwrap().spec_bytes()
        } else if self.hev1 is Some {
            self.hev1.unwrap().spec_bytes()
        } else if self.hvc1 is Some {
            self.hvc1.unwrap().spec_bytes()
        } else if self.vp09 is Some {
            self.vp09.unwrap().spec_bytes()
        } else if self.mp4a is Some {
            self.mp4a.unwrap().spec_bytes()
        } else if self.tx3g is Some {
            self.tx3g.unwrap().spec_bytes()
        } else if self.opus is Some {
            self.opus.unwrap().spec_bytes()
        } else {
            Seq::empty()
        }
    }

    /// Each set entry is well-formed, and the whole box fits the compact
    /// 32-bit size field.
    pub open spec fn wf(&self) -> bool {
        &&& self.flags < 0x1000000
        &&& self.avc1 matches Some(b) ==> b.wf()
        &&& self.hev1 matches Some(b) ==> b.wf()
        &&& self.hvc1 matches Some(b) ==> b.wf()
        &&& self.vp09 matches Some(b) ==> b.wf()
        &&& self.mp4a matches Some(b) ==> b.wf()
        &&& self.opus matches Some(b) ==> b.wf()
        &&& self.spec_entry_bytes().len() + 16 <= u32::MAX
    }

    pub open spec fn spec_size(&self) -> int {
        HEADER_SIZE + HEADER_EXT_SIZE + 4 + self.spec_entry_bytes().len()
    }

    /// The selected entry's bytes are its declared size long.
    #[verifier::rlimit(100)]
    pub proof fn lemma_entry_bytes_len(&self)
        requires
            self.wf(),
        ensures
            self.spec_size() >= 16,
            self.spec_size() <= u32::MAX,
    {
        reveal(StsdBox::spec_entry_bytes);
        if self.avc1 is Some {
            assert(self.spec_entry_bytes().len() <= u32::MAX);
        } else if self.hev1 is Some {
            assert(self.spec_entry_bytes().len() <= u32::MAX);
        } else if self.hvc1 is Some {
            assert(self.spec_entry_bytes().len() <= u32::MAX);
        } else if self.vp09 is Some {
            assert(self.spec_entry_bytes().len() <= u32::MAX);
        } else if self.mp4a is Some {
            let e = self.mp4a.unwrap().esds.unwrap();
            assert(spec_es_desc_bytes(e.es_desc).len() == 27);
            assert(self.spec_entry_bytes().len() <= u32::MAX);
        } else if self.tx3g is Some {
            assert(self.spec_entry_bytes().len() <= u32::MAX);
        } else if self.opus is Some {
            assert(self.spec_entry_bytes().len() <= u32::MAX);
        }
    }

    #[verifier::rlimit(100)]
    pub fn get_size(&self) -> (r: u64)
        requires
            self.wf(),
        ensures
            r == self.spec_size(),
    {
        proof {
            reveal(StsdBox::spec_entry_bytes);
        }
        let mut size: u64 = HEADER_SIZE + HEADER_EXT_SIZE + 4;
        if let Some(ref avc1) = self.avc1 {
            size += avc1.get_size();
            proof {
                assert(avc1.spec_bytes().len() == avc1.spec_size());
            }
        } else if let Some(ref hev1) = self.hev1 {
            size += hev1.get_size();
            proof {
                assert(hev1.spec_bytes().len() == hev1.spec_size());
            }
        } else if let Some(ref hvc1) = self.hvc1 {
            size += hvc1.get_size();
            proof {
                assert(hvc1.spec_bytes().len() == hvc1.spec_size());
            }
        } else if let Some(ref vp09) = self.vp09 {
            size += vp09.get_size();
            proof {
                assert(vp09.spec_bytes().len() == vp09.spec_size());
            }
        } else if let Some(ref mp4a) = self.mp4a {
            size += mp4a.get_size();
            proof {
                let e = mp4a.esds.unwrap();
                assert(spec_es_desc_bytes(e.es_desc).len() == 27);
                assert(e.spec_bytes().len() == e.spec_size());
                assert(mp4a.spec_bytes().len() == mp4a.spec_size());
            }
        } else if let Some(ref tx3g) = self.tx3g {
            size += tx3g.get_size();
            proof {
                assert(tx3g.spec_bytes().len() == tx3g.spec_size());
            }
        } else if let Some(ref opus) = self.opus {
            size += opus.get_size();
            proof {
                assert(opus.spec_bytes().len() == opus.spec_size());
            }
        }
        size
    }

    /// The full wire form: header, version and flags, an entry count of
    /// one, then the selected entry.
    pub open spec fn spec_bytes(&self) -> Seq<u8> {
        BoxHeader { name: BoxType::StsdBox, size: self.spec_size() as u64 }.spec_bytes()
            + spec_ext_bytes(self.version, self.flags) + u32_be(1) + self.spec_entry_bytes()
    }

    pub fn write_box(&self, out: &mut Vec<u8>) -> (r: Result<u64, Error>)
        requires
            self.wf(),
        ensures
            final(out)@ == old(out)@ + self.spec_bytes(),
            r == Ok::<u64, Error>(self.spec_size() as u64),
    {
        proof {
            reveal(StsdBox::spec_entry_bytes);
        }
        let size = self.get_size();
        let header = BoxHeader::new(BoxType::StsdBox, size);
        let _ = header.write(out);
        let _ = write_box_header_ext(out, self.version, self.flags);
        put_u32(out, 1);
        if let Some(ref avc1) = self.avc1 {
            let _ = avc1.write_box(out);
        } else if let Some(ref hev1) = self.hev1 {
            let _ = hev1.write_box(out);
        } else if let Some(ref hvc1) = self.hvc1 {
            let _ = hvc1.write_box(out);
        } else if let Some(ref vp09) = self.vp09 {
            let _ = vp09.write_box(out);
        } else if let Some(ref mp4a) = self.mp4a {
            let _ = mp4a.write_box(out);
        } else if let Some(ref tx3g) = self.tx3g {
            let _ = tx3g.write_box(out);
        } else if let Some(ref opus) = self.opus {
            let _ = opus.write_box(out);
        }
        assert(out@ =~= old(out)@ + self.spec_bytes());
        Ok(size)
    }

    /// Reads the payload of an `stsd` box whose header (already consumed)
    /// declared `size`; `pos` stands just after the header. Only the first
    /// entry is examined: the entry field matching its four-character code
    /// is set, an unknown or ill-fitting entry leaves every field unset,
    /// and an HEVC or Opus entry equals the parse of its bytes.
    #[verifier::rlimit(100)]
    #[verifier::spinoff_prover]
    pub fn read_box(buf: &Vec<u8>, pos: usize, size: u64) -> (r: Result<(StsdBox, usize), Error>)
        requires
            pos >= 8,
            pos - 8 + size <= usize::MAX,
        ensures
            r matches Ok(v) ==> size >= 8 && pos - 8 + size <= buf@.len() && v.1 == pos - 8 + size
                && {
                let data = buf@.subrange(pos as int, pos - 8 + size);
                &&& v.0.version == data[0]
                &&& v.0.flags == crate::bigend::be24(data[1], data[2], data[3])
                &&& (data.len() < 16 ==> v.0.avc1 is None && v.0.hev1 is None && v.0.hvc1 is None
                    && v.0.vp09 is None && v.0.mp4a is None && v.0.opus is None && v.0.tx3g
                    is None)
                &&& (data.len() >= 16 ==> (match crate::boxhead::spec_parse_header(data.skip(8)) {
                    Some(h) => {
                        let fits = 8 <= h.1 <= data.len() - h.2;
                        &&& (v.0.avc1 is Some <==> fits && h.0 == BoxType::Avc1Box)
                        &&& (v.0.hev1 is Some <==> fits && h.0 == BoxType::Hev1Box)
                        &&& (v.0.hvc1 is Some <==> fits && h.0 == BoxType::Hvc1Box)
                        &&& (v.0.vp09 is Some <==> fits && h.0 == BoxType::Vp09Box)
                        &&& (v.0.mp4a is Some <==> fits && h.0 == BoxType::Mp4aBox)
                        &&& (v.0.opus is Some <==> fits && h.0 == BoxType::OpusBox)
                        &&& (v.0.tx3g is Some <==> fits && h.0 == BoxType::Tx3gBox)
                        &&& (v.0.hvc1 matches Some(b) ==> crate::hevc::spec_parse_hvc1(
                            data.subrange(8 + h.2, 8 + h.2 - 8 + h.1 as int),
                        ) == Some(b@))
                        &&& (v.0.hev1 matches Some(b) ==> crate::hevc::spec_parse_hvc1(
                            data.subrange(8 + h.2, 8 + h.2 - 8 + h.1 as int),
                        ) == Some(b.entry@))
                        &&& (v.0.opus matches Some(b) ==> crate::opus::spec_parse_opus(
                            data.subrange(8 + h.2, 8 + h.2 - 8 + h.1 as int),
                        ) == Some(b@))
                        &&& (v.0.avc1 matches Some(b) ==> crate::avc::spec_parse_avc1(
                            data.subrange(8 + h.2, 8 + h.2 - 8 + h.1 as int),
                        ) == Some(b@))
                        &&& (v.0.vp09 matches Some(b) ==> crate::vp09::spec_parse_vp09(
                            data.subrange(8 + h.2, 8 + h.2 - 8 + h.1 as int),
                        ) == Some(b))
                        &&& (v.0.mp4a matches Some(b) ==> crate::mp4a::spec_parse_mp4a(
                            data.subrange(8 + h.2, 8 + h.2 - 8 + h.1 as int),
                        ) == Some(b@))
                        &&& (v.0.tx3g matches Some(b) ==> crate::tx3g::spec_parse_tx3g(
                            data.subrange(8 + h.2, 8 + h.2 - 8 + h.1 as int),
                        ) == Some(b@))
                    },
                    None => false,
                }))
            },
            size >= 16 && pos - 8 + size <= buf@.len() && {
                let data = buf@.subrange(pos as int, pos - 8 + size);
                data.len() < 16 || (match crate::boxhead::spec_parse_header(data.skip(8)) {
                    Some(h) => h.1 <= size && (8 <= h.1 <= data.len() - h.2 ==> {
                        let sub = data.subrange(8 + h.2, 8 + h.2 - 8 + h.1 as int);
                        &&& (h.0 == BoxType::Avc1Box ==> crate::avc::spec_parse_avc1(sub) is Some)
                        &&& (h.0 == BoxType::Hev1Box ==> crate::hevc::spec_parse_hvc1(sub)
                            is Some)
                        &&& (h.0 == BoxType::Hvc1Box ==> crate::hevc::spec_parse_hvc1(sub)
                            is Some)
                        &&& (h.0 == BoxType::Vp09Box ==> crate::vp09::spec_parse_vp09(sub)
                            is Some)
                        &&& (h.0 == BoxType::Mp4aBox ==> crate::mp4a::spec_parse_mp4a(sub)
                            is Some)
                        &&& (h.0 == BoxType::OpusBox ==> crate::opus::spec_parse_opus(sub)
                            is Some)
                        &&& (h.0 == BoxType::Tx3gBox ==> crate::tx3g::spec_parse_tx3g(sub)
                            is Some)
                    }),
                    None => false,
                })
            } ==> r is Ok,
    {
        if size < 8 {
            return Err(Error::IoError);
        }
        let start = pos - 8;
        let end = start + (size as usize);
        if end > buf.len() {
            return Err(Error::IoError);
        }
        if end - pos < 8 {
            return Err(Error::IoError);
        }
        let ghost data = buf@.subrange(pos as int, (pos - 8 + size) as int);
        proof {
            assert(forall|k: int| 0 <= k < data.len() ==> data[k] == buf@[pos + k]);
        }
        let ((version, flags), p0) = match read_box_header_ext(buf, pos) {
            Ok(v) => v,
            Err(e) => { return Err(e); },
        };
        // The entry count is read and ignored; only the first entry is used.
        let (_, p1) = match crate::bigend::read_u32(buf, p0) {
            Ok(v) => v,
            Err(e) => { return Err(e); },
        };
        let mut avc1: Option<Avc1Box> = None;
        let mut hev1: Option<Hev1Box> = None;
        let mut hvc1: Option<Hvc1Box> = None;
        let mut vp09: Option<Vp09Box> = None;
        let mut mp4a: Option<Mp4aBox> = None;
        let mut opus: Option<OpusBox> = None;
        let mut tx3g: Option<Tx3gBox> = None;
        if end - p1 >= 8 {
            let (sub, p2) = match BoxHeader::read(buf, p1) {
                Ok(v) => v,
                Err(e) => { return Err(e); },
            };
            if p2 > end {
                return Err(Error::IoError);
            }
            proof {
                let inner = data.skip(8);
                let outer = buf@.skip(p1 as int);
                assert(inner.len() >= 8);
                assert(inner.len() == end - p1);
                assert(forall|k: int| 0 <= k < inner.len() ==> inner[k] == outer[k]);
                assert(crate::boxhead::spec_parse_header(inner) == Some(
                    (sub.name, sub.size, (p2 - p1) as int),
                ));
            }
            if sub.size > size {
                return Err(
                    Error::InvalidData("stsd box contains a box with a larger size than it"),
                );
            }
            if sub.size >= 8 && sub.size <= ((end - (p2 - 8)) as u64) {
                proof {
                    let h = crate::boxhead::spec_parse_header(data.skip(8)).unwrap();
                    assert(buf@.subrange(p2 as int, p2 - 8 + sub.size as int) =~= data.subrange(
                        8 + h.2,
                        8 + h.2 - 8 + h.1 as int,
                    ));
                }
                match sub.name {
                    BoxType::Avc1Box => {
                        let (b, _) = match Avc1Box::read_box(buf, p2, sub.size) {
                            Ok(v) => v,
                            Err(e) => { return Err(e); },
                        };
                        avc1 = Some(b);
                    },
                    BoxType::Hev1Box => {
                        let (b, _) = match Hev1Box::read_box(buf, p2, sub.size) {
                            Ok(v) => v,
                            Err(e) => { return Err(e); },
                        };
                        hev1 = Some(b);
                    },
                    BoxType::Hvc1Box => {
                        let (b, _) = match Hvc1Box::read_box(buf, p2, sub.size) {
                            Ok(v) => v,
                            Err(e) => { return Err(e); },
                        };
                        hvc1 = Some(b);
                    },
                    BoxType::Vp09Box => {
                        let (b, _) = match Vp09Box::read_box(buf, p2, sub.size) {
                            Ok(v) => v,
                            Err(e) => { return Err(e); },
                        };
                        vp09 = Some(b);
                    },
                    BoxType::Mp4aBox => {
                        let (b, _) = match Mp4aBox::read_box(buf, p2, sub.size) {
                            Ok(v) => v,
                            Err(e) => { return Err(e); },
                        };
                        mp4a = Some(b);
                    },
                    BoxType::OpusBox => {
                        let (b, _) = match OpusBox::read_box(buf, p2, sub.size) {
                            Ok(v) => v,
                            Err(e) => { return Err(e); },
                        };
                        opus = Some(b);
                    },
                    BoxType::Tx3gBox => {
                        let (b, _) = match Tx3gBox::read_box(buf, p2, sub.size) {
                            Ok(v) => v,
                            Err(e) => { return Err(e); },
                        };
                        tx3g = Some(b);
                    },
                    _ => {},
                }
            }
        }
        Ok((StsdBox { version, flags, avc1, hev1, hvc1, vp09, mp4a, opus, tx3g }, end))
    }
}


impl StsdBox {
    /// Decides well-formedness: flags in range, every set entry
    /// well-formed, and the selected entry short enough for the compact
    /// 32-bit size field.
    #[verifier::rlimit(100)]
    pub fn check_wf(&self) -> (r: bool)
        ensures
            r <==> self.wf(),
    {
        if self.flags >= 0x1000000 {
            return false;
        }
        if let Some(ref b) = self.avc1 {
            if !b.check_wf() {
                return false;
            }
        }
        if let Some(ref b) = self.hev1 {
            if !b.check_wf() {
                return false;
            }
        }
        if let Some(ref b) = self.hvc1 {
            if !b.check_wf() {
                return false;
            }
        }
        if let Some(ref b) = self.vp09 {
            if !b.check_wf() {
                return false;
            }
        }
        if let Some(ref b) = self.mp4a {
            if !b.check_wf() {
                return false;
            }
        }
        if let Some(ref b) = self.opus {
            if !b.check_wf() {
                return false;
            }
        }
        proof {
            reveal(StsdBox::spec_entry_bytes);
        }
        let entry: u64 = if let Some(ref b) = self.avc1 {
            proof {
                assert(b.spec_bytes().len() == b.spec_size());
            }
            b.get_size()
        } else if let Some(ref b) = self.hev1 {
            proof {
                assert(b.spec_bytes().len() == b.spec_size());
            }
            b.get_size()
        } else if let Some(ref b) = self.hvc1 {
            proof {
                assert(b.spec_bytes().len() == b.spec_size());
            }
            b.get_size()
        } else if let Some(ref b) = self.vp09 {
            proof {
                assert(b.spec_bytes().len() == b.spec_size());
            }
            b.get_size()
        } else if let Some(ref b) = self.mp4a {
            proof {
                let e = b.esds.unwrap();
                assert(spec_es_desc_bytes(e.es_desc).len() == 27);
                assert(e.spec_bytes().len() == e.spec_size());
                assert(b.spec_bytes().len() == b.spec_size());
            }
            b.get_size()
        } else if let Some(ref b) = self.tx3g {
            proof {
                assert(b.spec_bytes().len() == b.spec_size());
            }
            b.get_size()
        } else if let Some(ref b) = self.opus {
            proof {
                assert(b.spec_bytes().len() == b.spec_size());
            }
            b.get_size()
        } else {
            0
        };
        entry + 16 <= u32::MAX as u64
    }
}

} // verus!
