//! The `ftyp` box: file brand and compatibility list. It must be the
//! first box of a file, and its fields are bit-copied on round-trip.

use vstd::prelude::*;

use crate::bigend::be32;
use crate::bigend::put_u32;
use crate::bigend::u32_be;
use crate::boxhead::BoxHeader;
use crate::boxhead::BoxType;
use crate::boxhead::HEADER_SIZE;
use crate::error::Error;
use crate::types::FourCC;

verus! {

#[derive(Debug, Clone, PartialEq, Eq, Default)]
pub struct FtypBox {
    pub major_brand: FourCC,
    pub minor_version: u32,
    pub compatible_brands: Vec<FourCC>,
}

/// The concatenated raw bytes of a brand list.
pub open spec fn brands_bytes(brands: Seq<FourCC>) -> Seq<u8>
    decreases brands.len(),
{
    if brands.len() == 0 {
        Seq::empty()
    } else {
        brands_bytes(brands.drop_last()) + brands.last().value@
    }
}

pub proof fn lemma_brands_bytes_len(brands: Seq<FourCC>)
    ensures
        brands_bytes(brands).len() == 4 * brands.len(),
    decreases brands.len(),
{
    if brands.len() > 0 {
        lemma_brands_bytes_len(brands.drop_last());
    }
}

/// Each brand's bytes sit at their own offset of the list serialization.
pub proof fn lemma_brands_bytes_at(brands: Seq<FourCC>, i: int)
    requires
        0 <= i < brands.len(),
    ensures
        brands_bytes(brands).subrange(4 * i, 4 * i + 4) == brands[i].value@,
    decreases brands.len(),
{
    lemma_brands_bytes_len(brands);
    if i == brands.len() - 1 {
        lemma_brands_bytes_len(brands.drop_last());
        assert(brands_bytes(brands).subrange(4 * i, 4 * i + 4) =~= brands.last().value@);
    } else {
        lemma_brands_bytes_at(brands.drop_last(), i);
        lemma_brands_bytes_len(brands.drop_last());
        assert(brands_bytes(brands).subrange(4 * i, 4 * i + 4) =~= brands_bytes(
            brands.drop_last(),
        ).subrange(4 * i, 4 * i + 4));
    }
}

/// What an `ftyp` payload (the bytes after the header) means: major brand,
/// minor version, and the brand list. Trailing bytes short of a full brand
/// are ignored, as the reader skips them.
pub open spec fn spec_parse_ftyp(data: Seq<u8>) -> Option<(FourCC, u32, Seq<FourCC>)> {
    if data.len() < 8 {
        None
    } else {
        let major = FourCC { value: [data[0], data[1], data[2], data[3]] };
        let minor = be32(data[4], data[5], data[6], data[7]);
        let count = (data.len() - 8) / 4;
        let brands = Seq::new(
            count as nat,
            |i: int|
                FourCC {
                    value: [data[8 + 4 * i], data[9 + 4 * i], data[10 + 4 * i], data[11 + 4 * i]],
                },
        );
        Some((major, minor, brands))
    }
}

impl FtypBox {
    pub open spec fn spec_size(&self) -> u64 {
        (16 + 4 * self.compatible_brands@.len()) as u64
    }

    /// A brand list short enough that the size fits its 32-bit field.
    pub open spec fn wf(&self) -> bool {
        16 + 4 * self.compatible_brands@.len() <= u32::MAX
    }

    /// The payload after the header.
    pub open spec fn spec_payload(&self) -> Seq<u8> {
        self.major_brand.value@ + u32_be(self.minor_version) + brands_bytes(
            self.compatible_brands@,
        )
    }

    /// The full wire form.
    pub open spec fn spec_bytes(&self) -> Seq<u8> {
        BoxHeader { name: BoxType::FtypBox, size: self.spec_size() }.spec_bytes()
            + self.spec_payload()
    }

    pub fn get_type(&self) -> (r: BoxType)
        ensures
            r == BoxType::FtypBox,
    {
        BoxType::FtypBox
    }

    pub fn get_size(&self) -> (r: u64)
        requires
            self.wf(),
        ensures
            r == self.spec_size(),
    {
        HEADER_SIZE + 8 + 4 * (self.compatible_brands.len() as u64)
    }

    pub fn write_box(&self, out: &mut Vec<u8>) -> (r: Result<u64, Error>)
        requires
            self.wf(),
        ensures
            final(out)@ == old(out)@ + self.spec_bytes(),
            r == Ok::<u64, Error>(self.spec_size()),
    {
        let size = self.get_size();
        let header = BoxHeader::new(BoxType::FtypBox, size);
        let res = header.write(out);
        self.major_brand.put(out);
        put_u32(out, self.minor_version);
        let ghost mid = out@;
        let mut i: usize = 0;
        while i < self.compatible_brands.len()
            invariant
                i <= self.compatible_brands@.len(),
                out@ == mid + brands_bytes(self.compatible_brands@.take(i as int)),
            decreases self.compatible_brands@.len() - i,
        {
            self.compatible_brands[i].put(out);
            proof {
                let pre = self.compatible_brands@.take(i as int);
                let nxt = self.compatible_brands@.take(i + 1);
                assert(nxt.drop_last() =~= pre);
                assert(nxt.last() == self.compatible_brands@[i as int]);
                assert(out@ =~= mid + brands_bytes(nxt));
            }
            i = i + 1;
        }
        proof {
            assert(self.compatible_brands@.take(self.compatible_brands@.len() as int)
                =~= self.compatible_brands@);
            assert(out@ =~= old(out)@ + self.spec_bytes());
        }
        Ok(size)
    }

    /// Reads the payload of an `ftyp` box whose header (already consumed)
    /// declared `size`; `pos` stands just after the header.
    pub fn read_box(buf: &Vec<u8>, pos: usize, size: u64) -> (r: Result<(FtypBox, usize), Error>)
        requires
            pos >= 8,
            pos - 8 + size <= usize::MAX,
        ensures
            size >= 16 && pos - 8 + size <= buf@.len() ==> (r matches Ok(v) && spec_parse_ftyp(
                buf@.subrange(pos as int, pos - 8 + size),
            ) == Some((v.0.major_brand, v.0.minor_version, v.0.compatible_brands@)) && v.1 == pos
                - 8 + size),
            size < 16 ==> (r matches Err(e) && e == Error::InvalidData("ftyp size too small")),
            size >= 16 && pos - 8 + size > buf@.len() ==> (r matches Err(e) && e
                == Error::IoError),
    {
        if size < 16 {
            return Err(Error::InvalidData("ftyp size too small"));
        }
        let start = pos - 8;
        let end = start + (size as usize);
        if end > buf.len() {
            return Err(Error::IoError);
        }
        let ghost data = buf@.subrange(pos as int, end as int);
        assert(data.len() == size - 8);
        let (major_brand, p1) = match FourCC::read_at(buf, pos) {
            Ok(v) => v,
            Err(e) => { return Err(e); },
        };
        let (minor_version, p2) = match crate::bigend::read_u32(buf, p1) {
            Ok(v) => v,
            Err(e) => { return Err(e); },
        };
        proof {
            assert(major_brand.value@ =~= seq![data[0], data[1], data[2], data[3]]);
            assert(data[4] == buf@[pos + 4] && data[5] == buf@[pos + 5] && data[6] == buf@[pos + 6]
                && data[7] == buf@[pos + 7]);
        }
        let brand_count: usize = (end - p2) / 4;
        let mut compatible_brands: Vec<FourCC> = Vec::new();
        let mut i: usize = 0;
        while i < brand_count
            invariant
                i <= brand_count,
                p2 == pos + 8,
                pos >= 8,
                brand_count == (end - pos - 8) / 4,
                pos + 8 + 4 * brand_count <= end <= buf@.len(),
                end == pos - 8 + size,
                data == buf@.subrange(pos as int, end as int),
                data.len() == size - 8 >= 8,
                compatible_brands@.len() == i,
                forall|j: int|
                    0 <= j < i ==> compatible_brands@[j] == (FourCC {
                        value: [
                            data[8 + 4 * j],
                            data[9 + 4 * j],
                            data[10 + 4 * j],
                            data[11 + 4 * j],
                        ],
                    }),
            decreases brand_count - i,
        {
            let bp = p2 + 4 * i;
            let (brand, _) = match FourCC::read_at(buf, bp) {
                Ok(v) => v,
                Err(e) => { return Err(e); },
            };
            proof {
                broadcast use vstd::array::axiom_array_ext_equal;

                assert(brand.value@ =~= seq![
                    data[8 + 4 * (i as int)],
                    data[9 + 4 * (i as int)],
                    data[10 + 4 * (i as int)],
                    data[11 + 4 * (i as int)],
                ]);
                assert(brand.value =~= [
                    data[8 + 4 * (i as int)],
                    data[9 + 4 * (i as int)],
                    data[10 + 4 * (i as int)],
                    data[11 + 4 * (i as int)],
                ]);
            }
            compatible_brands.push(brand);
            i = i + 1;
        }
        let b = FtypBox { major_brand, minor_version, compatible_brands };
        proof {
            broadcast use vstd::array::axiom_array_ext_equal;

            let parsed = spec_parse_ftyp(data);
            assert(b.major_brand.value@ =~= seq![data[0], data[1], data[2], data[3]]);
            assert(b.major_brand.value =~= [data[0], data[1], data[2], data[3]]);
            assert(parsed matches Some(t) && t.0 == b.major_brand && t.1 == b.minor_version && t.2
                =~= b.compatible_brands@);
        }
        Ok((b, end))
    }
}

/// Serializing any well-formed `ftyp` box and parsing the result yields
/// the box back.
#[verifier::rlimit(100)]
pub proof fn lemma_ftyp_round_trip(b: FtypBox)
    requires
        b.wf(),
    ensures
        b.spec_bytes().len() == b.spec_size(),
        spec_parse_ftyp(b.spec_bytes().skip(8)) == Some(
            (b.major_brand, b.minor_version, b.compatible_brands@),
        ),
{
    let bytes = b.spec_bytes();
    let payload = b.spec_payload();
    lemma_brands_bytes_len(b.compatible_brands@);
    assert(bytes.skip(8) =~= payload);
    let data = payload;
    assert(data.len() == 8 + 4 * b.compatible_brands@.len());
    broadcast use vstd::array::axiom_array_ext_equal;

    let major = FourCC { value: [data[0], data[1], data[2], data[3]] };
    assert(major.value@ =~= b.major_brand.value@);
    assert(major.value =~= b.major_brand.value);
    assert(major == b.major_brand);
    crate::bigend::lemma_u32_be_val(b.minor_version);
    assert(be32(data[4], data[5], data[6], data[7]) == b.minor_version);
    let count = (data.len() - 8) / 4;
    assert(count == b.compatible_brands@.len());
    let parsed = spec_parse_ftyp(data).unwrap();
    assert forall|i: int| 0 <= i < count implies parsed.2[i] == b.compatible_brands@[i] by {
        lemma_brands_bytes_at(b.compatible_brands@, i);
        let bb = brands_bytes(b.compatible_brands@);
        assert(bb.subrange(4 * i, 4 * i + 4) == b.compatible_brands@[i].value@);
        assert(data[8 + 4 * i] == bb[4 * i]);
        assert(data[9 + 4 * i] == bb[4 * i + 1]);
        assert(data[10 + 4 * i] == bb[4 * i + 2]);
        assert(data[11 + 4 * i] == bb[4 * i + 3]);
        assert(parsed.2[i].value@ =~= b.compatible_brands@[i].value@);
        assert(parsed.2[i].value =~= b.compatible_brands@[i].value);
    }
    assert(parsed.2 =~= b.compatible_brands@);
}

} // verus!
