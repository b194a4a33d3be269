//! ISO base media file format boxes: each starts with a 32-bit size
//! (header included) and a FourCC type; size 1 means a 64-bit size follows,
//! size 0 means the box runs to the end of the file.

use vstd::prelude::*;
use crate::error::{TaoError, TaoResult};
use crate::io::{IoContext, bytes_at, exhausted_cursor};
use crate::endian::{be32, u32_from_be};
use crate::text::{utf8_lossy, utf8_lossy_chars, all_ascii, ascii_chars};

verus! {

/// Box types the demuxer tells apart.
#[derive(Debug, Clone, Copy, PartialEq, Eq)]
pub enum BoxType {
    /// `ftyp`: file type.
    Ftyp,
    /// `moov`: movie metadata.
    Moov,
    /// `mvhd`: movie header.
    Mvhd,
    /// `trak`: track.
    Trak,
    /// `tkhd`: track header.
    Tkhd,
    /// `mdia`: media.
    Mdia,
    /// `mdhd`: media header.
    Mdhd,
    /// `hdlr`: handler reference.
    Hdlr,
    /// `minf`: media information.
    Minf,
    /// `stbl`: sample table.
    Stbl,
    /// `stsd`: sample descriptions.
    Stsd,
    /// `stts`: decoding time to sample.
    Stts,
    /// `stsc`: sample to chunk.
    Stsc,
    /// `stsz`: sample sizes.
    Stsz,
    /// `stco`: chunk offsets, 32 bit.
    Stco,
    /// `co64`: chunk offsets, 64 bit.
    Co64,
    /// `stss`: sync samples.
    Stss,
    /// `ctts`: composition time offsets.
    Ctts,
    /// `mdat`: media data.
    Mdat,
    /// `free`: free space.
    Free,
    /// `skip`: skipped space.
    Skip,
    /// Any other type, with its FourCC.
    Unknown([u8; 4]),
}

/// The known box type with big-endian FourCC value `v`.
pub open spec fn known_box_type(v: int) -> Option<BoxType> {
    if v == 0x6674_7970 {
        Some(BoxType::Ftyp)
    } else if v == 0x6D6F_6F76 {
        Some(BoxType::Moov)
    } else if v == 0x6D76_6864 {
        Some(BoxType::Mvhd)
    } else if v == 0x7472_616B {
        Some(BoxType::Trak)
    } else if v == 0x746B_6864 {
        Some(BoxType::Tkhd)
    } else if v == 0x6D64_6961 {
        Some(BoxType::Mdia)
    } else if v == 0x6D64_6864 {
        Some(BoxType::Mdhd)
    } else if v == 0x6864_6C72 {
        Some(BoxType::Hdlr)
    } else if v == 0x6D69_6E66 {
        Some(BoxType::Minf)
    } else if v == 0x7374_626C {
        Some(BoxType::Stbl)
    } else if v == 0x7374_7364 {
        Some(BoxType::Stsd)
    } else if v == 0x7374_7473 {
        Some(BoxType::Stts)
    } else if v == 0x7374_7363 {
        Some(BoxType::Stsc)
    } else if v == 0x7374_737A {
        Some(BoxType::Stsz)
    } else if v == 0x7374_636F {
        Some(BoxType::Stco)
    } else if v == 0x636F_3634 {
        Some(BoxType::Co64)
    } else if v == 0x7374_7373 {
        Some(BoxType::Stss)
    } else if v == 0x6374_7473 {
        Some(BoxType::Ctts)
    } else if v == 0x6D64_6174 {
        Some(BoxType::Mdat)
    } else if v == 0x6672_6565 {
        Some(BoxType::Free)
    } else if v == 0x736B_6970 {
        Some(BoxType::Skip)
    } else {
        None
    }
}

/// Whether `t` is the box type of the FourCC bytes `f`.
pub open spec fn box_type_is(t: BoxType, f: Seq<u8>) -> bool {
    match known_box_type(be32(f[0], f[1], f[2], f[3])) {
        Some(k) => t == k,
        None => t matches BoxType::Unknown(a) && a@ == f,
    }
}

/// Four bytes are determined by their big-endian value.
proof fn lemma_be32_injective(a: Seq<u8>, b: Seq<u8>)
    requires
        a.len() == 4,
        b.len() == 4,
        be32(a[0], a[1], a[2], a[3]) == be32(b[0], b[1], b[2], b[3]),
    ensures
        a == b,
{
    let (a0, a1, a2, a3) = (a[0], a[1], a[2], a[3]);
    let (b0, b1, b2, b3) = (b[0], b[1], b[2], b[3]);
    assert(a0 == b0 && a1 == b1 && a2 == b2 && a3 == b3) by (nonlinear_arith)
        requires
            a0 * 0x100_0000 + a1 * 0x1_0000 + a2 * 0x100 + a3 == b0 * 0x100_0000 + b1 * 0x1_0000 + b2 * 0x100 + b3,
            a0 < 256, a1 < 256, a2 < 256, a3 < 256, b0 < 256, b1 < 256, b2 < 256, b3 < 256,
    ;
    assert(a =~= b);
}

/// Distinct FourCCs give distinct box types; a FourCC that names no known
/// box gives `Unknown` holding its bytes.
pub proof fn law_box_type_injective(a: Seq<u8>, b: Seq<u8>, ta: BoxType, tb: BoxType)
    requires
        a.len() == 4,
        b.len() == 4,
        box_type_is(ta, a),
        box_type_is(tb, b),
        a != b,
    ensures
        ta != tb,
        known_box_type(be32(a[0], a[1], a[2], a[3])) is None ==> (ta matches BoxType::Unknown(u) && u@ == a),
{
    let va = be32(a[0], a[1], a[2], a[3]);
    let vb = be32(b[0], b[1], b[2], b[3]);
    if known_box_type(va) is Some && known_box_type(vb) is Some && ta == tb {
        assert(va == vb);
        lemma_be32_injective(a, b);
    }
}

impl BoxType {
    /// The box type of a FourCC.
    pub fn from_fourcc(fourcc: &[u8; 4]) -> (r: Self)
        ensures
            box_type_is(r, fourcc@),
    {
        let v = u32_from_be(fourcc[0], fourcc[1], fourcc[2], fourcc[3]);
        match v {
            0x6674_7970 => BoxType::Ftyp,
            0x6D6F_6F76 => BoxType::Moov,
            0x6D76_6864 => BoxType::Mvhd,
            0x7472_616B => BoxType::Trak,
            0x746B_6864 => BoxType::Tkhd,
            0x6D64_6961 => BoxType::Mdia,
            0x6D64_6864 => BoxType::Mdhd,
            0x6864_6C72 => BoxType::Hdlr,
            0x6D69_6E66 => BoxType::Minf,
            0x7374_626C => BoxType::Stbl,
            0x7374_7364 => BoxType::Stsd,
            0x7374_7473 => BoxType::Stts,
            0x7374_7363 => BoxType::Stsc,
            0x7374_737A => BoxType::Stsz,
            0x7374_636F => BoxType::Stco,
            0x636F_3634 => BoxType::Co64,
            0x7374_7373 => BoxType::Stss,
            0x6374_7473 => BoxType::Ctts,
            0x6D64_6174 => BoxType::Mdat,
            0x6672_6565 => BoxType::Free,
            0x736B_6970 => BoxType::Skip,
            _ => {
                let t = BoxType::Unknown(*fourcc);
                assert(t matches BoxType::Unknown(a) && a@ == fourcc@);
                t
            },
        }
    }
}

/// A box header as read.
pub struct BoxHeader {
    /// Total size, header included; 0 means up to the end of the file.
    pub size: u64,
    /// Box type.
    pub box_type: BoxType,
    /// Header size: 8, or 16 with a 64-bit size.
    pub header_size: u64,
}

impl BoxHeader {
    /// Size of the content after the header; `u64::MAX` for a box that
    /// runs to the end of the file. A nonzero size smaller than the header
    /// is outside what this accepts (the subtraction would overflow).
    pub fn content_size(&self) -> (r: u64)
        requires
            self.size == 0 || self.size >= self.header_size,
        ensures
            r == (if self.size == 0 {
                0xFFFF_FFFF_FFFF_FFFFu64
            } else {
                (self.size - self.header_size) as u64
            }),
    {
        if self.size == 0 {
            0xFFFF_FFFF_FFFF_FFFF
        } else {
            self.size - self.header_size
        }
    }
}

/// Big-endian 32-bit value of the four bytes of `d` at `p`.
pub open spec fn be32_at(d: Seq<u8>, p: int) -> int {
    be32(d[p], d[p + 1], d[p + 2], d[p + 3])
}

/// Whether a box header can be read at `p`.
pub open spec fn box_header_readable(d: Seq<u8>, p: nat) -> bool {
    p + 8 <= d.len() && (be32_at(d, p as int) != 1 || p + 16 <= d.len())
}

/// (size, header size) of the box header at `p`.
pub open spec fn box_header_sizes(d: Seq<u8>, p: nat) -> (u64, u64) {
    if be32_at(d, p as int) == 1 {
        ((be32_at(d, p + 8int) * 0x1_0000_0000 + be32_at(d, p + 12int)) as u64, 16)
    } else {
        (be32_at(d, p as int) as u64, 8)
    }
}

/// Reads a box header.
pub fn read_box_header(io: &mut IoContext) -> (r: TaoResult<BoxHeader>)
    ensures
        final(io).contents() == old(io).contents(),
        (r is Ok) == box_header_readable(old(io).contents(), old(io).cursor()),
        r is Err ==> r == Err::<BoxHeader, TaoError>(TaoError::Eof),
        r matches Ok(h) ==> ({
            let d = old(io).contents();
            let p = old(io).cursor();
            &&& (h.size, h.header_size) == box_header_sizes(d, p)
            &&& box_type_is(h.box_type, bytes_at(d, p + 4, 4))
            &&& final(io).cursor() == p + h.header_size
        }),
{
    let ghost d = io.contents();
    let ghost p = io.cursor();
    let size32 = io.read_u32_be()?;
    let fourcc = io.read_tag()?;
    let box_type = BoxType::from_fourcc(&fourcc);
    if size32 == 1 {
        let hi = io.read_u32_be()? as u64;
        let lo = io.read_u32_be()? as u64;
        Ok(BoxHeader { size: hi * 0x1_0000_0000 + lo, box_type, header_size: 16 })
    } else {
        Ok(BoxHeader { size: size32 as u64, box_type, header_size: 8 })
    }
}

/// Contents of an `ftyp` box.
pub struct FtypBox {
    /// Major brand.
    pub major_brand: [u8; 4],
    /// Minor version.
    pub _minor_version: u32,
    /// Compatible brands.
    pub _compatible_brands: Vec<[u8; 4]>,
}

/// Number of compatible brands an `ftyp` box of `content_size` holds.
pub open spec fn ftyp_brand_count(content_size: u64) -> nat {
    (if content_size >= 8 { (content_size - 8) / 4 } else { 0 }) as usize as nat
}

impl FtypBox {
    /// Parses the content of an `ftyp` box: brand, minor version, then one
    /// brand per four remaining bytes.
    pub fn parse(io: &mut IoContext, content_size: u64) -> (r: TaoResult<Self>)
        requires
            4 * ftyp_brand_count(content_size) <= isize::MAX,
        ensures
            final(io).contents() == old(io).contents(),
            (r is Ok) == old(io).can_read(8 + 4 * ftyp_brand_count(content_size)),
            r is Err ==> r == Err::<FtypBox, TaoError>(TaoError::Eof),
            r matches Ok(f) ==> ({
                let d = old(io).contents();
                let p = old(io).cursor();
                &&& f.major_brand@ == bytes_at(d, p, 4)
                &&& f._minor_version == be32_at(d, p + 4int)
                &&& f._compatible_brands@.len() == ftyp_brand_count(content_size)
                &&& forall|k: int| 0 <= k < f._compatible_brands@.len() ==>
                    (#[trigger] f._compatible_brands@[k])@ == bytes_at(d, (p + 8 + 4 * k) as nat, 4)
                &&& final(io).cursor() == p + 8 + 4 * ftyp_brand_count(content_size)
            }),
    {
        let ghost d = io.contents();
        let ghost p = io.cursor();
        let major_brand = io.read_tag()?;
        let minor_version = io.read_u32_be()?;
        let remaining = content_size.saturating_sub(8);
        let brand_count = (remaining / 4) as usize;
        let mut compatible_brands: Vec<[u8; 4]> = Vec::new();
        let mut i: usize = 0;
        while i < brand_count
            invariant
                i <= brand_count,
                brand_count == ftyp_brand_count(content_size),
                io.contents() == d,
                d == old(io).contents(),
                p == old(io).cursor(),
                p + 8 + 4 * i <= d.len(),
                io.cursor() == p + 8 + 4 * i,
                compatible_brands@.len() == i,
                forall|k: int| 0 <= k < i ==>
                    (#[trigger] compatible_brands@[k])@ == bytes_at(d, (p + 8 + 4 * k) as nat, 4),
            decreases brand_count - i,
        {
            let tag = io.read_tag()?;
            compatible_brands.push(tag);
            i = i + 1;
        }
        Ok(FtypBox {
            major_brand,
            _minor_version: minor_version,
            _compatible_brands: compatible_brands,
        })
    }

    /// The major brand as text, invalid UTF-8 replaced.
    pub fn major_brand_str(&self) -> (r: String)
        ensures
            r@ == utf8_lossy_chars(self.major_brand@),
            all_ascii(self.major_brand@) ==> r@ == ascii_chars(self.major_brand@),
    {
        utf8_lossy(self.major_brand.as_slice())
    }
}

} // verus!
