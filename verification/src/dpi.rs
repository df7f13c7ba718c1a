//! Embedding a pixel density into encoded JPEG and PNG files.
//!
//! A JPEG produced by the encoder starts with a JFIF APP0 segment whose
//! density fields sit at a fixed offset (bytes 13 to 17: the unit, then the
//! horizontal and vertical density); a PNG starts with its signature and an
//! IHDR chunk (33 bytes in all), after which a `pHYs` chunk is inserted.

use vstd::prelude::*;

verus! {

/// The encoded image formats that the exporter produces.
#[derive(Clone, Copy, Debug, PartialEq, Eq, Structural)]
pub enum ImageFormat {
    Jpeg,
    Png,
    Webp,
    Bmp,
}

/// Big-endian bytes of a 16-bit value.
pub open spec fn be16(v: u16) -> Seq<u8> {
    seq![(v / 256) as u8, (v % 256) as u8]
}

/// Big-endian bytes of a 32-bit value.
pub open spec fn be32(v: u32) -> Seq<u8> {
    seq![
        (v / 0x100_0000) as u8,
        ((v / 0x1_0000) % 256) as u8,
        ((v / 256) % 256) as u8,
        (v % 256) as u8,
    ]
}

/// The value of two big-endian bytes.
pub open spec fn read_be16(s: Seq<u8>) -> int {
    s[0] * 256 + s[1]
}

/// The value of four big-endian bytes.
pub open spec fn read_be32(s: Seq<u8>) -> int {
    s[0] * 0x100_0000 + s[1] * 0x1_0000 + s[2] * 256 + s[3]
}

/// Offset of the JFIF density unit byte; the two densities follow it.
pub const JFIF_DENSITY_START: usize = 13;

/// Offset just past the JFIF vertical density.
pub const JFIF_DENSITY_END: usize = 18;

/// Length of the PNG signature and IHDR chunk, where `pHYs` goes.
pub const PNG_HEADER_LEN: usize = 33;

/// A density (whole dots per inch) as a 16-bit value, saturating.
pub open spec fn density16(density: u32) -> u16 {
    if density > 0xffff { 0xffff } else { density as u16 }
}

/// The dots per inch written into a JPEG for a given density.
pub open spec fn jfif_dpi(density: u32) -> int {
    72 * density16(density)
}

/// The JFIF header with its unit set to dots per inch and both densities
/// set to `dpi`; every other byte is kept.
pub open spec fn jfif_with_density(bytes: Seq<u8>, dpi: u16) -> Seq<u8> {
    bytes.subrange(0, JFIF_DENSITY_START as int) + seq![1u8] + be16(dpi) + be16(dpi)
        + bytes.subrange(JFIF_DENSITY_END as int, bytes.len() as int)
}

/// The type and data of a `pHYs` chunk: the same number of pixels per metre
/// on both axes, with the unit byte saying "metre".
pub open spec fn phys_payload(dots_per_meter: u32) -> Seq<u8> {
    seq![0x70u8, 0x48u8, 0x59u8, 0x73u8] + be32(dots_per_meter) + be32(dots_per_meter) + seq![1u8]
}

/// A whole `pHYs` chunk: data length, type and data, checksum.
pub open spec fn phys_chunk(dots_per_meter: u32, checksum: u32) -> Seq<u8> {
    be32(9) + phys_payload(dots_per_meter) + be32(checksum)
}

/// The PNG with a `pHYs` chunk inserted right after its header.
pub open spec fn png_with_phys(bytes: Seq<u8>, dots_per_meter: u32, checksum: u32) -> Seq<u8> {
    bytes.subrange(0, PNG_HEADER_LEN as int) + phys_chunk(dots_per_meter, checksum)
        + bytes.subrange(PNG_HEADER_LEN as int, bytes.len() as int)
}

/// The CRC-32 (ISO-HDLC parameters, as used by PNG) of a byte sequence.
pub uninterp spec fn crc32_iso_hdlc(data: Seq<u8>) -> u32;

/// What embedding a density gives: nothing changes at density 1 or for a
/// format other than JPEG and PNG.
pub open spec fn dpi_embedded(bytes: Seq<u8>, format: ImageFormat, density: u32, dots_per_meter: u32) -> Seq<u8> {
    if density == 1 {
        bytes
    } else {
        match format {
            ImageFormat::Jpeg => jfif_with_density(bytes, jfif_dpi(density) as u16),
            ImageFormat::Png => png_with_phys(
                bytes,
                dots_per_meter,
                crc32_iso_hdlc(phys_payload(dots_per_meter)),
            ),
            _ => bytes,
        }
    }
}

/// The inputs on which embedding a density stays within the file and
/// within 16-bit arithmetic.
pub open spec fn dpi_embeddable(len: nat, format: ImageFormat, density: u32) -> bool {
    density != 1 ==> match format {
        ImageFormat::Jpeg => len >= JFIF_DENSITY_END && density <= 910,
        ImageFormat::Png => len >= PNG_HEADER_LEN,
        _ => true,
    }
}

fn push_be32(out: &mut Vec<u8>, v: u32)
    ensures
        final(out)@ == old(out)@ + be32(v),
{
    out.push((v / 0x100_0000) as u8);
    out.push(((v / 0x1_0000) % 256) as u8);
    out.push(((v / 256) % 256) as u8);
    out.push((v % 256) as u8);
}

/// The type and data of the `pHYs` chunk for a number of pixels per metre.
pub fn phys_payload_bytes(dots_per_meter: u32) -> (r: Vec<u8>)
    ensures
        r@ == phys_payload(dots_per_meter),
{
    let mut r: Vec<u8> = Vec::new();
    r.push(0x70);
    r.push(0x48);
    r.push(0x59);
    r.push(0x73);
    push_be32(&mut r, dots_per_meter);
    push_be32(&mut r, dots_per_meter);
    r.push(1);
    r
}

/// Rewrites the JFIF density fields: unit "dots per inch", then `dpi` on
/// both axes.
pub fn set_jfif_density(bytes: Vec<u8>, dpi: u16) -> (r: Vec<u8>)
    requires
        bytes.len() >= JFIF_DENSITY_END,
    ensures
        r@ == jfif_with_density(bytes@, dpi),
{
    let ghost original = bytes@;
    let mut bytes = bytes;
    let hi = (dpi / 256) as u8;
    let lo = (dpi % 256) as u8;
    bytes[13] = 1;
    bytes[14] = hi;
    bytes[15] = lo;
    bytes[16] = hi;
    bytes[17] = lo;
    assert(bytes@ =~= jfif_with_density(original, dpi));
    bytes
}


/// Calls `crc::Crc::<u32>::new(&crc::CRC_32_ISO_HDLC)`, then `digest`,
/// `update` and `finalize` of the crc crate: the CRC-32/ISO-HDLC checksum of
/// `data`. Claimed: the result is `crc32_iso_hdlc` of the bytes, a function
/// of the bytes alone; nothing is claimed of its value.
#[verifier::external_body]
fn crc32_checksum(data: &[u8]) -> (c: u32)
    ensures
        c == crc32_iso_hdlc(data@),
{
    let crc = crc::Crc::<u32>::new(&crc::CRC_32_ISO_HDLC);
    let mut digest = crc.digest();
    digest.update(data);
    digest.finalize()
}

/// Inserts a `pHYs` chunk with the given data and checksum after the PNG
/// header.
pub fn insert_phys_chunk(bytes: Vec<u8>, dots_per_meter: u32, checksum: u32) -> (r: Vec<u8>)
    requires
        bytes.len() >= PNG_HEADER_LEN,
    ensures
        r@ == png_with_phys(bytes@, dots_per_meter, checksum),
{
    let n = bytes.len();
    let mut r: Vec<u8> = Vec::new();
    let mut i: usize = 0;
    while i < PNG_HEADER_LEN
        invariant
            i <= PNG_HEADER_LEN <= n == bytes.len(),
            r@ == bytes@.subrange(0, i as int),
        decreases PNG_HEADER_LEN - i,
    {
        r.push(bytes[i]);
        i = i + 1;
        assert(r@ =~= bytes@.subrange(0, i as int));
    }
    push_be32(&mut r, 9);
    let payload = phys_payload_bytes(dots_per_meter);
    let mut j: usize = 0;
    let ghost head = r@;
    while j < payload.len()
        invariant
            j <= payload.len(),
            r@ == head + payload@.subrange(0, j as int),
        decreases payload.len() - j,
    {
        r.push(payload[j]);
        j = j + 1;
        assert(r@ =~= head + payload@.subrange(0, j as int));
    }
    assert(payload@.subrange(0, payload.len() as int) =~= payload@);
    push_be32(&mut r, checksum);
    let ghost mid = r@;
    assert(mid =~= bytes@.subrange(0, PNG_HEADER_LEN as int) + phys_chunk(dots_per_meter, checksum));
    while i < n
        invariant
            PNG_HEADER_LEN <= i <= n == bytes.len(),
            r@ == mid + bytes@.subrange(PNG_HEADER_LEN as int, i as int),
        decreases n - i,
    {
        r.push(bytes[i]);
        i = i + 1;
        assert(r@ =~= mid + bytes@.subrange(PNG_HEADER_LEN as int, i as int));
    }
    assert(r@ =~= png_with_phys(bytes@, dots_per_meter, checksum));
    r
}

/// Embeds a pixel density in encoded image bytes. `density` is the whole
/// number of device pixels per CSS pixel, `dots_per_meter` the resolution
/// that goes into a PNG. At density 1, and for formats other than JPEG and
/// PNG, the bytes come back as they were.
pub fn with_dpi(data: Vec<u8>, format: ImageFormat, density: u32, dots_per_meter: u32) -> (r: Vec<u8>)
    requires
        dpi_embeddable(data.len() as nat, format, density),
    ensures
        r@ == dpi_embedded(data@, format, density, dots_per_meter),
        density == 1 ==> r@ == data@,
        format == ImageFormat::Jpeg && density != 1 ==> {
            &&& r@.len() == data@.len()
            &&& r@[13] == 1
            &&& read_be16(r@.subrange(14, 16)) == 72 * density
            &&& read_be16(r@.subrange(16, 18)) == 72 * density
        },
{
    proof {
        if format == ImageFormat::Jpeg && density != 1 {
            law_jpeg_density_reads_back(data@, density, dots_per_meter);
        }
    }
    if density == 1 {
        return data;
    }
    match format {
        ImageFormat::Jpeg => {
            let d16: u16 = if density > 0xffff { 0xffff } else { density as u16 };
            set_jfif_density(data, 72 * d16)
        },
        ImageFormat::Png => {
            let payload = phys_payload_bytes(dots_per_meter);
            let checksum = crc32_checksum(payload.as_slice());
            insert_phys_chunk(data, dots_per_meter, checksum)
        },
        _ => data,
    }
}


proof fn lemma_be16_reads_back(v: u16)
    ensures
        be16(v).len() == 2,
        read_be16(be16(v)) == v,
{
    assert(((v / 256) as u8) as int == v / 256);
    assert(((v % 256) as u8) as int == v % 256);
}

proof fn lemma_be32_reads_back(v: u32)
    ensures
        be32(v).len() == 4,
        read_be32(be32(v)) == v,
{
    let b0 = (v / 0x100_0000) as u8;
    let b1 = ((v / 0x1_0000) % 256) as u8;
    let b2 = ((v / 256) % 256) as u8;
    let b3 = (v % 256) as u8;
    assert(b0 as int == v / 0x100_0000);
    assert(b1 as int == (v / 0x1_0000) % 256);
    assert(b2 as int == (v / 256) % 256);
    assert(b3 as int == v % 256);
    assert((v / 0x100_0000) * 0x100_0000 + ((v / 0x1_0000) % 256) * 0x1_0000
        + ((v / 256) % 256) * 256 + v % 256 == v) by (bit_vector);
}

/// At density 1 the encoded bytes are kept as they are, whatever the format.
pub proof fn law_unit_density_keeps_bytes(bytes: Seq<u8>, format: ImageFormat, dots_per_meter: u32)
    ensures
        dpi_embedded(bytes, format, 1, dots_per_meter) == bytes,
{
}

/// Formats other than JPEG and PNG are never rewritten.
pub proof fn law_other_formats_untouched(bytes: Seq<u8>, density: u32, dots_per_meter: u32)
    ensures
        dpi_embedded(bytes, ImageFormat::Webp, density, dots_per_meter) == bytes,
        dpi_embedded(bytes, ImageFormat::Bmp, density, dots_per_meter) == bytes,
{
}

/// Setting the JFIF density twice to the same value is the same as once.
pub proof fn law_jfif_density_idempotent(bytes: Seq<u8>, dpi: u16)
    requires
        bytes.len() >= JFIF_DENSITY_END,
    ensures
        jfif_with_density(jfif_with_density(bytes, dpi), dpi) == jfif_with_density(bytes, dpi),
{
    let once = jfif_with_density(bytes, dpi);
    assert(once.len() == bytes.len());
    assert(jfif_with_density(once, dpi) =~= once);
}

/// Embedding a density into a JPEG keeps its length and every byte outside
/// the JFIF density fields, and the fields read back as "dots per inch" and
/// `72 * density` dots per inch on both axes.
pub proof fn law_jpeg_density_reads_back(bytes: Seq<u8>, density: u32, dots_per_meter: u32)
    requires
        density != 1,
        dpi_embeddable(bytes.len(), ImageFormat::Jpeg, density),
    ensures
        ({
            let r = dpi_embedded(bytes, ImageFormat::Jpeg, density, dots_per_meter);
            &&& r.len() == bytes.len()
            &&& forall|i: int|
                0 <= i < bytes.len() && !(JFIF_DENSITY_START <= i < JFIF_DENSITY_END) ==> r[i]
                    == bytes[i]
            &&& r[13] == 1
            &&& read_be16(r.subrange(14, 16)) == 72 * density
            &&& read_be16(r.subrange(16, 18)) == 72 * density
        }),
{
    let dpi = jfif_dpi(density) as u16;
    assert(dpi == 72 * density);
    let r = dpi_embedded(bytes, ImageFormat::Jpeg, density, dots_per_meter);
    assert(r == jfif_with_density(bytes, dpi));
    lemma_be16_reads_back(dpi);
    assert(r.subrange(14, 16) =~= be16(dpi));
    assert(r.subrange(16, 18) =~= be16(dpi));
    assert forall|i: int|
        0 <= i < bytes.len() && !(JFIF_DENSITY_START <= i < JFIF_DENSITY_END) implies r[i]
        == bytes[i] by {
        if i < 13 {
            assert(r[i] == bytes.subrange(0, 13)[i]);
        } else {
            assert(r[i] == bytes.subrange(18, bytes.len() as int)[i - 18]);
        }
    }
}

/// Embedding a density into a PNG inserts one well-formed `pHYs` chunk of
/// 21 bytes right after the header and keeps everything else: its length
/// field is 9, its type is `pHYs`, both axes carry `dots_per_meter` with
/// the unit "metre", and its checksum is the CRC of its type and data.
pub proof fn law_png_phys_chunk_well_formed(bytes: Seq<u8>, density: u32, dots_per_meter: u32)
    requires
        density != 1,
        dpi_embeddable(bytes.len(), ImageFormat::Png, density),
    ensures
        ({
            let r = dpi_embedded(bytes, ImageFormat::Png, density, dots_per_meter);
            &&& r.len() == bytes.len() + 21
            &&& r.subrange(0, 33) == bytes.subrange(0, 33)
            &&& r.subrange(54, r.len() as int) == bytes.subrange(33, bytes.len() as int)
            &&& read_be32(r.subrange(33, 37)) == 9
            &&& r.subrange(37, 41) == seq![0x70u8, 0x48u8, 0x59u8, 0x73u8]
            &&& read_be32(r.subrange(41, 45)) == dots_per_meter
            &&& read_be32(r.subrange(45, 49)) == dots_per_meter
            &&& r[49] == 1
            &&& r.subrange(50, 54) == be32(crc32_iso_hdlc(r.subrange(37, 50)))
        }),
{
    let checksum = crc32_iso_hdlc(phys_payload(dots_per_meter));
    let r = dpi_embedded(bytes, ImageFormat::Png, density, dots_per_meter);
    assert(r == png_with_phys(bytes, dots_per_meter, checksum));
    lemma_be32_reads_back(9);
    lemma_be32_reads_back(dots_per_meter);
    lemma_be32_reads_back(checksum);
    assert(r.subrange(0, 33) =~= bytes.subrange(0, 33));
    assert(r.subrange(54, r.len() as int) =~= bytes.subrange(33, bytes.len() as int));
    assert(r.subrange(33, 37) =~= be32(9));
    assert(r.subrange(37, 50) =~= phys_payload(dots_per_meter));
    assert(r.subrange(37, 41) =~= seq![0x70u8, 0x48u8, 0x59u8, 0x73u8]);
    assert(r.subrange(41, 45) =~= be32(dots_per_meter));
    assert(r.subrange(45, 49) =~= be32(dots_per_meter));
    assert(r.subrange(50, 54) =~= be32(checksum));
}

} // verus!
