use skia_canvas::dpi::{insert_phys_chunk, phys_payload_bytes, set_jfif_density, with_dpi, ImageFormat};

fn jpeg_like(len: usize) -> Vec<u8> {
    (0..len).map(|i| (i % 251) as u8).collect()
}

#[test]
fn unit_density_keeps_jpeg_and_png_bytes() {
    let jpeg = jpeg_like(40);
    assert_eq!(with_dpi(jpeg.clone(), ImageFormat::Jpeg, 1, 0), jpeg);
    let png = jpeg_like(60);
    assert_eq!(with_dpi(png.clone(), ImageFormat::Png, 1, 2835), png);
}

#[test]
fn unit_density_keeps_short_input() {
    let short = vec![1u8, 2, 3];
    assert_eq!(with_dpi(short.clone(), ImageFormat::Jpeg, 1, 0), short);
    assert_eq!(with_dpi(short.clone(), ImageFormat::Png, 1, 0), short);
}

#[test]
fn other_formats_are_untouched() {
    let data = jpeg_like(50);
    assert_eq!(with_dpi(data.clone(), ImageFormat::Webp, 3, 8504), data);
    assert_eq!(with_dpi(data.clone(), ImageFormat::Bmp, 2, 5669), data);
}

#[test]
fn jpeg_density_two_writes_144_dpi() {
    let data = jpeg_like(30);
    let out = with_dpi(data.clone(), ImageFormat::Jpeg, 2, 0);
    assert_eq!(out.len(), data.len());
    assert_eq!(&out[13..18], &[1, 0, 144, 0, 144]);
    assert_eq!(&out[..13], &data[..13]);
    assert_eq!(&out[18..], &data[18..]);
}

#[test]
fn jpeg_density_three_writes_216_dpi() {
    let out = with_dpi(jpeg_like(18), ImageFormat::Jpeg, 3, 0);
    assert_eq!(&out[13..18], &[1, 0, 216, 0, 216]);
}

#[test]
fn jpeg_largest_density_without_overflow() {
    let out = with_dpi(jpeg_like(20), ImageFormat::Jpeg, 910, 0);
    // 72 * 910 = 65520 = 0xfff0
    assert_eq!(&out[13..18], &[1, 0xff, 0xf0, 0xff, 0xf0]);
}

#[test]
fn jpeg_density_zero_writes_zero_dpi() {
    let out = with_dpi(jpeg_like(20), ImageFormat::Jpeg, 0, 0);
    assert_eq!(&out[13..18], &[1, 0, 0, 0, 0]);
}

#[test]
fn jpeg_density_is_idempotent() {
    let once = with_dpi(jpeg_like(64), ImageFormat::Jpeg, 2, 0);
    let twice = with_dpi(once.clone(), ImageFormat::Jpeg, 2, 0);
    assert_eq!(once, twice);
}

#[test]
fn set_jfif_density_writes_unit_and_both_axes() {
    let out = set_jfif_density(vec![0u8; 18], 0x1234);
    assert_eq!(out, vec![0, 0, 0, 0, 0, 0, 0, 0, 0, 0, 0, 0, 0, 1, 0x12, 0x34, 0x12, 0x34]);
}

#[test]
fn phys_payload_holds_type_densities_and_unit() {
    assert_eq!(
        phys_payload_bytes(5669),
        vec![b'p', b'H', b'Y', b's', 0, 0, 0x16, 0x25, 0, 0, 0x16, 0x25, 1]
    );
}

#[test]
fn insert_phys_chunk_places_chunk_after_header() {
    let data = jpeg_like(40);
    let out = insert_phys_chunk(data.clone(), 2835, 0xdeadbeef);
    assert_eq!(out.len(), data.len() + 21);
    assert_eq!(&out[..33], &data[..33]);
    assert_eq!(&out[33..37], &[0, 0, 0, 9]);
    assert_eq!(&out[37..50], &phys_payload_bytes(2835)[..]);
    assert_eq!(&out[50..54], &[0xde, 0xad, 0xbe, 0xef]);
    assert_eq!(&out[54..], &data[33..]);
}

#[test]
fn png_density_two_inserts_phys_chunk_with_crc() {
    let data = jpeg_like(33);
    let out = with_dpi(data.clone(), ImageFormat::Png, 2, 5669);
    assert_eq!(out.len(), 54);
    assert_eq!(&out[..33], &data[..]);
    assert_eq!(
        &out[33..54],
        &[0, 0, 0, 9, b'p', b'H', b'Y', b's', 0, 0, 0x16, 0x25, 0, 0, 0x16, 0x25, 1, 73, 82, 36, 240]
    );
}

#[test]
fn png_checksum_depends_on_the_density() {
    let out = with_dpi(jpeg_like(33), ImageFormat::Png, 0, 0);
    assert_eq!(&out[50..54], &[234, 101, 22, 164]);
}
