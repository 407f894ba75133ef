use randomness_beacon::hex::HexDisplayExt;
use randomness_beacon::hex::HexSlice;

#[test]
fn hex_of_nothing_is_the_bare_marker() {
    assert_eq!(HexSlice::new(&[]).to_hex(), "0x");
}

#[test]
fn hex_writes_each_byte_without_leading_zero() {
    assert_eq!(HexSlice::new(&[0x00]).to_hex(), "0x0");
    assert_eq!(HexSlice::new(&[0x0a]).to_hex(), "0xa");
    assert_eq!(HexSlice::new(&[0x10]).to_hex(), "0x10");
    assert_eq!(HexSlice::new(&[0xff]).to_hex(), "0xff");
    assert_eq!(HexSlice::new(&[0x01, 0xab, 0x00, 0x7f]).to_hex(), "0x1ab07f");
}

#[test]
fn hex_agrees_with_the_formatter() {
    let data: Vec<u8> = (0u8..=255).collect();
    let mut expected = String::from("0x");
    for b in &data {
        expected.push_str(&format!("{:x}", b));
    }
    assert_eq!(HexSlice::new(&data).to_hex(), expected);
}

#[test]
fn hex_slice_keeps_its_bytes() {
    let data = [1u8, 2, 3];
    assert_eq!(HexSlice::new(&data).as_bytes(), &data);
}

#[test]
fn hex_display_of_slices_and_vectors() {
    let v: Vec<u8> = vec![0xde, 0xad];
    assert_eq!(v.hex_display().to_hex(), "0xdead");
    assert_eq!(v[..1].hex_display().to_hex(), "0xde");
    assert_eq!([0u8, 1, 0x20].hex_display().to_hex(), "0x0120");
    assert_eq!([0xffu8; 16].hex_display().as_bytes(), &[0xffu8; 16]);
}
