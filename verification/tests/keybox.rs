use parity_scale_codec::Encode;
use randomness_beacon::keybox::decode_raw_key;
use randomness_beacon::keybox::get_rbbox;
use randomness_beacon::keybox::BoxPlan;
use randomness_beacon::keybox::KeyboxParts;

#[test]
fn no_box_without_public_parts() {
    assert_eq!(get_rbbox(None, Some(vec![1, 2])), BoxPlan::Unavailable);
    assert_eq!(get_rbbox(None, None), BoxPlan::Unavailable);
}

#[test]
fn no_box_without_storage_key() {
    assert_eq!(get_rbbox(Some(KeyboxParts { node_index: Some(3) }), None), BoxPlan::Unavailable);
    assert_eq!(get_rbbox(Some(KeyboxParts { node_index: None }), None), BoxPlan::Unavailable);
}

#[test]
fn participant_fetches_its_secret() {
    assert_eq!(
        get_rbbox(Some(KeyboxParts { node_index: Some(0) }), Some(vec![0xaa, 0xbb])),
        BoxPlan::Fetch { storage_key: vec![0xaa, 0xbb] }
    );
}

#[test]
fn bystander_builds_without_a_secret() {
    assert_eq!(
        get_rbbox(Some(KeyboxParts { node_index: None }), Some(vec![0xaa, 0xbb])),
        BoxPlan::Build
    );
}

#[test]
fn raw_key_is_four_little_endian_words() {
    let mut data = Vec::new();
    data.extend_from_slice(&[1, 0, 0, 0, 0, 0, 0, 0]);
    data.extend_from_slice(&[0, 1, 0, 0, 0, 0, 0, 0]);
    data.extend_from_slice(&[0xef, 0xcd, 0xab, 0x89, 0x67, 0x45, 0x23, 0x01]);
    data.extend_from_slice(&[0xff; 8]);
    assert_eq!(decode_raw_key(Some(data)), Some([1, 256, 0x0123_4567_89ab_cdef, u64::MAX]));
}

#[test]
fn raw_key_inverts_the_codec_crate() {
    let key: [u64; 4] = [7, 0xdead_beef, 1 << 63, 42];
    assert_eq!(decode_raw_key(Some(key.encode())), Some(key));
}

#[test]
fn raw_key_ignores_what_follows_it() {
    let mut data = vec![0u8; 32];
    data[8] = 5;
    data.extend_from_slice(&[9, 9, 9]);
    assert_eq!(decode_raw_key(Some(data)), Some([0, 5, 0, 0]));
}

#[test]
fn raw_key_needs_32_bytes() {
    assert_eq!(decode_raw_key(Some(vec![0u8; 31])), None);
    assert_eq!(decode_raw_key(Some(vec![])), None);
    assert_eq!(decode_raw_key(None), None);
}
