use randomness_beacon::hex::HexDisplayExt;
use randomness_beacon::remote_ext::Builder;

fn pair(key: &[u8], value: &[u8]) -> (Vec<u8>, Vec<u8>) {
    (key.to_vec(), value.to_vec())
}

#[test]
fn builder_defaults() {
    let b = Builder::new();
    assert_eq!(b.target(), "ws://localhost:9944");
    assert_eq!(b.block([7; 32]), [7; 32]);
    assert_eq!(b.prefixes(), vec![Vec::<u8>::new()]);
    assert_eq!(b.build(Vec::new()), Vec::new());
}

#[test]
fn builder_default_is_new() {
    let b = Builder::default();
    assert_eq!(b.target(), Builder::new().target());
    assert_eq!(b.prefixes(), Builder::new().prefixes());
    assert_eq!(b.build(vec![pair(b"k", b"v")]), vec![pair(b"k", b"v")]);
}

#[test]
fn builder_keeps_the_given_address() {
    let b = Builder::new().uri("ws://example.org:9944".to_string());
    assert_eq!(b.target(), "ws://example.org:9944");
    // The last address wins.
    let b = b.uri("ws://other:1".to_string());
    assert_eq!(b.target(), "ws://other:1");
}

#[test]
fn builder_keeps_the_chosen_block() {
    let b = Builder::new().at([1; 32]);
    assert_eq!(b.block([7; 32]), [1; 32]);
    assert_eq!(b.at([2; 32]).block([7; 32]), [2; 32]);
}

#[test]
fn module_prefix_is_the_xx_hash_of_its_name() {
    let prefixes = Builder::new().module("System").prefixes();
    assert_eq!(prefixes.len(), 1);
    assert_eq!(
        prefixes[0],
        vec![
            0x26, 0xaa, 0x39, 0x4e, 0xea, 0x56, 0x30, 0xe0, 0x7c, 0x48, 0xae, 0x0c, 0x95, 0x58,
            0xce, 0xf7
        ]
    );
    assert_eq!(prefixes[0].hex_display().to_hex(), "0x26aa394eea5630e07c48aec9558cef7");
}

#[test]
fn module_prefixes_come_in_the_order_of_the_modules() {
    let prefixes = Builder::new().module("Balances").module("System").module("").prefixes();
    assert_eq!(
        prefixes,
        vec![
            sp_crypto_hashing::twox_128(b"Balances").to_vec(),
            sp_crypto_hashing::twox_128(b"System").to_vec(),
            sp_crypto_hashing::twox_128(b"").to_vec(),
        ]
    );
    assert_ne!(prefixes[0], prefixes[1]);
}

#[test]
fn module_names_are_hashed_as_utf8() {
    let prefixes = Builder::new().module("Zähler").prefixes();
    assert_eq!(prefixes, vec![sp_crypto_hashing::twox_128("Zähler".as_bytes()).to_vec()]);
}

#[test]
fn injections_follow_what_was_scraped() {
    let b = Builder::new()
        .inject(&[pair(b"a", b"1"), pair(b"b", b"2")])
        .inject(&[])
        .inject(&[pair(b"a", b"3")]);
    let out = b.build(vec![pair(b"x", b"9"), pair(b"a", b"0")]);
    assert_eq!(
        out,
        vec![
            pair(b"x", b"9"),
            pair(b"a", b"0"),
            pair(b"a", b"1"),
            pair(b"b", b"2"),
            pair(b"a", b"3"),
        ]
    );
}

#[test]
fn build_without_injections_is_what_was_scraped() {
    let scraped = vec![pair(b"k", b"v"), pair(b"", b"")];
    assert_eq!(Builder::new().module("System").build(scraped.clone()), scraped);
}
