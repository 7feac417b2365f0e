use buscador_duplicados::hashing::fingerprint_bytes;
use buscador_duplicados::hashing::Fingerprinter;
use buscador_duplicados::render::digest_to_hex;

#[test]
fn empty_input_fingerprint() {
    let fp = fingerprint_bytes(&[]);
    assert_eq!(fp.size, 0);
    assert_eq!(digest_to_hex(fp.digest), "d41d8cd98f00b204e9800998ecf8427e");
}

#[test]
fn known_digest() {
    let fp = fingerprint_bytes(b"hello");
    assert_eq!(fp.size, 5);
    assert_eq!(digest_to_hex(fp.digest), "5d41402abc4b2a76b9719d911017c592");
}

#[test]
fn digest_matches_reference_implementation() {
    let content = b"some file content, long enough to be interesting";
    let fp = fingerprint_bytes(content);
    assert_eq!(digest_to_hex(fp.digest), format!("{:x}", md5::compute(content)));
}

#[test]
fn equal_content_equal_digest() {
    let a = fingerprint_bytes(b"identical bytes");
    let b = fingerprint_bytes(b"identical bytes");
    assert_eq!(a.digest, b.digest);
    assert_eq!(a.size, b.size);
}

#[test]
fn fingerprint_is_deterministic() {
    let content: Vec<u8> = (0..100_000u32).map(|i| (i % 251) as u8).collect();
    let first = fingerprint_bytes(&content);
    let second = fingerprint_bytes(&content);
    assert_eq!(first.size, second.size);
    assert_eq!(first.digest, second.digest);
}

#[test]
fn chunking_straddles_the_cap() {
    // Content one byte longer than the one-million-byte read cap: hashing it
    // chunk by chunk must agree with hashing it in a single pass.
    let content: Vec<u8> = (0..1_000_001u32).map(|i| (i % 239) as u8).collect();

    let mut chunked = Fingerprinter::new();
    chunked.update(&content[..1_000_000]);
    chunked.update(&content[1_000_000..]);
    let by_chunks = chunked.finish();

    let whole = fingerprint_bytes(&content);

    assert_eq!(by_chunks.size, 1_000_001);
    assert_eq!(by_chunks.size, whole.size);
    assert_eq!(by_chunks.digest, whole.digest);
    assert_eq!(digest_to_hex(by_chunks.digest), format!("{:x}", md5::compute(&content)));
}

#[test]
fn small_chunks_agree_with_single_pass() {
    let content = b"abcdefghij";
    let mut f = Fingerprinter::new();
    for chunk in content.chunks(3) {
        f.update(chunk);
    }
    let fp = f.finish();
    let whole = fingerprint_bytes(content);
    assert_eq!(fp.size, 10);
    assert_eq!(fp.digest, whole.digest);
}
