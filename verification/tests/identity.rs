use pdh::identity::Sha256Hasher;
use pdh::identity::create_hashed_image_file;

#[test]
fn same_content_yields_same_hash() {
    let mut h1 = Sha256Hasher::new();
    h1.update(b"the same bytes");
    let mut h2 = Sha256Hasher::new();
    h2.update(b"the same ");
    h2.update(b"bytes");
    assert_eq!(h1.finalize_hex(), h2.finalize_hex());
}

#[test]
fn different_content_yields_different_hash() {
    let mut h1 = Sha256Hasher::new();
    h1.update(b"one content");
    let mut h2 = Sha256Hasher::new();
    h2.update(b"another content");
    assert_ne!(h1.finalize_hex(), h2.finalize_hex());
}

#[test]
fn hash_is_the_published_sha256_digest() {
    let mut h = Sha256Hasher::new();
    h.update(b"abc");
    assert_eq!(
        h.finalize_hex(),
        "ba7816bf8f01cfea414140de5dae2223b00361a396177a9cb410ff61f20015ad"
    );
    let empty = Sha256Hasher::new();
    assert_eq!(
        empty.finalize_hex(),
        "e3b0c44298fc1c149afbf4c8996fb92427ae41e4649b934ca495991b7852b855"
    );
}

#[test]
fn hash_text_is_sixty_four_characters() {
    let mut h = Sha256Hasher::new();
    h.update(b"any content at all");
    assert_eq!(h.finalize_hex().len(), 64);
}

#[test]
fn record_keeps_path_and_given_creation_time() {
    let mut h = Sha256Hasher::new();
    h.update(b"file bytes");
    let img = create_hashed_image_file(String::from("photos/a.jpg"), Some(12345), h);
    assert_eq!(img.path, "photos/a.jpg");
    assert_eq!(img.creation_timestamp, 12345);
    let mut h2 = Sha256Hasher::new();
    h2.update(b"file bytes");
    assert_eq!(img.hash, h2.finalize_hex());
}

#[test]
fn record_falls_back_to_processing_time() {
    let h = Sha256Hasher::new();
    let img = create_hashed_image_file(String::from("photos/b.jpg"), None, h);
    assert_eq!(img.creation_timestamp, img.processing_timestamp);
}
