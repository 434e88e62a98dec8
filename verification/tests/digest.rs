use executorch_bencher::digest::{Sha256State, sha256_hex};

#[test]
fn a_streamed_digest_equals_the_digest_of_the_whole_content() {
    let content = b"hello from an http upload, read in uneven chunks".to_vec();
    let mut hasher = Sha256State::new();
    hasher.update(&content[..5]);
    hasher.update(&content[5..5]);
    hasher.update(&content[5..31]);
    hasher.update(&content[31..]);
    assert_eq!(hasher.finish_hex(), sha256_hex(&content));
}

#[test]
fn the_digest_of_nothing_is_the_empty_input_digest() {
    assert_eq!(
        Sha256State::new().finish_hex(),
        "e3b0c44298fc1c149afbf4c8996fb92427ae41e4649b934ca495991b7852b855"
    );
}
