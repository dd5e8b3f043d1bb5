use syncu::hasher::{ContentHasher, HashInput, HashStep};

fn digest(chunks: &[&[u8]]) -> String {
    let mut hasher = ContentHasher::start();
    for chunk in chunks {
        match hasher.step(HashInput::Chunk(chunk)) {
            HashStep::More(next) => hasher = next,
            _ => panic!("a chunk with bytes is taken in"),
        }
    }
    match hasher.step(HashInput::Chunk(&[])) {
        HashStep::Done(hex) => hex,
        _ => panic!("a read of no bytes ends the file"),
    }
}

#[test]
fn fingerprint_of_nothing() {
    assert_eq!(
        digest(&[]),
        "e3b0c44298fc1c149afbf4c8996fb92427ae41e4649b934ca495991b7852b855"
    );
}

#[test]
fn fingerprint_of_abc() {
    assert_eq!(
        digest(&[b"abc"]),
        "ba7816bf8f01cfea414140de5dae2223b00361a396177a9cb410ff61f20015ad"
    );
}

#[test]
fn fingerprint_does_not_depend_on_the_chunking() {
    let whole = digest(&[b"hello world"]);
    let parts = digest(&[b"hel", b"lo ", b"world"]);
    assert_eq!(whole, "b94d27b9934d3e08a52e52d7da7dabfac484efe37a5380ee9088f7ace2efcde9");
    assert_eq!(parts, whole);
}

#[test]
fn fingerprint_depends_on_the_order_of_chunks() {
    assert_ne!(digest(&[b"ab", b"cd"]), digest(&[b"cd", b"ab"]));
}

#[test]
fn stopping_leaves_no_fingerprint() {
    let hasher = ContentHasher::start();
    let hasher = match hasher.step(HashInput::Chunk(b"some bytes")) {
        HashStep::More(next) => next,
        _ => panic!("a chunk with bytes is taken in"),
    };
    assert!(matches!(hasher.step(HashInput::Stop), HashStep::Canceled));
    assert!(matches!(ContentHasher::start().step(HashInput::Stop), HashStep::Canceled));
}
