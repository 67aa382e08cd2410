use crypto_provider::enums::HashAlgorithm;
use crypto_provider::hash::Output;

fn hex(s: &str) -> Vec<u8> {
    let b = s.as_bytes();
    let mut out = Vec::new();
    let mut i = 0;
    while i + 1 < b.len() {
        let hi = (b[i] as char).to_digit(16).unwrap() as u8;
        let lo = (b[i + 1] as char).to_digit(16).unwrap() as u8;
        out.push(hi * 16 + lo);
        i += 2;
    }
    out
}

#[test]
fn sha256_known_vector() {
    let h = crypto_provider::hash::Hash::sha256();
    let mut c = h.start();
    c.update(b"abc");
    let out = c.finish();
    assert_eq!(
        out.as_ref(),
        hex("ba7816bf8f01cfea414140de5dae2223b00361a396177a9cb410ff61f20015ad").as_slice()
    );
}

#[test]
fn sha256_empty_input_vector() {
    let h = crypto_provider::hash::Hash::sha256();
    let c = h.start();
    let out = c.finish();
    assert_eq!(
        out.as_ref(),
        hex("e3b0c44298fc1c149afbf4c8996fb92427ae41e4649b934ca495991b7852b855").as_slice()
    );
}

#[test]
fn sha384_known_vector() {
    let h = crypto_provider::hash::Hash::sha384();
    let mut c = h.start();
    c.update(b"abc");
    let out = c.finish();
    assert_eq!(
        out.as_ref(),
        hex("cb00753f45a35e8bb5a03d699ac65007272c32ab0eded1631a8b605a43ff5bed8086072ba1e7cc2358baeca134c825a7").as_slice()
    );
}

#[test]
fn output_lengths() {
    let mut c = crypto_provider::hash::Hash::sha256().start();
    c.update(b"x");
    assert_eq!(c.finish().as_ref().len(), 32);
    let mut c = crypto_provider::hash::Hash::sha384().start();
    c.update(b"x");
    assert_eq!(c.finish().as_ref().len(), 48);
}

#[test]
fn algorithm_reports_identifier() {
    assert_eq!(
        crypto_provider::hash::Hash::sha256().algorithm(),
        HashAlgorithm::SHA256
    );
    assert_eq!(
        crypto_provider::hash::Hash::sha384().algorithm(),
        HashAlgorithm::SHA384
    );
}

#[test]
fn chunking_independent() {
    let data = b"The quick brown fox jumps over the lazy dog";
    for h in [
        crypto_provider::hash::Hash::sha256(),
        crypto_provider::hash::Hash::sha384(),
    ] {
        let mut one = h.start();
        one.update(data);
        let expected = one.finish();
        for split in [1usize, 7, data.len() - 1] {
            let mut two = h.start();
            two.update(&data[..split]);
            two.update(&data[split..]);
            assert_eq!(two.finish().as_ref(), expected.as_ref());
        }
    }
}

#[test]
fn fork_diverges_and_matches_fresh_computation() {
    let h = crypto_provider::hash::Hash::sha256();
    let mut original = h.start();
    original.update(b"common prefix ");
    let mut forked = original.fork();
    original.update(b"left suffix");
    forked.update(b"right suffix");
    let left = original.finish();
    let right = forked.finish();
    assert_ne!(left.as_ref(), right.as_ref());

    let mut fresh_left = h.start();
    fresh_left.update(b"common prefix left suffix");
    assert_eq!(fresh_left.finish().as_ref(), left.as_ref());
    let mut fresh_right = h.start();
    fresh_right.update(b"common prefix right suffix");
    assert_eq!(fresh_right.finish().as_ref(), right.as_ref());
}

#[test]
fn output_new_roundtrip() {
    let bytes = [7u8, 8, 9];
    let out = Output::new(&bytes);
    assert_eq!(out.as_ref(), bytes.as_slice());
    let empty = Output::new(&[]);
    assert_eq!(empty.as_ref().len(), 0);
}
