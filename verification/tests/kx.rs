use crypto_provider::enums::NamedGroup;
use crypto_provider::error::{KeyExchangeError, PeerMisbehaved};
use crypto_provider::kx::{all_kx_groups, x25519, KeyExchange, SupportedKxGroup};

fn raw_secret(s: &[u8]) -> Result<Vec<u8>, ()> {
    Ok(s.to_vec())
}

#[test]
fn choose_finds_every_registry_group() {
    let groups = all_kx_groups();
    for g in &groups {
        let name = g.group_name();
        let kx = KeyExchange::choose_group(name, groups.as_slice()).unwrap();
        assert_eq!(kx.group(), name);
    }
}

#[test]
fn choose_excluded_identifier_fails() {
    let candidates: Vec<SupportedKxGroup> = all_kx_groups()
        .into_iter()
        .filter(|g| g.group_name() != NamedGroup::X25519)
        .collect();
    let r = KeyExchange::choose_group(NamedGroup::X25519, candidates.as_slice());
    assert!(matches!(r, Err(KeyExchangeError::UnsupportedGroup)));
}

#[test]
fn choose_unknown_identifier_fails() {
    let groups = all_kx_groups();
    for name in [NamedGroup::secp521r1, NamedGroup::X448] {
        let r = KeyExchange::choose_group(name, groups.as_slice());
        assert!(matches!(r, Err(KeyExchangeError::UnsupportedGroup)));
    }
}

#[test]
fn choose_empty_candidate_list_fails() {
    let r = KeyExchange::choose_group(NamedGroup::X25519, &[]);
    assert!(matches!(r, Err(KeyExchangeError::UnsupportedGroup)));
}

#[test]
fn choose_prefers_first_candidate_order() {
    let mut candidates = all_kx_groups();
    candidates.reverse();
    let kx = KeyExchange::choose_group(NamedGroup::secp384r1, candidates.as_slice()).unwrap();
    assert_eq!(kx.group(), NamedGroup::secp384r1);
}

#[test]
fn exchange_both_sides_agree() {
    for g in all_kx_groups() {
        let a = KeyExchange::start(&g).unwrap();
        let b = KeyExchange::start(&g).unwrap();
        let a_pub = a.pub_key().to_vec();
        let b_pub = b.pub_key().to_vec();
        let sa = a.complete(b_pub.as_slice(), raw_secret).unwrap();
        let sb = b.complete(a_pub.as_slice(), raw_secret).unwrap();
        assert_eq!(sa, sb);
        assert!(!sa.is_empty());
    }
}

#[test]
fn complete_truncated_peer_key_fails() {
    for g in all_kx_groups() {
        let a = KeyExchange::start(&g).unwrap();
        let b = KeyExchange::start(&g).unwrap();
        let mut peer = b.pub_key().to_vec();
        peer.pop();
        let r = a.complete(peer.as_slice(), raw_secret);
        assert!(matches!(r, Err(PeerMisbehaved::InvalidKeyShare)));
    }
}

#[test]
fn complete_all_zero_peer_key_fails() {
    for g in all_kx_groups() {
        let a = KeyExchange::start(&g).unwrap();
        let b = KeyExchange::start(&g).unwrap();
        let peer = vec![0u8; b.pub_key().len()];
        let r = a.complete(peer.as_slice(), raw_secret);
        assert!(matches!(r, Err(PeerMisbehaved::InvalidKeyShare)));
    }
}

#[test]
fn complete_empty_peer_key_fails() {
    for g in all_kx_groups() {
        let a = KeyExchange::start(&g).unwrap();
        let r = a.complete(&[], raw_secret);
        assert!(matches!(r, Err(PeerMisbehaved::InvalidKeyShare)));
    }
}

#[test]
fn failed_finalizer_classified_as_invalid_key_share() {
    let g = x25519();
    let a = KeyExchange::start(&g).unwrap();
    let b = KeyExchange::start(&g).unwrap();
    let b_pub = b.pub_key().to_vec();
    let r: Result<Vec<u8>, PeerMisbehaved> = a.complete(b_pub.as_slice(), |_s| Err(()));
    assert!(matches!(r, Err(PeerMisbehaved::InvalidKeyShare)));
}

#[test]
fn x25519_public_key_length() {
    let kx = KeyExchange::start(&x25519()).unwrap();
    assert_eq!(kx.pub_key().len(), 32);
}

#[test]
fn registry_order_and_names() {
    let groups = all_kx_groups();
    let names: Vec<NamedGroup> = groups.iter().map(|g| g.group_name()).collect();
    assert_eq!(
        names,
        vec![NamedGroup::X25519, NamedGroup::secp256r1, NamedGroup::secp384r1]
    );
}
