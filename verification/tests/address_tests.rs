use basic_bitcoin::address::{
    derive_address, network_and_public_key_to_p2wpkh, parse_address, public_key_to_p2pkh_address,
    script_pubkey, AddressKind, BitcoinAddress, Network,
};
use basic_bitcoin::errors::WalletError;
use basic_bitcoin::hashes::hash160;

fn pubkey_compressed_example() -> Vec<u8> {
    hex::decode("0250863ad64a87ae8a2fe83c1af1a8403cb53f53e486d8511dad8a04887e5b2352").unwrap()
}

fn pubkey_generator() -> Vec<u8> {
    hex::decode("0279be667ef9dcbbac55a06295ce870b07029bfcdb2dce28d959f2815b16f81798").unwrap()
}

#[test]
fn hash160_matches_known_vector() {
    let h = hash160(&pubkey_compressed_example());
    assert_eq!(hex::encode(h), "f54a5851e9372b87810a8e60cdd2e7cfd80b6e31");
}

#[test]
fn p2pkh_mainnet_address_matches_known_vector() {
    let addr = public_key_to_p2pkh_address(Network::Mainnet, &pubkey_compressed_example());
    assert_eq!(addr, "1PMycacnJaSqwwJqjawXBErnLsZ7RkXUAs");
}

#[test]
fn p2wpkh_addresses_match_known_vectors() {
    let pk = pubkey_generator();
    let mainnet = network_and_public_key_to_p2wpkh(Network::Mainnet, &pk);
    assert_eq!(mainnet, "bc1qw508d6qejxtdg4y5r3zarvary0c5xw7kv8f3t4");
    let testnet = network_and_public_key_to_p2wpkh(Network::Testnet, &pk);
    assert_eq!(testnet, "tb1qw508d6qejxtdg4y5r3zarvary0c5xw7kxpjzsx");
}

#[test]
fn derive_address_is_deterministic_and_dispatches_by_kind() {
    let pk = pubkey_generator();
    let a1 = derive_address(Network::Mainnet, &pk, AddressKind::P2pkh);
    let a2 = derive_address(Network::Mainnet, &pk, AddressKind::P2pkh);
    assert_eq!(a1, a2);
    assert_eq!(a1, public_key_to_p2pkh_address(Network::Mainnet, &pk));
    let b1 = derive_address(Network::Mainnet, &pk, AddressKind::P2wpkh);
    let b2 = derive_address(Network::Mainnet, &pk, AddressKind::P2wpkh);
    assert_eq!(b1, b2);
    assert_eq!(b1, network_and_public_key_to_p2wpkh(Network::Mainnet, &pk));
}

#[test]
fn parse_recovers_derived_p2pkh_address() {
    let pk = pubkey_compressed_example();
    let addr = public_key_to_p2pkh_address(Network::Mainnet, &pk);
    match parse_address(&addr, Network::Mainnet) {
        Ok(BitcoinAddress::P2pkh { pkhash }) => assert_eq!(pkhash, hash160(&pk)),
        other => panic!("expected a legacy address, got {:?}", other),
    }
}

#[test]
fn parse_recovers_derived_p2wpkh_address() {
    let pk = pubkey_generator();
    let addr = network_and_public_key_to_p2wpkh(Network::Testnet, &pk);
    match parse_address(&addr, Network::Testnet) {
        Ok(BitcoinAddress::P2wpkh { pkhash }) => assert_eq!(pkhash, hash160(&pk)),
        other => panic!("expected a segwit address, got {:?}", other),
    }
}

#[test]
fn parse_rejects_malformed_and_cross_network_addresses() {
    let rejected = |s: &str, network: Network| {
        matches!(parse_address(s, network), Err(WalletError::InvalidAddress))
    };
    assert!(rejected("not an address", Network::Mainnet));
    assert!(rejected("", Network::Mainnet));
    // A mainnet segwit address is not valid on testnet.
    assert!(rejected("bc1qw508d6qejxtdg4y5r3zarvary0c5xw7kv8f3t4", Network::Testnet));
    // A mainnet legacy address is not valid on testnet either.
    assert!(rejected("1PMycacnJaSqwwJqjawXBErnLsZ7RkXUAs", Network::Testnet));
    // A corrupted checksum is rejected.
    assert!(rejected("1PMycacnJaSqwwJqjawXBErnLsZ7RkXUAt", Network::Mainnet));
    // A corrupted bech32 character is rejected.
    assert!(rejected("bc1qw508d6qejxtdg4y5r3zarvary0c5xw7kv8f3t5", Network::Mainnet));
}

#[test]
fn script_pubkey_forms() {
    let pkhash = vec![0xabu8; 20];
    let legacy = script_pubkey(&BitcoinAddress::P2pkh { pkhash: pkhash.clone() });
    assert_eq!(legacy.len(), 25);
    assert_eq!(&legacy[..3], &[0x76, 0xa9, 0x14]);
    assert_eq!(&legacy[3..23], &pkhash[..]);
    assert_eq!(&legacy[23..], &[0x88, 0xac]);
    let segwit = script_pubkey(&BitcoinAddress::P2wpkh { pkhash: pkhash.clone() });
    assert_eq!(segwit.len(), 22);
    assert_eq!(&segwit[..2], &[0x00, 0x14]);
    assert_eq!(&segwit[2..], &pkhash[..]);
}
