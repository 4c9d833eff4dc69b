use zcash_address::unified::Encoding;

use unified_keys::address::{TransparentAddr, UnifiedAddress};
use unified_keys::capability::WalletCapability;
use unified_keys::chain::ChainType;
use unified_keys::errors::KeyError;
use unified_keys::select::ReceiverSelection;

fn all_receivers() -> ReceiverSelection {
    ReceiverSelection { orchard: true, sapling: true, transparent: true }
}

fn test_seed() -> Vec<u8> {
    vec![7u8; 64]
}

#[test]
fn read_write_receiver_selections() {
    for n in 0u8..8 {
        let encoded = vec![1u8, n];
        let (rs, _) = ReceiverSelection::read(&encoded, 0).unwrap();
        let mut out: Vec<u8> = Vec::new();
        rs.write(&mut out);
        assert_eq!(n, out[1]);
    }
}

#[test]
fn receiver_selection_bit_assignments() {
    let (rs, used) = ReceiverSelection::read(&vec![1u8, 0b101], 0).unwrap();
    assert_eq!(used, 2);
    assert!(rs.orchard);
    assert!(!rs.sapling);
    assert!(rs.transparent);
    let mut out: Vec<u8> = Vec::new();
    rs.write(&mut out);
    assert_eq!(out, vec![1u8, 0b101]);
}

#[test]
fn receiver_selection_rejects_bad_version() {
    assert_eq!(
        ReceiverSelection::read(&vec![9u8, 1u8], 0).unwrap_err(),
        KeyError::CorruptEncoding
    );
}

#[test]
fn derive_addresses_indices_in_order() {
    let seed = test_seed();
    let mut wc = WalletCapability::new_from_seed(ChainType::Regtest, &seed, 0).unwrap();
    let a0 = wc.new_address(all_receivers()).unwrap();
    let a1 = wc.new_address(all_receivers()).unwrap();
    let a2 = wc.new_address(all_receivers()).unwrap();
    assert_eq!(wc.addresses().len(), 3);
    assert_eq!(wc.transparent_child_addresses().len(), 3);
    assert_eq!(wc.transparent_child_addresses()[0].0, 0);
    assert_eq!(wc.transparent_child_addresses()[1].0, 1);
    assert_eq!(wc.transparent_child_addresses()[2].0, 2);
    for a in [&a0, &a1, &a2] {
        assert_eq!(a.orchard().unwrap().len(), 43);
        assert_eq!(a.sapling().unwrap().len(), 43);
        assert_eq!(a.transparent().unwrap().hash_bytes().len(), 20);
    }
    assert_ne!(a0.sapling(), a1.sapling());
    assert_ne!(a0.orchard(), a1.orchard());
    assert_ne!(a1.transparent().unwrap().hash_bytes(), a2.transparent().unwrap().hash_bytes());
}

#[test]
fn derivation_reproducible_from_same_seed() {
    let seed = test_seed();
    let mut wc1 = WalletCapability::new_from_seed(ChainType::Mainnet, &seed, 3).unwrap();
    let mut wc2 = WalletCapability::new_from_seed(ChainType::Mainnet, &seed, 3).unwrap();
    for _ in 0..4 {
        let a = wc1.new_address(all_receivers()).unwrap();
        let b = wc2.new_address(all_receivers()).unwrap();
        assert_eq!(a.orchard(), b.orchard());
        assert_eq!(a.sapling(), b.sapling());
        assert_eq!(
            a.transparent().unwrap().hash_bytes(),
            b.transparent().unwrap().hash_bytes()
        );
    }
}

#[test]
fn sapling_receiver_depends_only_on_index() {
    // Deriving the k-th address must give the same sapling receiver no
    // matter which selections surrounded it.
    let seed = test_seed();
    let only_sapling = ReceiverSelection { orchard: false, sapling: true, transparent: false };
    let mut wc1 = WalletCapability::new_from_seed(ChainType::Testnet, &seed, 1).unwrap();
    let mut wc2 = WalletCapability::new_from_seed(ChainType::Testnet, &seed, 1).unwrap();
    wc1.new_address(all_receivers()).unwrap();
    wc1.new_address(only_sapling).unwrap();
    let a2 = wc1.new_address(only_sapling).unwrap();
    wc2.new_address(only_sapling).unwrap();
    wc2.new_address(all_receivers()).unwrap();
    let b2 = wc2.new_address(all_receivers()).unwrap();
    assert_eq!(a2.sapling(), b2.sapling());
}

#[test]
fn view_capability_missing_pool_fails_without_mutation() {
    // A unified viewing key holding only a sapling component.
    let seed = test_seed();
    let account = zip32::AccountId::try_from(0).unwrap();
    let extsk = zcash_keys::keys::sapling::spending_key(&seed, 1, account);
    let dfvk = extsk.to_diversifiable_full_viewing_key().to_bytes();
    let ufvk = zcash_address::unified::Ufvk::try_from_items(vec![
        zcash_address::unified::Fvk::Sapling(dfvk),
    ])
    .unwrap()
    .encode(&zcash_protocol::consensus::NetworkType::Regtest);
    let mut wc = WalletCapability::new_from_ufvk(ChainType::Regtest, &ufvk).unwrap();
    let err = wc.new_address(all_receivers()).unwrap_err();
    assert_eq!(err, KeyError::InsufficientCapability);
    assert_eq!(wc.addresses().len(), 0);
    let only_sapling = ReceiverSelection { orchard: false, sapling: true, transparent: false };
    wc.new_address(only_sapling).unwrap();
    assert_eq!(wc.addresses().len(), 1);
}

#[test]
fn concurrent_append_collision() {
    let seed = test_seed();
    let mut wc = WalletCapability::new_from_seed(ChainType::Regtest, &seed, 0).unwrap();
    // Simulate a second in-flight writer holding the append guard.
    wc.addresses_write_lock = true;
    let err = wc.new_address(all_receivers()).unwrap_err();
    assert_eq!(err, KeyError::ConcurrentAppendCollision);
    assert_eq!(wc.addresses().len(), 0);
    wc.addresses_write_lock = false;
    wc.new_address(all_receivers()).unwrap();
    assert_eq!(wc.addresses().len(), 1);
}

#[test]
fn unknown_schema_version_rejected() {
    let bytes = vec![99u8, 0, 0, 0];
    assert_eq!(
        WalletCapability::read(&bytes, ChainType::Regtest).unwrap_err(),
        KeyError::UnsupportedSchemaVersion
    );
    assert_eq!(
        WalletCapability::read(&Vec::new(), ChainType::Regtest).unwrap_err(),
        KeyError::CorruptEncoding
    );
}

#[test]
fn transparent_only_request_rejected() {
    let seed = test_seed();
    let mut wc = WalletCapability::new_from_seed(ChainType::Regtest, &seed, 0).unwrap();
    let only_t = ReceiverSelection { orchard: false, sapling: false, transparent: true };
    assert_eq!(wc.new_address(only_t).unwrap_err(), KeyError::NoShieldedReceiver);
    assert_eq!(wc.addresses().len(), 0);
    assert_eq!(wc.transparent_child_addresses().len(), 0);
}

#[test]
fn invalid_account_index_rejected() {
    let seed = test_seed();
    assert_eq!(
        WalletCapability::new_from_seed(ChainType::Mainnet, &seed, 0x8000_0000).unwrap_err(),
        KeyError::InvalidAccountIndex
    );
}

#[test]
fn legacy_viewing_key_encoding_rejected() {
    let fake = "zxviews1qqqqqqqqqqqqqqqq".to_string();
    assert_eq!(
        WalletCapability::new_from_ufvk(ChainType::Mainnet, &fake).unwrap_err(),
        KeyError::InvalidFormat
    );
    assert_eq!(
        WalletCapability::new_from_ufvk(ChainType::Mainnet, "uview1notavalidkey").unwrap_err(),
        KeyError::KeyDecodingError
    );
}

#[test]
fn mismatched_network_rejected() {
    let seed = test_seed();
    let account = zip32::AccountId::try_from(0).unwrap();
    let extsk = zcash_keys::keys::sapling::spending_key(&seed, 1, account);
    let dfvk = extsk.to_diversifiable_full_viewing_key().to_bytes();
    let ufvk = zcash_address::unified::Ufvk::try_from_items(vec![
        zcash_address::unified::Fvk::Sapling(dfvk),
    ])
    .unwrap()
    .encode(&zcash_protocol::consensus::NetworkType::Test);
    assert_eq!(
        WalletCapability::new_from_ufvk(ChainType::Mainnet, &ufvk).unwrap_err(),
        KeyError::NetworkMismatch
    );
}

#[test]
fn can_view_reports_authority() {
    let seed = test_seed();
    let wc = WalletCapability::new_from_seed(ChainType::Regtest, &seed, 0).unwrap();
    let v = wc.can_view();
    assert!(v.orchard && v.sapling && v.transparent);
    let empty = WalletCapability::default();
    let v = empty.can_view();
    assert!(!v.orchard && !v.sapling && !v.transparent);
    assert!(empty.unified_key_store().is_empty());
    assert!(wc.unified_key_store().is_spending_key());
}

#[test]
fn first_sapling_address_returns_first_entry() {
    let seed = test_seed();
    let mut wc = WalletCapability::new_from_seed(ChainType::Regtest, &seed, 0).unwrap();
    let a0 = wc.new_address(all_receivers()).unwrap();
    wc.new_address(all_receivers()).unwrap();
    assert_eq!(&wc.first_sapling_address(), a0.sapling().unwrap());
}

#[test]
fn distinct_transparent_receivers_collected() {
    let seed = test_seed();
    let mut wc = WalletCapability::new_from_seed(ChainType::Regtest, &seed, 0).unwrap();
    wc.new_address(all_receivers()).unwrap();
    let shielded = ReceiverSelection { orchard: true, sapling: true, transparent: false };
    wc.new_address(shielded).unwrap();
    wc.new_address(all_receivers()).unwrap();
    let taddrs = wc.get_all_taddrs();
    assert_eq!(taddrs.len(), 2);
    assert_ne!(taddrs[0], taddrs[1]);
    assert_eq!(&taddrs[0], wc.transparent_child_addresses()[0].1.hash_bytes());
}

#[test]
fn taddr_secret_keys_match_ledger() {
    let seed = test_seed();
    let mut wc = WalletCapability::new_from_seed(ChainType::Regtest, &seed, 0).unwrap();
    wc.new_address(all_receivers()).unwrap();
    wc.new_address(all_receivers()).unwrap();
    let pairs = wc.get_taddr_to_secretkey_map().unwrap();
    assert_eq!(pairs.len(), 2);
    for (m, (hash, sk)) in pairs.iter().enumerate() {
        assert_eq!(hash, wc.transparent_child_addresses()[m].1.hash_bytes());
        assert_eq!(sk.len(), 32);
    }
    assert_ne!(pairs[0].1, pairs[1].1);
    let empty = WalletCapability::default();
    assert_eq!(empty.get_taddr_to_secretkey_map().unwrap_err(), KeyError::NoSpendCapability);
}

#[test]
fn transparent_addr_kinds() {
    let a = TransparentAddr::PublicKeyHash(vec![0u8; 20]);
    assert!(a.is_pubkey_hash());
    let b = TransparentAddr::ScriptHash(vec![0u8; 20]);
    assert!(!b.is_pubkey_hash());
    assert_eq!(a.hash_bytes(), b.hash_bytes());
}

#[test]
fn phrase_construction() {
    let phrase = "abandon abandon abandon abandon abandon abandon abandon abandon abandon abandon abandon about";
    let wc = WalletCapability::new_from_phrase(ChainType::Regtest, phrase, 0).unwrap();
    assert!(wc.unified_key_store().is_spending_key());
    let again = WalletCapability::new_from_phrase(ChainType::Regtest, phrase, 0).unwrap();
    let mut a = wc;
    let mut b = again;
    let x = a.new_address(all_receivers()).unwrap();
    let y = b.new_address(all_receivers()).unwrap();
    assert_eq!(x.sapling(), y.sapling());
    assert_eq!(
        WalletCapability::new_from_phrase(ChainType::Regtest, "not a phrase", 0).unwrap_err(),
        KeyError::KeyDecodingError
    );
}

#[test]
fn lookup_by_transparent_receiver() {
    let seed = test_seed();
    let mut wc = WalletCapability::new_from_seed(ChainType::Regtest, &seed, 0).unwrap();
    let a0 = wc.new_address(all_receivers()).unwrap();
    let a1 = wc.new_address(all_receivers()).unwrap();
    let found = wc
        .get_ua_from_contained_transparent_receiver(a1.transparent().unwrap())
        .unwrap();
    assert_eq!(found.sapling(), a1.sapling());
    assert_ne!(found.sapling(), a0.sapling());
    let absent = TransparentAddr::PublicKeyHash(vec![0u8; 20]);
    assert!(wc.get_ua_from_contained_transparent_receiver(&absent).is_none());
}

#[test]
fn phrase_matches_seed_construction() {
    let phrase = "abandon abandon abandon abandon abandon abandon abandon abandon abandon abandon abandon about";
    let seed = bip0039::Mnemonic::<bip0039::English>::from_phrase(phrase)
        .unwrap()
        .to_seed("")
        .to_vec();
    let mut from_phrase = WalletCapability::new_from_phrase(ChainType::Testnet, phrase, 5).unwrap();
    let mut from_seed = WalletCapability::new_from_seed(ChainType::Testnet, &seed, 5).unwrap();
    let a = from_phrase.new_address(all_receivers()).unwrap();
    let b = from_seed.new_address(all_receivers()).unwrap();
    assert_eq!(a.orchard(), b.orchard());
    assert_eq!(a.sapling(), b.sapling());
    assert_eq!(
        a.transparent().unwrap().hash_bytes(),
        b.transparent().unwrap().hash_bytes()
    );
    assert_eq!(
        WalletCapability::new_from_phrase(ChainType::Testnet, phrase, 0x8000_0000).unwrap_err(),
        KeyError::InvalidAccountIndex
    );
}

#[test]
fn lookup_returns_first_match() {
    let shared = TransparentAddr::PublicKeyHash(vec![8u8; 20]);
    let first = UnifiedAddress::from_receivers(
        None,
        Some(vec![1u8; 43]),
        Some(TransparentAddr::PublicKeyHash(vec![8u8; 20])),
    )
    .unwrap();
    let second = UnifiedAddress::from_receivers(
        None,
        Some(vec![2u8; 43]),
        Some(TransparentAddr::PublicKeyHash(vec![8u8; 20])),
    )
    .unwrap();
    let mut wc = WalletCapability::default();
    wc.addresses.push(first);
    wc.addresses.push(second);
    let found = wc.get_ua_from_contained_transparent_receiver(&shared).unwrap();
    assert_eq!(found.sapling().unwrap(), &vec![1u8; 43]);
}
