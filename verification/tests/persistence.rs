use zcash_address::unified::Encoding;
use unified_keys::capability::WalletCapability;
use unified_keys::chain::ChainType;
use unified_keys::select::ReceiverSelection;

fn test_seed() -> Vec<u8> {
    vec![42u8; 64]
}

fn all_receivers() -> ReceiverSelection {
    ReceiverSelection { orchard: true, sapling: true, transparent: true }
}

fn same_receivers(a: &unified_keys::address::UnifiedAddress, b: &unified_keys::address::UnifiedAddress) {
    assert_eq!(a.orchard(), b.orchard());
    assert_eq!(a.sapling(), b.sapling());
    match (a.transparent(), b.transparent()) {
        (Some(x), Some(y)) => assert_eq!(x.hash_bytes(), y.hash_bytes()),
        (None, None) => {},
        _ => panic!("transparent receiver presence differs"),
    }
}

#[test]
fn current_version_round_trip_with_five_addresses() {
    let seed = test_seed();
    let mut wc = WalletCapability::new_from_seed(ChainType::Regtest, &seed, 0).unwrap();
    let shielded = ReceiverSelection { orchard: true, sapling: true, transparent: false };
    let only_sapling = ReceiverSelection { orchard: false, sapling: true, transparent: false };
    wc.new_address(all_receivers()).unwrap();
    wc.new_address(shielded).unwrap();
    wc.new_address(only_sapling).unwrap();
    wc.new_address(all_receivers()).unwrap();
    wc.new_address(shielded).unwrap();

    let mut encoded: Vec<u8> = Vec::new();
    wc.write(&mut encoded, ChainType::Regtest);
    assert_eq!(encoded[0], 3);

    let decoded = WalletCapability::read(&encoded, ChainType::Regtest).unwrap();
    assert_eq!(decoded.addresses().len(), 5);
    for i in 0..5 {
        same_receivers(&wc.addresses()[i], &decoded.addresses()[i]);
    }
    assert_eq!(
        wc.transparent_child_addresses().len(),
        decoded.transparent_child_addresses().len()
    );

    let mut reencoded: Vec<u8> = Vec::new();
    decoded.write(&mut reencoded, ChainType::Regtest);
    assert_eq!(encoded, reencoded);
}

#[test]
fn view_only_round_trip() {
    let seed = test_seed();
    let account = zip32::AccountId::try_from(0).unwrap();
    let extsk = zcash_keys::keys::sapling::spending_key(&seed, 1, account);
    let dfvk = extsk.to_diversifiable_full_viewing_key().to_bytes();
    let ufvk = zcash_address::unified::Ufvk::try_from_items(vec![
        zcash_address::unified::Fvk::Sapling(dfvk),
    ])
    .unwrap()
    .encode(&zcash_protocol::consensus::NetworkType::Regtest);
    let mut wc = WalletCapability::new_from_ufvk(ChainType::Regtest, &ufvk).unwrap();
    let only_sapling = ReceiverSelection { orchard: false, sapling: true, transparent: false };
    wc.new_address(only_sapling).unwrap();
    wc.new_address(only_sapling).unwrap();

    let mut encoded: Vec<u8> = Vec::new();
    wc.write(&mut encoded, ChainType::Regtest);
    let decoded = WalletCapability::read(&encoded, ChainType::Regtest).unwrap();
    assert_eq!(decoded.addresses().len(), 2);
    for i in 0..2 {
        same_receivers(&wc.addresses()[i], &decoded.addresses()[i]);
    }
    let mut reencoded: Vec<u8> = Vec::new();
    decoded.write(&mut reencoded, ChainType::Regtest);
    assert_eq!(encoded, reencoded);
}

#[test]
fn first_generation_decodes_to_legacy_replay() {
    let seed = test_seed();
    let account = zip32::AccountId::try_from(0).unwrap();
    let orchard_sk = orchard::keys::SpendingKey::from_zip32_seed(&seed, 1, account).unwrap();
    let sapling_extsk = zcash_keys::keys::sapling::spending_key(&seed, 1, account);
    let chain_code = [9u8; 32];
    let transparent_sk = [1u8; 32];

    let mut v1: Vec<u8> = vec![1u8];
    v1.extend_from_slice(orchard_sk.to_bytes());
    v1.extend_from_slice(&sapling_extsk.to_bytes());
    v1.extend_from_slice(&chain_code);
    v1.extend_from_slice(&transparent_sk);
    v1.push(2u8); // two recorded selections
    v1.extend_from_slice(&[1u8, 0b011]); // orchard and sapling
    v1.extend_from_slice(&[1u8, 0b010]); // sapling only

    let decoded = WalletCapability::read(&v1, ChainType::Regtest).unwrap();
    assert_eq!(decoded.addresses().len(), 2);
    assert!(decoded.unified_key_store().is_empty());

    // The same ledger, replayed directly through the legacy algorithm from
    // the same raw keys.
    let orchard_fvk = orchard::keys::FullViewingKey::from(&orchard_sk).to_bytes().to_vec();
    let sapling_dfvk = sapling_extsk.to_diversifiable_full_viewing_key().to_bytes().to_vec();
    let ctx = secp256k1::Secp256k1::new();
    let secret = secp256k1::SecretKey::from_slice(&transparent_sk).unwrap();
    let pk = secp256k1::PublicKey::from_secret_key(&ctx, &secret).serialize();
    let mut ivk = chain_code.to_vec();
    ivk.extend_from_slice(&pk);

    let mut replay = WalletCapability::default();
    let sel0 = ReceiverSelection { orchard: true, sapling: true, transparent: false };
    let sel1 = ReceiverSelection { orchard: false, sapling: true, transparent: false };
    replay
        .legacy_new_address(sel0, Some(&orchard_fvk), Some(&sapling_dfvk), Some(&ivk))
        .unwrap();
    replay
        .legacy_new_address(sel1, Some(&orchard_fvk), Some(&sapling_dfvk), Some(&ivk))
        .unwrap();
    for i in 0..2 {
        same_receivers(&decoded.addresses()[i], &replay.addresses()[i]);
    }
}

#[test]
fn second_generation_view_records_decode() {
    let seed = test_seed();
    let account = zip32::AccountId::try_from(0).unwrap();
    let sapling_extsk = zcash_keys::keys::sapling::spending_key(&seed, 1, account);
    let dfvk = sapling_extsk.to_diversifiable_full_viewing_key().to_bytes();

    let mut v2: Vec<u8> = vec![2u8];
    v2.push(0u8); // no orchard capability
    v2.push(1u8); // sapling view capability
    v2.push(128u8);
    v2.extend_from_slice(&dfvk);
    v2.push(0u8); // no transparent capability
    v2.push(1u8); // one recorded selection
    v2.extend_from_slice(&[1u8, 0b010]); // sapling only

    let decoded = WalletCapability::read(&v2, ChainType::Regtest).unwrap();
    assert_eq!(decoded.addresses().len(), 1);
    assert!(!decoded.unified_key_store().is_spending_key());
    assert!(!decoded.unified_key_store().is_empty());
    let v = decoded.can_view();
    assert!(!v.orchard && v.sapling && !v.transparent);
}

#[test]
fn spending_key_bytes_round_trip() {
    let seed = test_seed();
    let mut original = WalletCapability::new_from_seed(ChainType::Regtest, &seed, 0).unwrap();
    let mut encoded: Vec<u8> = Vec::new();
    original.write(&mut encoded, ChainType::Regtest);
    // The authority encoding starts after the outer version byte: strip the
    // version, kind and compact length prefix to get the raw key bundle.
    assert_eq!(&encoded[0..3], &[3u8, 0u8, 0u8]);
    assert_eq!(&encoded[3..4], &[253u8]);
    let usk_len = u16::from_le_bytes([encoded[4], encoded[5]]) as usize;
    let usk = encoded[6..6 + usk_len].to_vec();
    let mut rebuilt = WalletCapability::new_from_usk(&usk).unwrap();

    let all = ReceiverSelection { orchard: true, sapling: true, transparent: true };
    let a = original.new_address(all).unwrap();
    let b = rebuilt.new_address(all).unwrap();
    same_receivers(&a, &b);
}

#[test]
fn truncated_encoding_rejected() {
    let seed = test_seed();
    let wc = WalletCapability::new_from_seed(ChainType::Regtest, &seed, 0).unwrap();
    let mut encoded: Vec<u8> = Vec::new();
    wc.write(&mut encoded, ChainType::Regtest);
    let truncated = encoded[..encoded.len() / 2].to_vec();
    assert!(WalletCapability::read(&truncated, ChainType::Regtest).is_err());
}
