use unified_keys::capability::WalletCapability;
use unified_keys::chain::ChainType;
use unified_keys::keystore::UnifiedKeyStore;
use unified_keys::scope::{
    derive_orchard_ivk, derive_orchard_ovk, derive_sapling_ivk, derive_sapling_ovk,
    scoped_orchard_ivk, scoped_sapling_ovk, DerivationScope, External, Internal, Scope,
};

fn spend_store() -> UnifiedKeyStore {
    let seed = vec![5u8; 64];
    let wc = WalletCapability::new_from_seed(ChainType::Regtest, &seed, 0).unwrap();
    match wc {
        WalletCapability { unified_key_store, .. } => unified_key_store,
    }
}

#[test]
fn scope_markers_select_scopes() {
    assert_eq!(External::scope(), DerivationScope::External);
    assert_eq!(Internal::scope(), DerivationScope::Internal);
}

#[test]
fn orchard_scoped_keys_match_direct_derivation() {
    let store = spend_store();
    let fvk = store.orchard_fvk().unwrap();
    let ivk = derive_orchard_ivk::<External>(&fvk);
    let ovk = derive_orchard_ovk::<External>(&fvk);
    assert_eq!(ivk.scope, DerivationScope::External);
    assert_eq!(ovk.scope, DerivationScope::External);

    let mut arr = [0u8; 96];
    arr.copy_from_slice(&fvk);
    let direct = orchard::keys::FullViewingKey::from_bytes(&arr).unwrap();
    assert_eq!(ivk.ivk, direct.to_ivk(orchard::keys::Scope::External).to_bytes().to_vec());
    let direct_ovk = direct.to_ovk(orchard::keys::Scope::External);
    let direct_ovk_bytes: &[u8; 32] = direct_ovk.as_ref();
    assert_eq!(ovk.ovk, direct_ovk_bytes.to_vec());

    let internal = derive_orchard_ivk::<Internal>(&fvk);
    assert_ne!(ivk.ivk, internal.ivk);
}

#[test]
fn sapling_scoped_keys_match_direct_derivation() {
    let store = spend_store();
    let dfvk = store.sapling_dfvk().unwrap();
    let ivk = derive_sapling_ivk::<External>(&dfvk);
    let ovk = derive_sapling_ovk::<External>(&dfvk);

    let mut arr = [0u8; 128];
    arr.copy_from_slice(&dfvk);
    let direct = sapling_crypto::zip32::DiversifiableFullViewingKey::from_bytes(&arr).unwrap();
    assert_eq!(ivk.ivk, direct.to_ivk(zip32::Scope::External).to_repr().to_vec());
    assert_eq!(ovk.ovk, direct.to_ovk(zip32::Scope::External).0.to_vec());

    let internal = derive_sapling_ovk::<Internal>(&dfvk);
    assert_ne!(ovk.ovk, internal.ovk);
}

#[test]
fn spend_projections_require_authority() {
    let store = spend_store();
    assert!(store.orchard_sk().is_ok());
    assert!(store.sapling_sk().is_ok());
    assert!(store.transparent_sk().is_ok());
    let empty = UnifiedKeyStore::Empty;
    assert!(empty.orchard_sk().is_err());
    assert!(empty.orchard_fvk().is_err());
    assert!(empty.transparent_ivk().is_err());
}

#[test]
fn scoped_keys_guarded_entry() {
    let store = spend_store();
    let fvk = store.orchard_fvk().unwrap();
    let dfvk = store.sapling_dfvk().unwrap();
    let ivk = scoped_orchard_ivk::<External>(&fvk).unwrap();
    assert_eq!(ivk.ivk, derive_orchard_ivk::<External>(&fvk).ivk);
    assert!(scoped_orchard_ivk::<External>(&vec![0u8; 10]).is_none());
    let ovk = scoped_sapling_ovk::<Internal>(&dfvk).unwrap();
    assert_eq!(ovk.scope, DerivationScope::Internal);
    assert!(scoped_sapling_ovk::<Internal>(&vec![1u8; 12]).is_none());
}
