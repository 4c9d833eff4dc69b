//! Trusted boundary to the per-pool cryptographic crates.
//!
//! Every function here is an `external_body` wrapper around one operation of
//! an outside cryptography crate, taking and returning plain byte vectors.
//! Results that are deterministic functions of the inputs but far too large
//! to state are given names as bodiless spec functions; the verified logic
//! in the rest of the crate is written against those names.

use vstd::prelude::*;

use zcash_address::unified::Container;
use zcash_address::unified::Fvk;
use zcash_address::unified::Ufvk;
use zcash_protocol::consensus::NetworkType;
use zcash_address::unified::Encoding;
use zcash_transparent::keys::IncomingViewingKey;

use crate::chain::ChainType;
use crate::keystore::ViewKeyBundle;

verus! {

/// The spending key the index-addressed shielded pool derives from a seed at
/// `m_orchard/32'/coin'/account'`, or nothing when derivation fails.
pub uninterp spec fn orchard_sk_of_seed(seed: Seq<u8>, coin: u32, account: u32) -> Option<
    Seq<u8>,
>;

/// The extended spending key the diversifier-indexed shielded pool derives
/// from a seed at `m_sapling/32'/coin'/account'`.
pub uninterp spec fn sapling_sk_of_seed(seed: Seq<u8>, coin: u32, account: u32) -> Seq<u8>;

/// The transparent account private key derived from a seed at
/// `m/44'/coin'/account'`, or nothing when derivation fails.
pub uninterp spec fn transparent_sk_of_seed(seed: Seq<u8>, coin: u32, account: u32) -> Option<
    Seq<u8>,
>;

/// Whether 32 bytes are a valid spending key of the index-addressed pool.
pub uninterp spec fn orchard_sk_ok(sk: Seq<u8>) -> bool;

/// The full viewing key derived from an index-addressed pool spending key.
pub uninterp spec fn orchard_fvk_of_sk(sk: Seq<u8>) -> Seq<u8>;

/// Whether 169 bytes are a valid extended spending key of the
/// diversifier-indexed pool.
pub uninterp spec fn sapling_sk_ok(sk: Seq<u8>) -> bool;

/// The diversifiable full viewing key derived from a diversifier-indexed
/// pool extended spending key.
pub uninterp spec fn sapling_dfvk_of_sk(sk: Seq<u8>) -> Seq<u8>;

/// Whether 74 bytes are a valid transparent account private key encoding.
pub uninterp spec fn transparent_sk_ok(sk: Seq<u8>) -> bool;

/// The 65-byte transparent account public key of an account private key.
pub uninterp spec fn transparent_pub_of_sk(sk: Seq<u8>) -> Seq<u8>;

/// Whether 96 bytes are a valid full viewing key of the index-addressed pool.
pub uninterp spec fn orchard_fvk_ok(fvk: Seq<u8>) -> bool;

/// Whether 128 bytes are a valid diversifiable full viewing key of the
/// diversifier-indexed pool.
pub uninterp spec fn sapling_dfvk_ok(fvk: Seq<u8>) -> bool;

/// The external-chain incoming viewing key derived from a transparent
/// account public key, or nothing when child derivation fails.
pub uninterp spec fn external_ivk_of_pub(pubk: Seq<u8>) -> Option<Seq<u8>>;

/// The raw address of the index-addressed pool at a diversifier index.
pub uninterp spec fn orchard_addr_at(fvk: Seq<u8>, j: int) -> Seq<u8>;

/// The diversifier-indexed pool's address at exactly index `j`, or nothing
/// when `j` yields no valid diversifier.
pub uninterp spec fn sapling_addr_at(dfvk: Seq<u8>, j: int) -> Option<Seq<u8>>;

/// The transparent address hash at non-hardened child index `j` of an
/// external-chain incoming viewing key, or nothing when derivation fails.
pub uninterp spec fn transparent_addr_at(ivk: Seq<u8>, j: u32) -> Option<Seq<u8>>;

/// The decoding of a unified full viewing key string (as UTF-8 bytes):
/// network tag (0 main, 1 test, 2 regtest) and the raw per-pool components,
/// or nothing when the string is not a valid unified encoding.
pub uninterp spec fn ufvk_parts_of(s: Seq<u8>) -> Option<
    (u8, Option<Seq<u8>>, Option<Seq<u8>>, Option<Seq<u8>>),
>;

/// The canonical unified encoding (as UTF-8 bytes) of per-pool viewing key
/// components under a network tag.
pub uninterp spec fn ufvk_bytes_of_parts(
    o: Option<Seq<u8>>,
    s: Option<Seq<u8>>,
    t: Option<Seq<u8>>,
    net: u8,
) -> Seq<u8>;

/// The incoming viewing key of the index-addressed pool under a scope.
pub uninterp spec fn orchard_ivk_of(fvk: Seq<u8>, external: bool) -> Seq<u8>;

/// The outgoing viewing key of the index-addressed pool under a scope.
pub uninterp spec fn orchard_ovk_of(fvk: Seq<u8>, external: bool) -> Seq<u8>;

/// The incoming viewing key of the diversifier-indexed pool under a scope.
pub uninterp spec fn sapling_ivk_of(dfvk: Seq<u8>, external: bool) -> Seq<u8>;

/// The outgoing viewing key of the diversifier-indexed pool under a scope.
pub uninterp spec fn sapling_ovk_of(dfvk: Seq<u8>, external: bool) -> Seq<u8>;

/// The compressed public key of a raw transparent secret key, or nothing
/// when the 32 bytes are not a valid secret key.
pub uninterp spec fn secp_pub_of_sk(sk: Seq<u8>) -> Option<Seq<u8>>;

/// The external-chain child secret key of a transparent account private key
/// at index `j`, or nothing when derivation fails.
pub uninterp spec fn transparent_child_sk_at(sk: Seq<u8>, j: u32) -> Option<Seq<u8>>;

/// The 64-byte seed of a mnemonic phrase with an empty passphrase, or
/// nothing when the phrase is invalid.
pub uninterp spec fn seed_of_phrase(phrase: Seq<char>) -> Option<Seq<u8>>;

/// Relies on `orchard::keys::SpendingKey::from_zip32_seed`: hardened ZIP 32
/// derivation from a seed; fails only when an intermediate key is invalid.
#[verifier::external_body]
pub(crate) fn orchard_sk_from_seed(seed: &Vec<u8>, coin: u32, account: u32) -> (r: Option<Vec<u8>>)
    requires
        seed@.len() == 64,
        coin < 0x8000_0000,
        account < 0x8000_0000,
    ensures
        match r {
            Some(v) => orchard_sk_of_seed(seed@, coin, account) == Some(v@) && v@.len() == 32
                && orchard_sk_ok(v@),
            None => orchard_sk_of_seed(seed@, coin, account) is None,
        },
{
    let account_id = zip32::AccountId::try_from(account).ok()?;
    orchard::keys::SpendingKey::from_zip32_seed(seed.as_slice(), coin, account_id)
        .ok()
        .map(|sk| sk.to_bytes().to_vec())
}

/// Relies on `zcash_keys::keys::sapling::spending_key`: hardened ZIP 32
/// derivation of the pool's extended spending key; total for 64-byte seeds.
#[verifier::external_body]
pub(crate) fn sapling_sk_from_seed(seed: &Vec<u8>, coin: u32, account: u32) -> (r: Vec<u8>)
    requires
        seed@.len() == 64,
        coin < 0x8000_0000,
        account < 0x8000_0000,
    ensures
        r@ == sapling_sk_of_seed(seed@, coin, account),
        r@.len() == 169,
        sapling_sk_ok(r@),
{
    let account_id = zip32::AccountId::try_from(account).expect("account index is in range");
    zcash_keys::keys::sapling::spending_key(seed.as_slice(), coin, account_id).to_bytes().to_vec()
}

/// Relies on `zcash_transparent::keys::AccountPrivKey::from_seed`: BIP 44
/// account-level derivation `m/44'/coin'/account'`; of the network
/// parameters only the coin type is read.
#[verifier::external_body]
pub(crate) fn transparent_sk_from_seed(seed: &Vec<u8>, chain: ChainType, account: u32) -> (r:
    Option<Vec<u8>>)
    requires
        seed@.len() == 64,
        account < 0x8000_0000,
    ensures
        match r {
            Some(v) => transparent_sk_of_seed(seed@, chain.spec_coin_type(), account) == Some(v@)
                && v@.len() == 74 && transparent_sk_ok(v@)
                && external_ivk_of_pub(transparent_pub_of_sk(v@)) is Some,
            None => transparent_sk_of_seed(seed@, chain.spec_coin_type(), account) is None,
        },
{
    let account_id = zip32::AccountId::try_from(account).ok()?;
    let key = match chain {
        ChainType::Mainnet => zcash_transparent::keys::AccountPrivKey::from_seed(
            &zcash_protocol::consensus::MAIN_NETWORK, seed.as_slice(), account_id),
        _ => zcash_transparent::keys::AccountPrivKey::from_seed(
            &zcash_protocol::consensus::TEST_NETWORK, seed.as_slice(), account_id),
    }.ok()?;
    key.to_account_pubkey().derive_external_ivk().ok()?;
    Some(key.to_bytes())
}

/// Relies on `orchard::keys::SpendingKey::from_bytes`: validity of a raw
/// spending key (its derived components must be nonzero).
#[verifier::external_body]
pub(crate) fn orchard_sk_check(sk: &Vec<u8>) -> (r: bool)
    requires
        sk@.len() == 32,
    ensures
        r == orchard_sk_ok(sk@),
{
    let mut arr = [0u8; 32];
    arr.copy_from_slice(sk.as_slice());
    Option::<orchard::keys::SpendingKey>::from(orchard::keys::SpendingKey::from_bytes(arr))
        .is_some()
}

/// Relies on `orchard::keys::FullViewingKey::from(&SpendingKey)` and its
/// 96-byte serialization.
#[verifier::external_body]
pub(crate) fn orchard_fvk_from_sk(sk: &Vec<u8>) -> (r: Vec<u8>)
    requires
        sk@.len() == 32,
        orchard_sk_ok(sk@),
    ensures
        r@ == orchard_fvk_of_sk(sk@),
        r@.len() == 96,
        orchard_fvk_ok(r@),
{
    let mut arr = [0u8; 32];
    arr.copy_from_slice(sk.as_slice());
    let sk = Option::<orchard::keys::SpendingKey>::from(orchard::keys::SpendingKey::from_bytes(arr))
        .expect("spending key was checked to be valid");
    orchard::keys::FullViewingKey::from(&sk).to_bytes().to_vec()
}

/// Relies on `sapling_crypto::zip32::ExtendedSpendingKey::from_bytes`:
/// validity of the 169-byte encoding.
#[verifier::external_body]
pub(crate) fn sapling_sk_check(sk: &Vec<u8>) -> (r: bool)
    requires
        sk@.len() == 169,
    ensures
        r == sapling_sk_ok(sk@),
{
    sapling_crypto::zip32::ExtendedSpendingKey::from_bytes(sk.as_slice()).is_ok()
}

/// Relies on `ExtendedSpendingKey::to_diversifiable_full_viewing_key` and
/// the key's 128-byte serialization.
#[verifier::external_body]
pub(crate) fn sapling_dfvk_from_sk(sk: &Vec<u8>) -> (r: Vec<u8>)
    requires
        sk@.len() == 169,
        sapling_sk_ok(sk@),
    ensures
        r@ == sapling_dfvk_of_sk(sk@),
        r@.len() == 128,
        sapling_dfvk_ok(r@),
{
    let key = sapling_crypto::zip32::ExtendedSpendingKey::from_bytes(sk.as_slice())
        .expect("extended spending key was checked to be valid");
    key.to_diversifiable_full_viewing_key().to_bytes().to_vec()
}

/// Relies on `zcash_transparent::keys::AccountPrivKey::from_bytes`: validity
/// of the 74-byte extended-key encoding.
#[verifier::external_body]
pub(crate) fn transparent_sk_check(sk: &Vec<u8>) -> (r: bool)
    requires
        sk@.len() == 74,
    ensures
        r == transparent_sk_ok(sk@),
{
    zcash_transparent::keys::AccountPrivKey::from_bytes(sk.as_slice()).is_some()
}

/// Relies on `AccountPrivKey::to_account_pubkey` and `AccountPubKey`'s
/// 65-byte serialization (chain code, then compressed public key).
#[verifier::external_body]
pub(crate) fn transparent_pub_from_sk(sk: &Vec<u8>) -> (r: Vec<u8>)
    requires
        sk@.len() == 74,
        transparent_sk_ok(sk@),
    ensures
        r@ == transparent_pub_of_sk(sk@),
        r@.len() == 65,
{
    zcash_transparent::keys::AccountPrivKey::from_bytes(sk.as_slice())
        .expect("account private key was checked to be valid")
        .to_account_pubkey()
        .serialize()
}

/// Relies on `orchard::keys::FullViewingKey::from_bytes`: validity of the
/// 96-byte encoding.
#[verifier::external_body]
pub(crate) fn orchard_fvk_check(fvk: &Vec<u8>) -> (r: bool)
    requires
        fvk@.len() == 96,
    ensures
        r == orchard_fvk_ok(fvk@),
{
    let mut arr = [0u8; 96];
    arr.copy_from_slice(fvk.as_slice());
    orchard::keys::FullViewingKey::from_bytes(&arr).is_some()
}

/// Relies on `DiversifiableFullViewingKey::from_bytes`: validity of the
/// 128-byte encoding.
#[verifier::external_body]
pub(crate) fn sapling_dfvk_check(fvk: &Vec<u8>) -> (r: bool)
    requires
        fvk@.len() == 128,
    ensures
        r == sapling_dfvk_ok(fvk@),
{
    let mut arr = [0u8; 128];
    arr.copy_from_slice(fvk.as_slice());
    sapling_crypto::zip32::DiversifiableFullViewingKey::from_bytes(&arr).is_some()
}

/// Relies on `AccountPubKey::deserialize` and `derive_external_ivk`:
/// non-hardened derivation of the external-chain viewing key, serialized to
/// 65 bytes.
#[verifier::external_body]
pub(crate) fn transparent_external_ivk(pubk: &Vec<u8>) -> (r: Option<Vec<u8>>)
    requires
        pubk@.len() == 65,
    ensures
        match r {
            Some(v) => external_ivk_of_pub(pubk@) == Some(v@) && v@.len() == 65,
            None => external_ivk_of_pub(pubk@) is None,
        },
{
    let mut arr = [0u8; 65];
    arr.copy_from_slice(pubk.as_slice());
    let apk = zcash_transparent::keys::AccountPubKey::deserialize(&arr).ok()?;
    Some(apk.derive_external_ivk().ok()?.serialize())
}

/// Relies on `orchard::keys::FullViewingKey::address_at` with the external
/// scope: total for every diversifier index, 43-byte raw addresses.
#[verifier::external_body]
pub(crate) fn orchard_address_at(fvk: &Vec<u8>, j: usize) -> (r: Vec<u8>)
    requires
        fvk@.len() == 96,
        orchard_fvk_ok(fvk@),
    ensures
        r@ == orchard_addr_at(fvk@, j as int),
        r@.len() == 43,
{
    let mut arr = [0u8; 96];
    arr.copy_from_slice(fvk.as_slice());
    let key = orchard::keys::FullViewingKey::from_bytes(&arr)
        .expect("full viewing key was checked to be valid");
    key.address_at(j as u64, orchard::keys::Scope::External).to_raw_address_bytes().to_vec()
}

/// Relies on `DiversifiableFullViewingKey::find_address`: the smallest
/// diversifier index at or above `j` with a valid diversifier, and its
/// 43-byte address; `None` when the index space above `j` is exhausted.
#[verifier::external_body]
pub(crate) fn sapling_find_address_from(dfvk: &Vec<u8>, j: u128) -> (r: Option<(u128, Vec<u8>)>)
    requires
        dfvk@.len() == 128,
        sapling_dfvk_ok(dfvk@),
        j < 0x1_0000_0000_0000_0000_0000_00,
    ensures
        match r {
            Some((k, a)) => {
                &&& j <= k < 0x1_0000_0000_0000_0000_0000_00
                &&& sapling_addr_at(dfvk@, k as int) == Some(a@)
                &&& a@.len() == 43
                &&& forall|i: int| j <= i < k ==> sapling_addr_at(dfvk@, i) is None
            },
            None => forall|i: int|
                j <= i < 0x1_0000_0000_0000_0000_0000_00 ==> sapling_addr_at(dfvk@, i) is None,
        },
{
    let mut arr = [0u8; 128];
    arr.copy_from_slice(dfvk.as_slice());
    let key = sapling_crypto::zip32::DiversifiableFullViewingKey::from_bytes(&arr)
        .expect("diversifiable full viewing key was checked to be valid");
    let mut start = [0u8; 11];
    start.copy_from_slice(&j.to_le_bytes()[..11]);
    let (k, addr) = key.find_address(zip32::DiversifierIndex::from(start))?;
    let mut k_bytes = [0u8; 16];
    k_bytes[..11].copy_from_slice(k.as_bytes());
    Some((u128::from_le_bytes(k_bytes), addr.to_bytes().to_vec()))
}

/// Relies on `ExternalIvk::deserialize` and `derive_address`: non-hardened
/// child derivation at `j` followed by the pay-to-public-key-hash address.
#[verifier::external_body]
pub(crate) fn transparent_address_at(ivk: &Vec<u8>, j: u32) -> (r: Option<Vec<u8>>)
    requires
        ivk@.len() == 65,
        j < 0x8000_0000,
    ensures
        match r {
            Some(v) => transparent_addr_at(ivk@, j) == Some(v@) && v@.len() == 20,
            None => transparent_addr_at(ivk@, j) is None,
        },
{
    let mut arr = [0u8; 65];
    arr.copy_from_slice(ivk.as_slice());
    let key = zcash_transparent::keys::ExternalIvk::deserialize(&arr).ok()?;
    let index = zcash_transparent::keys::NonHardenedChildIndex::from_index(j)?;
    match key.derive_address(index).ok()? {
        zcash_transparent::address::TransparentAddress::PublicKeyHash(h) => Some(h.to_vec()),
        zcash_transparent::address::TransparentAddress::ScriptHash(_) => None,
    }
}

/// Relies on `zcash_address::unified::Ufvk::decode` and `Container::items`:
/// Bech32m decoding of a unified full viewing key string into its network
/// and raw per-pool components.
#[verifier::external_body]
pub(crate) fn ufvk_decode(s: &Vec<u8>) -> (r: Option<
    (u8, Option<Vec<u8>>, Option<Vec<u8>>, Option<Vec<u8>>),
>)
    ensures
        match r {
            Some((net, o, sa, t)) => {
                &&& ufvk_parts_of(s@) == Some(
                    (
                        net,
                        match o { Some(v) => Some(v@), None => None },
                        match sa { Some(v) => Some(v@), None => None },
                        match t { Some(v) => Some(v@), None => None },
                    ),
                )
                &&& net < 3
                &&& (o matches Some(v) ==> v@.len() == 96)
                &&& (sa matches Some(v) ==> v@.len() == 128)
                &&& (t matches Some(v) ==> v@.len() == 65)
            },
            None => ufvk_parts_of(s@) is None,
        },
{
    let text = core::str::from_utf8(s.as_slice()).ok()?;
    let (net, ufvk) = Ufvk::decode(text).ok()?;
    let tag = match net { NetworkType::Main => 0u8, NetworkType::Test => 1u8, _ => 2u8 };
    let (mut o, mut sa, mut t) = (None, None, None);
    for item in ufvk.items() {
        match item {
            Fvk::Orchard(d) => o = Some(d.to_vec()),
            Fvk::Sapling(d) => sa = Some(d.to_vec()),
            Fvk::P2pkh(d) => t = Some(d.to_vec()),
            Fvk::Unknown { .. } => {},
        }
    }
    Some((tag, o, sa, t))
}

/// Relies on `Ufvk::try_from_items` and `Encoding::encode`: the canonical
/// Bech32m encoding of the given components, which `Ufvk::decode` inverts.
#[verifier::external_body]
pub(crate) fn ufvk_encode(v: &ViewKeyBundle, net: u8) -> (r: Vec<u8>)
    requires
        v.wf(),
        v.orchard_fvk is Some || v.sapling_fvk is Some,
        net < 3,
    ensures
        r@ == ufvk_bytes_of_parts(v.spec_orchard(), v.spec_sapling(), v.spec_transparent(), net),
        ufvk_parts_of(r@) == Some((net, v.spec_orchard(), v.spec_sapling(), v.spec_transparent())),
        r@.len() <= 0x100000,
{
    let mut items = Vec::new();
    if let Some(o) = &v.orchard_fvk {
        items.push(Fvk::Orchard(o.as_slice().try_into().expect("checked length")));
    }
    if let Some(sa) = &v.sapling_fvk {
        items.push(Fvk::Sapling(sa.as_slice().try_into().expect("checked length")));
    }
    if let Some(t) = &v.transparent_fvk {
        items.push(Fvk::P2pkh(t.as_slice().try_into().expect("checked length")));
    }
    let net = match net { 0 => NetworkType::Main, 1 => NetworkType::Test, _ => NetworkType::Regtest };
    Ufvk::try_from_items(items).expect("a shielded component is present").encode(&net).into_bytes()
}

/// Relies on `orchard::keys::FullViewingKey::to_ivk` and the incoming
/// viewing key's 64-byte serialization.
#[verifier::external_body]
pub(crate) fn orchard_ivk(fvk: &Vec<u8>, external: bool) -> (r: Vec<u8>)
    requires
        fvk@.len() == 96,
        orchard_fvk_ok(fvk@),
    ensures
        r@ == orchard_ivk_of(fvk@, external),
        r@.len() == 64,
{
    let mut arr = [0u8; 96];
    arr.copy_from_slice(fvk.as_slice());
    let key = orchard::keys::FullViewingKey::from_bytes(&arr)
        .expect("full viewing key was checked to be valid");
    let scope = if external { orchard::keys::Scope::External } else { orchard::keys::Scope::Internal };
    key.to_ivk(scope).to_bytes().to_vec()
}

/// Relies on `orchard::keys::FullViewingKey::to_ovk` and the outgoing
/// viewing key's 32 raw bytes.
#[verifier::external_body]
pub(crate) fn orchard_ovk(fvk: &Vec<u8>, external: bool) -> (r: Vec<u8>)
    requires
        fvk@.len() == 96,
        orchard_fvk_ok(fvk@),
    ensures
        r@ == orchard_ovk_of(fvk@, external),
        r@.len() == 32,
{
    let mut arr = [0u8; 96];
    arr.copy_from_slice(fvk.as_slice());
    let key = orchard::keys::FullViewingKey::from_bytes(&arr)
        .expect("full viewing key was checked to be valid");
    let scope = if external { orchard::keys::Scope::External } else { orchard::keys::Scope::Internal };
    let ovk = key.to_ovk(scope);
    let ovk_bytes: &[u8; 32] = ovk.as_ref();
    ovk_bytes.to_vec()
}

/// Relies on `DiversifiableFullViewingKey::to_ivk` and the incoming viewing
/// key's 32-byte scalar representation.
#[verifier::external_body]
pub(crate) fn sapling_ivk(dfvk: &Vec<u8>, external: bool) -> (r: Vec<u8>)
    requires
        dfvk@.len() == 128,
        sapling_dfvk_ok(dfvk@),
    ensures
        r@ == sapling_ivk_of(dfvk@, external),
        r@.len() == 32,
{
    let mut arr = [0u8; 128];
    arr.copy_from_slice(dfvk.as_slice());
    let key = sapling_crypto::zip32::DiversifiableFullViewingKey::from_bytes(&arr)
        .expect("diversifiable full viewing key was checked to be valid");
    let scope = if external { zip32::Scope::External } else { zip32::Scope::Internal };
    key.to_ivk(scope).to_repr().to_vec()
}

/// Relies on `DiversifiableFullViewingKey::to_ovk` and the outgoing viewing
/// key's 32 raw bytes.
#[verifier::external_body]
pub(crate) fn sapling_ovk(dfvk: &Vec<u8>, external: bool) -> (r: Vec<u8>)
    requires
        dfvk@.len() == 128,
        sapling_dfvk_ok(dfvk@),
    ensures
        r@ == sapling_ovk_of(dfvk@, external),
        r@.len() == 32,
{
    let mut arr = [0u8; 128];
    arr.copy_from_slice(dfvk.as_slice());
    let key = sapling_crypto::zip32::DiversifiableFullViewingKey::from_bytes(&arr)
        .expect("diversifiable full viewing key was checked to be valid");
    let scope = if external { zip32::Scope::External } else { zip32::Scope::Internal };
    key.to_ovk(scope).0.to_vec()
}

/// Relies on `secp256k1::PublicKey::from_secret_key`: the compressed
/// 33-byte public key of a raw secret key.
#[verifier::external_body]
pub(crate) fn secp_pub_from_sk(sk: &Vec<u8>) -> (r: Option<Vec<u8>>)
    requires
        sk@.len() == 32,
    ensures
        match r {
            Some(v) => secp_pub_of_sk(sk@) == Some(v@) && v@.len() == 33,
            None => secp_pub_of_sk(sk@) is None,
        },
{
    let secret = secp256k1::SecretKey::from_slice(sk.as_slice()).ok()?;
    let ctx = secp256k1::Secp256k1::new();
    Some(secp256k1::PublicKey::from_secret_key(&ctx, &secret).serialize().to_vec())
}

/// Relies on `AccountPrivKey::derive_external_secret_key`: the raw secret
/// key of the external-chain child at index `j`.
#[verifier::external_body]
pub(crate) fn transparent_child_sk(sk: &Vec<u8>, j: u32) -> (r: Option<Vec<u8>>)
    requires
        sk@.len() == 74,
        transparent_sk_ok(sk@),
        j < 0x8000_0000,
    ensures
        match r {
            Some(v) => transparent_child_sk_at(sk@, j) == Some(v@) && v@.len() == 32,
            None => transparent_child_sk_at(sk@, j) is None,
        },
{
    let key = zcash_transparent::keys::AccountPrivKey::from_bytes(sk.as_slice())
        .expect("account private key was checked to be valid");
    let index = zcash_transparent::keys::NonHardenedChildIndex::from_index(j)?;
    Some(key.derive_external_secret_key(index).ok()?.secret_bytes().to_vec())
}

/// Relies on `bip0039::Mnemonic::from_phrase` and `to_seed` with an empty
/// passphrase: the 64-byte seed of a valid mnemonic phrase.
#[verifier::external_body]
pub(crate) fn phrase_to_seed(phrase: &str) -> (r: Option<Vec<u8>>)
    ensures
        match r {
            Some(v) => seed_of_phrase(phrase@) == Some(v@) && v@.len() == 64,
            None => seed_of_phrase(phrase@) is None,
        },
{
    let mnemonic = bip0039::Mnemonic::<bip0039::English>::from_phrase(phrase).ok()?;
    Some(mnemonic.to_seed("").to_vec())
}

} // verus!
