//! The wallet capability: one key authority, an append-only ledger of
//! derived addresses, and the address-derivation protocol.

use vstd::prelude::*;
use vstd::string::StringSliceAdditionalSpecFns;

use crate::address::{
    derive_sapling_receiver, spec_sapling_receiver, spec_selection_of, SpecUnifiedAddress,
    TransparentAddr, UnifiedAddress,
};
use crate::bytes::copy_bytes;
use crate::chain::ChainType;
use crate::crypto::{
    orchard_addr_at, orchard_fvk_ok, orchard_sk_of_seed, sapling_dfvk_ok, sapling_sk_of_seed,
    seed_of_phrase, transparent_addr_at, transparent_sk_of_seed,
};
use crate::errors::KeyError;
use crate::keystore::{
    model_orchard_fvk, model_sapling_dfvk, model_transparent_ivk, parse_usk, FullKeyBundle,
    SpecKeyStore, UnifiedKeyStore, ViewKeyBundle,
};
use crate::select::ReceiverSelection;

verus! {

/// The views of a ledger's addresses.
pub open spec fn spec_addr_views(addrs: Seq<UnifiedAddress>) -> Seq<SpecUnifiedAddress> {
    Seq::new(addrs.len(), |i: int| addrs[i].spec_view())
}

/// The transparent entries a ledger of addresses induces: one `(index,
/// receiver)` pair per address that has a transparent receiver, in ledger
/// order.
pub open spec fn spec_t_entries(views: Seq<SpecUnifiedAddress>) -> Seq<(int, (bool, Seq<u8>))>
    decreases views.len(),
{
    if views.len() == 0 {
        Seq::empty()
    } else {
        let prefix = spec_t_entries(views.drop_last());
        match views.last().transparent {
            Some(t) => prefix.push(((views.len() - 1) as int, t)),
            None => prefix,
        }
    }
}

/// The views of the stored transparent ledger.
pub open spec fn spec_t_views(t: Seq<(usize, TransparentAddr)>) -> Seq<(int, (bool, Seq<u8>))> {
    Seq::new(t.len(), |m: int| (t[m].0 as int, t[m].1.spec_view()))
}

/// Whether one ledger entry at index `n` carries exactly the receivers the
/// authority derives at `n` for the receivers the entry contains.
pub open spec fn spec_entry_matches(
    ks: UnifiedKeyStore,
    n: nat,
    a: SpecUnifiedAddress,
) -> bool {
    &&& (a.orchard matches Some(v) ==> ks.spec_orchard_fvk() matches Some(f) && v
        == orchard_addr_at(f, n as int))
    &&& (a.sapling matches Some(v) ==> ks.spec_sapling_dfvk() matches Some(d)
        && spec_sapling_receiver(d, n) == Some(v))
    &&& (a.transparent matches Some(p) ==> p.0 == false && n < 0x8000_0000
        && (ks.spec_transparent_ivk() matches Some(ivk) && transparent_addr_at(ivk, n as u32)
        == Some(p.1)))
}

/// Holds exactly one key authority and the ledgers of addresses derived
/// from it. Readers share it freely; appends go through a single-writer
/// guard that reports contention instead of blocking.
#[derive(Debug)]
pub struct WalletCapability {
    /// The key authority.
    pub unified_key_store: UnifiedKeyStore,
    /// The derived addresses, in derivation order; never mutated or
    /// shortened once appended.
    pub addresses: Vec<UnifiedAddress>,
    /// One `(derivation index, transparent receiver)` pair per address that
    /// contains a transparent receiver.
    pub transparent_child_addresses: Vec<(usize, TransparentAddr)>,
    /// The single-writer append guard.
    pub addresses_write_lock: bool,
}

impl WalletCapability {
    /// The views of the address ledger.
    pub open spec fn spec_addrs(&self) -> Seq<SpecUnifiedAddress> {
        spec_addr_views(self.addresses@)
    }

    /// The receiver selections the ledger records.
    pub open spec fn spec_selections(&self) -> Seq<ReceiverSelection> {
        Seq::new(self.spec_addrs().len(), |i: int| spec_selection_of(self.spec_addrs()[i]))
    }

    /// Well-formedness: the authority and every address are well formed,
    /// and the transparent ledger is exactly the transparent entries the
    /// address ledger induces.
    pub open spec fn wf(&self) -> bool {
        &&& self.unified_key_store.wf()
        &&& forall|i: int|
            0 <= i < self.addresses@.len() ==> (#[trigger] self.addresses@[i]).wf()
        &&& spec_t_views(self.transparent_child_addresses@) == spec_t_entries(self.spec_addrs())
    }

    /// Every ledger entry carries what the authority derives at its index.
    pub open spec fn spec_faithful(&self) -> bool {
        forall|i: int|
            0 <= i < self.spec_addrs().len() ==> spec_entry_matches(
                self.unified_key_store,
                i as nat,
                #[trigger] self.spec_addrs()[i],
            )
    }

    /// Returns a copy of the first derived address that contains the given
    /// transparent receiver, if any.
    pub fn get_ua_from_contained_transparent_receiver(&self, receiver: &TransparentAddr) -> (r:
        Option<UnifiedAddress>)
        ensures
            match r {
                Some(ua) => exists|i: int|
                    #![auto]
                    0 <= i < self.spec_addrs().len() && self.spec_addrs()[i] == ua.spec_view()
                        && ua.spec_view().transparent == Some(receiver.spec_view()) && (forall|
                        j: int,
                    |
                        0 <= j < i ==> (#[trigger] self.spec_addrs()[j]).transparent != Some(
                            receiver.spec_view(),
                        )),
                None => forall|i: int|
                    #![auto]
                    0 <= i < self.spec_addrs().len() ==> self.spec_addrs()[i].transparent != Some(
                        receiver.spec_view(),
                    ),
            },
    {
        let mut i: usize = 0;
        while i < self.addresses.len()
            invariant
                i <= self.addresses@.len(),
                forall|j: int|
                    #![auto]
                    0 <= j < i ==> self.spec_addrs()[j].transparent != Some(receiver.spec_view()),
            decreases self.addresses@.len() - i,
        {
            match self.addresses[i].transparent() {
                Some(t) => {
                    let same_kind = t.is_pubkey_hash() == receiver.is_pubkey_hash();
                    if same_kind && crate::bytes::bytes_eq(t.hash_bytes(), receiver.hash_bytes()) {
                        let ua = self.addresses[i].duplicate();
                        proof {
                            assert(t.spec_view() == receiver.spec_view());
                            assert(self.spec_addrs()[i as int] == self.addresses@[
                                i as int].spec_view());
                            assert(ua.spec_view() == self.spec_addrs()[i as int]);
                            assert(ua.spec_view().transparent == Some(receiver.spec_view()));
                        }
                        return Some(ua);
                    }
                },
                None => {},
            }
            i = i + 1;
        }
        None
    }

    /// Returns the key authority.
    pub fn unified_key_store(&self) -> (r: &UnifiedKeyStore)
        ensures
            *r == self.unified_key_store,
    {
        &self.unified_key_store
    }

    /// Returns the address ledger.
    pub fn addresses(&self) -> (r: &Vec<UnifiedAddress>)
        ensures
            *r == self.addresses,
    {
        &self.addresses
    }

    /// Returns the transparent address ledger.
    pub fn transparent_child_addresses(&self) -> (r: &Vec<(usize, TransparentAddr)>)
        ensures
            *r == self.transparent_child_addresses,
    {
        &self.transparent_child_addresses
    }

    /// Returns the pools whose funds this capability can at least view.
    pub fn can_view(&self) -> (r: ReceiverSelection)
        ensures
            r == self.unified_key_store.spec_can_view(),
    {
        match &self.unified_key_store {
            UnifiedKeyStore::Spend(_) => ReceiverSelection {
                orchard: true,
                sapling: true,
                transparent: true,
            },
            UnifiedKeyStore::View(v) => ReceiverSelection {
                orchard: v.orchard_fvk.is_some(),
                sapling: v.sapling_fvk.is_some(),
                transparent: v.transparent_fvk.is_some(),
            },
            UnifiedKeyStore::Empty => ReceiverSelection {
                orchard: false,
                sapling: false,
                transparent: false,
            },
        }
    }

    /// Returns the sapling-equivalent receiver of the first derived
    /// address.
    pub fn first_sapling_address(&self) -> (r: Vec<u8>)
        requires
            self.addresses@.len() > 0,
            self.spec_addrs()[0].sapling is Some,
        ensures
            Some(r@) == self.spec_addrs()[0].sapling,
    {
        match self.addresses[0].sapling() {
            Some(v) => copy_bytes(v),
            None => {
                proof {
                    assert(false);
                }
                Vec::new()
            },
        }
    }
}

/// Whether a view-only authority of the given content is missing a viewing
/// key for a selected receiver.
pub open spec fn spec_insufficient(m: SpecKeyStore, sel: ReceiverSelection) -> bool {
    match m {
        SpecKeyStore::View(o, s, t) => (sel.orchard && o is None) || (sel.sapling && s is None)
            || (sel.transparent && t is None),
        _ => false,
    }
}

/// The error `new_address` reports for a given authority content, next
/// index, selection and guard state — or nothing, in which case it must
/// succeed.
pub open spec fn spec_new_address_err(
    m: SpecKeyStore,
    n: nat,
    sel: ReceiverSelection,
    locked: bool,
) -> Option<KeyError> {
    if spec_insufficient(m, sel) {
        Some(KeyError::InsufficientCapability)
    } else if locked {
        Some(KeyError::ConcurrentAppendCollision)
    } else if !sel.orchard && !sel.sapling {
        Some(KeyError::NoShieldedReceiver)
    } else if sel.orchard && model_orchard_fvk(m) is None {
        Some(KeyError::NoViewCapability)
    } else if sel.sapling && model_sapling_dfvk(m) is None {
        Some(KeyError::NoViewCapability)
    } else if sel.sapling && spec_sapling_receiver(model_sapling_dfvk(m)->Some_0, n) is None {
        Some(KeyError::DiversifierOverflow)
    } else if sel.transparent && model_transparent_ivk(m) is None {
        Some(KeyError::NoViewCapability)
    } else if sel.transparent && n >= 0x8000_0000 {
        Some(KeyError::TransparentDerivationError)
    } else if sel.transparent && transparent_addr_at(model_transparent_ivk(m)->Some_0, n as u32)
        is None {
        Some(KeyError::TransparentDerivationError)
    } else {
        None
    }
}

impl WalletCapability {
    /// Derives the next address containing the selected receivers and
    /// appends it to the ledger.
    ///
    /// The selected receivers are derived at index `n`, the current ledger
    /// length: the index-addressed pool directly at `n`, the
    /// diversifier-indexed pool at the `n`-th valid diversifier, and the
    /// transparent pool at non-hardened child index `n`. Failures leave
    /// both ledgers unchanged and release the append guard.
    pub fn new_address(&mut self, desired_receivers: ReceiverSelection) -> (r: Result<
        UnifiedAddress,
        KeyError,
    >)
        requires
            old(self).wf(),
        ensures
            final(self).wf(),
            final(self).unified_key_store == old(self).unified_key_store,
            final(self).addresses_write_lock == old(self).addresses_write_lock,
            match r {
                Ok(ua) => {
                    &&& spec_new_address_err(
                        old(self).unified_key_store.spec_model(),
                        old(self).addresses@.len() as nat,
                        desired_receivers,
                        old(self).addresses_write_lock,
                    ) is None
                    &&& ua.wf()
                    &&& ua.spec_selection() == desired_receivers
                    &&& spec_entry_matches(
                        old(self).unified_key_store,
                        old(self).addresses@.len() as nat,
                        ua.spec_view(),
                    )
                    &&& final(self).spec_addrs() == old(self).spec_addrs().push(ua.spec_view())
                },
                Err(e) => {
                    &&& spec_new_address_err(
                        old(self).unified_key_store.spec_model(),
                        old(self).addresses@.len() as nat,
                        desired_receivers,
                        old(self).addresses_write_lock,
                    ) == Some(e)
                    &&& final(self).addresses@ == old(self).addresses@
                    &&& final(self).transparent_child_addresses@ == old(
                        self,
                    ).transparent_child_addresses@
                },
            },
    {
        match &self.unified_key_store {
            UnifiedKeyStore::View(v) => {
                if (desired_receivers.transparent && v.transparent_fvk.is_none()) || (
                desired_receivers.sapling && v.sapling_fvk.is_none()) || (
                desired_receivers.orchard && v.orchard_fvk.is_none()) {
                    return Err(KeyError::InsufficientCapability);
                }
            },
            _ => {},
        }
        if self.addresses_write_lock {
            return Err(KeyError::ConcurrentAppendCollision);
        }
        self.addresses_write_lock = true;
        if !desired_receivers.orchard && !desired_receivers.sapling {
            self.addresses_write_lock = false;
            return Err(KeyError::NoShieldedReceiver);
        }
        let n = self.addresses.len();
        let orchard_receiver: Option<Vec<u8>> = if desired_receivers.orchard {
            match self.unified_key_store.orchard_fvk() {
                Ok(fvk) => Some(crate::crypto::orchard_address_at(&fvk, n)),
                Err(e) => {
                    self.addresses_write_lock = false;
                    return Err(e);
                },
            }
        } else {
            None
        };
        let sapling_receiver: Option<Vec<u8>> = if desired_receivers.sapling {
            match self.unified_key_store.sapling_dfvk() {
                Ok(dfvk) => match derive_sapling_receiver(&dfvk, n) {
                    Ok(a) => Some(a),
                    Err(e) => {
                        self.addresses_write_lock = false;
                        return Err(e);
                    },
                },
                Err(e) => {
                    self.addresses_write_lock = false;
                    return Err(e);
                },
            }
        } else {
            None
        };
        let transparent_receiver: Option<TransparentAddr> = if desired_receivers.transparent {
            match self.unified_key_store.transparent_ivk() {
                Ok(ivk) => {
                    if n > 0x7FFF_FFFF {
                        self.addresses_write_lock = false;
                        return Err(KeyError::TransparentDerivationError);
                    }
                    match crate::crypto::transparent_address_at(&ivk, n as u32) {
                        Some(h) => Some(TransparentAddr::PublicKeyHash(h)),
                        None => {
                            self.addresses_write_lock = false;
                            return Err(KeyError::TransparentDerivationError);
                        },
                    }
                },
                Err(e) => {
                    self.addresses_write_lock = false;
                    return Err(e);
                },
            }
        } else {
            None
        };
        let ua = match UnifiedAddress::from_receivers(
            orchard_receiver,
            sapling_receiver,
            transparent_receiver,
        ) {
            Some(ua) => ua,
            None => {
                proof {
                    assert(false);
                }
                self.addresses_write_lock = false;
                return Err(KeyError::NoShieldedReceiver);
            },
        };
        let t_entry: Option<TransparentAddr> = match ua.transparent() {
            Some(t) => Some(t.duplicate()),
            None => None,
        };
        let ghost old_views = self.spec_addrs();
        let stored = ua.duplicate();
        self.addresses.push(stored);
        match t_entry {
            Some(t) => {
                self.transparent_child_addresses.push((n, t));
            },
            None => {},
        }
        self.addresses_write_lock = false;
        proof {
            assert(self.spec_addrs() =~= old_views.push(ua.spec_view()));
            assert(self.spec_addrs().drop_last() =~= old_views);
            assert(spec_t_views(self.transparent_child_addresses@) =~= spec_t_entries(
                self.spec_addrs(),
            ));
        }
        Ok(ua)
    }
}

/// The error the legacy derivation variant reports for explicitly supplied
/// per-pool keys — or nothing, in which case it must succeed.
pub open spec fn spec_legacy_err(
    o: Option<Seq<u8>>,
    s: Option<Seq<u8>>,
    t: Option<Seq<u8>>,
    n: nat,
    sel: ReceiverSelection,
    locked: bool,
) -> Option<KeyError> {
    if (sel.orchard && o is None) || (sel.sapling && s is None) || (sel.transparent && t is None) {
        Some(KeyError::InsufficientCapability)
    } else if locked {
        Some(KeyError::ConcurrentAppendCollision)
    } else if !sel.orchard && !sel.sapling {
        Some(KeyError::NoShieldedReceiver)
    } else if sel.sapling && spec_sapling_receiver(s->Some_0, n) is None {
        Some(KeyError::DiversifierOverflow)
    } else if sel.transparent && n >= 0x8000_0000 {
        Some(KeyError::TransparentDerivationError)
    } else if sel.transparent && transparent_addr_at(t->Some_0, n as u32) is None {
        Some(KeyError::TransparentDerivationError)
    } else {
        None
    }
}

/// Whether a ledger entry at index `n` carries exactly what the legacy
/// algorithm derives from explicitly supplied keys.
pub open spec fn spec_legacy_entry_matches(
    o: Option<Seq<u8>>,
    s: Option<Seq<u8>>,
    t: Option<Seq<u8>>,
    n: nat,
    a: SpecUnifiedAddress,
) -> bool {
    &&& (a.orchard matches Some(v) ==> o matches Some(f) && v == orchard_addr_at(f, n as int))
    &&& (a.sapling matches Some(v) ==> s matches Some(d) && spec_sapling_receiver(d, n) == Some(
        v,
    ))
    &&& (a.transparent matches Some(p) ==> p.0 == false && n < 0x8000_0000 && (t matches Some(
    ivk) && transparent_addr_at(ivk, n as u32) == Some(p.1)))
}

impl WalletCapability {
    /// Derives and appends the next address from explicitly supplied
    /// per-pool viewing keys instead of the stored authority.
    ///
    /// This replays old-schema data during migration and derives exactly as
    /// `new_address` does: given the same keys it produces byte-identical
    /// addresses.
    pub fn legacy_new_address(
        &mut self,
        desired_receivers: ReceiverSelection,
        orchard_fvk: Option<&Vec<u8>>,
        sapling_fvk: Option<&Vec<u8>>,
        transparent_ivk: Option<&Vec<u8>>,
    ) -> (r: Result<UnifiedAddress, KeyError>)
        requires
            old(self).wf(),
            (orchard_fvk matches Some(v) ==> v@.len() == 96 && orchard_fvk_ok(v@)),
            (sapling_fvk matches Some(v) ==> v@.len() == 128 && sapling_dfvk_ok(v@)),
            (transparent_ivk matches Some(v) ==> v@.len() == 65),
        ensures
            final(self).wf(),
            final(self).unified_key_store == old(self).unified_key_store,
            final(self).addresses_write_lock == old(self).addresses_write_lock,
            match r {
                Ok(ua) => {
                    &&& spec_legacy_err(
                        spec_opt_view(orchard_fvk),
                        spec_opt_view(sapling_fvk),
                        spec_opt_view(transparent_ivk),
                        old(self).addresses@.len() as nat,
                        desired_receivers,
                        old(self).addresses_write_lock,
                    ) is None
                    &&& ua.wf()
                    &&& ua.spec_selection() == desired_receivers
                    &&& spec_legacy_entry_matches(
                        spec_opt_view(orchard_fvk),
                        spec_opt_view(sapling_fvk),
                        spec_opt_view(transparent_ivk),
                        old(self).addresses@.len() as nat,
                        ua.spec_view(),
                    )
                    &&& final(self).spec_addrs() == old(self).spec_addrs().push(ua.spec_view())
                },
                Err(e) => {
                    &&& spec_legacy_err(
                        spec_opt_view(orchard_fvk),
                        spec_opt_view(sapling_fvk),
                        spec_opt_view(transparent_ivk),
                        old(self).addresses@.len() as nat,
                        desired_receivers,
                        old(self).addresses_write_lock,
                    ) == Some(e)
                    &&& final(self).addresses@ == old(self).addresses@
                    &&& final(self).transparent_child_addresses@ == old(
                        self,
                    ).transparent_child_addresses@
                },
            },
    {
        if (desired_receivers.transparent && transparent_ivk.is_none()) || (
        desired_receivers.sapling && sapling_fvk.is_none()) || (desired_receivers.orchard
            && orchard_fvk.is_none()) {
            return Err(KeyError::InsufficientCapability);
        }
        if self.addresses_write_lock {
            return Err(KeyError::ConcurrentAppendCollision);
        }
        self.addresses_write_lock = true;
        if !desired_receivers.orchard && !desired_receivers.sapling {
            self.addresses_write_lock = false;
            return Err(KeyError::NoShieldedReceiver);
        }
        let n = self.addresses.len();
        let orchard_receiver: Option<Vec<u8>> = if desired_receivers.orchard {
            match orchard_fvk {
                Some(fvk) => Some(crate::crypto::orchard_address_at(fvk, n)),
                None => {
                    proof {
                        assert(false);
                    }
                    None
                },
            }
        } else {
            None
        };
        let sapling_receiver: Option<Vec<u8>> = if desired_receivers.sapling {
            match sapling_fvk {
                Some(dfvk) => match derive_sapling_receiver(dfvk, n) {
                    Ok(a) => Some(a),
                    Err(e) => {
                        self.addresses_write_lock = false;
                        return Err(e);
                    },
                },
                None => {
                    proof {
                        assert(false);
                    }
                    None
                },
            }
        } else {
            None
        };
        let transparent_receiver: Option<TransparentAddr> = if desired_receivers.transparent {
            match transparent_ivk {
                Some(ivk) => {
                    if n > 0x7FFF_FFFF {
                        self.addresses_write_lock = false;
                        return Err(KeyError::TransparentDerivationError);
                    }
                    match crate::crypto::transparent_address_at(ivk, n as u32) {
                        Some(h) => Some(TransparentAddr::PublicKeyHash(h)),
                        None => {
                            self.addresses_write_lock = false;
                            return Err(KeyError::TransparentDerivationError);
                        },
                    }
                },
                None => {
                    proof {
                        assert(false);
                    }
                    None
                },
            }
        } else {
            None
        };
        let ua = match UnifiedAddress::from_receivers(
            orchard_receiver,
            sapling_receiver,
            transparent_receiver,
        ) {
            Some(ua) => ua,
            None => {
                proof {
                    assert(false);
                }
                self.addresses_write_lock = false;
                return Err(KeyError::NoShieldedReceiver);
            },
        };
        let t_entry: Option<TransparentAddr> = match ua.transparent() {
            Some(t) => Some(t.duplicate()),
            None => None,
        };
        let ghost old_views = self.spec_addrs();
        let stored = ua.duplicate();
        self.addresses.push(stored);
        match t_entry {
            Some(t) => {
                self.transparent_child_addresses.push((n, t));
            },
            None => {},
        }
        self.addresses_write_lock = false;
        proof {
            assert(self.spec_addrs() =~= old_views.push(ua.spec_view()));
            assert(self.spec_addrs().drop_last() =~= old_views);
            assert(spec_t_views(self.transparent_child_addresses@) =~= spec_t_entries(
                self.spec_addrs(),
            ));
        }
        Ok(ua)
    }
}

/// The error unified-viewing-key construction reports for the UTF-8 bytes
/// of the encoded key under a configured network — or nothing, in which
/// case construction must succeed.
pub open spec fn spec_ufvk_err(b: Seq<u8>, chain: ChainType) -> Option<KeyError> {
    if crate::chain::spec_starts_with(b, chain.spec_legacy_fvk_prefix()) {
        Some(KeyError::InvalidFormat)
    } else {
        match crate::crypto::ufvk_parts_of(b) {
            None => Some(KeyError::KeyDecodingError),
            Some((net, o, s, t)) => {
                if net != chain.spec_net_tag() {
                    Some(KeyError::NetworkMismatch)
                } else if !crate::keystore::wf_model(SpecKeyStore::View(o, s, t)) {
                    Some(KeyError::KeyDecodingError)
                } else {
                    None
                }
            },
        }
    }
}

/// The view of an optional byte-vector reference.
pub open spec fn spec_opt_view(o: Option<&Vec<u8>>) -> Option<Seq<u8>> {
    match o {
        Some(v) => Some(v@),
        None => None,
    }
}

impl Default for WalletCapability {
    /// An uninitialized capability: no authority, empty ledgers, guard
    /// clear.
    fn default() -> (r: WalletCapability)
        ensures
            r.wf(),
            r.unified_key_store.spec_model() is Empty,
            r.addresses@.len() == 0,
            r.transparent_child_addresses@.len() == 0,
            !r.addresses_write_lock,
    {
        let r = WalletCapability {
            unified_key_store: UnifiedKeyStore::Empty,
            addresses: Vec::new(),
            transparent_child_addresses: Vec::new(),
            addresses_write_lock: false,
        };
        proof {
            assert(spec_t_views(r.transparent_child_addresses@) =~= spec_t_entries(
                r.spec_addrs(),
            ));
        }
        r
    }
}

impl WalletCapability {
    /// Builds a full spending authority from a 64-byte seed and a
    /// zero-based account index, deriving each pool's spending key along
    /// its standard hierarchical path.
    pub fn new_from_seed(chain: ChainType, seed: &Vec<u8>, position: u32) -> (r: Result<
        WalletCapability,
        KeyError,
    >)
        requires
            seed@.len() == 64,
        ensures
            match r {
                Ok(wc) => {
                    &&& position < 0x8000_0000
                    &&& wc.wf()
                    &&& wc.unified_key_store.spec_model() == SpecKeyStore::Spend(
                        orchard_sk_of_seed(seed@, chain.spec_coin_type(), position)->Some_0,
                        sapling_sk_of_seed(seed@, chain.spec_coin_type(), position),
                        transparent_sk_of_seed(seed@, chain.spec_coin_type(), position)->Some_0,
                    )
                    &&& orchard_sk_of_seed(seed@, chain.spec_coin_type(), position) is Some
                    &&& transparent_sk_of_seed(seed@, chain.spec_coin_type(), position) is Some
                    &&& wc.addresses@.len() == 0
                    &&& wc.transparent_child_addresses@.len() == 0
                    &&& !wc.addresses_write_lock
                },
                Err(e) => {
                    &&& (e == KeyError::InvalidAccountIndex || e == KeyError::KeyDerivationError)
                    &&& (e == KeyError::InvalidAccountIndex <==> position >= 0x8000_0000)
                    &&& (e == KeyError::KeyDerivationError <==> position < 0x8000_0000 && (
                    orchard_sk_of_seed(seed@, chain.spec_coin_type(), position) is None
                        || transparent_sk_of_seed(seed@, chain.spec_coin_type(), position)
                        is None))
                },
            },
    {
        if position >= 0x8000_0000 {
            return Err(KeyError::InvalidAccountIndex);
        }
        let coin = chain.coin_type();
        let orchard_sk = match crate::crypto::orchard_sk_from_seed(seed, coin, position) {
            Some(v) => v,
            None => {
                return Err(KeyError::KeyDerivationError);
            },
        };
        let transparent_sk = match crate::crypto::transparent_sk_from_seed(
            seed,
            chain,
            position,
        ) {
            Some(v) => v,
            None => {
                return Err(KeyError::KeyDerivationError);
            },
        };
        let sapling_sk = crate::crypto::sapling_sk_from_seed(seed, coin, position);
        let wc = WalletCapability {
            unified_key_store: UnifiedKeyStore::Spend(
                FullKeyBundle { orchard_sk, sapling_sk, transparent_sk },
            ),
            addresses: Vec::new(),
            transparent_child_addresses: Vec::new(),
            addresses_write_lock: false,
        };
        proof {
            assert(spec_t_views(wc.transparent_child_addresses@) =~= spec_t_entries(
                wc.spec_addrs(),
            ));
        }
        Ok(wc)
    }

    /// Builds a full spending authority from a mnemonic phrase: the phrase
    /// is stretched to its 64-byte seed (empty passphrase) and handed to
    /// seed-based construction.
    pub fn new_from_phrase(chain: ChainType, seed_phrase: &str, position: u32) -> (r: Result<
        WalletCapability,
        KeyError,
    >)
        ensures
            match r {
                Ok(wc) => {
                    &&& position < 0x8000_0000
                    &&& (seed_of_phrase(seed_phrase@) matches Some(seed) && {
                        &&& orchard_sk_of_seed(seed, chain.spec_coin_type(), position) is Some
                        &&& transparent_sk_of_seed(seed, chain.spec_coin_type(), position)
                            is Some
                        &&& wc.unified_key_store.spec_model() == SpecKeyStore::Spend(
                            orchard_sk_of_seed(seed, chain.spec_coin_type(), position)->Some_0,
                            sapling_sk_of_seed(seed, chain.spec_coin_type(), position),
                            transparent_sk_of_seed(
                                seed,
                                chain.spec_coin_type(),
                                position,
                            )->Some_0,
                        )
                    })
                    &&& wc.wf()
                    &&& wc.addresses@.len() == 0
                    &&& wc.transparent_child_addresses@.len() == 0
                    &&& !wc.addresses_write_lock
                },
                Err(e) => {
                    &&& (e == KeyError::KeyDecodingError || e == KeyError::InvalidAccountIndex
                        || e == KeyError::KeyDerivationError)
                    &&& (e == KeyError::KeyDecodingError <==> seed_of_phrase(seed_phrase@)
                        is None)
                    &&& (e == KeyError::InvalidAccountIndex <==> seed_of_phrase(seed_phrase@)
                        is Some && position >= 0x8000_0000)
                    &&& (e == KeyError::KeyDerivationError <==> position < 0x8000_0000 && (
                    seed_of_phrase(seed_phrase@) matches Some(seed) && (orchard_sk_of_seed(
                        seed,
                        chain.spec_coin_type(),
                        position,
                    ) is None || transparent_sk_of_seed(seed, chain.spec_coin_type(), position)
                        is None)))
                },
            },
    {
        let seed = match crate::crypto::phrase_to_seed(seed_phrase) {
            Some(v) => v,
            None => {
                return Err(KeyError::KeyDecodingError);
            },
        };
        match Self::new_from_seed(chain, &seed, position) {
            Ok(wc) => Ok(wc),
            Err(e) => Err(e),
        }
    }

    /// Builds a full spending authority from an exported spending-key byte
    /// string in the canonical bundle layout, validating every component.
    pub fn new_from_usk(usk: &Vec<u8>) -> (r: Result<WalletCapability, KeyError>)
        ensures
            match r {
                Ok(wc) => {
                    &&& wc.wf()
                    &&& parse_usk(usk@) matches Some((o, s, t)) && wc.unified_key_store
                        .spec_model() == SpecKeyStore::Spend(o, s, t)
                    &&& wc.addresses@.len() == 0
                    &&& !wc.addresses_write_lock
                },
                Err(e) => {
                    &&& e == KeyError::KeyDecodingError
                    &&& (match parse_usk(usk@) {
                        Some((o, s, t)) => !crate::keystore::wf_model(
                            SpecKeyStore::Spend(o, s, t),
                        ),
                        None => true,
                    })
                },
            },
    {
        let bundle = match crate::keystore::read_usk_body(usk) {
            Ok(b) => b,
            Err(_) => {
                return Err(KeyError::KeyDecodingError);
            },
        };
        let wc = WalletCapability {
            unified_key_store: UnifiedKeyStore::Spend(bundle),
            addresses: Vec::new(),
            transparent_child_addresses: Vec::new(),
            addresses_write_lock: false,
        };
        proof {
            assert(spec_t_views(wc.transparent_child_addresses@) =~= spec_t_entries(
                wc.spec_addrs(),
            ));
        }
        Ok(wc)
    }

    /// Builds a view-only authority from an encoded unified viewing key.
    ///
    /// Rejects a legacy single-pool viewing-key encoding outright, then
    /// decodes the unified encoding, requires its network tag to match the
    /// wallet's network, and validates each per-pool component.
    pub fn new_from_ufvk(chain: ChainType, ufvk_encoded: &str) -> (r: Result<
        WalletCapability,
        KeyError,
    >)
        ensures
            match r {
                Ok(wc) => {
                    &&& spec_ufvk_err(ufvk_encoded.spec_bytes(), chain) is None
                    &&& wc.wf()
                    &&& crate::crypto::ufvk_parts_of(ufvk_encoded.spec_bytes()) matches Some(
                        (net, o, s, t),
                    ) && net == chain.spec_net_tag() && wc.unified_key_store.spec_model()
                        == SpecKeyStore::View(o, s, t)
                    &&& wc.addresses@.len() == 0
                    &&& !wc.addresses_write_lock
                },
                Err(e) => spec_ufvk_err(ufvk_encoded.spec_bytes(), chain) == Some(e),
            },
    {
        let prefix = chain.legacy_fvk_prefix();
        let encoded_bytes = ufvk_encoded.as_bytes();
        if crate::chain::starts_with(encoded_bytes, &prefix) {
            return Err(KeyError::InvalidFormat);
        }
        let body = vstd::slice::slice_to_vec(encoded_bytes);
        let parts = match crate::crypto::ufvk_decode(&body) {
            Some(p) => p,
            None => {
                return Err(KeyError::KeyDecodingError);
            },
        };
        let (tag, o, sa, t) = parts;
        if tag != chain.net_tag() {
            return Err(KeyError::NetworkMismatch);
        }
        let bundle = match crate::keystore::check_view_bundle(o, sa, t) {
            Ok(b) => b,
            Err(e) => {
                return Err(e);
            },
        };
        let wc = WalletCapability {
            unified_key_store: UnifiedKeyStore::View(bundle),
            addresses: Vec::new(),
            transparent_child_addresses: Vec::new(),
            addresses_write_lock: false,
        };
        proof {
            assert(spec_t_views(wc.transparent_child_addresses@) =~= spec_t_entries(
                wc.spec_addrs(),
            ));
        }
        Ok(wc)
    }
}

/// Returns whether a collection of byte strings already holds `h`.
fn contains_bytes(hs: &Vec<Vec<u8>>, h: &Vec<u8>) -> (r: bool)
    ensures
        r == exists|m: int| 0 <= m < hs@.len() && (#[trigger] hs@[m])@ == h@,
{
    let mut m: usize = 0;
    while m < hs.len()
        invariant
            m <= hs@.len(),
            forall|j: int| 0 <= j < m ==> (#[trigger] hs@[j])@ != h@,
        decreases hs@.len() - m,
    {
        if crate::bytes::bytes_eq(&hs[m], h) {
            return true;
        }
        m = m + 1;
    }
    false
}

/// Some address in the ledger has `h` as its pay-to-public-key-hash
/// receiver.
pub open spec fn spec_collected_hash_ok(views: Seq<SpecUnifiedAddress>, h: Seq<u8>) -> bool {
    exists|i: int| #![auto] 0 <= i < views.len() && views[i].transparent == Some((false, h))
}

/// One hash-to-secret-key pair is correct for a transparent ledger entry:
/// it carries the entry's address hash and the external-chain child secret
/// key of the spending authority's transparent key at the entry's index.
pub open spec fn spec_secret_pair_ok(
    entry: (usize, TransparentAddr),
    tsk: Seq<u8>,
    pair: (Vec<u8>, Vec<u8>),
) -> bool {
    &&& (pair.0)@ == entry.1.spec_view().1
    &&& entry.0 < 0x8000_0000
    &&& crate::crypto::transparent_child_sk_at(tsk, entry.0 as u32) == Some((pair.1)@)
}

/// Whether a list of byte strings contains `h`.
pub open spec fn spec_hash_listed(l: Seq<Seq<u8>>, h: Seq<u8>) -> bool {
    exists|m: int| #![auto] 0 <= m < l.len() && l[m] == h
}

/// The distinct pay-to-public-key-hash receivers of a ledger, in order of
/// first appearance.
pub open spec fn spec_taddr_list(views: Seq<SpecUnifiedAddress>) -> Seq<Seq<u8>>
    decreases views.len(),
{
    if views.len() == 0 {
        Seq::empty()
    } else {
        let prefix = spec_taddr_list(views.drop_last());
        match views.last().transparent {
            Some(p) => {
                if !p.0 && !spec_hash_listed(prefix, p.1) {
                    prefix.push(p.1)
                } else {
                    prefix
                }
            },
            None => prefix,
        }
    }
}

/// The byte strings a vector of vectors holds.
pub open spec fn spec_hashes(r: Seq<Vec<u8>>) -> Seq<Seq<u8>> {
    Seq::new(r.len(), |m: int| r[m]@)
}

impl WalletCapability {
    /// Collects the distinct pay-to-public-key-hash receivers of the
    /// derived addresses, in order of first appearance.
    pub fn get_all_taddrs(&self) -> (r: Vec<Vec<u8>>)
        ensures
            spec_hashes(r@) == spec_taddr_list(self.spec_addrs()),
    {
        let mut r: Vec<Vec<u8>> = Vec::new();
        let mut i: usize = 0;
        while i < self.addresses.len()
            invariant
                i <= self.addresses@.len(),
                spec_hashes(r@) == spec_taddr_list(self.spec_addrs().take(i as int)),
            decreases self.addresses@.len() - i,
        {
            let ghost prev = r@;
            let ghost cur = self.spec_addrs()[i as int];
            proof {
                assert(self.spec_addrs().take(i + 1).drop_last() =~= self.spec_addrs().take(
                    i as int,
                ));
                assert(self.spec_addrs().take(i + 1).last() == cur);
            }
            match self.addresses[i].transparent() {
                Some(t) => {
                    if t.is_pubkey_hash() {
                        let h = crate::bytes::copy_bytes(t.hash_bytes());
                        let ghost hv = h@;
                        let listed = contains_bytes(&r, &h);
                        proof {
                            if listed {
                                let m = choose|m: int|
                                    0 <= m < prev.len() && (#[trigger] prev[m])@ == hv;
                                assert(spec_hashes(prev)[m] == hv);
                            }
                            if spec_hash_listed(spec_hashes(prev), hv) {
                                let m = choose|m: int|
                                    #![auto]
                                    0 <= m < spec_hashes(prev).len() && spec_hashes(prev)[m]
                                        == hv;
                                assert(prev[m]@ == hv);
                            }
                            assert(listed == spec_hash_listed(spec_hashes(prev), hv));
                        }
                        if !listed {
                            r.push(h);
                            proof {
                                assert(spec_hashes(r@) =~= spec_hashes(prev).push(hv));
                            }
                        }
                    }
                },
                None => {},
            }
            proof {
                assert(spec_hashes(r@) =~= spec_taddr_list(self.spec_addrs().take(i + 1)));
            }
            i = i + 1;
        }
        proof {
            assert(self.spec_addrs().take(self.spec_addrs().len() as int) =~= self.spec_addrs());
        }
        r
    }

    /// Pairs every transparent ledger entry's address hash with the raw
    /// external-chain child secret key at its derivation index. Only a
    /// spending authority can answer.
    ///
    /// One result pair is correct when it holds the entry's hash and the
    /// child secret key at the entry's index; `spec_secret_pair_ok` below
    /// states that.
    pub fn get_taddr_to_secretkey_map(&self) -> (r: Result<Vec<(Vec<u8>, Vec<u8>)>, KeyError>)
        requires
            self.wf(),
        ensures
            match r {
                Ok(v) => {
                    &&& self.unified_key_store.spec_model() matches SpecKeyStore::Spend(_, _, _)
                    &&& v@.len() == self.transparent_child_addresses@.len()
                    &&& (self.unified_key_store.spec_model() matches SpecKeyStore::Spend(
                        _,
                        _,
                        tsk,
                    ) && forall|m: int|
                        #![auto]
                        0 <= m < v@.len() ==> spec_secret_pair_ok(
                            self.transparent_child_addresses@[m],
                            tsk,
                            v@[m],
                        ))
                },
                Err(e) => {
                    &&& (e == KeyError::NoSpendCapability <==> !(self.unified_key_store
                        .spec_model() matches SpecKeyStore::Spend(_, _, _)))
                    &&& (e == KeyError::NoSpendCapability || e == KeyError::KeyDerivationError
                        || e == KeyError::TransparentDerivationError)
                    &&& (e == KeyError::TransparentDerivationError ==> exists|m: int|
                        #![auto]
                        0 <= m < self.transparent_child_addresses@.len()
                            && self.transparent_child_addresses@[m].0 >= 0x8000_0000)
                    &&& (e == KeyError::KeyDerivationError ==> (self.unified_key_store
                        .spec_model() matches SpecKeyStore::Spend(_, _, tsk) && exists|m: int|
                        #![auto]
                        0 <= m < self.transparent_child_addresses@.len()
                            && self.transparent_child_addresses@[m].0 < 0x8000_0000
                            && crate::crypto::transparent_child_sk_at(
                            tsk,
                            self.transparent_child_addresses@[m].0 as u32,
                        ) is None))
                },
            },
    {
        let bundle = match &self.unified_key_store {
            UnifiedKeyStore::Spend(b) => b,
            _ => {
                return Err(KeyError::NoSpendCapability);
            },
        };
        let mut v: Vec<(Vec<u8>, Vec<u8>)> = Vec::new();
        let mut m: usize = 0;
        while m < self.transparent_child_addresses.len()
            invariant
                self.wf(),
                self.unified_key_store.spec_model() == SpecKeyStore::Spend(
                    bundle.orchard_sk@,
                    bundle.sapling_sk@,
                    bundle.transparent_sk@,
                ),
                m <= self.transparent_child_addresses@.len(),
                v@.len() == m,
                forall|j: int|
                    #![auto]
                    0 <= j < m ==> spec_secret_pair_ok(
                        self.transparent_child_addresses@[j],
                        bundle.transparent_sk@,
                        v@[j],
                    ),
            decreases self.transparent_child_addresses@.len() - m,
        {
            let idx = self.transparent_child_addresses[m].0;
            if idx > 0x7FFF_FFFF {
                proof {
                    assert(self.transparent_child_addresses@[m as int].0 >= 0x8000_0000);
                }
                return Err(KeyError::TransparentDerivationError);
            }
            let sk = match crate::crypto::transparent_child_sk(&bundle.transparent_sk, idx as u32) {
                Some(s) => s,
                None => {
                    proof {
                        assert(crate::crypto::transparent_child_sk_at(
                            bundle.transparent_sk@,
                            self.transparent_child_addresses@[m as int].0 as u32,
                        ) is None);
                    }
                    return Err(KeyError::KeyDerivationError);
                },
            };
            let hash = crate::bytes::copy_bytes(
                self.transparent_child_addresses[m].1.hash_bytes(),
            );
            v.push((hash, sk));
            m = m + 1;
        }
        Ok(v)
    }
}

} // verus!
