//! The library's cross-cutting guarantees, stated and proved once over the
//! spec functions that the executable contracts use.

use vstd::prelude::*;

use crate::address::{
    is_first_valid_from, nth_valid_diversifier, spec_sapling_receiver, spec_selection_of,
};
use crate::capability::{
    spec_entry_matches, spec_insufficient, spec_new_address_err, WalletCapability,
};
use crate::crypto::{sapling_addr_at, ufvk_bytes_of_parts, ufvk_parts_of};
use crate::errors::KeyError;
use crate::keystore::{
    parse_keystore, spec_keystore_bytes, wf_model, SpecKeyStore,
};
use crate::chain::ChainType;
use crate::persist::{
    parse_selections, spec_selections_bytes, spec_v3_content, spec_wallet_bytes,
};
use crate::select::ReceiverSelection;

verus! {

/// Address derivation is reproducible: two capabilities holding the same
/// key authority whose ledgers record the same receiver selections, each
/// faithful to its authority, hold byte-identical address ledgers. In
/// particular, repeating a whole derivation sequence from the same seed
/// reproduces the same addresses at indices `0, 1, ...` in order.
pub proof fn lemma_derivation_reproducible(wc1: WalletCapability, wc2: WalletCapability)
    requires
        wc1.wf(),
        wc2.wf(),
        wc1.spec_faithful(),
        wc2.spec_faithful(),
        wc1.unified_key_store.spec_model() == wc2.unified_key_store.spec_model(),
        wc1.spec_selections() == wc2.spec_selections(),
    ensures
        wc1.spec_addrs() == wc2.spec_addrs(),
{
    let s1 = wc1.spec_addrs();
    let s2 = wc2.spec_addrs();
    assert(s1.len() == wc1.spec_selections().len());
    assert(s2.len() == wc2.spec_selections().len());
    assert(wc1.unified_key_store.spec_orchard_fvk() == wc2.unified_key_store.spec_orchard_fvk());
    assert(wc1.unified_key_store.spec_sapling_dfvk() == wc2.unified_key_store.spec_sapling_dfvk());
    assert(wc1.unified_key_store.spec_transparent_ivk() == wc2.unified_key_store
        .spec_transparent_ivk());
    assert forall|i: int| 0 <= i < s1.len() implies s1[i] == s2[i] by {
        assert(wc1.spec_selections()[i] == wc2.spec_selections()[i]);
        assert(wc1.spec_selections()[i] == spec_selection_of(wc1.spec_addrs()[i]));
        assert(wc2.spec_selections()[i] == spec_selection_of(wc2.spec_addrs()[i]));
        assert(spec_selection_of(s1[i]) == spec_selection_of(s2[i]));
        assert(spec_entry_matches(wc1.unified_key_store, i as nat, s1[i]));
        assert(spec_entry_matches(wc2.unified_key_store, i as nat, s2[i]));
        assert(s1[i].orchard is Some <==> s2[i].orchard is Some);
        assert(s1[i].sapling is Some <==> s2[i].sapling is Some);
        assert(s1[i].transparent is Some <==> s2[i].transparent is Some);
        assert(s1[i] =~= s2[i]);
    }
    assert(s1 =~= s2);
}

/// The diversifier-indexed pool's receiver at derivation index `n` is the
/// address of the `n`-th valid diversifier: the valid diversifier indices
/// are consumed in strictly ascending order, one per derivation index,
/// regardless of how many invalid diversifiers lie between them, and the
/// result depends on the viewing key and `n` alone.
pub proof fn lemma_sapling_index_stability(dfvk: Seq<u8>, n: nat)
    requires
        nth_valid_diversifier(dfvk, n) is Some,
    ensures
        spec_sapling_receiver(dfvk, n) == sapling_addr_at(
            dfvk,
            nth_valid_diversifier(dfvk, n)->Some_0,
        ),
        sapling_addr_at(dfvk, nth_valid_diversifier(dfvk, n)->Some_0) is Some,
        n > 0 ==> (nth_valid_diversifier(dfvk, (n - 1) as nat) matches Some(p) && p
            < nth_valid_diversifier(dfvk, n)->Some_0),
{
    let k = nth_valid_diversifier(dfvk, n)->Some_0;
    if n == 0 {
        let kk = choose|kk: int| #[trigger] is_first_valid_from(dfvk, 0, kk);
        assert(is_first_valid_from(dfvk, 0, kk));
    } else {
        match nth_valid_diversifier(dfvk, (n - 1) as nat) {
            Some(p) => {
                let kk = choose|kk: int| #[trigger] is_first_valid_from(dfvk, p + 1, kk);
                assert(is_first_valid_from(dfvk, p + 1, kk));
            },
            None => {
                assert(false);
            },
        }
    }
}

/// Requesting a receiver whose viewing key a view-only authority lacks
/// fails with the insufficient-capability error, and that error arises in
/// no other situation; its failure leaves the ledger untouched, as the
/// derivation contract states for every error.
pub proof fn lemma_insufficient_capability(
    m: SpecKeyStore,
    n: nat,
    sel: ReceiverSelection,
    locked: bool,
)
    ensures
        spec_new_address_err(m, n, sel, locked) == Some(KeyError::InsufficientCapability)
            <==> spec_insufficient(m, sel),
{
}

/// While one writer holds the append guard, every competing derivation
/// attempt that passes the capability check fails with the collision
/// error: of two interleaved attempts, at most one appends, and the other
/// is told to retry.
pub proof fn lemma_single_writer(m: SpecKeyStore, n: nat, sel: ReceiverSelection)
    requires
        !spec_insufficient(m, sel),
    ensures
        spec_new_address_err(m, n, sel, true) == Some(KeyError::ConcurrentAppendCollision),
{
}

/// A capability's current-version encoding decodes back to the same
/// authority content and the same recorded selections, and re-encoding
/// therefore reproduces the same bytes.
///
/// For a view-only authority the unified viewing-key encoder's inversion
/// facts are taken as hypotheses; they are exactly what the encoder's
/// contract supplies for every bundle the library encodes.
pub proof fn lemma_wallet_encoding_round_trip(
    m: SpecKeyStore,
    sels: Seq<ReceiverSelection>,
    net: u8,
)
    requires
        wf_model(m),
        sels.len() < 0x1_0000_0000,
        match m {
            SpecKeyStore::View(o, s, t) => {
                &&& (o is Some || s is Some)
                &&& ufvk_bytes_of_parts(o, s, t, net).len() <= 0x100000
                &&& ufvk_parts_of(ufvk_bytes_of_parts(o, s, t, net)) == Some((net, o, s, t))
            },
            _ => true,
        },
    ensures
        ({
            let b = spec_wallet_bytes(m, sels, net);
            let klen = spec_keystore_bytes(m, net).len() as int;
            let clen = crate::bytes::spec_compact(sels.len() as u64).len() as int;
            &&& b[0] == 3
            &&& parse_keystore(b.skip(1), net) == Some((m, klen))
            &&& parse_compact_at(b, 1 + klen) == Some((sels.len() as u64, clen))
            &&& parse_selections(b.skip(1 + klen + clen), sels.len()) == Some(
                (sels, spec_selections_bytes(sels).len() as int),
            )
        }),
{
    let b = spec_wallet_bytes(m, sels, net);
    let kb = spec_keystore_bytes(m, net);
    let cb = crate::bytes::spec_compact(sels.len() as u64);
    let sb = spec_selections_bytes(sels);
    assert(b.skip(1) =~= kb + (cb + sb));
    crate::keystore::lemma_keystore_round_trip(m, net, cb + sb);
    assert(b.skip(1 + kb.len() as int) =~= cb + sb);
    crate::bytes::lemma_compact_round_trip(sels.len() as u64, sb);
    assert(b.skip(1 + kb.len() as int + cb.len() as int) =~= sb);
    assert(sb + Seq::<u8>::empty() =~= sb);
    lemma_selections_round_trip_empty(sels);
}

/// Decoding a capability's current-version encoding reproduces the same
/// authority content, the same recorded selections, and therefore — since
/// each ledger is faithful to its authority — the same addresses; encoding
/// again reproduces the same bytes.
pub proof fn lemma_persistence_round_trip(
    wc: WalletCapability,
    wc2: WalletCapability,
    chain: ChainType,
)
    requires
        wc.wf(),
        wc.spec_faithful(),
        wc.spec_selections().len() < 0x1_0000_0000,
        match wc.unified_key_store.spec_model() {
            SpecKeyStore::View(o, s, t) => {
                &&& (o is Some || s is Some)
                &&& ufvk_bytes_of_parts(o, s, t, chain.spec_net_tag()).len() <= 0x100000
                &&& ufvk_parts_of(ufvk_bytes_of_parts(o, s, t, chain.spec_net_tag())) == Some(
                    (chain.spec_net_tag(), o, s, t),
                )
            },
            _ => true,
        },
        wc2.wf(),
        spec_v3_content(
            spec_wallet_bytes(
                wc.unified_key_store.spec_model(),
                wc.spec_selections(),
                chain.spec_net_tag(),
            ),
            chain,
            wc2,
        ),
    ensures
        wc2.unified_key_store.spec_model() == wc.unified_key_store.spec_model(),
        wc2.spec_selections() == wc.spec_selections(),
        wc2.spec_addrs() == wc.spec_addrs(),
{
    let m = wc.unified_key_store.spec_model();
    let sels = wc.spec_selections();
    let net = chain.spec_net_tag();
    let b = spec_wallet_bytes(m, sels, net);
    lemma_wallet_encoding_round_trip(m, sels, net);
    assert(wc2.unified_key_store.spec_model() == m);
    assert(wc2.addresses@.len() == sels.len());
    assert(wc2.spec_selections() == sels);
    lemma_derivation_reproducible(wc, wc2);
}

/// The compact prefix parsed at an offset of a byte string.
pub open spec fn parse_compact_at(b: Seq<u8>, pos: int) -> Option<(u64, int)> {
    crate::bytes::parse_compact(b.skip(pos))
}

/// A selection list's encoding alone parses back to the list.
proof fn lemma_selections_round_trip_empty(sels: Seq<ReceiverSelection>)
    ensures
        parse_selections(spec_selections_bytes(sels), sels.len()) == Some(
            (sels, spec_selections_bytes(sels).len() as int),
        ),
{
    crate::persist::lemma_selections_round_trip(sels, Seq::<u8>::empty());
    assert(spec_selections_bytes(sels) + Seq::<u8>::empty() =~= spec_selections_bytes(sels));
}

} // verus!
