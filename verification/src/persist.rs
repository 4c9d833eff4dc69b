//! Versioned persistence of a wallet capability.
//!
//! The encoding is one leading version byte and a version-specific payload.
//! Writing always produces the current version; reading migrates the two
//! older generations by replaying their recorded receiver selections
//! through the legacy derivation algorithm.

use vstd::prelude::*;

use crate::bytes::{parse_compact, read_bytes, read_compact, spec_compact, write_compact};
use crate::capability::{
    spec_legacy_entry_matches, spec_legacy_err, spec_new_address_err, WalletCapability,
};
use crate::chain::ChainType;
use crate::crypto::{
    orchard_fvk_of_sk, orchard_sk_ok, sapling_dfvk_of_sk, sapling_sk_ok, secp_pub_of_sk,
};
use crate::errors::KeyError;
use crate::keystore::{parse_keystore, spec_keystore_bytes, wf_model, SpecKeyStore, UnifiedKeyStore};
use crate::select::ReceiverSelection;

verus! {

/// The current outer schema version.
pub const WALLET_VERSION: u8 = 3;

/// The concatenated encodings of a list of receiver selections.
pub open spec fn spec_selections_bytes(sels: Seq<ReceiverSelection>) -> Seq<u8>
    decreases sels.len(),
{
    if sels.len() == 0 {
        Seq::empty()
    } else {
        sels[0].spec_bytes() + spec_selections_bytes(sels.drop_first())
    }
}

/// Parses `count` receiver selections from the front of `s`.
pub open spec fn parse_selections(s: Seq<u8>, count: nat) -> Option<(Seq<ReceiverSelection>, int)>
    decreases count,
{
    if count == 0 {
        Some((Seq::empty(), 0))
    } else {
        match ReceiverSelection::spec_parse(s) {
            Some((rs, c)) => match parse_selections(s.skip(c), (count - 1) as nat) {
                Some((rest, c2)) => Some((seq![rs] + rest, c + c2)),
                None => None,
            },
            None => None,
        }
    }
}

/// Appending one selection to a list appends its encoding.
pub proof fn lemma_selections_bytes_snoc(sels: Seq<ReceiverSelection>, a: ReceiverSelection)
    ensures
        spec_selections_bytes(sels.push(a)) == spec_selections_bytes(sels) + a.spec_bytes(),
    decreases sels.len(),
{
    assert(sels.push(a)[0] == (if sels.len() == 0 { a } else { sels[0] }));
    if sels.len() == 0 {
        assert(sels.push(a).drop_first() =~= Seq::<ReceiverSelection>::empty());
        assert(spec_selections_bytes(Seq::<ReceiverSelection>::empty())
            =~= Seq::<u8>::empty());
        assert(a.spec_bytes() + Seq::<u8>::empty() =~= a.spec_bytes());
        assert(spec_selections_bytes(sels.push(a)) =~= a.spec_bytes());
        assert(spec_selections_bytes(sels) + a.spec_bytes() =~= a.spec_bytes());
    } else {
        assert(sels.push(a).drop_first() =~= sels.drop_first().push(a));
        lemma_selections_bytes_snoc(sels.drop_first(), a);
        assert(spec_selections_bytes(sels.push(a)) =~= spec_selections_bytes(sels)
            + a.spec_bytes());
    }
}

/// A successful parse consumes a non-negative prefix and yields one
/// selection per count.
pub proof fn lemma_parse_selections_bounds(s: Seq<u8>, count: nat)
    requires
        parse_selections(s, count) is Some,
    ensures
        ({
            let (v, c) = parse_selections(s, count)->Some_0;
            0 <= c <= s.len() && v.len() == count
        }),
    decreases count,
{
    if count > 0 {
        let (rs, c) = ReceiverSelection::spec_parse(s)->Some_0;
        lemma_parse_selections_bounds(s.skip(c), (count - 1) as nat);
    }
}

/// Parsing `k1` selections and then `k2` more parses their concatenation.
pub proof fn lemma_parse_selections_concat(s: Seq<u8>, k1: nat, k2: nat)
    requires
        parse_selections(s, k1) is Some,
    ensures
        ({
            let (v1, c1) = parse_selections(s, k1)->Some_0;
            parse_selections(s, k1 + k2) == (match parse_selections(s.skip(c1), k2) {
                Some((v2, c2)) => Some::<(Seq<ReceiverSelection>, int)>((v1 + v2, c1 + c2)),
                None => None::<(Seq<ReceiverSelection>, int)>,
            })
        }),
    decreases k1,
{
    let (v1, c1) = parse_selections(s, k1)->Some_0;
    if k1 == 0 {
        assert(s.skip(0) =~= s);
        match parse_selections(s, k2) {
            Some((v2, c2)) => {
                assert(v1 + v2 =~= v2);
            },
            None => {},
        }
    } else {
        let (rs, c) = ReceiverSelection::spec_parse(s)->Some_0;
        let (vr, cr) = parse_selections(s.skip(c), (k1 - 1) as nat)->Some_0;
        lemma_parse_selections_bounds(s.skip(c), (k1 - 1) as nat);
        lemma_parse_selections_concat(s.skip(c), (k1 - 1) as nat, k2);
        assert(s.skip(c).skip(cr) =~= s.skip(c + cr));
        match parse_selections(s.skip(c1), k2) {
            Some((v2, c2)) => {
                assert(seq![rs] + (vr + v2) =~= (seq![rs] + vr) + v2);
            },
            None => {},
        }
    }
}

/// A selection list's encoding parses back to the list.
pub proof fn lemma_selections_round_trip(sels: Seq<ReceiverSelection>, rest: Seq<u8>)
    ensures
        parse_selections(spec_selections_bytes(sels) + rest, sels.len()) == Some(
            (sels, spec_selections_bytes(sels).len() as int),
        ),
    decreases sels.len(),
{
    crate::select::lemma_receiver_selection_round_trip();
    if sels.len() == 0 {
        assert(parse_selections(spec_selections_bytes(sels) + rest, 0) == Some(
            (Seq::<ReceiverSelection>::empty(), 0int),
        ));
        assert(sels =~= Seq::<ReceiverSelection>::empty());
    } else {
        let s = spec_selections_bytes(sels) + rest;
        let head = sels[0];
        let tail = sels.drop_first();
        assert(s =~= head.spec_bytes() + (spec_selections_bytes(tail) + rest));
        assert(ReceiverSelection::spec_parse(s) == Some((head, 2int)));
        assert(s.skip(2) =~= spec_selections_bytes(tail) + rest);
        lemma_selections_round_trip(tail, rest);
        assert(seq![head] + tail =~= sels);
    }
}

/// The full current-version encoding of a capability's content: the
/// version byte, the authority encoding, and the compact-prefixed list of
/// per-address receiver selections.
pub open spec fn spec_wallet_bytes(
    m: SpecKeyStore,
    sels: Seq<ReceiverSelection>,
    net: u8,
) -> Seq<u8> {
    seq![WALLET_VERSION] + spec_keystore_bytes(m, net) + spec_compact(sels.len() as u64)
        + spec_selections_bytes(sels)
}

/// Reads `count` encoded receiver selections at `pos`.
fn read_selection_list(bytes: &Vec<u8>, pos: usize, count: u64) -> (r: Result<
    (Vec<ReceiverSelection>, usize),
    KeyError,
>)
    requires
        pos <= bytes@.len(),
    ensures
        match r {
            Ok((v, p)) => {
                &&& parse_selections(bytes@.skip(pos as int), count as nat) == Some(
                    (v@, p - pos),
                )
                &&& v@.len() == count
                &&& pos <= p <= bytes@.len()
            },
            Err(e) => {
                &&& parse_selections(bytes@.skip(pos as int), count as nat) is None
                &&& e == KeyError::CorruptEncoding
            },
        },
{
    let mut v: Vec<ReceiverSelection> = Vec::new();
    let mut p = pos;
    let mut k: u64 = 0;
    while k < count
        invariant
            pos <= p <= bytes@.len(),
            k <= count,
            v@.len() == k,
            parse_selections(bytes@.skip(pos as int), k as nat) == Some((v@, p - pos)),
        decreases count - k,
    {
        let ghost prev = v@;
        match ReceiverSelection::read(bytes, p) {
            Ok((rs, p2)) => {
                proof {
                    lemma_parse_selections_concat(bytes@.skip(pos as int), k as nat, 1);
                    assert(bytes@.skip(pos as int).skip(p - pos) =~= bytes@.skip(p as int));
                    assert(seq![rs] + Seq::<ReceiverSelection>::empty() =~= seq![rs]);
                    assert(parse_selections(bytes@.skip(p as int).skip(p2 - p), 0) == Some(
                        (Seq::<ReceiverSelection>::empty(), 0int),
                    ));
                    assert(parse_selections(bytes@.skip(p as int), 1) == Some(
                        (seq![rs], p2 - p),
                    ));
                }
                v.push(rs);
                proof {
                    assert(v@ =~= prev + seq![rs]);
                }
                p = p2;
                k = k + 1;
            },
            Err(e) => {
                proof {
                    lemma_parse_selections_concat(bytes@.skip(pos as int), k as nat, (count
                        - k) as nat);
                    assert(bytes@.skip(pos as int).skip(p - pos) =~= bytes@.skip(p as int));
                    assert(parse_selections(bytes@.skip(p as int), (count - k) as nat)
                        is None);
                }
                return Err(e);
            },
        }
    }
    Ok((v, p))
}

/// Parses one tagged per-pool capability record: a tag byte (0 absent,
/// 1 view-only, 2 spending), and for the latter two a compact length
/// prefix (which must equal the pool's key size for that tag) and the key
/// bytes. A spending record's content cannot be used without the seed, so
/// only a view record yields bytes.
pub open spec fn parse_v2_record(s: Seq<u8>, view_len: nat, spend_len: nat) -> Option<
    (Option<Seq<u8>>, int),
> {
    if s.len() < 1 {
        None
    } else if s[0] == 0 {
        Some((None, 1))
    } else if s[0] == 1 || s[0] == 2 {
        match parse_compact(s.skip(1)) {
            Some((n, c)) => {
                let expected = if s[0] == 1 {
                    view_len
                } else {
                    spend_len
                };
                if n == expected && 1 + c + n <= s.len() {
                    if s[0] == 1 {
                        Some((Some(s.subrange(1 + c, 1 + c + n)), 1 + c + n))
                    } else {
                        Some((None, 1 + c + n))
                    }
                } else {
                    None
                }
            },
            None => None,
        }
    } else {
        None
    }
}

/// Every selection in the list can be replayed in order against an
/// authority of the given content, starting from an empty ledger with the
/// append guard free.
pub open spec fn spec_replayable(m: SpecKeyStore, sels: Seq<ReceiverSelection>) -> bool {
    forall|k: int|
        0 <= k < sels.len() ==> (#[trigger] spec_new_address_err(m, k as nat, sels[k], false))
            is None
}

/// Every selection in the list can be replayed in order through the legacy
/// algorithm with the given per-pool keys.
pub open spec fn spec_legacy_replayable(
    o: Option<Seq<u8>>,
    s: Option<Seq<u8>>,
    t: Option<Seq<u8>>,
    sels: Seq<ReceiverSelection>,
) -> bool {
    forall|k: int|
        0 <= k < sels.len() ==> (#[trigger] spec_legacy_err(o, s, t, k as nat, sels[k], false))
            is None
}

/// A current-version encoding on which decoding owes success: the
/// authority, the count and the selection list all parse, and every
/// recorded selection is replayable against the decoded authority.
pub open spec fn spec_v3_decodable(b: Seq<u8>, net: u8) -> bool {
    parse_keystore(b.skip(1), net) matches Some((m, c1)) && (parse_compact(b.skip(1 + c1))
        matches Some((count, c2)) && (parse_selections(b.skip(1 + c1 + c2), count as nat)
        matches Some((sels, _)) && spec_replayable(m, sels)))
}

/// A first-generation encoding on which decoding owes success: the three
/// raw keys are present and valid, the selection list parses, and every
/// recorded selection is replayable through the legacy algorithm with the
/// keys' viewing sides.
pub open spec fn spec_v1_decodable(b: Seq<u8>) -> bool {
    &&& b.len() >= 266
    &&& orchard_sk_ok(b.subrange(1, 33))
    &&& sapling_sk_ok(b.subrange(33, 202))
    &&& secp_pub_of_sk(b.subrange(234, 266)) is Some
    &&& (parse_compact(b.skip(266)) matches Some((count, c2)) && (parse_selections(
        b.skip(266 + c2),
        count as nat,
    ) matches Some((sels, _)) && spec_legacy_replayable(
        Some(orchard_fvk_of_sk(b.subrange(1, 33))),
        Some(sapling_dfvk_of_sk(b.subrange(33, 202))),
        Some(b.subrange(202, 234) + secp_pub_of_sk(b.subrange(234, 266))->Some_0),
        sels,
    )))
}

/// A second-generation encoding on which decoding owes success: the three
/// capability records parse, their view components form a well-formed
/// bundle, the selection list parses, and every recorded selection is
/// replayable through the legacy algorithm with the decoded view keys.
pub open spec fn spec_v2_decodable(b: Seq<u8>) -> bool {
    parse_v2_record(b.skip(1), 96, 32) matches Some((o, c1)) && (parse_v2_record(
        b.skip(1 + c1),
        128,
        169,
    ) matches Some((sa, c2)) && (parse_v2_record(b.skip(1 + c1 + c2), 65, 64) matches Some(
        (t, c3),
    ) && {
        &&& wf_model(SpecKeyStore::View(o, sa, t))
        &&& (parse_compact(b.skip(1 + c1 + c2 + c3)) matches Some((count, c4)) && (
        parse_selections(b.skip(1 + c1 + c2 + c3 + c4), count as nat) matches Some((sels, _))
            && spec_legacy_replayable(o, sa, t, sels)))
    }))
}

/// What a successful current-version decode guarantees: the authority and
/// the selection list parse out of the bytes, the ledger was rebuilt by
/// replaying exactly those selections, and every entry carries what the
/// authority derives at its index.
pub open spec fn spec_v3_content(b: Seq<u8>, chain: ChainType, wc: WalletCapability) -> bool {
    &&& (parse_keystore(b.skip(1), chain.spec_net_tag()) matches Some((m, c1)) && {
        &&& wc.unified_key_store.spec_model() == m
        &&& (parse_compact(b.skip(1 + c1)) matches Some((count, c2)) && {
            &&& count == wc.addresses@.len()
            &&& (parse_selections(b.skip(1 + c1 + c2), count as nat) matches Some((sels, _))
                && sels == wc.spec_selections())
        })
    })
    &&& wc.spec_faithful()
}

/// What a successful first-generation decode guarantees: the three raw
/// keys sit at fixed offsets, the ledger was rebuilt by replaying the
/// recorded selections through the legacy algorithm with viewing keys
/// derived from those raw keys, and no usable authority is produced.
pub open spec fn spec_v1_content(b: Seq<u8>, wc: WalletCapability) -> bool {
    let osk = b.subrange(1, 33);
    let ssk = b.subrange(33, 202);
    let cc = b.subrange(202, 234);
    let tsk = b.subrange(234, 266);
    &&& b.len() >= 266
    &&& orchard_sk_ok(osk)
    &&& sapling_sk_ok(ssk)
    &&& secp_pub_of_sk(tsk) is Some
    &&& wc.unified_key_store.spec_model() is Empty
    &&& (parse_compact(b.skip(266)) matches Some((count, c2)) && {
        &&& count == wc.addresses@.len()
        &&& (parse_selections(b.skip(266 + c2), count as nat) matches Some((sels, _)) && sels
            == wc.spec_selections())
    })
    &&& forall|i: int|
        0 <= i < wc.addresses@.len() ==> spec_legacy_entry_matches(
            Some(orchard_fvk_of_sk(osk)),
            Some(sapling_dfvk_of_sk(ssk)),
            Some(cc + secp_pub_of_sk(tsk)->Some_0),
            i as nat,
            #[trigger] wc.spec_addrs()[i],
        )
}

/// What a successful second-generation decode guarantees: the three
/// per-pool capability records parse in order, view records combine into a
/// view-only authority (or none at all, leaving it empty), and the ledger
/// was rebuilt by replaying the recorded selections through the legacy
/// algorithm with exactly the decoded view keys.
pub open spec fn spec_v2_content(b: Seq<u8>, wc: WalletCapability) -> bool {
    &&& (parse_v2_record(b.skip(1), 96, 32) matches Some((o, c1)) && (parse_v2_record(
        b.skip(1 + c1),
        128,
        169,
    ) matches Some((sa, c2)) && (parse_v2_record(b.skip(1 + c1 + c2), 65, 64) matches Some(
        (t, c3),
    ) && {
        &&& wc.unified_key_store.spec_model() == (if o is Some || sa is Some || t is Some {
            SpecKeyStore::View(o, sa, t)
        } else {
            SpecKeyStore::Empty
        })
        &&& (parse_compact(b.skip(1 + c1 + c2 + c3)) matches Some((count, c4)) && {
            &&& count == wc.addresses@.len()
            &&& (parse_selections(b.skip(1 + c1 + c2 + c3 + c4), count as nat) matches Some(
                (sels, _),
            ) && sels == wc.spec_selections())
        })
        &&& forall|i: int|
            0 <= i < wc.addresses@.len() ==> spec_legacy_entry_matches(
                o,
                sa,
                t,
                i as nat,
                #[trigger] wc.spec_addrs()[i],
            )
    })))
}

impl WalletCapability {
    /// Writes this capability in the current version, whatever version it
    /// was read from: the format is forward-only.
    pub fn write(&self, out: &mut Vec<u8>, chain: ChainType)
        requires
            self.wf(),
            self.unified_key_store.spec_encodable(),
        ensures
            final(out)@ == old(out)@ + spec_wallet_bytes(
                self.unified_key_store.spec_model(),
                self.spec_selections(),
                chain.spec_net_tag(),
            ),
    {
        out.push(WALLET_VERSION);
        self.unified_key_store.write(out, chain);
        write_compact(out, self.addresses.len() as u64);
        let ghost base = out@;
        let ghost sels = self.spec_selections();
        let mut i: usize = 0;
        while i < self.addresses.len()
            invariant
                self.wf(),
                i <= self.addresses@.len(),
                sels == self.spec_selections(),
                sels.len() == self.addresses@.len(),
                out@ == base + spec_selections_bytes(sels.take(i as int)),
            decreases self.addresses@.len() - i,
        {
            let rs = self.addresses[i].receiver_selection();
            rs.write(out);
            proof {
                assert(rs == sels[i as int]);
                lemma_selections_bytes_snoc(sels.take(i as int), rs);
                assert(sels.take(i + 1) =~= sels.take(i as int).push(rs));
            }
            i = i + 1;
        }
        proof {
            assert(sels.take(sels.len() as int) =~= sels);
            assert(out@ =~= old(out)@ + spec_wallet_bytes(
                self.unified_key_store.spec_model(),
                self.spec_selections(),
                chain.spec_net_tag(),
            ));
        }
    }

    /// Decodes a capability, dispatching on the leading version byte and
    /// migrating the two older generations by replay. An unrecognized
    /// version fails with `UnsupportedSchemaVersion`, and then no
    /// capability is produced.
    pub fn read(bytes: &Vec<u8>, chain: ChainType) -> (r: Result<WalletCapability, KeyError>)
        ensures
            match r {
                Ok(wc) => {
                    &&& wc.wf()
                    &&& !wc.addresses_write_lock
                    &&& bytes@.len() >= 1
                    &&& (bytes@[0] == 1 || bytes@[0] == 2 || bytes@[0] == 3)
                    &&& (bytes@[0] == 3 ==> spec_v3_content(bytes@, chain, wc))
                    &&& (bytes@[0] == 1 ==> spec_v1_content(bytes@, wc))
                    &&& (bytes@[0] == 2 ==> spec_v2_content(bytes@, wc))
                },
                Err(e) => {
                    &&& (e == KeyError::UnsupportedSchemaVersion <==> bytes@.len() >= 1 && bytes@[0]
                        != 1 && bytes@[0] != 2 && bytes@[0] != 3)
                    &&& (bytes@.len() >= 1 && bytes@[0] == 3 ==> !spec_v3_decodable(
                        bytes@,
                        chain.spec_net_tag(),
                    ))
                    &&& (bytes@.len() >= 1 && bytes@[0] == 1 ==> !spec_v1_decodable(bytes@))
                    &&& (bytes@.len() >= 1 && bytes@[0] == 2 ==> !spec_v2_decodable(bytes@))
                },
            },
    {
        if bytes.len() < 1 {
            return Err(KeyError::CorruptEncoding);
        }
        let version = bytes[0];
        if version == 3 {
            Self::read_v3(bytes, chain)
        } else if version == 2 {
            Self::read_v2(bytes)
        } else if version == 1 {
            Self::read_v1(bytes)
        } else {
            Err(KeyError::UnsupportedSchemaVersion)
        }
    }

    /// Decodes the current version: the stored authority, then a replay of
    /// the recorded selections through the primary derivation algorithm.
    fn read_v3(bytes: &Vec<u8>, chain: ChainType) -> (r: Result<WalletCapability, KeyError>)
        requires
            bytes@.len() >= 1,
            bytes@[0] == 3,
        ensures
            match r {
                Ok(wc) => {
                    &&& wc.wf()
                    &&& !wc.addresses_write_lock
                    &&& spec_v3_content(bytes@, chain, wc)
                },
                Err(e) => {
                    &&& e != KeyError::UnsupportedSchemaVersion
                    &&& !spec_v3_decodable(bytes@, chain.spec_net_tag())
                },
            },
    {
        let (ks, p1) = match UnifiedKeyStore::read(bytes, 1, chain) {
            Ok(v) => v,
            Err(e) => {
                return Err(e);
            },
        };
        let (count, p2) = match read_compact(bytes, p1) {
            Ok(v) => v,
            Err(e) => {
                proof {
                    assert(bytes@.skip(1).skip(p1 - 1) =~= bytes@.skip(p1 as int));
                }
                return Err(e);
            },
        };
        proof {
            assert(bytes@.skip(1).skip(p1 - 1) =~= bytes@.skip(p1 as int));
        }
        let (sels, _p3) = match read_selection_list(bytes, p2, count) {
            Ok(v) => v,
            Err(e) => {
                proof {
                    assert(bytes@.skip(1).skip(p2 - 1) =~= bytes@.skip(p2 as int));
                }
                return Err(e);
            },
        };
        proof {
            assert(bytes@.skip(1).skip(p2 - 1) =~= bytes@.skip(p2 as int));
        }
        let ghost ks_model = ks.spec_model();
        let mut wc = WalletCapability {
            unified_key_store: ks,
            addresses: Vec::new(),
            transparent_child_addresses: Vec::new(),
            addresses_write_lock: false,
        };
        proof {
            assert(crate::capability::spec_t_views(wc.transparent_child_addresses@)
                =~= crate::capability::spec_t_entries(wc.spec_addrs()));
        }
        proof {
            if spec_v3_decodable(bytes@, chain.spec_net_tag()) {
                assert(spec_replayable(ks_model, sels@));
            }
        }
        let mut k: usize = 0;
        while k < sels.len()
            invariant
                wc.wf(),
                wc.spec_faithful(),
                !wc.addresses_write_lock,
                wc.unified_key_store.spec_model() == ks_model,
                k <= sels@.len(),
                wc.addresses@.len() == k,
                wc.spec_selections() =~= sels@.take(k as int),
                spec_v3_decodable(bytes@, chain.spec_net_tag()) ==> spec_replayable(
                    ks_model,
                    sels@,
                ),
            decreases sels@.len() - k,
        {
            let rs = sels[k];
            let ghost old_wc = wc;
            match wc.new_address(rs) {
                Ok(_) => {},
                Err(e) => {
                    proof {
                        if spec_v3_decodable(bytes@, chain.spec_net_tag()) {
                            let ki = k as int;
                            assert(spec_new_address_err(ks_model, ki as nat, sels@[ki], false)
                                is None);
                            assert(false);
                        }
                    }
                    return Err(e);
                },
            }
            proof {
                assert(wc.spec_selections() =~= sels@.take(k + 1));
                assert forall|i: int|
                    0 <= i < wc.spec_addrs().len() implies crate::capability::spec_entry_matches(
                    wc.unified_key_store,
                    i as nat,
                    #[trigger] wc.spec_addrs()[i],
                ) by {
                    if i < old_wc.spec_addrs().len() {
                        assert(wc.spec_addrs()[i] == old_wc.spec_addrs()[i]);
                        assert(crate::capability::spec_entry_matches(
                            old_wc.unified_key_store,
                            i as nat,
                            old_wc.spec_addrs()[i],
                        ));
                    }
                }
            }
            k = k + 1;
        }
        proof {
            assert(sels@.take(sels@.len() as int) =~= sels@);
        }
        Ok(wc)
    }

    /// Decodes the first generation: three raw spending keys, whose
    /// viewing sides drive a legacy replay; the stored transparent key
    /// lacks the data needed to rebuild spending authority, so the
    /// authority is left empty for the caller to re-derive from seed.
    fn read_v1(bytes: &Vec<u8>) -> (r: Result<WalletCapability, KeyError>)
        requires
            bytes@.len() >= 1,
            bytes@[0] == 1,
        ensures
            match r {
                Ok(wc) => {
                    &&& wc.wf()
                    &&& !wc.addresses_write_lock
                    &&& spec_v1_content(bytes@, wc)
                },
                Err(e) => {
                    &&& e != KeyError::UnsupportedSchemaVersion
                    &&& !spec_v1_decodable(bytes@)
                },
            },
    {
        let (orchard_sk, p1) = match read_bytes(bytes, 1, 32) {
            Ok(v) => v,
            Err(e) => {
                return Err(e);
            },
        };
        let (sapling_sk, p2) = match read_bytes(bytes, p1, 169) {
            Ok(v) => v,
            Err(e) => {
                return Err(e);
            },
        };
        let (chain_code, p3) = match read_bytes(bytes, p2, 32) {
            Ok(v) => v,
            Err(e) => {
                return Err(e);
            },
        };
        let (transparent_sk, p4) = match read_bytes(bytes, p3, 32) {
            Ok(v) => v,
            Err(e) => {
                return Err(e);
            },
        };
        proof {
            assert(bytes@.subrange(1, 33) =~= orchard_sk@);
            assert(bytes@.subrange(33, 202) =~= sapling_sk@);
            assert(bytes@.subrange(202, 234) =~= chain_code@);
            assert(bytes@.subrange(234, 266) =~= transparent_sk@);
        }
        if !crate::crypto::orchard_sk_check(&orchard_sk) {
            return Err(KeyError::KeyDecodingError);
        }
        if !crate::crypto::sapling_sk_check(&sapling_sk) {
            return Err(KeyError::KeyDecodingError);
        }
        let pk = match crate::crypto::secp_pub_from_sk(&transparent_sk) {
            Some(v) => v,
            None => {
                return Err(KeyError::KeyDecodingError);
            },
        };
        let orchard_fvk = crate::crypto::orchard_fvk_from_sk(&orchard_sk);
        let sapling_dfvk = crate::crypto::sapling_dfvk_from_sk(&sapling_sk);
        let mut legacy_ivk = crate::bytes::copy_bytes(&chain_code);
        crate::bytes::extend_bytes(&mut legacy_ivk, &pk);
        proof {
            assert(legacy_ivk@ =~= chain_code@ + pk@);
        }
        let (count, p5) = match read_compact(bytes, p4) {
            Ok(v) => v,
            Err(e) => {
                return Err(e);
            },
        };
        let (sels, _p6) = match read_selection_list(bytes, p5, count) {
            Ok(v) => v,
            Err(e) => {
                return Err(e);
            },
        };
        let mut wc = WalletCapability {
            unified_key_store: UnifiedKeyStore::Empty,
            addresses: Vec::new(),
            transparent_child_addresses: Vec::new(),
            addresses_write_lock: false,
        };
        proof {
            assert(crate::capability::spec_t_views(wc.transparent_child_addresses@)
                =~= crate::capability::spec_t_entries(wc.spec_addrs()));
        }
        let ghost o_view = Some(orchard_fvk@);
        let ghost s_view = Some(sapling_dfvk@);
        let ghost t_view = Some(legacy_ivk@);
        proof {
            if spec_v1_decodable(bytes@) {
                assert(spec_legacy_replayable(o_view, s_view, t_view, sels@));
            }
        }
        let mut k: usize = 0;
        while k < sels.len()
            invariant
                wc.wf(),
                !wc.addresses_write_lock,
                wc.unified_key_store.spec_model() is Empty,
                k <= sels@.len(),
                wc.addresses@.len() == k,
                wc.spec_selections() =~= sels@.take(k as int),
                spec_v1_decodable(bytes@) ==> spec_legacy_replayable(
                    o_view,
                    s_view,
                    t_view,
                    sels@,
                ),
                orchard_fvk@.len() == 96 && crate::crypto::orchard_fvk_ok(orchard_fvk@),
                sapling_dfvk@.len() == 128 && crate::crypto::sapling_dfvk_ok(sapling_dfvk@),
                legacy_ivk@.len() == 65,
                o_view == Some(orchard_fvk@),
                s_view == Some(sapling_dfvk@),
                t_view == Some(legacy_ivk@),
                forall|i: int|
                    0 <= i < k ==> spec_legacy_entry_matches(
                        o_view,
                        s_view,
                        t_view,
                        i as nat,
                        #[trigger] wc.spec_addrs()[i],
                    ),
            decreases sels@.len() - k,
        {
            let rs = sels[k];
            let ghost old_wc = wc;
            match wc.legacy_new_address(
                rs,
                Some(&orchard_fvk),
                Some(&sapling_dfvk),
                Some(&legacy_ivk),
            ) {
                Ok(_) => {},
                Err(e) => {
                    proof {
                        if spec_v1_decodable(bytes@) {
                            let ki = k as int;
                            assert(spec_legacy_err(
                                o_view,
                                s_view,
                                t_view,
                                ki as nat,
                                sels@[ki],
                                false,
                            ) is None);
                            assert(false);
                        }
                    }
                    return Err(e);
                },
            }
            proof {
                assert(wc.spec_selections() =~= sels@.take(k + 1));
                assert forall|i: int|
                    0 <= i < wc.spec_addrs().len() implies spec_legacy_entry_matches(
                    o_view,
                    s_view,
                    t_view,
                    i as nat,
                    #[trigger] wc.spec_addrs()[i],
                ) by {
                    if i < old_wc.spec_addrs().len() {
                        assert(wc.spec_addrs()[i] == old_wc.spec_addrs()[i]);
                        assert(spec_legacy_entry_matches(
                            o_view,
                            s_view,
                            t_view,
                            i as nat,
                            old_wc.spec_addrs()[i],
                        ));
                    }
                }
            }
            k = k + 1;
        }
        proof {
            assert(sels@.take(sels@.len() as int) =~= sels@);
            assert(bytes@.subrange(1, 33) =~= orchard_sk@);
            assert(bytes@.subrange(33, 202) =~= sapling_sk@);
            assert(bytes@.subrange(202, 234) =~= chain_code@);
            assert(bytes@.subrange(234, 266) =~= transparent_sk@);
            assert(legacy_ivk@ =~= chain_code@ + pk@);
        }
        Ok(wc)
    }

    /// Decodes the second generation: three per-pool tagged capability
    /// records. View records are combined into a view-only authority and
    /// drive the legacy replay; spending records cannot be reconstructed
    /// without the seed and contribute nothing.
    #[verifier::rlimit(100)]
    fn read_v2(bytes: &Vec<u8>) -> (r: Result<WalletCapability, KeyError>)
        requires
            bytes@.len() >= 1,
            bytes@[0] == 2,
        ensures
            match r {
                Ok(wc) => {
                    &&& wc.wf()
                    &&& !wc.addresses_write_lock
                    &&& spec_v2_content(bytes@, wc)
                },
                Err(e) => {
                    &&& e != KeyError::UnsupportedSchemaVersion
                    &&& !spec_v2_decodable(bytes@)
                },
            },
    {
        let (orchard_view, p1) = match Self::read_v2_record(bytes, 1, 96, 32) {
            Ok(v) => v,
            Err(e) => {
                return Err(e);
            },
        };
        let (sapling_view, p2) = match Self::read_v2_record(bytes, p1, 128, 169) {
            Ok(v) => v,
            Err(e) => {
                return Err(e);
            },
        };
        let (transparent_view, p3) = match Self::read_v2_record(bytes, p2, 65, 64) {
            Ok(v) => v,
            Err(e) => {
                return Err(e);
            },
        };
        let ghost o_view: Option<Seq<u8>> = match &orchard_view {
            Some(v) => Some(v@),
            None => None,
        };
        let ghost s_view: Option<Seq<u8>> = match &sapling_view {
            Some(v) => Some(v@),
            None => None,
        };
        let ghost t_view: Option<Seq<u8>> = match &transparent_view {
            Some(v) => Some(v@),
            None => None,
        };
        let orchard_ok = match &orchard_view {
            Some(v) => crate::crypto::orchard_fvk_check(v),
            None => true,
        };
        let sapling_ok = match &sapling_view {
            Some(v) => crate::crypto::sapling_dfvk_check(v),
            None => true,
        };
        if !orchard_ok || !sapling_ok {
            return Err(KeyError::KeyDecodingError);
        }
        let (count, p4) = match read_compact(bytes, p3) {
            Ok(v) => v,
            Err(e) => {
                return Err(e);
            },
        };
        let (sels, _p5) = match read_selection_list(bytes, p4, count) {
            Ok(v) => v,
            Err(e) => {
                return Err(e);
            },
        };
        let any_view = orchard_view.is_some() || sapling_view.is_some()
            || transparent_view.is_some();
        let store = if any_view {
            let bundle = match crate::keystore::check_view_bundle(
                match &orchard_view {
                    Some(v) => Some(crate::bytes::copy_bytes(v)),
                    None => None,
                },
                match &sapling_view {
                    Some(v) => Some(crate::bytes::copy_bytes(v)),
                    None => None,
                },
                match &transparent_view {
                    Some(v) => Some(crate::bytes::copy_bytes(v)),
                    None => None,
                },
            ) {
                Ok(b) => b,
                Err(e) => {
                    return Err(e);
                },
            };
            UnifiedKeyStore::View(bundle)
        } else {
            UnifiedKeyStore::Empty
        };
        let ghost expected_model = if o_view is Some || s_view is Some || t_view is Some {
            SpecKeyStore::View(o_view, s_view, t_view)
        } else {
            SpecKeyStore::Empty
        };
        let mut wc = WalletCapability {
            unified_key_store: store,
            addresses: Vec::new(),
            transparent_child_addresses: Vec::new(),
            addresses_write_lock: false,
        };
        proof {
            assert(crate::capability::spec_t_views(wc.transparent_child_addresses@)
                =~= crate::capability::spec_t_entries(wc.spec_addrs()));
            assert(wc.unified_key_store.spec_model() == expected_model);
        }
        proof {
            if spec_v2_decodable(bytes@) {
                assert(spec_legacy_replayable(o_view, s_view, t_view, sels@));
            }
        }
        let mut k: usize = 0;
        while k < sels.len()
            invariant
                wc.wf(),
                !wc.addresses_write_lock,
                wc.unified_key_store.spec_model() == expected_model,
                k <= sels@.len(),
                wc.addresses@.len() == k,
                wc.spec_selections() =~= sels@.take(k as int),
                spec_v2_decodable(bytes@) ==> spec_legacy_replayable(
                    o_view,
                    s_view,
                    t_view,
                    sels@,
                ),
                (orchard_view matches Some(v) ==> v@.len() == 96
                    && crate::crypto::orchard_fvk_ok(v@)),
                (sapling_view matches Some(v) ==> v@.len() == 128
                    && crate::crypto::sapling_dfvk_ok(v@)),
                (transparent_view matches Some(v) ==> v@.len() == 65),
                o_view == (match orchard_view {
                    Some(v) => Some(v@),
                    None => None,
                }),
                s_view == (match sapling_view {
                    Some(v) => Some(v@),
                    None => None,
                }),
                t_view == (match transparent_view {
                    Some(v) => Some(v@),
                    None => None,
                }),
                forall|i: int|
                    0 <= i < k ==> spec_legacy_entry_matches(
                        o_view,
                        s_view,
                        t_view,
                        i as nat,
                        #[trigger] wc.spec_addrs()[i],
                    ),
            decreases sels@.len() - k,
        {
            let rs = sels[k];
            let ghost old_wc = wc;
            match wc.legacy_new_address(
                rs,
                match &orchard_view {
                    Some(v) => Some(v),
                    None => None,
                },
                match &sapling_view {
                    Some(v) => Some(v),
                    None => None,
                },
                match &transparent_view {
                    Some(v) => Some(v),
                    None => None,
                },
            ) {
                Ok(_) => {},
                Err(e) => {
                    proof {
                        if spec_v2_decodable(bytes@) {
                            let ki = k as int;
                            assert(spec_legacy_err(
                                o_view,
                                s_view,
                                t_view,
                                ki as nat,
                                sels@[ki],
                                false,
                            ) is None);
                            assert(false);
                        }
                    }
                    return Err(e);
                },
            }
            proof {
                assert(wc.spec_selections() =~= sels@.take(k + 1));
                assert forall|i: int|
                    0 <= i < wc.spec_addrs().len() implies spec_legacy_entry_matches(
                    o_view,
                    s_view,
                    t_view,
                    i as nat,
                    #[trigger] wc.spec_addrs()[i],
                ) by {
                    if i < old_wc.spec_addrs().len() {
                        assert(wc.spec_addrs()[i] == old_wc.spec_addrs()[i]);
                        assert(spec_legacy_entry_matches(
                            o_view,
                            s_view,
                            t_view,
                            i as nat,
                            old_wc.spec_addrs()[i],
                        ));
                    }
                }
            }
            k = k + 1;
        }
        proof {
            assert(sels@.take(sels@.len() as int) =~= sels@);
            assert(bytes@.skip(1).skip(p1 - 1) =~= bytes@.skip(p1 as int));
            assert(bytes@.skip(1).skip(p2 - 1) =~= bytes@.skip(p2 as int));
            assert(bytes@.skip(1).skip(p3 - 1) =~= bytes@.skip(p3 as int));
            assert(bytes@.skip(1).skip(p4 - 1) =~= bytes@.skip(p4 as int));
        }
        Ok(wc)
    }

    /// Reads one tagged per-pool capability record: absent, view-only with
    /// `view_len` key bytes, or spending with `spend_len` key bytes (whose
    /// content cannot be used without the seed and is discarded).
    fn read_v2_record(bytes: &Vec<u8>, pos: usize, view_len: usize, spend_len: usize) -> (r:
        Result<(Option<Vec<u8>>, usize), KeyError>)
        requires
            pos <= bytes@.len(),
        ensures
            match r {
                Ok((v, p)) => {
                    &&& pos < p <= bytes@.len()
                    &&& (v matches Some(b) ==> b@.len() == view_len)
                    &&& parse_v2_record(
                        bytes@.skip(pos as int),
                        view_len as nat,
                        spend_len as nat,
                    ) == Some(
                        (
                            match v {
                                Some(b) => Some(b@),
                                None => None,
                            },
                            p - pos,
                        ),
                    )
                },
                Err(e) => {
                    &&& parse_v2_record(
                        bytes@.skip(pos as int),
                        view_len as nat,
                        spend_len as nat,
                    ) is None
                    &&& e == KeyError::CorruptEncoding
                },
            },
    {
        let ghost tail = bytes@.skip(pos as int);
        let blen = bytes.len();
        if blen - pos < 1 {
            return Err(KeyError::CorruptEncoding);
        }
        let tag = bytes[pos];
        assert(tail[0] == tag);
        if tag == 0 {
            Ok((None, pos + 1))
        } else if tag == 1 || tag == 2 {
            proof {
                assert(tail.skip(1) =~= bytes@.skip(pos + 1));
            }
            let (n, p1) = match read_compact(bytes, pos + 1) {
                Ok(v) => v,
                Err(e) => {
                    return Err(e);
                },
            };
            let expected = if tag == 1 {
                view_len
            } else {
                spend_len
            };
            if n != expected as u64 {
                return Err(KeyError::CorruptEncoding);
            }
            let (body, p2) = match read_bytes(bytes, p1, expected) {
                Ok(v) => v,
                Err(e) => {
                    return Err(e);
                },
            };
            proof {
                let c = p1 - pos - 1;
                assert(tail.subrange(1 + c, 1 + c + n) =~= bytes@.subrange(p1 as int, p1 + n));
            }
            if tag == 1 {
                Ok((Some(body), p2))
            } else {
                Ok((None, p2))
            }
        } else {
            Err(KeyError::CorruptEncoding)
        }
    }
}

} // verus!
