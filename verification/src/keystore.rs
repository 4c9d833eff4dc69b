//! The wallet's key authority: full spending keys, view-only keys, or no
//! key material, with per-pool projections and the authority's own
//! versioned byte encoding.

use vstd::prelude::*;

use crate::bytes::{
    copy_bytes, extend_bytes, le_bytes, parse_compact, read_bytes, read_compact, spec_compact,
    write_compact, write_le,
};
use crate::chain::ChainType;
use crate::crypto::{
    external_ivk_of_pub, orchard_fvk_of_sk, orchard_fvk_ok, orchard_sk_ok, sapling_dfvk_of_sk,
    sapling_dfvk_ok, sapling_sk_ok, transparent_pub_of_sk, transparent_sk_ok, ufvk_bytes_of_parts,
    ufvk_parts_of,
};
use crate::errors::KeyError;
use crate::select::ReceiverSelection;

verus! {

/// The version byte of the authority encoding.
pub const KEYSTORE_VERSION: u8 = 0;

/// A spending-key bundle covering all three pools.
#[derive(Debug)]
pub struct FullKeyBundle {
    /// The 32-byte spending key of the index-addressed shielded pool.
    pub orchard_sk: Vec<u8>,
    /// The 169-byte extended spending key of the diversifier-indexed pool.
    pub sapling_sk: Vec<u8>,
    /// The 74-byte transparent account private key.
    pub transparent_sk: Vec<u8>,
}

/// A viewing-key bundle with independently optional per-pool keys.
#[derive(Debug)]
pub struct ViewKeyBundle {
    /// The 96-byte full viewing key of the index-addressed pool, if held.
    pub orchard_fvk: Option<Vec<u8>>,
    /// The 128-byte diversifiable full viewing key, if held.
    pub sapling_fvk: Option<Vec<u8>>,
    /// The 65-byte transparent account public key, if held.
    pub transparent_fvk: Option<Vec<u8>>,
}

/// The mathematical content of a key authority.
pub enum SpecKeyStore {
    /// Full spending authority: the three pools' spending key bytes.
    Spend(Seq<u8>, Seq<u8>, Seq<u8>),
    /// View-only authority: optional per-pool viewing key bytes.
    View(Option<Seq<u8>>, Option<Seq<u8>>, Option<Seq<u8>>),
    /// No key material.
    Empty,
}

/// Well-formedness of an authority's content: field sizes, key validity,
/// and (for spending authority) derivability of the external-chain
/// transparent viewing key.
pub open spec fn wf_model(m: SpecKeyStore) -> bool {
    match m {
        SpecKeyStore::Spend(o, s, t) => {
            &&& o.len() == 32 && orchard_sk_ok(o)
            &&& s.len() == 169 && sapling_sk_ok(s)
            &&& t.len() == 74 && transparent_sk_ok(t)
            &&& external_ivk_of_pub(transparent_pub_of_sk(t)) is Some
        },
        SpecKeyStore::View(o, s, t) => {
            &&& (o matches Some(v) ==> v.len() == 96 && orchard_fvk_ok(v))
            &&& (s matches Some(v) ==> v.len() == 128 && sapling_dfvk_ok(v))
            &&& (t matches Some(v) ==> v.len() == 65 && external_ivk_of_pub(v) is Some)
        },
        SpecKeyStore::Empty => true,
    }
}

/// The full viewing key of the index-addressed pool an authority of the
/// given content can produce, if any.
pub open spec fn model_orchard_fvk(m: SpecKeyStore) -> Option<Seq<u8>> {
    match m {
        SpecKeyStore::Spend(o, _, _) => Some(orchard_fvk_of_sk(o)),
        SpecKeyStore::View(o, _, _) => o,
        SpecKeyStore::Empty => None,
    }
}

/// The diversifiable full viewing key of the diversifier-indexed pool an
/// authority of the given content can produce, if any.
pub open spec fn model_sapling_dfvk(m: SpecKeyStore) -> Option<Seq<u8>> {
    match m {
        SpecKeyStore::Spend(_, s, _) => Some(sapling_dfvk_of_sk(s)),
        SpecKeyStore::View(_, s, _) => s,
        SpecKeyStore::Empty => None,
    }
}

/// The external-chain transparent incoming viewing key an authority of the
/// given content can produce, if any.
pub open spec fn model_transparent_ivk(m: SpecKeyStore) -> Option<Seq<u8>> {
    match m {
        SpecKeyStore::Spend(_, _, t) => external_ivk_of_pub(transparent_pub_of_sk(t)),
        SpecKeyStore::View(_, _, t) => match t {
            Some(k) => external_ivk_of_pub(k),
            None => None,
        },
        SpecKeyStore::Empty => None,
    }
}

impl FullKeyBundle {
    /// The bundle's mathematical content.
    pub open spec fn spec_model(&self) -> SpecKeyStore {
        SpecKeyStore::Spend(self.orchard_sk@, self.sapling_sk@, self.transparent_sk@)
    }

    /// Well-formedness of the bundle.
    pub open spec fn wf(&self) -> bool {
        wf_model(self.spec_model())
    }
}

impl ViewKeyBundle {
    /// The orchard-pool viewing key bytes, if held.
    pub open spec fn spec_orchard(&self) -> Option<Seq<u8>> {
        match self.orchard_fvk {
            Some(v) => Some(v@),
            None => None,
        }
    }

    /// The sapling-pool viewing key bytes, if held.
    pub open spec fn spec_sapling(&self) -> Option<Seq<u8>> {
        match self.sapling_fvk {
            Some(v) => Some(v@),
            None => None,
        }
    }

    /// The transparent account public key bytes, if held.
    pub open spec fn spec_transparent(&self) -> Option<Seq<u8>> {
        match self.transparent_fvk {
            Some(v) => Some(v@),
            None => None,
        }
    }

    /// The bundle's mathematical content.
    pub open spec fn spec_model(&self) -> SpecKeyStore {
        SpecKeyStore::View(self.spec_orchard(), self.spec_sapling(), self.spec_transparent())
    }

    /// Well-formedness of the bundle.
    pub open spec fn wf(&self) -> bool {
        wf_model(self.spec_model())
    }
}

/// In-memory store for the wallet's spending or viewing keys: exactly one
/// of full spending authority, view-only authority, or nothing.
#[derive(Debug)]
pub enum UnifiedKeyStore {
    /// Wallet with spend capability for all three pools.
    Spend(FullKeyBundle),
    /// Wallet with view capability for a subset of pools.
    View(ViewKeyBundle),
    /// Wallet with no keys.
    Empty,
}

impl UnifiedKeyStore {
    /// The authority's mathematical content.
    pub open spec fn spec_model(&self) -> SpecKeyStore {
        match self {
            UnifiedKeyStore::Spend(b) => b.spec_model(),
            UnifiedKeyStore::View(v) => v.spec_model(),
            UnifiedKeyStore::Empty => SpecKeyStore::Empty,
        }
    }

    /// Well-formedness of the authority.
    pub open spec fn wf(&self) -> bool {
        wf_model(self.spec_model())
    }

    /// The full viewing key of the index-addressed pool this authority can
    /// produce, if any.
    pub open spec fn spec_orchard_fvk(&self) -> Option<Seq<u8>> {
        model_orchard_fvk(self.spec_model())
    }

    /// The diversifiable full viewing key of the diversifier-indexed pool
    /// this authority can produce, if any.
    pub open spec fn spec_sapling_dfvk(&self) -> Option<Seq<u8>> {
        model_sapling_dfvk(self.spec_model())
    }

    /// The external-chain transparent incoming viewing key this authority
    /// can produce, if any.
    pub open spec fn spec_transparent_ivk(&self) -> Option<Seq<u8>> {
        model_transparent_ivk(self.spec_model())
    }

    /// The pools this authority can at least view.
    pub open spec fn spec_can_view(&self) -> ReceiverSelection {
        match self.spec_model() {
            SpecKeyStore::Spend(_, _, _) => ReceiverSelection {
                orchard: true,
                sapling: true,
                transparent: true,
            },
            SpecKeyStore::View(o, s, t) => ReceiverSelection {
                orchard: o is Some,
                sapling: s is Some,
                transparent: t is Some,
            },
            SpecKeyStore::Empty => ReceiverSelection {
                orchard: false,
                sapling: false,
                transparent: false,
            },
        }
    }

    /// Whether the authority can be written back out: a view-only authority
    /// must hold at least one shielded viewing key to have a unified
    /// encoding.
    pub open spec fn spec_encodable(&self) -> bool {
        match self.spec_model() {
            SpecKeyStore::View(o, s, _) => o is Some || s is Some,
            _ => true,
        }
    }

    /// Returns true if this store holds full spending authority.
    pub fn is_spending_key(&self) -> (r: bool)
        ensures
            r == (self.spec_model() matches SpecKeyStore::Spend(_, _, _)),
    {
        match self {
            UnifiedKeyStore::Spend(_) => true,
            _ => false,
        }
    }

    /// Returns true if this store holds no key material.
    pub fn is_empty(&self) -> (r: bool)
        ensures
            r == (self.spec_model() is Empty),
    {
        match self {
            UnifiedKeyStore::Empty => true,
            _ => false,
        }
    }

    /// Projects the index-addressed pool's full viewing key, deriving it
    /// from the spending key for a full authority.
    pub fn orchard_fvk(&self) -> (r: Result<Vec<u8>, KeyError>)
        requires
            self.wf(),
        ensures
            match r {
                Ok(v) => self.spec_orchard_fvk() == Some(v@) && v@.len() == 96 && orchard_fvk_ok(
                    v@,
                ),
                Err(e) => self.spec_orchard_fvk() is None && e == KeyError::NoViewCapability,
            },
    {
        match self {
            UnifiedKeyStore::Spend(b) => Ok(crate::crypto::orchard_fvk_from_sk(&b.orchard_sk)),
            UnifiedKeyStore::View(v) => match &v.orchard_fvk {
                Some(k) => Ok(copy_bytes(k)),
                None => Err(KeyError::NoViewCapability),
            },
            UnifiedKeyStore::Empty => Err(KeyError::NoViewCapability),
        }
    }

    /// Projects the diversifier-indexed pool's diversifiable full viewing
    /// key, deriving it from the spending key for a full authority.
    pub fn sapling_dfvk(&self) -> (r: Result<Vec<u8>, KeyError>)
        requires
            self.wf(),
        ensures
            match r {
                Ok(v) => self.spec_sapling_dfvk() == Some(v@) && v@.len() == 128
                    && sapling_dfvk_ok(v@),
                Err(e) => self.spec_sapling_dfvk() is None && e == KeyError::NoViewCapability,
            },
    {
        match self {
            UnifiedKeyStore::Spend(b) => Ok(crate::crypto::sapling_dfvk_from_sk(&b.sapling_sk)),
            UnifiedKeyStore::View(v) => match &v.sapling_fvk {
                Some(k) => Ok(copy_bytes(k)),
                None => Err(KeyError::NoViewCapability),
            },
            UnifiedKeyStore::Empty => Err(KeyError::NoViewCapability),
        }
    }

    /// Projects the transparent external-chain incoming viewing key.
    pub fn transparent_ivk(&self) -> (r: Result<Vec<u8>, KeyError>)
        requires
            self.wf(),
        ensures
            match r {
                Ok(v) => self.spec_transparent_ivk() == Some(v@) && v@.len() == 65,
                Err(e) => self.spec_transparent_ivk() is None && e == KeyError::NoViewCapability,
            },
    {
        match self {
            UnifiedKeyStore::Spend(b) => {
                let pubk = crate::crypto::transparent_pub_from_sk(&b.transparent_sk);
                match crate::crypto::transparent_external_ivk(&pubk) {
                    Some(ivk) => Ok(ivk),
                    None => {
                        proof {
                            assert(false);
                        }
                        Err(KeyError::NoViewCapability)
                    },
                }
            },
            UnifiedKeyStore::View(v) => match &v.transparent_fvk {
                Some(k) => match crate::crypto::transparent_external_ivk(k) {
                    Some(ivk) => Ok(ivk),
                    None => {
                        proof {
                            assert(false);
                        }
                        Err(KeyError::NoViewCapability)
                    },
                },
                None => Err(KeyError::NoViewCapability),
            },
            UnifiedKeyStore::Empty => Err(KeyError::NoViewCapability),
        }
    }

    /// Projects the index-addressed pool's raw spending key.
    pub fn orchard_sk(&self) -> (r: Result<Vec<u8>, KeyError>)
        ensures
            match r {
                Ok(v) => match self.spec_model() {
                    SpecKeyStore::Spend(o, _, _) => v@ == o,
                    _ => false,
                },
                Err(e) => !(self.spec_model() matches SpecKeyStore::Spend(_, _, _)) && e
                    == KeyError::NoSpendCapability,
            },
    {
        match self {
            UnifiedKeyStore::Spend(b) => Ok(copy_bytes(&b.orchard_sk)),
            _ => Err(KeyError::NoSpendCapability),
        }
    }

    /// Projects the diversifier-indexed pool's extended spending key.
    pub fn sapling_sk(&self) -> (r: Result<Vec<u8>, KeyError>)
        ensures
            match r {
                Ok(v) => match self.spec_model() {
                    SpecKeyStore::Spend(_, s, _) => v@ == s,
                    _ => false,
                },
                Err(e) => !(self.spec_model() matches SpecKeyStore::Spend(_, _, _)) && e
                    == KeyError::NoSpendCapability,
            },
    {
        match self {
            UnifiedKeyStore::Spend(b) => Ok(copy_bytes(&b.sapling_sk)),
            _ => Err(KeyError::NoSpendCapability),
        }
    }

    /// Projects the transparent account private key.
    pub fn transparent_sk(&self) -> (r: Result<Vec<u8>, KeyError>)
        ensures
            match r {
                Ok(v) => match self.spec_model() {
                    SpecKeyStore::Spend(_, _, t) => v@ == t,
                    _ => false,
                },
                Err(e) => !(self.spec_model() matches SpecKeyStore::Spend(_, _, _)) && e
                    == KeyError::NoSpendCapability,
            },
    {
        match self {
            UnifiedKeyStore::Spend(b) => Ok(copy_bytes(&b.transparent_sk)),
            _ => Err(KeyError::NoSpendCapability),
        }
    }
}

/// The canonical spending-key-bundle byte layout: a 4-byte little-endian
/// era tag, then for each pool a one-byte typecode, a one-byte length, and
/// the raw key bytes.
pub open spec fn spec_usk_bytes(o: Seq<u8>, s: Seq<u8>, t: Seq<u8>) -> Seq<u8> {
    le_bytes(0xc2d6d0b4, 4) + seq![3u8, 32u8] + o + seq![2u8, 169u8] + s + seq![0u8, 74u8] + t
}

/// Parses the canonical spending-key-bundle layout; the three keys sit at
/// fixed offsets once the framing bytes are checked.
///
/// Only the order the writer emits (era, then the index-addressed,
/// diversifier-indexed and transparent records) is accepted; an export
/// with its records reordered, though expressible in the tagged layout,
/// is rejected as corrupt.
pub open spec fn parse_usk(s: Seq<u8>) -> Option<(Seq<u8>, Seq<u8>, Seq<u8>)> {
    if s.len() == 285 && s.subrange(0, 4) == le_bytes(0xc2d6d0b4, 4) && s[4] == 3 && s[5] == 32
        && s[38] == 2 && s[39] == 169 && s[209] == 0 && s[210] == 74 {
        Some((s.subrange(6, 38), s.subrange(40, 209), s.subrange(211, 285)))
    } else {
        None
    }
}

/// The spending-key layout parses back to its three keys.
pub proof fn lemma_usk_round_trip(o: Seq<u8>, s: Seq<u8>, t: Seq<u8>)
    requires
        o.len() == 32,
        s.len() == 169,
        t.len() == 74,
    ensures
        parse_usk(spec_usk_bytes(o, s, t)) == Some((o, s, t)),
{
    let b = spec_usk_bytes(o, s, t);
    crate::bytes::lemma_le_bytes_len(0xc2d6d0b4, 4);
    assert(b.len() == 285);
    assert(b.subrange(0, 4) =~= le_bytes(0xc2d6d0b4, 4));
    assert(b.subrange(6, 38) =~= o);
    assert(b.subrange(40, 209) =~= s);
    assert(b.subrange(211, 285) =~= t);
}

/// The authority encoding: the version byte, a kind byte (0 spend, 1 view,
/// 2 none), and for the first two kinds a compact length prefix followed by
/// the key bytes (the spending-key layout, or the unified viewing key
/// encoding under the given network tag).
pub open spec fn spec_keystore_bytes(m: SpecKeyStore, net: u8) -> Seq<u8> {
    match m {
        SpecKeyStore::Spend(o, s, t) => {
            let body = spec_usk_bytes(o, s, t);
            seq![KEYSTORE_VERSION, 0u8] + spec_compact(body.len() as u64) + body
        },
        SpecKeyStore::View(o, s, t) => {
            let body = ufvk_bytes_of_parts(o, s, t, net);
            seq![KEYSTORE_VERSION, 1u8] + spec_compact(body.len() as u64) + body
        },
        SpecKeyStore::Empty => seq![KEYSTORE_VERSION, 2u8],
    }
}

/// Parses an authority encoding from the front of `s`, expecting viewing
/// keys to be tagged with network `net`; yields the authority's content and
/// the number of bytes consumed, or the precise failure: corrupt framing,
/// undecodable key material, or a wrong network tag.
pub open spec fn parse_keystore_checked(s: Seq<u8>, net: u8) -> Result<
    (SpecKeyStore, int),
    KeyError,
> {
    if s.len() < 2 || s[0] != KEYSTORE_VERSION {
        Err(KeyError::CorruptEncoding)
    } else if s[1] == 0 {
        match parse_compact(s.skip(2)) {
            Some((n, c)) => {
                if 2 + c + n <= s.len() {
                    let body = s.subrange(2 + c, 2 + c + n);
                    match parse_usk(body) {
                        Some((o, sa, t)) => {
                            if wf_model(SpecKeyStore::Spend(o, sa, t)) {
                                Ok((SpecKeyStore::Spend(o, sa, t), 2 + c + n))
                            } else {
                                Err(KeyError::KeyDecodingError)
                            }
                        },
                        None => Err(KeyError::CorruptEncoding),
                    }
                } else {
                    Err(KeyError::CorruptEncoding)
                }
            },
            None => Err(KeyError::CorruptEncoding),
        }
    } else if s[1] == 1 {
        match parse_compact(s.skip(2)) {
            Some((n, c)) => {
                if 2 + c + n <= s.len() {
                    let body = s.subrange(2 + c, 2 + c + n);
                    match ufvk_parts_of(body) {
                        Some((tag, o, sa, t)) => {
                            if tag != net {
                                Err(KeyError::NetworkMismatch)
                            } else if wf_model(SpecKeyStore::View(o, sa, t)) {
                                Ok((SpecKeyStore::View(o, sa, t), 2 + c + n))
                            } else {
                                Err(KeyError::KeyDecodingError)
                            }
                        },
                        None => Err(KeyError::KeyDecodingError),
                    }
                } else {
                    Err(KeyError::CorruptEncoding)
                }
            },
            None => Err(KeyError::CorruptEncoding),
        }
    } else if s[1] == 2 {
        Ok((SpecKeyStore::Empty, 2))
    } else {
        Err(KeyError::CorruptEncoding)
    }
}

/// The authority encodings that parse, with their content.
pub open spec fn parse_keystore(s: Seq<u8>, net: u8) -> Option<(SpecKeyStore, int)> {
    match parse_keystore_checked(s, net) {
        Ok(v) => Some(v),
        Err(_) => None,
    }
}

impl UnifiedKeyStore {
    /// Appends this authority's encoding for the given network.
    pub fn write(&self, out: &mut Vec<u8>, chain: ChainType)
        requires
            self.wf(),
            self.spec_encodable(),
        ensures
            final(out)@ == old(out)@ + spec_keystore_bytes(
                self.spec_model(),
                chain.spec_net_tag(),
            ),
    {
        out.push(KEYSTORE_VERSION);
        match self {
            UnifiedKeyStore::Spend(b) => {
                out.push(0u8);
                let mut body: Vec<u8> = Vec::new();
                write_le(&mut body, 0xc2d6d0b4u64, 4);
                body.push(3u8);
                body.push(32u8);
                extend_bytes(&mut body, &b.orchard_sk);
                body.push(2u8);
                body.push(169u8);
                extend_bytes(&mut body, &b.sapling_sk);
                body.push(0u8);
                body.push(74u8);
                extend_bytes(&mut body, &b.transparent_sk);
                assert(body@ =~= spec_usk_bytes(b.orchard_sk@, b.sapling_sk@, b.transparent_sk@));
                write_compact(out, body.len() as u64);
                extend_bytes(out, &body);
                assert(out@ =~= old(out)@ + spec_keystore_bytes(
                    self.spec_model(),
                    chain.spec_net_tag(),
                ));
            },
            UnifiedKeyStore::View(v) => {
                out.push(1u8);
                let body = crate::crypto::ufvk_encode(v, chain.net_tag());
                write_compact(out, body.len() as u64);
                extend_bytes(out, &body);
                assert(out@ =~= old(out)@ + spec_keystore_bytes(
                    self.spec_model(),
                    chain.spec_net_tag(),
                ));
            },
            UnifiedKeyStore::Empty => {
                out.push(2u8);
                assert(out@ =~= old(out)@ + spec_keystore_bytes(
                    self.spec_model(),
                    chain.spec_net_tag(),
                ));
            },
        }
    }

    /// Reads an authority encoding at `pos`, checking the viewing-key
    /// network tag against `chain` and validating all key material.
    pub fn read(bytes: &Vec<u8>, pos: usize, chain: ChainType) -> (r: Result<
        (UnifiedKeyStore, usize),
        KeyError,
    >)
        requires
            pos <= bytes@.len(),
        ensures
            match r {
                Ok((ks, p)) => {
                    &&& ks.wf()
                    &&& parse_keystore(bytes@.skip(pos as int), chain.spec_net_tag()) == Some(
                        (ks.spec_model(), p - pos),
                    )
                    &&& pos < p <= bytes@.len()
                },
                Err(e) => parse_keystore_checked(bytes@.skip(pos as int), chain.spec_net_tag())
                    == Err::<(SpecKeyStore, int), KeyError>(e),
            },
    {
        let ghost tail = bytes@.skip(pos as int);
        let blen = bytes.len();
        if blen - pos < 2 {
            return Err(KeyError::CorruptEncoding);
        }
        let version = bytes[pos];
        let kind = bytes[pos + 1];
        assert(tail[0] == version && tail[1] == kind);
        if version != KEYSTORE_VERSION {
            return Err(KeyError::CorruptEncoding);
        }
        if kind == 0 {
            let (n, p1) = match read_compact(bytes, pos + 2) {
                Ok(v) => v,
                Err(e) => {
                    proof {
                        assert(tail.skip(2) =~= bytes@.skip(pos + 2));
                    }
                    return Err(e);
                },
            };
            proof {
                assert(tail.skip(2) =~= bytes@.skip(pos + 2));
            }
            if n > (blen - p1) as u64 {
                return Err(KeyError::CorruptEncoding);
            }
            let (body, p2) = match read_bytes(bytes, p1, n as usize) {
                Ok(v) => v,
                Err(_) => {
                    return Err(KeyError::CorruptEncoding);
                },
            };
            proof {
                assert(body@ =~= tail.subrange(2 + (p1 - pos - 2), 2 + (p1 - pos - 2) + n));
            }
            let bundle = match read_usk_body(&body) {
                Ok(b) => b,
                Err(e) => {
                    return Err(e);
                },
            };
            Ok((UnifiedKeyStore::Spend(bundle), p2))
        } else if kind == 1 {
            let (n, p1) = match read_compact(bytes, pos + 2) {
                Ok(v) => v,
                Err(e) => {
                    proof {
                        assert(tail.skip(2) =~= bytes@.skip(pos + 2));
                    }
                    return Err(e);
                },
            };
            proof {
                assert(tail.skip(2) =~= bytes@.skip(pos + 2));
            }
            if n > (blen - p1) as u64 {
                return Err(KeyError::CorruptEncoding);
            }
            let (body, p2) = match read_bytes(bytes, p1, n as usize) {
                Ok(v) => v,
                Err(_) => {
                    return Err(KeyError::CorruptEncoding);
                },
            };
            proof {
                assert(body@ =~= tail.subrange(2 + (p1 - pos - 2), 2 + (p1 - pos - 2) + n));
            }
            let parts = match crate::crypto::ufvk_decode(&body) {
                Some(p) => p,
                None => {
                    return Err(KeyError::KeyDecodingError);
                },
            };
            let (tag, o, sa, t) = parts;
            if tag != chain.net_tag() {
                return Err(KeyError::NetworkMismatch);
            }
            let bundle = match check_view_bundle(o, sa, t) {
                Ok(b) => b,
                Err(e) => {
                    return Err(e);
                },
            };
            Ok((UnifiedKeyStore::View(bundle), p2))
        } else if kind == 2 {
            Ok((UnifiedKeyStore::Empty, pos + 2))
        } else {
            return Err(KeyError::CorruptEncoding);
        }
    }
}

/// Parses and validates the canonical spending-key-bundle layout.
pub(crate) fn read_usk_body(body: &Vec<u8>) -> (r: Result<FullKeyBundle, KeyError>)
    ensures
        match r {
            Ok(b) => {
                &&& b.wf()
                &&& parse_usk(body@) == Some(
                    (b.orchard_sk@, b.sapling_sk@, b.transparent_sk@),
                )
            },
            Err(e) => {
                &&& (e == KeyError::CorruptEncoding <==> parse_usk(body@) is None)
                &&& (e == KeyError::KeyDecodingError <==> (parse_usk(body@) matches Some(
                    (o, s, t),
                ) && !wf_model(SpecKeyStore::Spend(o, s, t))))
                &&& (e == KeyError::CorruptEncoding || e == KeyError::KeyDecodingError)
            },
        },
{
    if body.len() != 285 {
        return Err(KeyError::CorruptEncoding);
    }
    let era = crate::bytes::read_le(body, 0, 4);
    proof {
        crate::bytes::lemma_le_bytes_len(0xc2d6d0b4, 4);
        assert(crate::bytes::pow256(4) == 0x100000000) by {
            reveal_with_fuel(crate::bytes::pow256, 5);
        }
        crate::bytes::lemma_le_round_trip(0xc2d6d0b4, 4);
        crate::bytes::lemma_le_bytes_of_val(body@.subrange(0, 4));
    }
    if era != 0xc2d6d0b4 {
        // era is the value of the first four bytes, so they cannot be the
        // expected era's encoding.
        return Err(KeyError::CorruptEncoding);
    }
    if body[4] != 3 || body[5] != 32 || body[38] != 2 || body[39] != 169 || body[209] != 0
        || body[210] != 74 {
        return Err(KeyError::CorruptEncoding);
    }
    let (orchard_sk, _) = match read_bytes(body, 6, 32) {
        Ok(v) => v,
        Err(_) => {
            return Err(KeyError::CorruptEncoding);
        },
    };
    let (sapling_sk, _) = match read_bytes(body, 40, 169) {
        Ok(v) => v,
        Err(_) => {
            return Err(KeyError::CorruptEncoding);
        },
    };
    let (transparent_sk, _) = match read_bytes(body, 211, 74) {
        Ok(v) => v,
        Err(_) => {
            return Err(KeyError::CorruptEncoding);
        },
    };
    proof {
        assert(parse_usk(body@) == Some((orchard_sk@, sapling_sk@, transparent_sk@)));
    }
    if !crate::crypto::orchard_sk_check(&orchard_sk) {
        return Err(KeyError::KeyDecodingError);
    }
    if !crate::crypto::sapling_sk_check(&sapling_sk) {
        return Err(KeyError::KeyDecodingError);
    }
    if !crate::crypto::transparent_sk_check(&transparent_sk) {
        return Err(KeyError::KeyDecodingError);
    }
    let pubk = crate::crypto::transparent_pub_from_sk(&transparent_sk);
    if crate::crypto::transparent_external_ivk(&pubk).is_none() {
        return Err(KeyError::KeyDecodingError);
    }
    Ok(FullKeyBundle { orchard_sk, sapling_sk, transparent_sk })
}

/// Validates decoded viewing-key components and assembles the bundle.
pub(crate) fn check_view_bundle(o: Option<Vec<u8>>, sa: Option<Vec<u8>>, t: Option<Vec<u8>>) -> (r: Result<
    ViewKeyBundle,
    KeyError,
>)
    requires
        (o matches Some(v) ==> v@.len() == 96),
        (sa matches Some(v) ==> v@.len() == 128),
        (t matches Some(v) ==> v@.len() == 65),
    ensures
        match r {
            Ok(b) => {
                &&& b.wf()
                &&& b.spec_orchard() == (match o {
                    Some(v) => Some(v@),
                    None => None,
                })
                &&& b.spec_sapling() == (match sa {
                    Some(v) => Some(v@),
                    None => None,
                })
                &&& b.spec_transparent() == (match t {
                    Some(v) => Some(v@),
                    None => None,
                })
            },
            Err(e) => {
                &&& !wf_model(
                    SpecKeyStore::View(
                        match o {
                            Some(v) => Some(v@),
                            None => None,
                        },
                        match sa {
                            Some(v) => Some(v@),
                            None => None,
                        },
                        match t {
                            Some(v) => Some(v@),
                            None => None,
                        },
                    ),
                )
                &&& e == KeyError::KeyDecodingError
            },
        },
{
    match &o {
        Some(v) => {
            if !crate::crypto::orchard_fvk_check(v) {
                return Err(KeyError::KeyDecodingError);
            }
        },
        None => {},
    }
    match &sa {
        Some(v) => {
            if !crate::crypto::sapling_dfvk_check(v) {
                return Err(KeyError::KeyDecodingError);
            }
        },
        None => {},
    }
    match &t {
        Some(v) => {
            match crate::crypto::transparent_external_ivk(v) {
                Some(_) => {},
                None => {
                    return Err(KeyError::KeyDecodingError);
                },
            }
        },
        None => {},
    }
    Ok(ViewKeyBundle { orchard_fvk: o, sapling_fvk: sa, transparent_fvk: t })
}

/// An authority's encoding parses back to the authority's content.
pub proof fn lemma_keystore_round_trip(m: SpecKeyStore, net: u8, rest: Seq<u8>)
    requires
        wf_model(m),
        match m {
            SpecKeyStore::View(o, s, t) => {
                &&& (o is Some || s is Some)
                &&& ufvk_bytes_of_parts(o, s, t, net).len() <= 0x100000
                &&& ufvk_parts_of(ufvk_bytes_of_parts(o, s, t, net)) == Some((net, o, s, t))
            },
            _ => true,
        },
    ensures
        parse_keystore(spec_keystore_bytes(m, net) + rest, net) == Some(
            (m, spec_keystore_bytes(m, net).len() as int),
        ),
{
    let b = spec_keystore_bytes(m, net);
    let s = b + rest;
    match m {
        SpecKeyStore::Spend(o, sa, t) => {
            let body = spec_usk_bytes(o, sa, t);
            crate::bytes::lemma_le_bytes_len(0xc2d6d0b4, 4);
            assert(body.len() == 285);
            crate::bytes::lemma_compact_round_trip(285, body + rest);
            assert(s.skip(2) =~= spec_compact(285) + (body + rest));
            let c = spec_compact(285u64).len() as int;
            assert(s.subrange(2 + c, 2 + c + 285) =~= body);
            lemma_usk_round_trip(o, sa, t);
        },
        SpecKeyStore::View(o, sa, t) => {
            let body = ufvk_bytes_of_parts(o, sa, t, net);
            let n = body.len() as u64;
            crate::bytes::lemma_compact_round_trip(n, body + rest);
            assert(s.skip(2) =~= spec_compact(n) + (body + rest));
            let c = spec_compact(n).len() as int;
            assert(s.subrange(2 + c, 2 + c + n) =~= body);
        },
        SpecKeyStore::Empty => {
            assert(s[0] == KEYSTORE_VERSION && s[1] == 2);
        },
    }
}

} // verus!
