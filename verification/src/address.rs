//! Multi-receiver addresses and the per-pool receiver derivation rules.
//!
//! The diversifier-indexed pool needs a search: not every diversifier index
//! yields a valid address, and the k-th derived address must use the k-th
//! valid diversifier in ascending order. The spec functions here pin that
//! search down; `derive_sapling_receiver` implements it.

use vstd::prelude::*;

use crate::crypto::{sapling_addr_at, sapling_dfvk_ok};
use crate::errors::KeyError;
use crate::select::ReceiverSelection;

verus! {

/// A transparent-pool address.
#[derive(Debug)]
pub enum TransparentAddr {
    /// Pay-to-public-key-hash, the kind derivation produces.
    PublicKeyHash(Vec<u8>),
    /// Pay-to-script-hash, accepted when handed in from outside.
    ScriptHash(Vec<u8>),
}

impl TransparentAddr {
    /// The address content: whether it is a script hash, and the 20 bytes.
    pub open spec fn spec_view(&self) -> (bool, Seq<u8>) {
        match self {
            TransparentAddr::PublicKeyHash(h) => (false, h@),
            TransparentAddr::ScriptHash(h) => (true, h@),
        }
    }

    /// Well-formedness: the hash is 20 bytes.
    pub open spec fn wf(&self) -> bool {
        self.spec_view().1.len() == 20
    }

    /// Returns the 20-byte hash.
    pub fn hash_bytes(&self) -> (r: &Vec<u8>)
        ensures
            r@ == self.spec_view().1,
    {
        match self {
            TransparentAddr::PublicKeyHash(h) => h,
            TransparentAddr::ScriptHash(h) => h,
        }
    }

    /// Returns whether this is a pay-to-public-key-hash address.
    pub fn is_pubkey_hash(&self) -> (r: bool)
        ensures
            r == !self.spec_view().0,
    {
        match self {
            TransparentAddr::PublicKeyHash(_) => true,
            TransparentAddr::ScriptHash(_) => false,
        }
    }

    /// Returns an identical copy.
    pub fn duplicate(&self) -> (r: TransparentAddr)
        ensures
            r.spec_view() == self.spec_view(),
    {
        match self {
            TransparentAddr::PublicKeyHash(h) => TransparentAddr::PublicKeyHash(
                crate::bytes::copy_bytes(h),
            ),
            TransparentAddr::ScriptHash(h) => TransparentAddr::ScriptHash(
                crate::bytes::copy_bytes(h),
            ),
        }
    }
}

/// The mathematical content of a unified address.
#[verifier::ext_equal]
pub struct SpecUnifiedAddress {
    /// The 43-byte raw receiver of the index-addressed pool, if present.
    pub orchard: Option<Seq<u8>>,
    /// The 43-byte raw receiver of the diversifier-indexed pool, if present.
    pub sapling: Option<Seq<u8>>,
    /// The transparent receiver (script-hash flag and 20 bytes), if present.
    pub transparent: Option<(bool, Seq<u8>)>,
}

/// One address bundling zero-or-more pool receivers; at least one of the
/// two shielded receivers is always present.
#[derive(Debug)]
pub struct UnifiedAddress {
    /// The 43-byte raw receiver of the index-addressed pool, if present.
    pub orchard: Option<Vec<u8>>,
    /// The 43-byte raw receiver of the diversifier-indexed pool, if present.
    pub sapling: Option<Vec<u8>>,
    /// The transparent receiver, if present.
    pub transparent: Option<TransparentAddr>,
}

impl UnifiedAddress {
    /// The address content.
    pub open spec fn spec_view(&self) -> SpecUnifiedAddress {
        SpecUnifiedAddress {
            orchard: match self.orchard {
                Some(v) => Some(v@),
                None => None,
            },
            sapling: match self.sapling {
                Some(v) => Some(v@),
                None => None,
            },
            transparent: match self.transparent {
                Some(t) => Some(t.spec_view()),
                None => None,
            },
        }
    }

    /// Well-formedness: receiver sizes, and at least one shielded receiver.
    pub open spec fn wf(&self) -> bool {
        spec_address_wf(self.spec_view())
    }

    /// Which receivers this address contains.
    pub open spec fn spec_selection(&self) -> ReceiverSelection {
        spec_selection_of(self.spec_view())
    }

    /// Composes an address from receivers; fails exactly when neither
    /// shielded receiver is given.
    pub fn from_receivers(
        orchard: Option<Vec<u8>>,
        sapling: Option<Vec<u8>>,
        transparent: Option<TransparentAddr>,
    ) -> (r: Option<UnifiedAddress>)
        requires
            (orchard matches Some(v) ==> v@.len() == 43),
            (sapling matches Some(v) ==> v@.len() == 43),
            (transparent matches Some(t) ==> t.wf()),
        ensures
            match r {
                Some(ua) => {
                    &&& (orchard is Some || sapling is Some)
                    &&& ua.wf()
                    &&& ua.spec_view().orchard == (match orchard {
                        Some(v) => Some(v@),
                        None => None,
                    })
                    &&& ua.spec_view().sapling == (match sapling {
                        Some(v) => Some(v@),
                        None => None,
                    })
                    &&& ua.spec_view().transparent == (match transparent {
                        Some(t) => Some(t.spec_view()),
                        None => None,
                    })
                },
                None => orchard is None && sapling is None,
            },
    {
        if orchard.is_none() && sapling.is_none() {
            return None;
        }
        Some(UnifiedAddress { orchard, sapling, transparent })
    }

    /// Returns the index-addressed pool receiver, if present.
    pub fn orchard(&self) -> (r: Option<&Vec<u8>>)
        ensures
            match r {
                Some(v) => self.spec_view().orchard == Some(v@),
                None => self.spec_view().orchard is None,
            },
    {
        match &self.orchard {
            Some(v) => Some(v),
            None => None,
        }
    }

    /// Returns the diversifier-indexed pool receiver, if present.
    pub fn sapling(&self) -> (r: Option<&Vec<u8>>)
        ensures
            match r {
                Some(v) => self.spec_view().sapling == Some(v@),
                None => self.spec_view().sapling is None,
            },
    {
        match &self.sapling {
            Some(v) => Some(v),
            None => None,
        }
    }

    /// Returns the transparent receiver, if present.
    pub fn transparent(&self) -> (r: Option<&TransparentAddr>)
        ensures
            match r {
                Some(t) => self.spec_view().transparent == Some(t.spec_view()),
                None => self.spec_view().transparent is None,
            },
    {
        match &self.transparent {
            Some(t) => Some(t),
            None => None,
        }
    }

    /// Returns the selection of receivers this address contains.
    pub fn receiver_selection(&self) -> (r: ReceiverSelection)
        ensures
            r == self.spec_selection(),
    {
        ReceiverSelection {
            orchard: self.orchard.is_some(),
            sapling: self.sapling.is_some(),
            transparent: self.transparent.is_some(),
        }
    }

    /// Returns an identical copy.
    pub fn duplicate(&self) -> (r: UnifiedAddress)
        ensures
            r.spec_view() == self.spec_view(),
    {
        let orchard = match &self.orchard {
            Some(v) => Some(crate::bytes::copy_bytes(v)),
            None => None,
        };
        let sapling = match &self.sapling {
            Some(v) => Some(crate::bytes::copy_bytes(v)),
            None => None,
        };
        let transparent = match &self.transparent {
            Some(t) => Some(t.duplicate()),
            None => None,
        };
        UnifiedAddress { orchard, sapling, transparent }
    }
}

/// Well-formedness of address content.
pub open spec fn spec_address_wf(a: SpecUnifiedAddress) -> bool {
    &&& (a.orchard matches Some(v) ==> v.len() == 43)
    &&& (a.sapling matches Some(v) ==> v.len() == 43)
    &&& (a.transparent matches Some(t) ==> t.1.len() == 20)
    &&& (a.orchard is Some || a.sapling is Some)
}

/// The receivers present in address content.
pub open spec fn spec_selection_of(a: SpecUnifiedAddress) -> ReceiverSelection {
    ReceiverSelection {
        orchard: a.orchard is Some,
        sapling: a.sapling is Some,
        transparent: a.transparent is Some,
    }
}

/// The number of diversifier indices: `2 ^ 88`.
pub open spec fn diversifier_space() -> int {
    0x1_0000_0000_0000_0000_0000_00
}

/// `k` is the first diversifier index at or above `j` that yields a valid
/// address.
pub open spec fn is_first_valid_from(dfvk: Seq<u8>, j: int, k: int) -> bool {
    &&& j <= k < diversifier_space()
    &&& sapling_addr_at(dfvk, k) is Some
    &&& forall|i: int| j <= i < k ==> sapling_addr_at(dfvk, i) is None
}

/// At most one index is the first valid one at or above `j`.
pub proof fn lemma_first_valid_unique(dfvk: Seq<u8>, j: int, k1: int, k2: int)
    requires
        is_first_valid_from(dfvk, j, k1),
        is_first_valid_from(dfvk, j, k2),
    ensures
        k1 == k2,
{
    if k1 < k2 {
        assert(sapling_addr_at(dfvk, k1) is None);
    }
    if k2 < k1 {
        assert(sapling_addr_at(dfvk, k2) is None);
    }
}

/// The `n`-th valid diversifier index in ascending order, if the space
/// holds that many.
pub open spec fn nth_valid_diversifier(dfvk: Seq<u8>, n: nat) -> Option<int>
    decreases n,
{
    if n == 0 {
        if exists|k: int| is_first_valid_from(dfvk, 0, k) {
            Some(choose|k: int| is_first_valid_from(dfvk, 0, k))
        } else {
            None
        }
    } else {
        match nth_valid_diversifier(dfvk, (n - 1) as nat) {
            Some(p) => {
                if exists|k: int| #[trigger] is_first_valid_from(dfvk, p + 1, k) {
                    Some(choose|k: int| #[trigger] is_first_valid_from(dfvk, p + 1, k))
                } else {
                    None
                }
            },
            None => None,
        }
    }
}

/// The first valid index from zero is the zeroth valid diversifier.
pub proof fn lemma_nth_valid_zero(dfvk: Seq<u8>, k: int)
    requires
        is_first_valid_from(dfvk, 0, k),
    ensures
        nth_valid_diversifier(dfvk, 0) == Some(k),
{
    assert(exists|kk: int| #[trigger] is_first_valid_from(dfvk, 0, kk));
    let kk = choose|kk: int| #[trigger] is_first_valid_from(dfvk, 0, kk);
    lemma_first_valid_unique(dfvk, 0, kk, k);
}

/// No valid index from zero means no zeroth valid diversifier.
pub proof fn lemma_nth_valid_zero_none(dfvk: Seq<u8>)
    requires
        forall|kk: int| !(#[trigger] is_first_valid_from(dfvk, 0, kk)),
    ensures
        nth_valid_diversifier(dfvk, 0) is None,
{
}

/// The first valid index past the `n`-th valid diversifier is the
/// `n + 1`-th.
pub proof fn lemma_nth_valid_step(dfvk: Seq<u8>, n: nat, p: int, k: int)
    requires
        nth_valid_diversifier(dfvk, n) == Some(p),
        is_first_valid_from(dfvk, p + 1, k),
    ensures
        nth_valid_diversifier(dfvk, n + 1) == Some(k),
{
    assert(exists|kk: int| #[trigger] is_first_valid_from(dfvk, p + 1, kk));
    let kk = choose|kk: int| #[trigger] is_first_valid_from(dfvk, p + 1, kk);
    lemma_first_valid_unique(dfvk, p + 1, kk, k);
}

/// No valid index past the `n`-th valid diversifier means there is no
/// `n + 1`-th.
pub proof fn lemma_nth_valid_step_none(dfvk: Seq<u8>, n: nat, p: int)
    requires
        nth_valid_diversifier(dfvk, n) == Some(p),
        forall|kk: int| !(#[trigger] is_first_valid_from(dfvk, p + 1, kk)),
    ensures
        nth_valid_diversifier(dfvk, n + 1) is None,
{
}

/// Once the valid diversifiers are exhausted they stay exhausted.
pub proof fn lemma_nth_valid_none_mono(dfvk: Seq<u8>, m: nat, n: nat)
    requires
        m <= n,
        nth_valid_diversifier(dfvk, m) is None,
    ensures
        nth_valid_diversifier(dfvk, n) is None,
    decreases n,
{
    if n > m {
        lemma_nth_valid_none_mono(dfvk, m, (n - 1) as nat);
    }
}

/// The receiver of the diversifier-indexed pool at derivation index `n`:
/// the address of the `n`-th valid diversifier.
pub open spec fn spec_sapling_receiver(dfvk: Seq<u8>, n: nat) -> Option<Seq<u8>> {
    match nth_valid_diversifier(dfvk, n) {
        Some(k) => sapling_addr_at(dfvk, k),
        None => None,
    }
}

/// Derives the diversifier-indexed pool's receiver for derivation index
/// `n`: starting from diversifier index zero, the next valid
/// diversifier/address pair is found and stepped past `n + 1` times, and
/// the last address found is returned. Fails exactly when fewer than
/// `n + 1` valid diversifiers exist.
pub fn derive_sapling_receiver(dfvk: &Vec<u8>, n: usize) -> (r: Result<Vec<u8>, KeyError>)
    requires
        dfvk@.len() == 128,
        sapling_dfvk_ok(dfvk@),
    ensures
        match r {
            Ok(a) => spec_sapling_receiver(dfvk@, n as nat) == Some(a@) && a@.len() == 43,
            Err(e) => spec_sapling_receiver(dfvk@, n as nat) is None && e
                == KeyError::DiversifierOverflow,
        },
{
    let mut j: u128 = 0;
    let mut count: usize = 0;
    loop
        invariant
            dfvk@.len() == 128,
            sapling_dfvk_ok(dfvk@),
            count <= n,
            j < 0x1_0000_0000_0000_0000_0000_00,
            count == 0 ==> j == 0,
            count > 0 ==> nth_valid_diversifier(dfvk@, (count - 1) as nat) == Some(j - 1),
        decreases n - count,
    {
        match crate::crypto::sapling_find_address_from(dfvk, j) {
            None => {
                proof {
                    assert forall|k: int| !(#[trigger] is_first_valid_from(dfvk@, j as int, k))
                        by {
                        if is_first_valid_from(dfvk@, j as int, k) {
                            assert(sapling_addr_at(dfvk@, k) is None);
                        }
                    }
                    if count > 0 {
                        let p = j as int - 1;
                        assert(forall|kk: int| !(#[trigger] is_first_valid_from(
                            dfvk@,
                            p + 1,
                            kk,
                        )));
                        lemma_nth_valid_step_none(dfvk@, (count - 1) as nat, p);
                    } else {
                        lemma_nth_valid_zero_none(dfvk@);
                    }
                    lemma_nth_valid_none_mono(dfvk@, count as nat, n as nat);
                }
                return Err(KeyError::DiversifierOverflow);
            },
            Some((k, a)) => {
                proof {
                    assert(is_first_valid_from(dfvk@, j as int, k as int));
                    if count == 0 {
                        lemma_nth_valid_zero(dfvk@, k as int);
                    } else {
                        let p = j as int - 1;
                        assert(is_first_valid_from(dfvk@, p + 1, k as int));
                        lemma_nth_valid_step(dfvk@, (count - 1) as nat, p, k as int);
                    }
                    assert(nth_valid_diversifier(dfvk@, count as nat) == Some(k as int));
                }
                if count == n {
                    return Ok(a);
                }
                if k >= 0xFFFF_FFFF_FFFF_FFFF_FFFF_FF {
                    // The next search would start past the end of the
                    // diversifier space.
                    proof {
                        assert(forall|kk: int| !(#[trigger] is_first_valid_from(
                            dfvk@,
                            k as int + 1,
                            kk,
                        )));
                        lemma_nth_valid_step_none(dfvk@, count as nat, k as int);
                        lemma_nth_valid_none_mono(dfvk@, (count + 1) as nat, n as nat);
                    }
                    return Err(KeyError::DiversifierOverflow);
                }
                j = k + 1;
                count = count + 1;
            },
        }
    }
}

} // verus!
