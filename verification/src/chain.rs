//! The networks a wallet can be configured for, and the network-dependent
//! constants the key logic needs.

use vstd::prelude::*;

verus! {

/// The network a wallet's keys and encodings are bound to.
#[derive(Debug, Clone, Copy, PartialEq, Eq, Structural)]
pub enum ChainType {
    /// The production network.
    Mainnet,
    /// The public test network.
    Testnet,
    /// A private regression-test network.
    Regtest,
}

impl ChainType {
    /// The ZIP 32 coin type used in hardened derivation paths: 133 on the
    /// production network, 1 elsewhere.
    pub open spec fn spec_coin_type(self) -> u32 {
        match self {
            ChainType::Mainnet => 133,
            ChainType::Testnet => 1,
            ChainType::Regtest => 1,
        }
    }

    /// Returns the coin type for this network.
    pub fn coin_type(self) -> (c: u32)
        ensures
            c == self.spec_coin_type(),
    {
        match self {
            ChainType::Mainnet => 133,
            ChainType::Testnet => 1,
            ChainType::Regtest => 1,
        }
    }

    /// The tag under which this network appears in decoded unified
    /// encodings: 0 main, 1 test, 2 regtest.
    pub open spec fn spec_net_tag(self) -> u8 {
        match self {
            ChainType::Mainnet => 0,
            ChainType::Testnet => 1,
            ChainType::Regtest => 2,
        }
    }

    /// Returns the network tag for this network.
    pub fn net_tag(self) -> (t: u8)
        ensures
            t == self.spec_net_tag(),
    {
        match self {
            ChainType::Mainnet => 0,
            ChainType::Testnet => 1,
            ChainType::Regtest => 2,
        }
    }

    /// The human-readable prefix of this network's legacy single-pool
    /// (sapling-equivalent) extended full viewing key encoding, as UTF-8
    /// bytes. A unified viewing key never starts with this prefix.
    pub open spec fn spec_legacy_fvk_prefix(self) -> Seq<u8> {
        match self {
            // "zxviews"
            ChainType::Mainnet => seq![122u8, 120u8, 118u8, 105u8, 101u8, 119u8, 115u8],
            // "zxviewtestsapling"
            ChainType::Testnet => seq![
                122u8, 120u8, 118u8, 105u8, 101u8, 119u8, 116u8, 101u8, 115u8, 116u8, 115u8,
                97u8, 112u8, 108u8, 105u8, 110u8, 103u8,
            ],
            // "zxviewregtestsapling"
            ChainType::Regtest => seq![
                122u8, 120u8, 118u8, 105u8, 101u8, 119u8, 114u8, 101u8, 103u8, 116u8, 101u8,
                115u8, 116u8, 115u8, 97u8, 112u8, 108u8, 105u8, 110u8, 103u8,
            ],
        }
    }

    /// Returns the legacy viewing-key prefix for this network.
    pub fn legacy_fvk_prefix(self) -> (p: Vec<u8>)
        ensures
            p@ == self.spec_legacy_fvk_prefix(),
    {
        let mut p: Vec<u8> = Vec::new();
        match self {
            ChainType::Mainnet => {
                p.push(122);
                p.push(120);
                p.push(118);
                p.push(105);
                p.push(101);
                p.push(119);
                p.push(115);
            },
            ChainType::Testnet => {
                p.push(122);
                p.push(120);
                p.push(118);
                p.push(105);
                p.push(101);
                p.push(119);
                p.push(116);
                p.push(101);
                p.push(115);
                p.push(116);
                p.push(115);
                p.push(97);
                p.push(112);
                p.push(108);
                p.push(105);
                p.push(110);
                p.push(103);
            },
            ChainType::Regtest => {
                p.push(122);
                p.push(120);
                p.push(118);
                p.push(105);
                p.push(101);
                p.push(119);
                p.push(114);
                p.push(101);
                p.push(103);
                p.push(116);
                p.push(101);
                p.push(115);
                p.push(116);
                p.push(115);
                p.push(97);
                p.push(112);
                p.push(108);
                p.push(105);
                p.push(110);
                p.push(103);
            },
        }
        assert(p@ =~= self.spec_legacy_fvk_prefix());
        p
    }
}

/// Whether `s` begins with `prefix`.
pub open spec fn spec_starts_with(s: Seq<u8>, prefix: Seq<u8>) -> bool {
    prefix.len() <= s.len() && s.subrange(0, prefix.len() as int) == prefix
}

/// Returns whether `s` begins with `prefix`.
pub fn starts_with(s: &[u8], prefix: &Vec<u8>) -> (r: bool)
    ensures
        r == spec_starts_with(s@, prefix@),
{
    if prefix.len() > s.len() {
        assert(!spec_starts_with(s@, prefix@));
        return false;
    }
    let mut i: usize = 0;
    while i < prefix.len()
        invariant
            prefix@.len() <= s@.len(),
            i <= prefix@.len(),
            forall|j: int| 0 <= j < i ==> s@[j] == prefix@[j],
        decreases prefix@.len() - i,
    {
        if s[i] != prefix[i] {
            assert(s@.subrange(0, prefix@.len() as int)[i as int] != prefix@[i as int]);
            return false;
        }
        i = i + 1;
    }
    assert(s@.subrange(0, prefix@.len() as int) =~= prefix@);
    true
}

} // verus!
