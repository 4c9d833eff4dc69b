//! Scoped derivation of incoming and outgoing viewing keys.
//!
//! A full viewing key yields, per scope, an incoming viewing key (to detect
//! notes addressed to the wallet) and an outgoing viewing key (to recover
//! self-sent note plaintexts). The scope is selected at the type level by
//! the `External` and `Internal` markers.

use vstd::prelude::*;

use crate::crypto::{
    orchard_fvk_ok, orchard_ivk_of, orchard_ovk_of, sapling_dfvk_ok, sapling_ivk_of,
    sapling_ovk_of,
};

verus! {

/// Whether a derived key serves external receiving or internal change.
#[derive(Debug, Clone, Copy, PartialEq, Eq, Structural)]
pub enum DerivationScope {
    /// Receiving from others.
    External,
    /// Internal change only.
    Internal,
}

/// The external, default scope for deriving a viewing key's components.
pub struct External;

/// The internal scope, used for change only.
pub struct Internal;

/// Type-level selection of a derivation scope.
pub trait Scope {
    /// The scope this marker stands for.
    spec fn spec_scope() -> DerivationScope;

    /// Returns the scope this marker stands for.
    fn scope() -> (s: DerivationScope)
        ensures
            s == Self::spec_scope(),
    ;
}

impl Scope for External {
    open spec fn spec_scope() -> DerivationScope {
        DerivationScope::External
    }

    fn scope() -> (s: DerivationScope) {
        DerivationScope::External
    }
}

impl Scope for Internal {
    open spec fn spec_scope() -> DerivationScope {
        DerivationScope::Internal
    }

    fn scope() -> (s: DerivationScope) {
        DerivationScope::Internal
    }
}

/// Whether a scope is the external one.
pub open spec fn spec_is_external(s: DerivationScope) -> bool {
    s == DerivationScope::External
}

/// An incoming viewing key for one pool, in raw serialized form, tagged
/// with the scope it was derived under.
#[derive(Debug)]
pub struct Ivk {
    /// The serialized incoming viewing key.
    pub ivk: Vec<u8>,
    /// The scope the key was derived under.
    pub scope: DerivationScope,
}

/// An outgoing viewing key for one pool, tagged with the scope it was
/// derived under.
#[derive(Debug)]
pub struct Ovk {
    /// The raw outgoing viewing key.
    pub ovk: Vec<u8>,
    /// The scope the key was derived under.
    pub scope: DerivationScope,
}

/// Derives the index-addressed pool's incoming viewing key under `S`.
pub fn derive_orchard_ivk<S: Scope>(fvk: &Vec<u8>) -> (r: Ivk)
    requires
        fvk@.len() == 96,
        orchard_fvk_ok(fvk@),
    ensures
        r.scope == S::spec_scope(),
        r.ivk@ == orchard_ivk_of(fvk@, spec_is_external(S::spec_scope())),
        r.ivk@.len() == 64,
{
    let scope = S::scope();
    let external = match scope {
        DerivationScope::External => true,
        DerivationScope::Internal => false,
    };
    Ivk { ivk: crate::crypto::orchard_ivk(fvk, external), scope }
}

/// Derives the index-addressed pool's outgoing viewing key under `S`.
pub fn derive_orchard_ovk<S: Scope>(fvk: &Vec<u8>) -> (r: Ovk)
    requires
        fvk@.len() == 96,
        orchard_fvk_ok(fvk@),
    ensures
        r.scope == S::spec_scope(),
        r.ovk@ == orchard_ovk_of(fvk@, spec_is_external(S::spec_scope())),
        r.ovk@.len() == 32,
{
    let scope = S::scope();
    let external = match scope {
        DerivationScope::External => true,
        DerivationScope::Internal => false,
    };
    Ovk { ovk: crate::crypto::orchard_ovk(fvk, external), scope }
}

/// Derives the diversifier-indexed pool's incoming viewing key under `S`.
pub fn derive_sapling_ivk<S: Scope>(dfvk: &Vec<u8>) -> (r: Ivk)
    requires
        dfvk@.len() == 128,
        sapling_dfvk_ok(dfvk@),
    ensures
        r.scope == S::spec_scope(),
        r.ivk@ == sapling_ivk_of(dfvk@, spec_is_external(S::spec_scope())),
        r.ivk@.len() == 32,
{
    let scope = S::scope();
    let external = match scope {
        DerivationScope::External => true,
        DerivationScope::Internal => false,
    };
    Ivk { ivk: crate::crypto::sapling_ivk(dfvk, external), scope }
}

/// Derives the diversifier-indexed pool's outgoing viewing key under `S`.
pub fn derive_sapling_ovk<S: Scope>(dfvk: &Vec<u8>) -> (r: Ovk)
    requires
        dfvk@.len() == 128,
        sapling_dfvk_ok(dfvk@),
    ensures
        r.scope == S::spec_scope(),
        r.ovk@ == sapling_ovk_of(dfvk@, spec_is_external(S::spec_scope())),
        r.ovk@.len() == 32,
{
    let scope = S::scope();
    let external = match scope {
        DerivationScope::External => true,
        DerivationScope::Internal => false,
    };
    Ovk { ovk: crate::crypto::sapling_ovk(dfvk, external), scope }
}

/// Checks raw full-viewing-key bytes and derives the index-addressed
/// pool's incoming viewing key under `S`; nothing is derived from invalid
/// key bytes.
pub fn scoped_orchard_ivk<S: Scope>(fvk: &Vec<u8>) -> (r: Option<Ivk>)
    ensures
        match r {
            Some(ivk) => {
                &&& fvk@.len() == 96 && orchard_fvk_ok(fvk@)
                &&& ivk.scope == S::spec_scope()
                &&& ivk.ivk@ == orchard_ivk_of(fvk@, spec_is_external(S::spec_scope()))
            },
            None => !(fvk@.len() == 96 && orchard_fvk_ok(fvk@)),
        },
{
    if fvk.len() != 96 {
        return None;
    }
    if !crate::crypto::orchard_fvk_check(fvk) {
        return None;
    }
    Some(derive_orchard_ivk::<S>(fvk))
}

/// Checks raw full-viewing-key bytes and derives the index-addressed
/// pool's outgoing viewing key under `S`.
pub fn scoped_orchard_ovk<S: Scope>(fvk: &Vec<u8>) -> (r: Option<Ovk>)
    ensures
        match r {
            Some(ovk) => {
                &&& fvk@.len() == 96 && orchard_fvk_ok(fvk@)
                &&& ovk.scope == S::spec_scope()
                &&& ovk.ovk@ == orchard_ovk_of(fvk@, spec_is_external(S::spec_scope()))
            },
            None => !(fvk@.len() == 96 && orchard_fvk_ok(fvk@)),
        },
{
    if fvk.len() != 96 {
        return None;
    }
    if !crate::crypto::orchard_fvk_check(fvk) {
        return None;
    }
    Some(derive_orchard_ovk::<S>(fvk))
}

/// Checks raw diversifiable-viewing-key bytes and derives the
/// diversifier-indexed pool's incoming viewing key under `S`.
pub fn scoped_sapling_ivk<S: Scope>(dfvk: &Vec<u8>) -> (r: Option<Ivk>)
    ensures
        match r {
            Some(ivk) => {
                &&& dfvk@.len() == 128 && sapling_dfvk_ok(dfvk@)
                &&& ivk.scope == S::spec_scope()
                &&& ivk.ivk@ == sapling_ivk_of(dfvk@, spec_is_external(S::spec_scope()))
            },
            None => !(dfvk@.len() == 128 && sapling_dfvk_ok(dfvk@)),
        },
{
    if dfvk.len() != 128 {
        return None;
    }
    if !crate::crypto::sapling_dfvk_check(dfvk) {
        return None;
    }
    Some(derive_sapling_ivk::<S>(dfvk))
}

/// Checks raw diversifiable-viewing-key bytes and derives the
/// diversifier-indexed pool's outgoing viewing key under `S`.
pub fn scoped_sapling_ovk<S: Scope>(dfvk: &Vec<u8>) -> (r: Option<Ovk>)
    ensures
        match r {
            Some(ovk) => {
                &&& dfvk@.len() == 128 && sapling_dfvk_ok(dfvk@)
                &&& ovk.scope == S::spec_scope()
                &&& ovk.ovk@ == sapling_ovk_of(dfvk@, spec_is_external(S::spec_scope()))
            },
            None => !(dfvk@.len() == 128 && sapling_dfvk_ok(dfvk@)),
        },
{
    if dfvk.len() != 128 {
        return None;
    }
    if !crate::crypto::sapling_dfvk_check(dfvk) {
        return None;
    }
    Some(derive_sapling_ovk::<S>(dfvk))
}

} // verus!
