//! The pair canonicalizer: an unordered pair of two distinct asset
//! identifiers, stored with the smaller identifier first.

use vstd::prelude::*;

use crate::errors::Error;

verus! {

/// A canonical pair of two distinct assets. The numerically smaller
/// identifier is always stored first, so the same two assets map to the
/// same pair whatever the call-site argument order, and the first/second
/// orientation of the reserve math is stable.
#[derive(Clone, Copy, Debug, PartialEq, Eq, Structural)]
pub struct AssetPair {
    /// The smaller of the two asset identifiers.
    pub asset_a: u32,
    /// The larger of the two asset identifiers.
    pub asset_b: u32,
}

impl AssetPair {
    /// The stored orientation is canonical: strictly ascending.
    pub open spec fn is_canonical(self) -> bool {
        self.asset_a < self.asset_b
    }

    /// What `new` returns: the ordered pair, or `IdenticalAssets` exactly
    /// when the two identifiers are equal.
    pub open spec fn spec_new(asset_a: u32, asset_b: u32) -> Result<AssetPair, Error> {
        if asset_a == asset_b {
            Err(Error::IdenticalAssets)
        } else if asset_a < asset_b {
            Ok(AssetPair { asset_a, asset_b })
        } else {
            Ok(AssetPair { asset_a: asset_b, asset_b: asset_a })
        }
    }

    /// Order the two identifiers into a canonical pair; equal identifiers
    /// are rejected. Deterministic and side-effect free.
    pub fn new(asset_a: u32, asset_b: u32) -> (r: Result<AssetPair, Error>)
        ensures
            r == Self::spec_new(asset_a, asset_b),
            r is Ok ==> r.unwrap().is_canonical(),
    {
        if asset_a == asset_b {
            return Err(Error::IdenticalAssets);
        }
        if asset_a < asset_b {
            Ok(AssetPair { asset_a, asset_b })
        } else {
            Ok(AssetPair { asset_a: asset_b, asset_b: asset_a })
        }
    }
}

/// A strict total order on canonical pairs, derived from the order of the
/// two members; used for deterministic listing of the registry.
pub open spec fn pair_lt(p: AssetPair, q: AssetPair) -> bool {
    p.asset_a < q.asset_a || (p.asset_a == q.asset_a && p.asset_b < q.asset_b)
}

} // verus!
