//! Asset classification: which assets count as non-base, which are
//! fungible reserve candidates, and whether required marker policy ids are
//! present.

use vstd::prelude::*;

use crate::model::{assets_view, Asset, AssetModel, Output};

verus! {

/// A copy of an asset with the same view.
pub(crate) fn clone_asset(a: &Asset) -> (r: Asset)
    ensures
        r@ == a@,
{
    match a {
        Asset::BaseCurrency { quantity } => Asset::BaseCurrency { quantity: *quantity },
        Asset::NativeAsset { policy_hex, name, quantity } => Asset::NativeAsset {
            policy_hex: policy_hex.clone(),
            name: name.clone(),
            quantity: *quantity,
        },
    }
}

impl Output {
    /// The non-base assets of this output, in order.
    pub fn non_ada_assets(&self) -> (r: Vec<Asset>)
        ensures
            assets_view(r@) == non_base_of(self@.assets),
    {
        let mut out: Vec<Asset> = Vec::new();
        let n = self.assets.len();
        let mut i: usize = 0;
        proof {
            assert(assets_view(out@) =~= non_base_of(self@.assets.take(0)));
        }
        while i < n
            invariant
                n == self.assets.len(),
                i <= n,
                assets_view(out@) == non_base_of(self@.assets.take(i as int)),
            decreases n - i,
        {
            let ghost prefix = self@.assets.take(i as int);
            let ghost next = self@.assets.take(i as int + 1);
            proof {
                assert(next.drop_last() =~= prefix);
                assert(next.last() == self@.assets[i as int]);
                assert(self@.assets[i as int] == self.assets@[i as int]@);
            }
            match &self.assets[i] {
                Asset::NativeAsset { .. } => {
                    out.push(clone_asset(&self.assets[i]));
                    proof {
                        assert(assets_view(out@) =~= non_base_of(next));
                    }
                },
                Asset::BaseCurrency { .. } => {
                    proof {
                        assert(assets_view(out@) =~= non_base_of(next));
                    }
                },
            }
            i += 1;
        }
        proof {
            assert(self@.assets.take(n as int) =~= self@.assets);
        }
        out
    }
}

/// Whether an asset is a native (non-base-currency) asset.
pub open spec fn is_native(a: AssetModel) -> bool {
    a is Native
}

/// Whether an asset is a fungible reserve candidate: a native asset with
/// quantity strictly greater than 1.  Quantity exactly 1 signals a
/// non-fungible marker token and is deliberately excluded.
pub open spec fn is_fungible(a: AssetModel) -> bool {
    match a {
        AssetModel::Native { quantity, .. } => quantity > 1,
        AssetModel::Base { .. } => false,
    }
}

/// The non-base assets of `s`, in order.
pub open spec fn non_base_of(s: Seq<AssetModel>) -> Seq<AssetModel>
    decreases s.len(),
{
    if s.len() == 0 {
        Seq::empty()
    } else {
        let rest = non_base_of(s.drop_last());
        if is_native(s.last()) {
            rest.push(s.last())
        } else {
            rest
        }
    }
}

/// The fungible reserve candidates of `s`, in order.
pub open spec fn fungible_of(s: Seq<AssetModel>) -> Seq<AssetModel>
    decreases s.len(),
{
    if s.len() == 0 {
        Seq::empty()
    } else {
        let rest = fungible_of(s.drop_last());
        if is_fungible(s.last()) {
            rest.push(s.last())
        } else {
            rest
        }
    }
}

/// The policy id of a native asset (the empty sequence for a base asset,
/// which has none).
pub open spec fn policy_of(a: AssetModel) -> Seq<char> {
    match a {
        AssetModel::Native { policy, .. } => policy,
        AssetModel::Base { .. } => Seq::empty(),
    }
}

/// Whether some asset in `assets` carries the policy id `pid`.
pub open spec fn has_policy_id(assets: Seq<AssetModel>, pid: Seq<char>) -> bool {
    exists|i: int| 0 <= i < assets.len() && is_native(#[trigger] assets[i]) && policy_of(assets[i]) == pid
}

/// Whether each id in `ids` occurs among `assets`.
pub open spec fn all_ids_present(assets: Seq<AssetModel>, ids: Seq<Seq<char>>) -> bool {
    forall|j: int| 0 <= j < ids.len() ==> has_policy_id(assets, #[trigger] ids[j])
}

/// Whether every required marker policy id occurs among `assets`.  An
/// absent filter requires nothing.
pub open spec fn policy_ids_present(assets: Seq<AssetModel>, filter: Option<Seq<Seq<char>>>) -> bool {
    match filter {
        Some(ids) => all_ids_present(assets, ids),
        None => true,
    }
}

/// Every fungible reserve candidate is a native asset with quantity
/// strictly greater than 1.
pub proof fn lemma_fungible_members(s: Seq<AssetModel>)
    ensures
        forall|i: int| 0 <= i < fungible_of(s).len() ==> is_fungible(#[trigger] fungible_of(s)[i]),
    decreases s.len(),
{
    if s.len() > 0 {
        lemma_fungible_members(s.drop_last());
        let rest = fungible_of(s.drop_last());
        assert forall|i: int| 0 <= i < fungible_of(s).len() implies is_fungible(
            fungible_of(s)[i],
        ) by {
            if i < rest.len() {
                assert(fungible_of(s)[i] == rest[i]);
            } else {
                assert(is_fungible(s.last()));
                assert(fungible_of(s)[i] == s.last());
            }
        }
    }
}

/// A native asset with quantity exactly 1 is never a fungible reserve
/// candidate, whatever else `s` holds.
pub proof fn lemma_quantity_threshold(s: Seq<AssetModel>, a: AssetModel)
    requires
        a matches AssetModel::Native { quantity, .. } && quantity == 1,
    ensures
        !fungible_of(s).contains(a),
{
    lemma_fungible_members(s);
    assert(!is_fungible(a));
    if fungible_of(s).contains(a) {
        let i = choose|i: int| 0 <= i < fungible_of(s).len() && fungible_of(s)[i] == a;
        assert(is_fungible(fungible_of(s)[i]));
    }
}

} // verus!
