//! Pool-shape classification and canonical (key, member) derivation.
//!
//! An output is a recognized pool position exactly when its counts of
//! non-base assets and of fungible reserve candidates fit the single-asset
//! shape (`minNonBase + 1` non-base, 1 fungible) or the dual-asset shape
//! (`minNonBase + 2` non-base, 2 fungible), where `minNonBase` is the
//! number of configured marker policy ids.  Keys and members are canonical:
//! the two assets of a dual-asset pool are ordered ascending by policy id.

use vstd::prelude::*;
use vstd::utf8::is_ascii_chars;

use crate::classify::{fungible_of, is_fungible, non_base_of, policy_of};
use crate::config::ConfigModel;
use crate::decimal::dec_digits;
use crate::model::{AssetModel, OutputModel};
use crate::order::lex_lt;

verus! {

/// The key contribution of one asset: `"{policyIdHex}.{asciiName}"`, or
/// nothing if the asset has no policy id (base currency) or its name is
/// not ASCII.
pub open spec fn key_for_asset_spec(a: AssetModel) -> Option<Seq<char>> {
    match a {
        AssetModel::Native { policy, name, .. } => if is_ascii_chars(name) {
            Some(policy + seq!['.'] + name)
        } else {
            None
        },
        AssetModel::Base { .. } => None,
    }
}

/// The quantity an asset carries.
pub open spec fn quantity_of(a: AssetModel) -> nat {
    match a {
        AssetModel::Native { quantity, .. } => quantity,
        AssetModel::Base { quantity } => quantity,
    }
}

/// The member encoding of a single-asset pool:
/// `"{member_prefix}:{baseAmount}:{assetQuantity}"`.
pub open spec fn single_member_spec(prefix: Seq<char>, lovelace: nat, q: nat) -> Seq<char> {
    prefix + seq![':'] + dec_digits(lovelace) + seq![':'] + dec_digits(q)
}

/// The member encoding of a dual-asset pool:
/// `"{member_prefix}:{quantityA}:{quantityB}"` in sorted asset order.
pub open spec fn dual_member_spec(prefix: Seq<char>, qa: nat, qb: nat) -> Seq<char> {
    prefix + seq![':'] + dec_digits(qa) + seq![':'] + dec_digits(qb)
}

/// The number of non-base assets that the configured marker tokens alone
/// account for.
pub open spec fn min_non_base(cfg: ConfigModel) -> nat {
    match cfg.filter_policy_ids_hex {
        Some(ids) => ids.len(),
        None => 0,
    }
}

/// The two assets in ascending policy-id order.  Equal policy ids keep
/// the given order.
pub open spec fn sorted_pair(x: AssetModel, y: AssetModel) -> (AssetModel, AssetModel) {
    if lex_lt(policy_of(y), policy_of(x)) {
        (y, x)
    } else {
        (x, y)
    }
}

/// The canonical (key, member) pair of an output whose fungible reserve
/// candidates are `fungible`, or nothing when the output is not a
/// recognized pool position.
pub open spec fn resolve_spec(
    fungible: Seq<AssetModel>,
    output: OutputModel,
    cfg: ConfigModel,
) -> Option<(Seq<char>, Seq<char>)> {
    let non_base_count = non_base_of(output.assets).len();
    if non_base_count == min_non_base(cfg) + 1 && fungible.len() == 1 {
        match key_for_asset_spec(fungible[0]) {
            Some(k) => Some(
                (k, single_member_spec(cfg.member_prefix, output.lovelace, quantity_of(fungible[0]))),
            ),
            None => None,
        }
    } else if non_base_count == min_non_base(cfg) + 2 && fungible.len() == 2 {
        let (a, b) = sorted_pair(fungible[0], fungible[1]);
        match (key_for_asset_spec(a), key_for_asset_spec(b)) {
            (Some(ka), Some(kb)) => Some(
                (
                    ka + seq![':'] + kb,
                    dual_member_spec(cfg.member_prefix, quantity_of(a), quantity_of(b)),
                ),
            ),
            _ => None,
        }
    } else {
        None
    }
}

} // verus!
