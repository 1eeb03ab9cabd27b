//! Reducer configuration and the resolution policy for consumed inputs.

use vstd::prelude::*;

verus! {

/// Static configuration of a reducer instance.
///
/// `pool_contract_address` selects the outputs that represent pool state
/// (exact match).  `filter_policy_ids_hex`, when present, lists marker
/// policy ids that must all occur among an output's assets.  `key_prefix`
/// optionally namespaces every emitted key, and `member_prefix` is the tag
/// embedded in every encoded member.
pub struct Config {
    pub key_prefix: Option<String>,
    pub member_prefix: String,
    pub filter_policy_ids_hex: Option<Vec<String>>,
    pub pool_contract_address: String,
}

/// Mathematical view of a [`Config`].
pub struct ConfigModel {
    pub key_prefix: Option<Seq<char>>,
    pub member_prefix: Seq<char>,
    pub filter_policy_ids_hex: Option<Seq<Seq<char>>>,
    pub pool_contract_address: Seq<char>,
}

impl View for Config {
    type V = ConfigModel;

    open spec fn view(&self) -> ConfigModel {
        ConfigModel {
            key_prefix: match self.key_prefix {
                Some(p) => Some(p@),
                None => None,
            },
            member_prefix: self.member_prefix@,
            filter_policy_ids_hex: match self.filter_policy_ids_hex {
                Some(ids) => Some(ids@.map_values(|s: String| s@)),
                None => None,
            },
            pool_contract_address: self.pool_contract_address@,
        }
    }
}

/// How a consumed input that the block context cannot resolve is handled:
/// under `Permissive` it is skipped (nothing to remove); under `Strict` it
/// aborts processing of the current block.
#[derive(Clone, Copy, Debug, PartialEq, Eq, Structural)]
pub enum ResolutionPolicy {
    Permissive,
    Strict,
}

} // verus!
