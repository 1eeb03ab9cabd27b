//! The per-block differ: resolves consumed outputs, evaluates produced
//! outputs, and emits REMOVE-before-ADD command sequences.

use vstd::prelude::*;
use vstd::string::{StrSliceExecFns, StringExecFns};
use vstd::utf8::is_ascii_chars;

use crate::classify::{
    all_ids_present, clone_asset, fungible_of, has_policy_id, is_fungible, is_native, non_base_of,
    policy_ids_present, policy_of,
};
use crate::commands::{opt_str_view, prefixed_key, CRDTCommand, CommandModel};
use crate::config::{Config, ConfigModel, ResolutionPolicy};
use crate::decimal::u64_to_string;
use crate::model::{
    assets_view, find_utxo_spec, Asset, AssetModel, Block, BlockContext, Output, OutputModel,
    OutputRef, OutputRefModel, TxModel,
};
use crate::order::str_lt;
use crate::resolver::{key_for_asset_spec, resolve_spec, single_member_spec, dual_member_spec};

verus! {

/// Why processing of a block was aborted: a consumed input could not be
/// resolved while the strict resolution policy was in force.
#[derive(Clone, Copy, Debug, PartialEq, Eq, Structural)]
pub enum ReduceError {
    UnresolvedInput,
}

/// The command an output yields when evaluated against `cfg`: an ADD when
/// `add` is set, else a REMOVE, and nothing when the output does not match
/// the pool contract address, misses a required marker policy id, or is
/// not a recognized pool shape.
pub open spec fn output_cmd(cfg: ConfigModel, o: OutputModel, add: bool) -> Option<CommandModel> {
    if o.address == cfg.pool_contract_address && policy_ids_present(
        non_base_of(o.assets),
        cfg.filter_policy_ids_hex,
    ) {
        match resolve_spec(fungible_of(non_base_of(o.assets)), o, cfg) {
            Some((k, m)) => Some(
                if add {
                    CommandModel::Add { key: prefixed_key(cfg.key_prefix, k), member: m }
                } else {
                    CommandModel::Remove { key: prefixed_key(cfg.key_prefix, k), member: m }
                },
            ),
            None => None,
        }
    } else {
        None
    }
}

/// The command a produced output yields.
pub open spec fn produced_cmd(cfg: ConfigModel, o: OutputModel) -> Option<CommandModel> {
    output_cmd(cfg, o, true)
}

/// The command a consumed input yields: the REMOVE of the resolved prior
/// output, and nothing when the reference is unresolved.
pub open spec fn consumed_cmd(
    cfg: ConfigModel,
    ctx: Seq<(OutputRefModel, OutputModel)>,
    r: OutputRefModel,
) -> Option<CommandModel> {
    match find_utxo_spec(ctx, r) {
        Some(o) => output_cmd(cfg, o, false),
        None => None,
    }
}

/// The REMOVE commands of a transaction's consumed inputs, in input order.
pub open spec fn consumed_cmds(
    cfg: ConfigModel,
    ctx: Seq<(OutputRefModel, OutputModel)>,
    refs: Seq<OutputRefModel>,
) -> Seq<CommandModel>
    decreases refs.len(),
{
    if refs.len() == 0 {
        Seq::empty()
    } else {
        let init = consumed_cmds(cfg, ctx, refs.drop_last());
        match consumed_cmd(cfg, ctx, refs.last()) {
            Some(c) => init.push(c),
            None => init,
        }
    }
}

/// The ADD commands of a transaction's produced outputs, in index order.
pub open spec fn produced_cmds(cfg: ConfigModel, outs: Seq<OutputModel>) -> Seq<CommandModel>
    decreases outs.len(),
{
    if outs.len() == 0 {
        Seq::empty()
    } else {
        let init = produced_cmds(cfg, outs.drop_last());
        match produced_cmd(cfg, outs.last()) {
            Some(c) => init.push(c),
            None => init,
        }
    }
}

/// The commands of one transaction: all removes, then all adds.
pub open spec fn tx_cmds(
    cfg: ConfigModel,
    ctx: Seq<(OutputRefModel, OutputModel)>,
    tx: TxModel,
) -> Seq<CommandModel> {
    consumed_cmds(cfg, ctx, tx.consumes) + produced_cmds(cfg, tx.produces)
}

/// The commands of a block: each transaction's commands, in block order.
pub open spec fn block_cmds(
    cfg: ConfigModel,
    ctx: Seq<(OutputRefModel, OutputModel)>,
    txs: Seq<TxModel>,
) -> Seq<CommandModel>
    decreases txs.len(),
{
    if txs.len() == 0 {
        Seq::empty()
    } else {
        block_cmds(cfg, ctx, txs.drop_last()) + tx_cmds(cfg, ctx, txs.last())
    }
}

/// Whether every consumed input of `tx` resolves in `ctx`.
pub open spec fn tx_resolved(ctx: Seq<(OutputRefModel, OutputModel)>, tx: TxModel) -> bool {
    forall|j: int| 0 <= j < tx.consumes.len() ==> find_utxo_spec(ctx, #[trigger] tx.consumes[j]) is Some
}

/// Whether every consumed input of every transaction resolves in `ctx`.
pub open spec fn all_resolved(ctx: Seq<(OutputRefModel, OutputModel)>, txs: Seq<TxModel>) -> bool {
    forall|i: int| 0 <= i < txs.len() ==> tx_resolved(ctx, #[trigger] txs[i])
}

/// The view of an optional command.
pub open spec fn opt_cmd_view(c: Option<CRDTCommand>) -> Option<CommandModel> {
    match c {
        Some(cmd) => Some(cmd@),
        None => None,
    }
}

/// The view of a command sequence.
pub open spec fn cmds_view(s: Seq<CRDTCommand>) -> Seq<CommandModel> {
    s.map_values(|c: CRDTCommand| c@)
}

/// Derives canonical pool commands from blocks, one block at a time,
/// against an immutable configuration.
pub struct Reducer {
    pub config: Config,
    pub policy: ResolutionPolicy,
}

impl Reducer {
    /// Whether every configured marker policy id occurs among `assets`.
    /// True outright when no filter is configured.
    pub fn contains_expected_policy_ids(&self, assets: &Vec<Asset>) -> (r: bool)
        ensures
            r == policy_ids_present(assets_view(assets@), self.config@.filter_policy_ids_hex),
    {
        match &self.config.filter_policy_ids_hex {
            None => true,
            Some(expected) => {
                let ghost ids = self.config@.filter_policy_ids_hex->Some_0;
                proof {
                    assert(ids == expected@.map_values(|s: String| s@));
                }
                let n = expected.len();
                let mut j: usize = 0;
                while j < n
                    invariant
                        n == expected.len(),
                        j <= n,
                        ids == expected@.map_values(|s: String| s@),
                        self.config@.filter_policy_ids_hex == Some(ids),
                        forall|k: int|
                            0 <= k < j ==> has_policy_id(assets_view(assets@), #[trigger] ids[k]),
                    decreases n - j,
                {
                    let target = &expected[j];
                    proof {
                        assert(target@ == ids[j as int]);
                    }
                    let mut found = false;
                    let na = assets.len();
                    let mut i: usize = 0;
                    while i < na
                        invariant
                            na == assets.len(),
                            i <= na,
                            found ==> has_policy_id(assets_view(assets@), target@),
                            !found ==> forall|t: int|
                                0 <= t < i ==> !(is_native(#[trigger] assets_view(assets@)[t])
                                    && policy_of(assets_view(assets@)[t]) == target@),
                        decreases na - i,
                    {
                        proof {
                            assert(assets_view(assets@)[i as int] == assets@[i as int]@);
                        }
                        match &assets[i] {
                            Asset::NativeAsset { policy_hex, .. } => {
                                if *policy_hex == *target {
                                    found = true;
                                }
                            },
                            Asset::BaseCurrency { .. } => {},
                        }
                        i += 1;
                    }
                    if !found {
                        proof {
                            assert(!has_policy_id(assets_view(assets@), ids[j as int]));
                            assert(0 <= j < ids.len());
                            assert(!all_ids_present(assets_view(assets@), ids));
                        }
                        return false;
                    }
                    j += 1;
                }
                true
            },
        }
    }

    /// The fungible reserve candidates of `assets`: the native assets with
    /// quantity strictly greater than 1, in order.
    pub fn get_fungible_assets(&self, assets: Vec<Asset>) -> (r: Vec<Asset>)
        ensures
            assets_view(r@) == fungible_of(assets_view(assets@)),
    {
        let mut out: Vec<Asset> = Vec::new();
        let n = assets.len();
        let mut i: usize = 0;
        proof {
            assert(assets_view(out@) =~= fungible_of(assets_view(assets@).take(0)));
        }
        while i < n
            invariant
                n == assets.len(),
                i <= n,
                assets_view(out@) == fungible_of(assets_view(assets@).take(i as int)),
            decreases n - i,
        {
            let ghost prefix = assets_view(assets@).take(i as int);
            let ghost next = assets_view(assets@).take(i as int + 1);
            proof {
                assert(next.drop_last() =~= prefix);
                assert(next.last() == assets_view(assets@)[i as int]);
                assert(assets_view(assets@)[i as int] == assets@[i as int]@);
            }
            match &assets[i] {
                Asset::NativeAsset { quantity, .. } => {
                    if *quantity > 1 {
                        out.push(clone_asset(&assets[i]));
                        proof {
                            assert(assets_view(out@) =~= fungible_of(next));
                        }
                    } else {
                        proof {
                            assert(assets_view(out@) =~= fungible_of(next));
                        }
                    }
                },
                Asset::BaseCurrency { .. } => {
                    proof {
                        assert(assets_view(out@) =~= fungible_of(next));
                    }
                },
            }
            i += 1;
        }
        proof {
            assert(assets_view(assets@).take(n as int) =~= assets_view(assets@));
        }
        out
    }

    /// The key contribution of one asset, `"{policyIdHex}.{asciiName}"`,
    /// or nothing for a base-currency asset or a non-ASCII name.
    pub fn key_for_asset(&self, asset: &Asset) -> (r: Option<String>)
        ensures
            match r {
                Some(k) => key_for_asset_spec(asset@) == Some(k@),
                None => key_for_asset_spec(asset@) is None,
            },
    {
        match asset {
            Asset::NativeAsset { policy_hex, name, .. } => {
                if name.as_str().is_ascii() {
                    let k = policy_hex.clone().concat(".").concat(name.as_str());
                    proof {
                        reveal_strlit(".");
                        assert(k@ =~= policy_hex@ + seq!['.'] + name@);
                    }
                    Some(k)
                } else {
                    None
                }
            },
            Asset::BaseCurrency { .. } => None,
        }
    }

    /// The canonical (key, member) pair of `utxo`, whose fungible reserve
    /// candidates are `fungible_non_ada_assets`, or nothing when the
    /// output is not a recognized pool position.
    pub fn get_key_value_pair(&self, fungible_non_ada_assets: Vec<Asset>, utxo: &Output) -> (r:
        Option<(String, String)>)
        requires
            forall|i: int|
                0 <= i < fungible_non_ada_assets@.len() ==> (
                #[trigger] fungible_non_ada_assets@[i])@ is Native,
        ensures
            match r {
                Some(km) => resolve_spec(assets_view(fungible_non_ada_assets@), utxo@, self.config@)
                    == Some((km.0@, km.1@)),
                None => resolve_spec(assets_view(fungible_non_ada_assets@), utxo@, self.config@)
                    is None,
            },
    {
        let ghost fung = assets_view(fungible_non_ada_assets@);
        let min_non_ada: usize = match &self.config.filter_policy_ids_hex {
            Some(policies) => policies.len(),
            None => 0,
        };
        proof {
            assert(min_non_ada == crate::resolver::min_non_base(self.config@));
        }
        let non_ada = utxo.non_ada_assets();
        let non_ada_len = non_ada.len();
        proof {
            assert(non_ada_len == non_base_of(utxo@.assets).len());
        }
        if non_ada_len >= 1 && non_ada_len - 1 == min_non_ada && fungible_non_ada_assets.len() == 1
        {
            // single-asset pool
            let asset = &fungible_non_ada_assets[0];
            proof {
                assert(asset@ == fung[0]);
            }
            let key = match self.key_for_asset(asset) {
                Some(k) => k,
                None => {
                    return None;
                },
            };
            match asset {
                Asset::NativeAsset { quantity, .. } => {
                    let member = self
                        .config
                        .member_prefix
                        .clone()
                        .concat(":")
                        .concat(u64_to_string(utxo.lovelace).as_str())
                        .concat(":")
                        .concat(u64_to_string(*quantity).as_str());
                    proof {
                        reveal_strlit(":");
                        assert(member@ =~= single_member_spec(
                            self.config@.member_prefix,
                            utxo@.lovelace,
                            crate::resolver::quantity_of(fung[0]),
                        ));
                    }
                    Some((key, member))
                },
                Asset::BaseCurrency { .. } => {
                    proof {
                        assert(fung[0] is Native);
                    }
                    None
                },
            }
        } else if non_ada_len >= 2 && non_ada_len - 2 == min_non_ada
            && fungible_non_ada_assets.len() == 2 {
            // dual-asset pool: sort by policy id for a canonical key
            let pol0: &String = match &fungible_non_ada_assets[0] {
                Asset::NativeAsset { policy_hex, .. } => policy_hex,
                Asset::BaseCurrency { .. } => {
                    proof {
                        assert(fung[0] is Native);
                    }
                    return None;
                },
            };
            let pol1: &String = match &fungible_non_ada_assets[1] {
                Asset::NativeAsset { policy_hex, .. } => policy_hex,
                Asset::BaseCurrency { .. } => {
                    proof {
                        assert(fung[1] is Native);
                    }
                    return None;
                },
            };
            let (ia, ib): (usize, usize) = if str_lt(pol1.as_str(), pol0.as_str()) {
                (1, 0)
            } else {
                (0, 1)
            };
            let ghost (sa, sb) = crate::resolver::sorted_pair(fung[0], fung[1]);
            proof {
                assert(policy_of(fung[0]) == pol0@);
                assert(policy_of(fung[1]) == pol1@);
                assert(sa == fung[ia as int] && sb == fung[ib as int]);
            }
            let key_a = match self.key_for_asset(&fungible_non_ada_assets[ia]) {
                Some(k) => k,
                None => {
                    return None;
                },
            };
            let key_b = match self.key_for_asset(&fungible_non_ada_assets[ib]) {
                Some(k) => k,
                None => {
                    return None;
                },
            };
            let qa: u64 = match &fungible_non_ada_assets[ia] {
                Asset::NativeAsset { quantity, .. } => *quantity,
                Asset::BaseCurrency { .. } => {
                    proof {
                        assert(fung[ia as int] is Native);
                    }
                    return None;
                },
            };
            let qb: u64 = match &fungible_non_ada_assets[ib] {
                Asset::NativeAsset { quantity, .. } => *quantity,
                Asset::BaseCurrency { .. } => {
                    proof {
                        assert(fung[ib as int] is Native);
                    }
                    return None;
                },
            };
            let key = key_a.concat(":").concat(key_b.as_str());
            let member = self
                .config
                .member_prefix
                .clone()
                .concat(":")
                .concat(u64_to_string(qa).as_str())
                .concat(":")
                .concat(u64_to_string(qb).as_str());
            proof {
                reveal_strlit(":");
                assert(key@ =~= key_for_asset_spec(sa)->Some_0 + seq![':']
                    + key_for_asset_spec(sb)->Some_0);
                assert(member@ =~= dual_member_spec(
                    self.config@.member_prefix,
                    crate::resolver::quantity_of(sa),
                    crate::resolver::quantity_of(sb),
                ));
            }
            Some((key, member))
        } else {
            None
        }
    }
    /// The configured key prefix, borrowed.
    fn key_prefix_ref(&self) -> (r: Option<&str>)
        ensures
            opt_str_view(r) == self.config@.key_prefix,
    {
        match &self.config.key_prefix {
            Some(p) => Some(p.as_str()),
            None => None,
        }
    }

    /// The command `utxo` yields when evaluated as a pool position, an ADD
    /// when `add` is set and a REMOVE otherwise.
    fn evaluate_txo(&self, utxo: &Output, add: bool) -> (r: Option<CRDTCommand>)
        ensures
            opt_cmd_view(r) == output_cmd(self.config@, utxo@, add),
    {
        if !(utxo.address == self.config.pool_contract_address) {
            return None;
        }
        let non_ada = utxo.non_ada_assets();
        if !self.contains_expected_policy_ids(&non_ada) {
            return None;
        }
        let fungible_non_ada_assets = self.get_fungible_assets(utxo.non_ada_assets());
        proof {
            crate::classify::lemma_fungible_members(non_base_of(utxo@.assets));
            assert forall|i: int| 0 <= i < fungible_non_ada_assets@.len() implies (
            #[trigger] fungible_non_ada_assets@[i])@ is Native by {
                assert(assets_view(fungible_non_ada_assets@)[i] == fungible_non_ada_assets@[i]@);
                assert(is_fungible(assets_view(fungible_non_ada_assets@)[i]));
            }
        }
        match self.get_key_value_pair(fungible_non_ada_assets, utxo) {
            Some((key, member)) => {
                let cmd = if add {
                    CRDTCommand::set_add(self.key_prefix_ref(), key.as_str(), member)
                } else {
                    CRDTCommand::set_remove(self.key_prefix_ref(), key.as_str(), member)
                };
                Some(cmd)
            },
            None => None,
        }
    }

    /// Evaluates one consumed input: resolves the referenced prior output
    /// and yields the REMOVE it warrants, if any.  An unresolved reference
    /// is skipped under the permissive policy and aborts the block under
    /// the strict one.
    pub fn process_consumed_txo(&self, ctx: &BlockContext, input: &OutputRef) -> (r: Result<
        Option<CRDTCommand>,
        ReduceError,
    >)
        ensures
            match r {
                Ok(c) => (self.policy == ResolutionPolicy::Permissive || find_utxo_spec(
                    ctx@,
                    input@,
                ) is Some) && opt_cmd_view(c) == consumed_cmd(self.config@, ctx@, input@),
                Err(e) => self.policy == ResolutionPolicy::Strict && find_utxo_spec(
                    ctx@,
                    input@,
                ) is None && e == ReduceError::UnresolvedInput,
            },
    {
        let utxo = match ctx.find_utxo(input) {
            Some(u) => u,
            None => {
                return match self.policy {
                    ResolutionPolicy::Permissive => Ok(None),
                    ResolutionPolicy::Strict => Err(ReduceError::UnresolvedInput),
                };
            },
        };
        Ok(self.evaluate_txo(utxo, false))
    }

    /// Evaluates one produced output and yields the ADD it warrants, if
    /// any.
    pub fn process_produced_txo(&self, utxo: &Output) -> (r: Option<CRDTCommand>)
        ensures
            opt_cmd_view(r) == produced_cmd(self.config@, utxo@),
    {
        self.evaluate_txo(utxo, true)
    }

    /// Processes a block transaction-by-transaction, in block order:
    /// within each transaction, every consumed input's REMOVE is emitted
    /// before any produced output's ADD.  Under the strict resolution
    /// policy, an unresolved consumed input aborts the block and no
    /// commands are returned.
    pub fn reduce_block(&self, block: &Block, ctx: &BlockContext) -> (r: Result<
        Vec<CRDTCommand>,
        ReduceError,
    >)
        ensures
            match r {
                Ok(cmds) => cmds_view(cmds@) == block_cmds(self.config@, ctx@, block@) && (
                self.policy == ResolutionPolicy::Strict ==> all_resolved(ctx@, block@)),
                Err(e) => self.policy == ResolutionPolicy::Strict && !all_resolved(ctx@, block@)
                    && e == ReduceError::UnresolvedInput,
            },
    {
        let ghost cfg = self.config@;
        let mut out: Vec<CRDTCommand> = Vec::new();
        let nt = block.txs.len();
        let mut t: usize = 0;
        proof {
            assert(cmds_view(out@) =~= block_cmds(cfg, ctx@, block@.take(0)));
        }
        while t < nt
            invariant
                nt == block.txs.len(),
                t <= nt,
                cfg == self.config@,
                cmds_view(out@) == block_cmds(cfg, ctx@, block@.take(t as int)),
                self.policy == ResolutionPolicy::Strict ==> forall|i: int|
                    0 <= i < t ==> tx_resolved(ctx@, #[trigger] block@[i]),
            decreases nt - t,
        {
            let tx = &block.txs[t];
            proof {
                assert(tx@ == block@[t as int]);
            }
            let ghost done = block_cmds(cfg, ctx@, block@.take(t as int));
            let nc = tx.consumes.len();
            let mut j: usize = 0;
            proof {
                assert(consumed_cmds(cfg, ctx@, tx@.consumes.take(0)) =~= Seq::empty());
                assert(cmds_view(out@) =~= done + consumed_cmds(cfg, ctx@, tx@.consumes.take(0)));
            }
            while j < nc
                invariant
                    nt == block.txs.len(),
                    t < nt,
                    nc == tx.consumes.len(),
                    j <= nc,
                    cfg == self.config@,
                    tx == &block.txs[t as int],
                    done == block_cmds(cfg, ctx@, block@.take(t as int)),
                    cmds_view(out@) == done + consumed_cmds(
                        cfg,
                        ctx@,
                        tx@.consumes.take(j as int),
                    ),
                    self.policy == ResolutionPolicy::Strict ==> forall|i: int|
                        0 <= i < t ==> tx_resolved(ctx@, #[trigger] block@[i]),
                    self.policy == ResolutionPolicy::Strict ==> forall|k: int|
                        0 <= k < j ==> find_utxo_spec(ctx@, #[trigger] tx@.consumes[k]) is Some,
                decreases nc - j,
            {
                let ghost cons_prefix = tx@.consumes.take(j as int);
                let ghost cons_next = tx@.consumes.take(j as int + 1);
                proof {
                    assert(cons_next.drop_last() =~= cons_prefix);
                    assert(cons_next.last() == tx@.consumes[j as int]);
                    assert(tx@.consumes[j as int] == tx.consumes@[j as int]@);
                }
                match self.process_consumed_txo(ctx, &tx.consumes[j]) {
                    Ok(Some(c)) => {
                        let ghost pre = out@;
                        out.push(c);
                        proof {
                            assert(cmds_view(out@) =~= cmds_view(pre).push(c@));
                            assert(consumed_cmd(cfg, ctx@, cons_next.last()) == Some(c@));
                            assert(consumed_cmds(cfg, ctx@, cons_next) == consumed_cmds(
                                cfg,
                                ctx@,
                                cons_prefix,
                            ).push(c@));
                            assert(cmds_view(out@) =~= done + consumed_cmds(cfg, ctx@, cons_next));
                        }
                    },
                    Ok(None) => {
                        proof {
                            assert(cmds_view(out@) =~= done + consumed_cmds(cfg, ctx@, cons_next));
                        }
                    },
                    Err(e) => {
                        proof {
                            assert(find_utxo_spec(ctx@, block@[t as int].consumes[j as int])
                                is None);
                            assert(!tx_resolved(ctx@, block@[t as int]));
                            assert(!all_resolved(ctx@, block@));
                        }
                        return Err(e);
                    },
                }
                j += 1;
            }
            proof {
                assert(tx@.consumes.take(nc as int) =~= tx@.consumes);
            }
            let ghost done_consumed = done + consumed_cmds(cfg, ctx@, tx@.consumes);
            let np = tx.produces.len();
            let mut p: usize = 0;
            proof {
                assert(produced_cmds(cfg, tx@.produces.take(0)) =~= Seq::empty());
                assert(cmds_view(out@) =~= done_consumed + produced_cmds(
                    cfg,
                    tx@.produces.take(0),
                ));
            }
            while p < np
                invariant
                    nt == block.txs.len(),
                    t < nt,
                    np == tx.produces.len(),
                    p <= np,
                    cfg == self.config@,
                    tx == &block.txs[t as int],
                    done == block_cmds(cfg, ctx@, block@.take(t as int)),
                    done_consumed == done + consumed_cmds(cfg, ctx@, tx@.consumes),
                    cmds_view(out@) == done_consumed + produced_cmds(
                        cfg,
                        tx@.produces.take(p as int),
                    ),
                    self.policy == ResolutionPolicy::Strict ==> forall|i: int|
                        0 <= i < t ==> tx_resolved(ctx@, #[trigger] block@[i]),
                    self.policy == ResolutionPolicy::Strict ==> tx_resolved(ctx@, block@[t as int]),
                decreases np - p,
            {
                let ghost prod_prefix = tx@.produces.take(p as int);
                let ghost prod_next = tx@.produces.take(p as int + 1);
                proof {
                    assert(prod_next.drop_last() =~= prod_prefix);
                    assert(prod_next.last() == tx@.produces[p as int]);
                    assert(tx@.produces[p as int] == tx.produces@[p as int]@);
                }
                match self.process_produced_txo(&tx.produces[p]) {
                    Some(c) => {
                        let ghost pre = out@;
                        out.push(c);
                        proof {
                            assert(cmds_view(out@) =~= cmds_view(pre).push(c@));
                            assert(produced_cmd(cfg, prod_next.last()) == Some(c@));
                            assert(produced_cmds(cfg, prod_next) == produced_cmds(
                                cfg,
                                prod_prefix,
                            ).push(c@));
                            assert(cmds_view(out@) =~= done_consumed + produced_cmds(
                                cfg,
                                prod_next,
                            ));
                        }
                    },
                    None => {
                        proof {
                            assert(cmds_view(out@) =~= done_consumed + produced_cmds(
                                cfg,
                                prod_next,
                            ));
                        }
                    },
                }
                p += 1;
            }
            proof {
                assert(tx@.produces.take(np as int) =~= tx@.produces);
                assert(block@.take(t as int + 1).drop_last() =~= block@.take(t as int));
                assert(block@.take(t as int + 1).last() == block@[t as int]);
                assert(cmds_view(out@) =~= block_cmds(cfg, ctx@, block@.take(t as int + 1)));
            }
            t += 1;
        }
        proof {
            assert(block@.take(nt as int) =~= block@);
        }
        Ok(out)
    }
}

impl Config {
    /// Builds the reducer that this configuration describes, with the
    /// given resolution policy for consumed inputs.
    pub fn plugin(self, policy: &ResolutionPolicy) -> (r: Reducer)
        ensures
            r.config == self,
            r.policy == *policy,
    {
        Reducer { config: self, policy: *policy }
    }
}

} // verus!
