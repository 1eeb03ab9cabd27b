//! The library's global guarantees, stated and proved over the
//! mathematical model.

use vstd::prelude::*;

use crate::classify::{all_ids_present, non_base_of, policy_of};
use crate::config::ConfigModel;
use crate::model::{AssetModel, OutputModel, OutputRefModel, TxModel};
use crate::order::{lemma_lex_lt_asymmetric, lemma_lex_lt_connex};
use crate::commands::CommandModel;
use crate::reducer::{block_cmds, consumed_cmds, output_cmd, produced_cmds, tx_cmds};
use crate::resolver::{resolve_spec, sorted_pair};

verus! {

/// Order invariance: two fungible assets with distinct policy ids resolve
/// to the same (key, member) pair whichever order they are given in.
pub proof fn lemma_resolve_order_invariant(
    a: AssetModel,
    b: AssetModel,
    out: OutputModel,
    cfg: ConfigModel,
)
    requires
        policy_of(a) != policy_of(b),
    ensures
        resolve_spec(seq![a, b], out, cfg) == resolve_spec(seq![b, a], out, cfg),
{
    lemma_lex_lt_connex(policy_of(a), policy_of(b));
    lemma_lex_lt_asymmetric(policy_of(a), policy_of(b));
    assert(sorted_pair(a, b) == sorted_pair(b, a));
}

/// Idempotence: replaying the same block against the same context and
/// configuration yields the same ordered command sequence both times.
pub proof fn lemma_replay_idempotent(
    cfg: ConfigModel,
    ctx: Seq<(OutputRefModel, OutputModel)>,
    txs: Seq<TxModel>,
    first: Seq<CommandModel>,
    second: Seq<CommandModel>,
)
    requires
        first == block_cmds(cfg, ctx, txs),
        second == block_cmds(cfg, ctx, txs),
    ensures
        first == second,
{
}

/// Filter completeness: an output that misses any configured marker
/// policy id yields no command, consumed or produced, whatever else it
/// holds.
pub proof fn lemma_filter_completeness(cfg: ConfigModel, o: OutputModel, add: bool)
    requires
        cfg.filter_policy_ids_hex matches Some(ids) && !all_ids_present(
            non_base_of(o.assets),
            ids,
        ),
    ensures
        output_cmd(cfg, o, add) is None,
{
}

/// Every command a transaction's consumed inputs yield is a REMOVE.
pub proof fn lemma_consumed_cmds_are_removes(
    cfg: ConfigModel,
    ctx: Seq<(OutputRefModel, OutputModel)>,
    refs: Seq<OutputRefModel>,
)
    ensures
        forall|i: int|
            0 <= i < consumed_cmds(cfg, ctx, refs).len() ==> #[trigger] consumed_cmds(
                cfg,
                ctx,
                refs,
            )[i] is Remove,
    decreases refs.len(),
{
    if refs.len() > 0 {
        lemma_consumed_cmds_are_removes(cfg, ctx, refs.drop_last());
        let init = consumed_cmds(cfg, ctx, refs.drop_last());
        assert forall|i: int| 0 <= i < consumed_cmds(cfg, ctx, refs).len() implies consumed_cmds(
            cfg,
            ctx,
            refs,
        )[i] is Remove by {
            if i < init.len() {
                assert(consumed_cmds(cfg, ctx, refs)[i] == init[i]);
            }
        }
    }
}

/// Every command a transaction's produced outputs yield is an ADD.
pub proof fn lemma_produced_cmds_are_adds(cfg: ConfigModel, outs: Seq<OutputModel>)
    ensures
        forall|i: int|
            0 <= i < produced_cmds(cfg, outs).len() ==> #[trigger] produced_cmds(
                cfg,
                outs,
            )[i] is Add,
    decreases outs.len(),
{
    if outs.len() > 0 {
        lemma_produced_cmds_are_adds(cfg, outs.drop_last());
        let init = produced_cmds(cfg, outs.drop_last());
        assert forall|i: int| 0 <= i < produced_cmds(cfg, outs).len() implies produced_cmds(
            cfg,
            outs,
        )[i] is Add by {
            if i < init.len() {
                assert(produced_cmds(cfg, outs)[i] == init[i]);
            }
        }
    }
}

/// Within a single transaction, all removes precede all adds.
pub proof fn lemma_removes_before_adds(
    cfg: ConfigModel,
    ctx: Seq<(OutputRefModel, OutputModel)>,
    tx: TxModel,
)
    ensures
        forall|i: int, j: int|
            0 <= i < j < tx_cmds(cfg, ctx, tx).len() && #[trigger] tx_cmds(cfg, ctx, tx)[i]
                is Add ==> #[trigger] tx_cmds(cfg, ctx, tx)[j] is Add,
{
    lemma_consumed_cmds_are_removes(cfg, ctx, tx.consumes);
    lemma_produced_cmds_are_adds(cfg, tx.produces);
    let removes = consumed_cmds(cfg, ctx, tx.consumes);
    let adds = produced_cmds(cfg, tx.produces);
    assert forall|i: int, j: int|
        0 <= i < j < tx_cmds(cfg, ctx, tx).len() && #[trigger] tx_cmds(cfg, ctx, tx)[i]
            is Add implies #[trigger] tx_cmds(cfg, ctx, tx)[j] is Add by {
        if i < removes.len() {
            assert(tx_cmds(cfg, ctx, tx)[i] == removes[i]);
        } else {
            assert(tx_cmds(cfg, ctx, tx)[j] == adds[j - removes.len()]);
        }
    }
}

/// Shape rejection: an output with three fungible reserve candidates is
/// not a recognized pool position and resolves to nothing.
pub proof fn lemma_shape_rejection(
    fungible: Seq<AssetModel>,
    out: OutputModel,
    cfg: ConfigModel,
)
    requires
        fungible.len() == 3,
    ensures
        resolve_spec(fungible, out, cfg) is None,
{
}

} // verus!
