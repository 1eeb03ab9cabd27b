use liq_by_token_pair::commands::CRDTCommand;
use liq_by_token_pair::config::{Config, ResolutionPolicy};
use liq_by_token_pair::model::{Asset, Block, BlockContext, Output, OutputRef, Tx};
use liq_by_token_pair::reducer::{ReduceError, Reducer};
use liq_by_token_pair::u64_to_string;

fn native(policy: &str, name: &str, qty: u64) -> Asset {
    Asset::NativeAsset {
        policy_hex: policy.to_string(),
        name: name.to_string(),
        quantity: qty,
    }
}

fn output(address: &str, lovelace: u64, assets: Vec<Asset>) -> Output {
    Output {
        address: address.to_string(),
        lovelace,
        assets,
    }
}

fn config(prefix: Option<&str>, filter: Option<Vec<&str>>) -> Config {
    Config {
        key_prefix: prefix.map(|p| p.to_string()),
        member_prefix: "prefix".to_string(),
        filter_policy_ids_hex: filter.map(|ids| ids.into_iter().map(|s| s.to_string()).collect()),
        pool_contract_address: "addr_pool".to_string(),
    }
}

fn reducer(cfg: Config) -> Reducer {
    cfg.plugin(&ResolutionPolicy::Permissive)
}

fn outref(byte: u8, index: u64) -> OutputRef {
    OutputRef {
        tx_hash: vec![byte; 32],
        index,
    }
}

#[test]
fn scenario_a_single_asset_pool_resolves() {
    let r = reducer(config(None, None));
    let out = output("addr_pool", 1_000_000, vec![native("aa", "TOKA", 500)]);
    let fungible = r.get_fungible_assets(out.non_ada_assets());
    let (key, member) = r.get_key_value_pair(fungible, &out).expect("recognized pool");
    assert_eq!(key, "aa.TOKA");
    assert_eq!(member, "prefix:1000000:500");
}

#[test]
fn scenario_a_produced_output_emits_add() {
    let r = reducer(config(None, None));
    let out = output("addr_pool", 1_000_000, vec![native("aa", "TOKA", 500)]);
    let cmd = r.process_produced_txo(&out).expect("command emitted");
    assert_eq!(
        cmd,
        CRDTCommand::SetAdd("aa.TOKA".to_string(), "prefix:1000000:500".to_string())
    );
}

#[test]
fn scenario_b_dual_asset_pool_sorted_by_policy() {
    let r = reducer(config(None, None));
    let out = output(
        "addr_pool",
        7,
        vec![native("bb", "NAMEB", 10), native("aa", "NAMEA", 20)],
    );
    let fungible = r.get_fungible_assets(out.non_ada_assets());
    let (key, member) = r.get_key_value_pair(fungible, &out).expect("recognized pool");
    assert_eq!(key, "aa.NAMEA:bb.NAMEB");
    assert_eq!(member, "prefix:20:10");
}

#[test]
fn scenario_c_consumed_output_emits_remove_before_add() {
    let r = reducer(config(None, None));
    let consumed_ref = outref(1, 0);
    let mut ctx = BlockContext::new();
    ctx.insert(
        outref(1, 0),
        output("addr_pool", 1_000_000, vec![native("aa", "TOKA", 500)]),
    );
    let block = Block {
        txs: vec![Tx {
            consumes: vec![consumed_ref],
            produces: vec![output("addr_pool", 2_000_000, vec![native("aa", "TOKA", 800)])],
        }],
    };
    let cmds = r.reduce_block(&block, &ctx).expect("no error");
    assert_eq!(
        cmds,
        vec![
            CRDTCommand::SetRemove("aa.TOKA".to_string(), "prefix:1000000:500".to_string()),
            CRDTCommand::SetAdd("aa.TOKA".to_string(), "prefix:2000000:800".to_string()),
        ]
    );
}

#[test]
fn order_invariance_on_concrete_assets() {
    let r = reducer(config(None, None));
    let out = output(
        "addr_pool",
        7,
        vec![native("bb", "NAMEB", 10), native("aa", "NAMEA", 20)],
    );
    let forward = vec![native("bb", "NAMEB", 10), native("aa", "NAMEA", 20)];
    let backward = vec![native("aa", "NAMEA", 20), native("bb", "NAMEB", 10)];
    assert_eq!(
        r.get_key_value_pair(forward, &out),
        r.get_key_value_pair(backward, &out)
    );
}

#[test]
fn replaying_a_block_is_idempotent() {
    let r = reducer(config(None, None));
    let mut ctx = BlockContext::new();
    ctx.insert(
        outref(9, 2),
        output("addr_pool", 500_000, vec![native("cc", "TOKC", 30)]),
    );
    let block = Block {
        txs: vec![
            Tx {
                consumes: vec![outref(9, 2)],
                produces: vec![output("addr_pool", 600_000, vec![native("cc", "TOKC", 40)])],
            },
            Tx {
                consumes: vec![],
                produces: vec![output("addr_other", 1, vec![native("dd", "TOKD", 5)])],
            },
        ],
    };
    let first = r.reduce_block(&block, &ctx).expect("no error");
    let second = r.reduce_block(&block, &ctx).expect("no error");
    assert_eq!(first, second);
    assert_eq!(first.len(), 2);
}

#[test]
fn missing_required_policy_id_yields_no_command() {
    let r = reducer(config(None, Some(vec!["p1", "p2"])));
    // holds p1 but not p2; counts would fit the single-asset shape
    let out = output(
        "addr_pool",
        1_000_000,
        vec![
            native("p1", "MARKER", 1),
            native("p1", "OTHER", 1),
            native("aa", "TOKA", 500),
        ],
    );
    assert!(r.process_produced_txo(&out).is_none());
    assert!(!r.contains_expected_policy_ids(&out.non_ada_assets()));
}

#[test]
fn present_policy_ids_pass_the_filter() {
    let r = reducer(config(None, Some(vec!["p1", "p2"])));
    let out = output(
        "addr_pool",
        1_000_000,
        vec![
            native("p1", "MARKER", 1),
            native("p2", "MARKER", 1),
            native("aa", "TOKA", 500),
        ],
    );
    assert!(r.contains_expected_policy_ids(&out.non_ada_assets()));
    let cmd = r.process_produced_txo(&out).expect("command emitted");
    assert_eq!(cmd.key(), "aa.TOKA");
    assert_eq!(cmd.member(), "prefix:1000000:500");
    assert!(cmd.is_add());
}

#[test]
fn quantity_exactly_one_is_never_fungible() {
    let r = reducer(config(None, None));
    let assets = vec![
        native("aa", "NFT", 1),
        native("bb", "TOKB", 2),
        Asset::BaseCurrency { quantity: 10 },
    ];
    let fungible = r.get_fungible_assets(assets);
    assert_eq!(fungible.len(), 1);
    match &fungible[0] {
        Asset::NativeAsset { policy_hex, quantity, .. } => {
            assert_eq!(policy_hex, "bb");
            assert_eq!(*quantity, 2);
        }
        _ => panic!("expected a native asset"),
    }
}

#[test]
fn three_fungible_assets_are_rejected() {
    let r = reducer(config(None, None));
    let out = output(
        "addr_pool",
        1_000_000,
        vec![
            native("aa", "TOKA", 2),
            native("bb", "TOKB", 3),
            native("cc", "TOKC", 4),
        ],
    );
    let fungible = r.get_fungible_assets(out.non_ada_assets());
    assert_eq!(fungible.len(), 3);
    assert!(r.get_key_value_pair(fungible, &out).is_none());
    assert!(r.process_produced_txo(&out).is_none());
}

#[test]
fn strict_policy_fails_on_unresolved_input() {
    let cfg = config(None, None);
    let r = cfg.plugin(&ResolutionPolicy::Strict);
    let ctx = BlockContext::new();
    let block = Block {
        txs: vec![Tx {
            consumes: vec![outref(3, 1)],
            produces: vec![],
        }],
    };
    assert_eq!(r.reduce_block(&block, &ctx), Err(ReduceError::UnresolvedInput));
}

#[test]
fn permissive_policy_skips_unresolved_input() {
    let r = reducer(config(None, None));
    let ctx = BlockContext::new();
    let block = Block {
        txs: vec![Tx {
            consumes: vec![outref(3, 1)],
            produces: vec![],
        }],
    };
    assert_eq!(r.reduce_block(&block, &ctx), Ok(vec![]));
}

#[test]
fn strict_policy_succeeds_when_all_inputs_resolve() {
    let cfg = config(None, None);
    let r = cfg.plugin(&ResolutionPolicy::Strict);
    let mut ctx = BlockContext::new();
    ctx.insert(
        outref(3, 1),
        output("addr_pool", 1_000_000, vec![native("aa", "TOKA", 500)]),
    );
    let block = Block {
        txs: vec![Tx {
            consumes: vec![outref(3, 1)],
            produces: vec![],
        }],
    };
    let cmds = r.reduce_block(&block, &ctx).expect("all inputs resolve");
    assert_eq!(
        cmds,
        vec![CRDTCommand::SetRemove(
            "aa.TOKA".to_string(),
            "prefix:1000000:500".to_string()
        )]
    );
}

#[test]
fn consumed_output_at_other_address_is_ignored() {
    let r = reducer(config(None, None));
    let mut ctx = BlockContext::new();
    ctx.insert(
        outref(4, 0),
        output("addr_other", 1_000_000, vec![native("aa", "TOKA", 500)]),
    );
    let block = Block {
        txs: vec![Tx {
            consumes: vec![outref(4, 0)],
            produces: vec![],
        }],
    };
    assert_eq!(r.reduce_block(&block, &ctx), Ok(vec![]));
}

#[test]
fn key_prefix_namespaces_emitted_keys() {
    let r = reducer(config(Some("pools"), None));
    let out = output("addr_pool", 1_000_000, vec![native("aa", "TOKA", 500)]);
    let cmd = r.process_produced_txo(&out).expect("command emitted");
    assert_eq!(cmd.key(), "pools:aa.TOKA");
    assert_eq!(cmd.member(), "prefix:1000000:500");
}

#[test]
fn non_ascii_asset_name_fails_key_derivation() {
    let r = reducer(config(None, None));
    assert!(r.key_for_asset(&native("aa", "caf\u{e9}", 5)).is_none());
    let out = output("addr_pool", 1_000_000, vec![native("aa", "caf\u{e9}", 500)]);
    assert!(r.process_produced_txo(&out).is_none());
}

#[test]
fn base_currency_asset_has_no_key() {
    let r = reducer(config(None, None));
    assert!(r.key_for_asset(&Asset::BaseCurrency { quantity: 5 }).is_none());
}

#[test]
fn other_addresses_are_ignored() {
    let r = reducer(config(None, None));
    let out = output("addr_other", 1_000_000, vec![native("aa", "TOKA", 500)]);
    assert!(r.process_produced_txo(&out).is_none());
}

#[test]
fn marker_token_count_shifts_expected_shape() {
    // with one required marker, a single-asset pool holds two non-base assets
    let r = reducer(config(None, Some(vec!["mm"])));
    let out = output(
        "addr_pool",
        1_000_000,
        vec![native("mm", "MARKER", 1), native("aa", "TOKA", 500)],
    );
    let cmd = r.process_produced_txo(&out).expect("command emitted");
    assert_eq!(cmd.key(), "aa.TOKA");
    assert_eq!(cmd.member(), "prefix:1000000:500");
}

#[test]
fn empty_filter_list_requires_nothing() {
    let r = reducer(config(None, Some(vec![])));
    let out = output("addr_pool", 1_000_000, vec![native("aa", "TOKA", 500)]);
    assert!(r.contains_expected_policy_ids(&out.non_ada_assets()));
    let cmd = r.process_produced_txo(&out).expect("command emitted");
    assert_eq!(cmd.key(), "aa.TOKA");
}

#[test]
fn commands_carry_prefix_and_member() {
    let add = CRDTCommand::set_add(Some("ns"), "k", "m".to_string());
    assert_eq!(add, CRDTCommand::SetAdd("ns:k".to_string(), "m".to_string()));
    let rem = CRDTCommand::set_remove(None, "k", "m".to_string());
    assert_eq!(rem, CRDTCommand::SetRemove("k".to_string(), "m".to_string()));
    assert!(!rem.is_add());
}

#[test]
fn decimal_rendering_is_exact() {
    assert_eq!(u64_to_string(0), "0");
    assert_eq!(u64_to_string(7), "7");
    assert_eq!(u64_to_string(10), "10");
    assert_eq!(u64_to_string(1_000_000), "1000000");
    assert_eq!(u64_to_string(u64::MAX), "18446744073709551615");
}

#[test]
fn find_utxo_returns_first_match() {
    let mut ctx = BlockContext::new();
    ctx.insert(outref(1, 0), output("a", 1, vec![]));
    ctx.insert(outref(1, 0), output("b", 2, vec![]));
    let found = ctx.find_utxo(&outref(1, 0)).expect("known reference");
    assert_eq!(found.address, "a");
    assert!(ctx.find_utxo(&outref(2, 0)).is_none());
}
