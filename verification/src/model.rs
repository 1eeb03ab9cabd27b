//! The data model: assets, transaction outputs, output references, blocks,
//! and the block context that resolves consumed inputs.
//!
//! Each executable type has a mathematical view (`@`) over which all
//! contracts are stated.

use vstd::prelude::*;

verus! {

/// One asset position inside a transaction output.  Only a `NativeAsset`
/// can contribute to pool identity; the base currency is tracked by the
/// output's own `lovelace` amount.
pub enum Asset {
    BaseCurrency { quantity: u64 },
    NativeAsset { policy_hex: String, name: String, quantity: u64 },
}

/// Mathematical view of an [`Asset`].
pub enum AssetModel {
    Base { quantity: nat },
    Native { policy: Seq<char>, name: Seq<char>, quantity: nat },
}

impl View for Asset {
    type V = AssetModel;

    open spec fn view(&self) -> AssetModel {
        match self {
            Asset::BaseCurrency { quantity } => AssetModel::Base { quantity: *quantity as nat },
            Asset::NativeAsset { policy_hex, name, quantity } => AssetModel::Native {
                policy: policy_hex@,
                name: name@,
                quantity: *quantity as nat,
            },
        }
    }
}

/// The view of a sequence of assets.
pub open spec fn assets_view(s: Seq<Asset>) -> Seq<AssetModel> {
    s.map_values(|a: Asset| a@)
}

/// A transaction output: an address, its base-currency amount, and its
/// ordered collection of assets.
pub struct Output {
    pub address: String,
    pub lovelace: u64,
    pub assets: Vec<Asset>,
}

/// Mathematical view of an [`Output`].
pub struct OutputModel {
    pub address: Seq<char>,
    pub lovelace: nat,
    pub assets: Seq<AssetModel>,
}

impl View for Output {
    type V = OutputModel;

    open spec fn view(&self) -> OutputModel {
        OutputModel {
            address: self.address@,
            lovelace: self.lovelace as nat,
            assets: assets_view(self.assets@),
        }
    }
}

/// Identifies a prior transaction output: the hash of the transaction that
/// produced it and the output's index within that transaction.
pub struct OutputRef {
    pub tx_hash: Vec<u8>,
    pub index: u64,
}

/// Mathematical view of an [`OutputRef`].
pub struct OutputRefModel {
    pub tx_hash: Seq<u8>,
    pub index: nat,
}

impl View for OutputRef {
    type V = OutputRefModel;

    open spec fn view(&self) -> OutputRefModel {
        OutputRefModel { tx_hash: self.tx_hash@, index: self.index as nat }
    }
}

/// One transaction: the references it consumes, in order, and the outputs
/// it produces, by index order.
pub struct Tx {
    pub consumes: Vec<OutputRef>,
    pub produces: Vec<Output>,
}

/// Mathematical view of a [`Tx`].
pub struct TxModel {
    pub consumes: Seq<OutputRefModel>,
    pub produces: Seq<OutputModel>,
}

impl View for Tx {
    type V = TxModel;

    open spec fn view(&self) -> TxModel {
        TxModel {
            consumes: self.consumes@.map_values(|r: OutputRef| r@),
            produces: self.produces@.map_values(|o: Output| o@),
        }
    }
}

/// An ordered sequence of transactions.
pub struct Block {
    pub txs: Vec<Tx>,
}

impl View for Block {
    type V = Seq<TxModel>;

    open spec fn view(&self) -> Seq<TxModel> {
        self.txs@.map_values(|t: Tx| t@)
    }
}

/// Answers resolution queries for consumed inputs: which prior output a
/// reference points at, if it is known.
pub struct BlockContext {
    pub utxos: Vec<(OutputRef, Output)>,
}

impl View for BlockContext {
    type V = Seq<(OutputRefModel, OutputModel)>;

    open spec fn view(&self) -> Seq<(OutputRefModel, OutputModel)> {
        self.utxos@.map_values(|e: (OutputRef, Output)| (e.0@, e.1@))
    }
}

/// The first output registered under reference `r`, if any.
pub open spec fn find_utxo_spec(
    entries: Seq<(OutputRefModel, OutputModel)>,
    r: OutputRefModel,
) -> Option<OutputModel>
    decreases entries.len(),
{
    if entries.len() == 0 {
        None
    } else if entries[0].0 == r {
        Some(entries[0].1)
    } else {
        find_utxo_spec(entries.skip(1), r)
    }
}

/// Whether two output references identify the same prior output.
fn ref_eq(a: &OutputRef, b: &OutputRef) -> (r: bool)
    ensures
        r == (a@ == b@),
{
    if a.index != b.index {
        return false;
    }
    if a.tx_hash.len() != b.tx_hash.len() {
        proof {
            assert(a@.tx_hash.len() != b@.tx_hash.len());
        }
        return false;
    }
    let n = a.tx_hash.len();
    let mut i: usize = 0;
    while i < n
        invariant
            n == a.tx_hash.len() == b.tx_hash.len(),
            a.index == b.index,
            i <= n,
            forall|k: int| 0 <= k < i ==> a.tx_hash@[k] == b.tx_hash@[k],
        decreases n - i,
    {
        if a.tx_hash[i] != b.tx_hash[i] {
            return false;
        }
        i += 1;
    }
    proof {
        assert(a@.tx_hash =~= b@.tx_hash);
    }
    true
}

impl BlockContext {
    /// A context with no known prior outputs.
    pub fn new() -> (r: BlockContext)
        ensures
            r@ == Seq::<(OutputRefModel, OutputModel)>::empty(),
    {
        let r = BlockContext { utxos: Vec::new() };
        proof {
            assert(r@ =~= Seq::<(OutputRefModel, OutputModel)>::empty());
        }
        r
    }

    /// Registers `output` as the prior output identified by `reference`.
    pub fn insert(&mut self, reference: OutputRef, output: Output)
        ensures
            final(self)@ == old(self)@.push((reference@, output@)),
    {
        self.utxos.push((reference, output));
        proof {
            assert(self@ =~= old(self)@.push((reference@, output@)));
        }
    }

    /// Resolves a consumed input reference to the prior output it points
    /// at, if that output is known to this context.
    pub fn find_utxo(&self, r: &OutputRef) -> (res: Option<&Output>)
        ensures
            match res {
                Some(o) => find_utxo_spec(self@, r@) == Some(o@),
                None => find_utxo_spec(self@, r@) is None,
            },
    {
        let n = self.utxos.len();
        let mut i: usize = 0;
        proof {
            assert(self@.skip(0) =~= self@);
        }
        while i < n
            invariant
                n == self.utxos.len(),
                i <= n,
                find_utxo_spec(self@, r@) == find_utxo_spec(self@.skip(i as int), r@),
            decreases n - i,
        {
            proof {
                assert(self@.skip(i as int).len() == n - i);
                assert(self@.skip(i as int)[0] == self@[i as int]);
                assert(self@.skip(i as int).skip(1) =~= self@.skip(i as int + 1));
            }
            if ref_eq(&self.utxos[i].0, r) {
                proof {
                    assert(self@[i as int].0 == r@);
                }
                return Some(&self.utxos[i].1);
            }
            proof {
                assert(self@[i as int].0 != r@);
            }
            i += 1;
        }
        proof {
            assert(self@.skip(n as int).len() == 0);
        }
        None
    }
}

} // verus!
