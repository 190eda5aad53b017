//! Calls, transactions, blocks and the client's signed request.
use vstd::prelude::*;
use crate::json::Json;

verus! {

/// A contract call: who calls which method of which contract, with what.
#[derive(Debug)]
pub struct Call {
    pub from: String,
    pub contract: String,
    pub method: String,
    pub args: Json,
}

/// The signature over a call: algorithm, hex public key, hex signature.
#[derive(Clone, Debug)]
pub struct Auth {
    pub alg: String,
    pub pk: String,
    pub sig: String,
}

/// An admitted transaction.
#[derive(Debug)]
pub struct Tx {
    pub call: Call,
    pub timestamp: u128,
    pub auth: Auth,
    pub nonce: u64,
    pub chain_id: String,
    pub tx_hash: String,
}

/// A block of the chain.
#[derive(Debug)]
pub struct Block {
    pub height: u64,
    pub parent: String,
    pub hash: String,
    pub timestamp: u128,
    pub validator_pk: String,
    pub validator_sig: String,
    pub txs: Vec<Tx>,
}

/// A client's signed request to run a call.
#[derive(Debug)]
pub struct RpcCall {
    pub from: String,
    pub contract: String,
    pub method: String,
    pub args: Json,
    pub alg: String,
    pub pk: String,
    pub sig: String,
    pub nonce: u64,
    pub chain_id: String,
}

impl Call {
    /// Equal field by field, as values.
    pub open spec fn same(&self, o: &Call) -> bool {
        &&& self.from@ == o.from@
        &&& self.contract@ == o.contract@
        &&& self.method@ == o.method@
        &&& self.args@ == o.args@
    }

    pub fn copy(&self) -> (r: Call)
        ensures
            r.same(self),
    {
        Call {
            from: self.from.clone(),
            contract: self.contract.clone(),
            method: self.method.clone(),
            args: self.args.copy(),
        }
    }
}

impl Auth {
    pub open spec fn same(&self, o: &Auth) -> bool {
        &&& self.alg@ == o.alg@
        &&& self.pk@ == o.pk@
        &&& self.sig@ == o.sig@
    }
}

impl Tx {
    /// Equal field by field, as values.
    pub open spec fn same(&self, o: &Tx) -> bool {
        &&& self.call.same(&o.call)
        &&& self.timestamp == o.timestamp
        &&& self.auth.same(&o.auth)
        &&& self.nonce == o.nonce
        &&& self.chain_id@ == o.chain_id@
        &&& self.tx_hash@ == o.tx_hash@
    }

    pub fn copy(&self) -> (r: Tx)
        ensures
            r.same(self),
    {
        Tx {
            call: self.call.copy(),
            timestamp: self.timestamp,
            auth: Auth {
                alg: self.auth.alg.clone(),
                pk: self.auth.pk.clone(),
                sig: self.auth.sig.clone(),
            },
            nonce: self.nonce,
            chain_id: self.chain_id.clone(),
            tx_hash: self.tx_hash.clone(),
        }
    }
}

/// Two transaction lists that agree item by item.
pub open spec fn same_txs(a: Seq<Tx>, b: Seq<Tx>) -> bool {
    a.len() == b.len() && forall|i: int| 0 <= i < a.len() ==> (#[trigger] a[i]).same(&b[i])
}

impl Block {
    /// Equal field by field, as values.
    pub open spec fn same(&self, o: &Block) -> bool {
        &&& self.height == o.height
        &&& self.parent@ == o.parent@
        &&& self.hash@ == o.hash@
        &&& self.timestamp == o.timestamp
        &&& self.validator_pk@ == o.validator_pk@
        &&& self.validator_sig@ == o.validator_sig@
        &&& same_txs(self.txs@, o.txs@)
    }

    pub fn copy(&self) -> (r: Block)
        ensures
            r.same(self),
    {
        let mut txs: Vec<Tx> = Vec::new();
        let mut i: usize = 0;
        while i < self.txs.len()
            invariant
                0 <= i <= self.txs@.len(),
                txs@.len() == i,
                forall|j: int| 0 <= j < i ==> (#[trigger] txs@[j]).same(&self.txs@[j]),
            decreases self.txs@.len() - i,
        {
            txs.push(self.txs[i].copy());
            i = i + 1;
        }
        Block {
            height: self.height,
            parent: self.parent.clone(),
            hash: self.hash.clone(),
            timestamp: self.timestamp,
            validator_pk: self.validator_pk.clone(),
            validator_sig: self.validator_sig.clone(),
            txs,
        }
    }
}

} // verus!
