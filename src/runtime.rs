//! The node: state, mempool, chain and nonces, block production and the
//! application of blocks produced by other validators.
use vstd::prelude::*;
use crate::contracts::{Ctx, Contract, StateV, RegistryV, dispatch_call, dispatch_mut, ns_of};
use crate::contracts::token::{Token, supply_invariant, total_key, token_call, lemma_call_keeps_supply_invariant};
use crate::store::{keyed_view, keyed_get, keyed_put, keys_unique, has_key, lookup, put, lemma_put, lemma_key_index_unique};
use crate::types::{Auth, Block, Call, Tx};
use crate::util::{HashAlg, hex_decode, lemma_hex_round_trip, decimal, decimal_text, digest_hex, hash_hex, hex_encode, now_ms, to_hex};
use crate::consensus::{PoAConfig, poa_verdict, verify_block_poa, leader_at, same_ignoring_ascii_case, eq_ignore_ascii_case};
use crate::pq::{SECRET_KEY_BYTES, sign_mldsa3, mldsa3_accepts, mldsa3_signature, is_key_pair};
use crate::store::text_eq;
use vstd::utf8::encode_utf8;

verus! {

broadcast use vstd::seq::group_seq_axioms;

/// Nonces as a mathematical value: sender address to its counter.
pub type NoncesV = Seq<(Seq<char>, u64)>;

/// The next nonce expected from `a`: its counter, 0 where it has none.
pub open spec fn nonce_of(m: NoncesV, a: Seq<char>) -> nat {
    match lookup(m, a) {
        Some(n) => n as nat,
        None => 0,
    }
}

/// `m` with the counter of `a` raised by one (held at the largest `u64`).
pub open spec fn bump(m: NoncesV, a: Seq<char>) -> NoncesV {
    put(m, a, if nonce_of(m, a) < u64::MAX { (nonce_of(m, a) + 1) as u64 } else { u64::MAX })
}

/// The counters after one bump per transaction, in order.
pub open spec fn bump_all(m: NoncesV, txs: Seq<Tx>) -> NoncesV
    decreases txs.len(),
{
    if txs.len() == 0 {
        m
    } else {
        bump(bump_all(m, txs.drop_last()), txs.last().call.from@)
    }
}

/// The state after running every transaction's call in order; failed calls
/// leave what they leave.
pub open spec fn run_all(st: StateV, reg: RegistryV, txs: Seq<Tx>) -> StateV
    decreases txs.len(),
{
    if txs.len() == 0 {
        st
    } else {
        let t = txs.last();
        dispatch_call(
            run_all(st, reg, txs.drop_last()),
            reg,
            t.call.from@,
            t.call.contract@,
            t.call.method@,
            t.call.args@,
        ).0
    }
}

/// How many of `txs` come from `a`.
pub open spec fn count_from(txs: Seq<Tx>, a: Seq<char>) -> nat
    decreases txs.len(),
{
    if txs.len() == 0 {
        0
    } else {
        count_from(txs.drop_last(), a) + if txs.last().call.from@ == a { 1nat } else { 0 }
    }
}

/// Every block past genesis names its predecessor's hash as parent and sits
/// one height above it; genesis is at height 0.
pub open spec fn chain_linked(chain: Seq<Block>) -> bool {
    &&& chain.len() > 0
    &&& chain[0].height == 0
    &&& forall|h: int|
        0 < h < chain.len() ==> (#[trigger] chain[h]).parent@ == chain[h - 1].hash@ && chain[h].height
            == chain[h - 1].height + 1
}

/// The text that a block hash digests: parent, height, number of
/// transactions and timestamp, separated by `|`.
pub open spec fn header_text(parent: Seq<char>, height: u64, n: nat, timestamp: u128) -> Seq<char> {
    parent + "|"@ + decimal(height as nat) + "|"@ + decimal(n) + "|"@ + decimal(timestamp as nat)
}

/// The hash of a block with these header fields.
pub open spec fn block_hash(alg: HashAlg, parent: Seq<char>, height: u64, n: nat, timestamp: u128) -> Seq<char> {
    digest_hex(alg, encode_utf8(header_text(parent, height, n, timestamp)))
}

/// The parent hash of genesis: 128 zeros.
pub open spec fn zero_hash() -> Seq<char> {
    Seq::new(128, |i: int| '0')
}

/// The mempool without the transactions whose hash some committed
/// transaction carries, in their order.
pub open spec fn uncommitted(pool: Seq<Tx>, committed: Seq<Tx>) -> Seq<Tx>
    decreases pool.len(),
{
    if pool.len() == 0 {
        pool
    } else {
        let rest = uncommitted(pool.drop_last(), committed);
        if exists|j: int| 0 <= j < committed.len() && (#[trigger] committed[j]).tx_hash@ == pool.last().tx_hash@ {
            rest
        } else {
            rest.push(pool.last())
        }
    }
}

/// The hash of a block's header fields.
pub fn header_hash(alg: HashAlg, parent: &str, height: u64, n: usize, timestamp: u128) -> (r: String)
    ensures
        r@ == block_hash(alg, parent@, height, n as nat, timestamp),
        r@.len() == 128,
{
    let mut h = parent.to_owned();
    h.append("|");
    h.append(decimal_text(height as u128).as_str());
    h.append("|");
    h.append(decimal_text(n as u128).as_str());
    h.append("|");
    h.append(decimal_text(timestamp).as_str());
    hash_hex(alg, h.as_str().as_bytes())
}

/// Raises the counter of `addr` by one, held at the largest `u64`.
fn bump_nonce(nonces: &mut Vec<(String, u64)>, addr: &str)
    requires
        keys_unique(keyed_view(old(nonces)@)),
    ensures
        keyed_view(final(nonces)@) == bump(keyed_view(old(nonces)@), addr@),
        keys_unique(keyed_view(final(nonces)@)),
{
    let n = match keyed_get(nonces, addr) {
        Some(n) => n,
        None => 0,
    };
    let next = if n < u64::MAX { n + 1 } else { u64::MAX };
    proof {
        lemma_put(keyed_view(nonces@), addr@, next);
    }
    keyed_put(nonces, addr.to_owned(), next);
}

/// Runs each transaction's call in order and raises its sender's counter;
/// a failed call still uses up its nonce.
fn execute(ctx: &mut Ctx, nonces: &mut Vec<(String, u64)>, txs: &Vec<Tx>)
    requires
        old(ctx).wf(),
        keys_unique(keyed_view(old(nonces)@)),
    ensures
        final(ctx).wf(),
        keys_unique(keyed_view(final(nonces)@)),
        final(ctx).registry() == old(ctx).registry(),
        final(ctx).state() == run_all(old(ctx).state(), old(ctx).registry(), txs@),
        keyed_view(final(nonces)@) == bump_all(keyed_view(old(nonces)@), txs@),
        forall|a: Seq<char>|
            nonce_of(keyed_view(old(nonces)@), a) + count_from(txs@, a) <= u64::MAX ==> #[trigger] nonce_of(
                keyed_view(final(nonces)@),
                a,
            ) == nonce_of(keyed_view(old(nonces)@), a) + count_from(txs@, a),
{
    let ghost st0 = ctx.state();
    let ghost reg = ctx.registry();
    let ghost n0 = keyed_view(nonces@);
    let mut i: usize = 0;
    while i < txs.len()
        invariant
            0 <= i <= txs@.len(),
            ctx.wf(),
            keys_unique(keyed_view(nonces@)),
            ctx.registry() == reg,
            ctx.state() == run_all(st0, reg, txs@.subrange(0, i as int)),
            keyed_view(nonces@) == bump_all(n0, txs@.subrange(0, i as int)),
        decreases txs@.len() - i,
    {
        let call = &txs[i].call;
        let _ = dispatch_mut(ctx, call.from.as_str(), call.contract.as_str(), call.method.as_str(), &call.args);
        bump_nonce(nonces, call.from.as_str());
        proof {
            assert(txs@.subrange(0, i + 1).drop_last() =~= txs@.subrange(0, i as int));
        }
        i = i + 1;
    }
    proof {
        assert(txs@.subrange(0, txs@.len() as int) =~= txs@);
        assert forall|a: Seq<char>|
            nonce_of(n0, a) + count_from(txs@, a) <= u64::MAX implies #[trigger] nonce_of(
            keyed_view(nonces@),
            a,
        ) == nonce_of(n0, a) + count_from(txs@, a) by {
            lemma_commit_advances_nonces(n0, txs@, a);
        }
    }
}

/// In a linked chain every block sits at the height of its position.
pub proof fn lemma_linked_heights(chain: Seq<Block>)
    requires
        chain_linked(chain),
    ensures
        forall|h: int| 0 <= h < chain.len() ==> (#[trigger] chain[h]).height == h,
{
    assert forall|h: int| 0 <= h < chain.len() implies (#[trigger] chain[h]).height == h by {
        lemma_height_at(chain, h);
    }
}

proof fn lemma_height_at(chain: Seq<Block>, h: int)
    requires
        chain_linked(chain),
        0 <= h < chain.len(),
    ensures
        chain[h].height == h,
    decreases h,
{
    if h > 0 {
        lemma_height_at(chain, h - 1);
    }
}

/// Committing transactions raises each sender's next nonce by exactly the
/// number of its transactions (held at the largest `u64`).
pub proof fn lemma_commit_advances_nonces(m: NoncesV, txs: Seq<Tx>, a: Seq<char>)
    requires
        keys_unique(m),
    ensures
        keys_unique(bump_all(m, txs)),
        nonce_of(m, a) + count_from(txs, a) <= u64::MAX ==> nonce_of(bump_all(m, txs), a) == nonce_of(m, a)
            + count_from(txs, a),
        nonce_of(m, a) + count_from(txs, a) > u64::MAX ==> nonce_of(bump_all(m, txs), a) == u64::MAX,
    decreases txs.len(),
{
    if txs.len() > 0 {
        let prev = bump_all(m, txs.drop_last());
        lemma_commit_advances_nonces(m, txs.drop_last(), a);
        let b = txs.last().call.from@;
        let v = if nonce_of(prev, b) < u64::MAX { (nonce_of(prev, b) + 1) as u64 } else { u64::MAX };
        lemma_put(prev, b, v);
    }
}

/// Running a block's transactions against a store whose only contract is the
/// token keeps the token's supply invariant, provided no sender is the
/// total-supply key itself.
pub proof fn lemma_block_keeps_supply_invariant(st: StateV, t: Token, txs: Seq<Tx>)
    requires
        keys_unique(st),
        supply_invariant(ns_of(st, "token"@), t.max_supply),
        forall|i: int| 0 <= i < txs.len() ==> (#[trigger] txs[i]).call.from@ != total_key(),
    ensures
        keys_unique(run_all(st, seq![("token"@, Contract::Token(t))], txs)),
        supply_invariant(ns_of(run_all(st, seq![("token"@, Contract::Token(t))], txs), "token"@), t.max_supply),
    decreases txs.len(),
{
    let reg = seq![("token"@, Contract::Token(t))];
    reveal(dispatch_call);
    if txs.len() > 0 {
        let prev = run_all(st, reg, txs.drop_last());
        assert forall|i: int| 0 <= i < txs.drop_last().len() implies (#[trigger] txs.drop_last()[i]).call.from@
            != total_key() by {
            assert(txs.drop_last()[i] == txs[i]);
        }
        lemma_block_keeps_supply_invariant(st, t, txs.drop_last());
        let tx = txs.last();
        assert(tx == txs[txs.len() - 1]);
        if tx.call.contract@ == "token"@ {
            lemma_key_index_unique(reg, "token"@, 0);
            let ns0 = ns_of(prev, "token"@);
            lemma_call_keeps_supply_invariant(ns0, tx.call.from@, tx.call.method@, tx.call.args@, t.max_supply, t.minter@);
            let ns1 = token_call(ns0, tx.call.from@, tx.call.method@, tx.call.args@, t.max_supply, t.minter@).0;
            lemma_put(prev, "token"@, ns1);
        } else {
            assert(!has_key(reg, tx.call.contract@));
        }
    }
}

/// The settings a node starts from.
pub struct NodeConfig {
    pub chain_id: String,
    pub validator_sk: Vec<u8>,
    pub validator_pk: Vec<u8>,
    pub hash_alg: HashAlg,
    pub sig_algs_allowed: Vec<String>,
    /// The only address that may mint; the validator's own address where absent.
    pub minter: Option<String>,
    pub max_supply: u64,
    pub max_tx_per_block: usize,
    pub max_pending_per_addr: usize,
    pub genesis_ms: u128,
}

/// 128 zeros.
fn zeros() -> (r: String)
    ensures
        r@ == zero_hash(),
{
    let mut z = String::new();
    let mut i: usize = 0;
    proof {
        reveal_strlit("0");
    }
    while i < 128
        invariant
            0 <= i <= 128,
            z@ == Seq::new(i as nat, |j: int| '0'),
            "0"@ == seq!['0'],
        decreases 128 - i,
    {
        z.append("0");
        i = i + 1;
        proof {
            assert(z@ =~= Seq::new(i as nat, |j: int| '0'));
        }
    }
    z
}

/// A node with the token registered, empty state and mempool, and a chain
/// holding only genesis, which this node signs.
pub fn new_shared(cfg: NodeConfig) -> (r: Runtime)
    requires
        cfg.validator_sk@.len() == SECRET_KEY_BYTES,
    ensures
        r.wf(),
        r.chain@.len() == 1,
        r.chain@[0].height == 0,
        r.chain@[0].parent@ == zero_hash(),
        r.chain@[0].hash@ == block_hash(cfg.hash_alg, zero_hash(), 0, 0, cfg.genesis_ms),
        r.chain@[0].timestamp == cfg.genesis_ms,
        r.chain@[0].txs@.len() == 0,
        r.chain@[0].validator_pk@ == hex_encode(cfg.validator_pk@),
        r.chain@[0].hash@.len() == 128,
        r.chain@[0].validator_sig@ == hex_encode(mldsa3_signature(encode_utf8(r.chain@[0].hash@), cfg.validator_sk@)),
        is_key_pair(cfg.validator_sk@, cfg.validator_pk@) ==> mldsa3_accepts(
            encode_utf8(r.chain@[0].hash@),
            hex_decode(r.chain@[0].validator_sig@),
            hex_decode(r.chain@[0].validator_pk@),
        ),
        r.ctx.state() == Seq::<(Seq<char>, crate::contracts::token::NsV)>::empty(),
        (r.ctx.registry() == seq![("token"@, Contract::Token(Token { max_supply: cfg.max_supply, minter: r.minter }))]),
        r.nonces@.len() == 0,
        r.mempool@.len() == 0,
        r.chain_id == cfg.chain_id,
        r.hash_alg == cfg.hash_alg,
        r.validator_sk == cfg.validator_sk,
        r.validator_pk == cfg.validator_pk,
        r.sig_algs_allowed == cfg.sig_algs_allowed,
        cfg.minter is Some ==> r.minter == cfg.minter->0,
        cfg.minter is None ==> r.minter@ == digest_hex(cfg.hash_alg, cfg.validator_pk@),
        r.max_tx_per_block == cfg.max_tx_per_block,
        r.max_pending_per_addr == cfg.max_pending_per_addr,
{
    let NodeConfig {
        chain_id,
        validator_sk,
        validator_pk,
        hash_alg,
        sig_algs_allowed,
        minter,
        max_supply,
        max_tx_per_block,
        max_pending_per_addr,
        genesis_ms,
    } = cfg;
    let minter = match minter {
        Some(m) => m,
        None => crate::pq::address_from_pk(hash_alg, validator_pk.as_slice()),
    };
    let mut ctx = Ctx::new();
    let token = Token { max_supply, minter: minter.clone() };
    let ghost registered = Contract::Token(token);
    ctx.register(Contract::Token(token));
    proof {
        reveal_strlit("token");
        assert(ctx.registry() =~= seq![("token"@, registered)]);
    }
    let parent = zeros();
    let hash = header_hash(hash_alg, parent.as_str(), 0, 0, genesis_ms);
    let sig = sign_mldsa3(hash.as_str().as_bytes(), validator_sk.as_slice());
    let genesis = Block {
        height: 0,
        parent,
        hash,
        timestamp: genesis_ms,
        validator_pk: to_hex(validator_pk.as_slice()),
        validator_sig: to_hex(sig.as_slice()),
        txs: Vec::new(),
    };
    proof {
        lemma_hex_round_trip(sig@);
        lemma_hex_round_trip(validator_pk@);
    }
    let mut chain: Vec<Block> = Vec::new();
    chain.push(genesis);
    let nonces: Vec<(String, u64)> = Vec::new();
    proof {
        assert(keyed_view(nonces@) =~= Seq::<(Seq<char>, u64)>::empty());
    }
    Runtime {
        ctx,
        mempool: Vec::new(),
        chain,
        nonces,
        chain_id,
        validator_sk,
        validator_pk,
        hash_alg,
        sig_algs_allowed,
        minter,
        max_tx_per_block,
        max_pending_per_addr,
    }
}

/// The node's state, mempool, chain and counters, and its settings.
pub struct Runtime {
    pub ctx: Ctx,
    pub mempool: Vec<Tx>,
    pub chain: Vec<Block>,
    pub nonces: Vec<(String, u64)>,
    pub chain_id: String,
    pub validator_sk: Vec<u8>,
    pub validator_pk: Vec<u8>,
    pub hash_alg: HashAlg,
    pub sig_algs_allowed: Vec<String>,
    pub minter: String,
    pub max_tx_per_block: usize,
    pub max_pending_per_addr: usize,
}

impl Runtime {
    pub open spec fn nonces_view(&self) -> NoncesV {
        keyed_view(self.nonces@)
    }

    /// Well-formed: a linked chain from genesis, one counter per sender, one
    /// entry per namespace.
    pub open spec fn wf(&self) -> bool {
        &&& self.ctx.wf()
        &&& keys_unique(self.nonces_view())
        &&& chain_linked(self.chain@)
    }

    /// The next nonce expected from `addr`.
    pub fn next_nonce(&self, addr: &str) -> (r: u64)
        ensures
            r as nat == nonce_of(self.nonces_view(), addr@),
    {
        match keyed_get(&self.nonces, addr) {
            Some(n) => n,
            None => 0,
        }
    }

    /// Raises the counter of `addr` by one.
    pub fn inc_nonce(&mut self, addr: &str)
        requires
            keys_unique(old(self).nonces_view()),
        ensures
            final(self).nonces_view() == bump(old(self).nonces_view(), addr@),
            keys_unique(final(self).nonces_view()),
            final(self).ctx == old(self).ctx,
            final(self).chain == old(self).chain,
            final(self).mempool == old(self).mempool,
    {
        bump_nonce(&mut self.nonces, addr);
    }

    /// Runs `call` with the state open for writing.
    pub fn dispatch_mut(&mut self, call: &Call) -> (r: crate::contracts::CtxResult)
        requires
            old(self).ctx.wf(),
        ensures
            final(self).ctx.wf(),
            final(self).ctx.registry() == old(self).ctx.registry(),
            (final(self).ctx.state(), crate::contracts::result_view(&r)) == dispatch_call(
                old(self).ctx.state(),
                old(self).ctx.registry(),
                call.from@,
                call.contract@,
                call.method@,
                call.args@,
            ),
            final(self).nonces == old(self).nonces,
            final(self).chain == old(self).chain,
            final(self).mempool == old(self).mempool,
    {
        dispatch_mut(&mut self.ctx, call.from.as_str(), call.contract.as_str(), call.method.as_str(), &call.args)
    }

    /// Runs a read-only call.
    pub fn dispatch_query(&self, contract: &str, method: &str, args: &crate::json::Json) -> (r: crate::contracts::CtxResult)
        ensures
            crate::contracts::result_view(&r) == crate::contracts::dispatch_read(
                self.ctx.state(),
                self.ctx.registry(),
                contract@,
                method@,
                args@,
            ),
    {
        crate::contracts::dispatch_query(&self.ctx, contract, method, args)
    }

    /// The block at the head of the chain.
    pub fn last_block(&self) -> (r: Block)
        requires
            self.chain@.len() > 0,
        ensures
            r.same(&self.chain@.last()),
    {
        self.chain[self.chain.len() - 1].copy()
    }

    /// The block at the head of the chain.
    pub fn head(&self) -> (r: Block)
        requires
            self.chain@.len() > 0,
        ensures
            r.same(&self.chain@.last()),
    {
        self.last_block()
    }

    /// The block at height `n`, if the chain reaches it.
    pub fn block(&self, n: u64) -> (r: Option<Block>)
        ensures
            r is None <==> n >= self.chain@.len(),
            r is Some ==> r->0.same(&self.chain@[n as int]),
    {
        if n < self.chain.len() as u64 {
            Some(self.chain[n as usize].copy())
        } else {
            None
        }
    }

    /// The signature algorithm and the hex public key of this validator.
    pub fn validator_info(&self) -> (r: (String, String))
        ensures
            r.0@ == "mldsa3"@,
            r.1@ == hex_encode(self.validator_pk@),
    {
        (String::from_str("mldsa3"), to_hex(self.validator_pk.as_slice()))
    }

    /// The hex public key of this validator.
    pub fn validator_pk_hex(&self) -> (r: String)
        ensures
            r@ == hex_encode(self.validator_pk@),
    {
        to_hex(self.validator_pk.as_slice())
    }

    /// Whether this node holds a secret key to sign with.
    pub fn has_sk(&self) -> (r: bool)
        ensures
            r == (self.validator_sk@.len() > 0),
    {
        self.validator_sk.len() > 0
    }

    /// How many pending transactions come from `from`.
    fn pending_from(&self, from: &str) -> (r: usize)
        ensures
            r as nat == count_from(self.mempool@, from@),
    {
        let mut c: usize = 0;
        let mut i: usize = 0;
        while i < self.mempool.len()
            invariant
                0 <= i <= self.mempool@.len(),
                c as nat == count_from(self.mempool@.subrange(0, i as int), from@),
                c <= i,
            decreases self.mempool@.len() - i,
        {
            proof {
                assert(self.mempool@.subrange(0, i + 1).drop_last() =~= self.mempool@.subrange(0, i as int));
            }
            if text_eq(self.mempool[i].call.from.as_str(), from) {
                c = c + 1;
            }
            i = i + 1;
        }
        proof {
            assert(self.mempool@.subrange(0, self.mempool@.len() as int) =~= self.mempool@);
        }
        c
    }

    /// Queues an admitted transaction, stamped with the current time, unless
    /// its sender already has `max_pending_per_addr` pending; returns whether
    /// it was queued.
    pub fn submit(&mut self, call: Call, auth: Auth, nonce: u64, chain_id: String, tx_hash: String) -> (r: bool)
        ensures
            r == (count_from(old(self).mempool@, call.from@) < old(self).max_pending_per_addr),
            !r ==> final(self).mempool@ == old(self).mempool@,
            r ==> final(self).mempool@.len() == old(self).mempool@.len() + 1,
            r ==> final(self).mempool@.drop_last() == old(self).mempool@,
            r ==> final(self).mempool@.last().call == call,
            r ==> final(self).mempool@.last().auth == auth,
            r ==> final(self).mempool@.last().nonce == nonce,
            r ==> final(self).mempool@.last().chain_id == chain_id,
            r ==> final(self).mempool@.last().tx_hash == tx_hash,
            final(self).ctx == old(self).ctx,
            final(self).chain == old(self).chain,
            final(self).nonces == old(self).nonces,
            final(self).max_pending_per_addr == old(self).max_pending_per_addr,
            final(self).chain_id == old(self).chain_id,
    {
        let count = self.pending_from(call.from.as_str());
        if count >= self.max_pending_per_addr {
            return false;
        }
        let tx = Tx { call, timestamp: now_ms(), auth, nonce, chain_id, tx_hash };
        self.mempool.push(tx);
        proof {
            assert(self.mempool@.drop_last() =~= old(self).mempool@);
        }
        true
    }

    /// Produces the next block at the current time: see `produce_block_at`.
    pub fn produce_block(&mut self) -> (r: Block)
        requires
            old(self).wf(),
            old(self).validator_sk@.len() == SECRET_KEY_BYTES,
            old(self).chain@.last().height < u64::MAX,
        ensures
            final(self).wf(),
            final(self).chain@.len() == old(self).chain@.len() + 1,
            final(self).chain@.drop_last() == old(self).chain@,
            r.same(&final(self).chain@.last()),
            ({
                let take = if old(self).max_tx_per_block < old(self).mempool@.len() {
                    old(self).max_tx_per_block as int
                } else {
                    old(self).mempool@.len() as int
                };
                let drained = old(self).mempool@.subrange(0, take);
                &&& final(self).chain@.last().txs@ == drained
                &&& final(self).mempool@ == old(self).mempool@.subrange(take, old(self).mempool@.len() as int)
                &&& final(self).ctx.state() == run_all(old(self).ctx.state(), old(self).ctx.registry(), drained)
                &&& final(self).nonces_view() == bump_all(old(self).nonces_view(), drained)
                &&& forall|a: Seq<char>|
                    nonce_of(old(self).nonces_view(), a) + count_from(drained, a) <= u64::MAX ==> #[trigger] nonce_of(
                        final(self).nonces_view(),
                        a,
                    ) == nonce_of(old(self).nonces_view(), a) + count_from(drained, a)
            }),
            r.height == old(self).chain@.last().height + 1,
            r.parent@ == old(self).chain@.last().hash@,
            r.hash@ == block_hash(old(self).hash_alg, r.parent@, r.height, r.txs@.len() as nat, r.timestamp),
            r.validator_pk@ == hex_encode(old(self).validator_pk@),
            r.hash@.len() == 128,
            r.validator_sig@ == hex_encode(mldsa3_signature(encode_utf8(r.hash@), old(self).validator_sk@)),
            is_key_pair(old(self).validator_sk@, old(self).validator_pk@) ==> mldsa3_accepts(
                encode_utf8(r.hash@),
                hex_decode(r.validator_sig@),
                hex_decode(r.validator_pk@),
            ),
            final(self).ctx.registry() == old(self).ctx.registry(),
    {
        let t = now_ms();
        self.produce_block_at(t)
    }

    /// Produces the next block with timestamp `timestamp`: takes up to
    /// `max_tx_per_block` transactions from the front of the mempool, runs
    /// them, links, hashes and signs the block and appends it to the chain.
    pub fn produce_block_at(&mut self, timestamp: u128) -> (r: Block)
        requires
            old(self).wf(),
            old(self).validator_sk@.len() == SECRET_KEY_BYTES,
            old(self).chain@.last().height < u64::MAX,
        ensures
            final(self).wf(),
            final(self).chain@.len() == old(self).chain@.len() + 1,
            final(self).chain@.drop_last() == old(self).chain@,
            r.same(&final(self).chain@.last()),
            ({
                let take = if old(self).max_tx_per_block < old(self).mempool@.len() {
                    old(self).max_tx_per_block as int
                } else {
                    old(self).mempool@.len() as int
                };
                let drained = old(self).mempool@.subrange(0, take);
                &&& final(self).chain@.last().txs@ == drained
                &&& final(self).mempool@ == old(self).mempool@.subrange(take, old(self).mempool@.len() as int)
                &&& final(self).ctx.state() == run_all(old(self).ctx.state(), old(self).ctx.registry(), drained)
                &&& final(self).nonces_view() == bump_all(old(self).nonces_view(), drained)
                &&& forall|a: Seq<char>|
                    nonce_of(old(self).nonces_view(), a) + count_from(drained, a) <= u64::MAX ==> #[trigger] nonce_of(
                        final(self).nonces_view(),
                        a,
                    ) == nonce_of(old(self).nonces_view(), a) + count_from(drained, a)
            }),
            r.height == old(self).chain@.last().height + 1,
            r.parent@ == old(self).chain@.last().hash@,
            r.timestamp == timestamp,
            r.hash@ == block_hash(old(self).hash_alg, r.parent@, r.height, r.txs@.len() as nat, timestamp),
            r.validator_pk@ == hex_encode(old(self).validator_pk@),
            r.hash@.len() == 128,
            r.validator_sig@ == hex_encode(mldsa3_signature(encode_utf8(r.hash@), old(self).validator_sk@)),
            is_key_pair(old(self).validator_sk@, old(self).validator_pk@) ==> mldsa3_accepts(
                encode_utf8(r.hash@),
                hex_decode(r.validator_sig@),
                hex_decode(r.validator_pk@),
            ),
            final(self).ctx.registry() == old(self).ctx.registry(),
            final(self).hash_alg == old(self).hash_alg,
            final(self).validator_sk == old(self).validator_sk,
            final(self).validator_pk == old(self).validator_pk,
    {
        let last = self.chain.len() - 1;
        let parent_hash = self.chain[last].hash.clone();
        let height = self.chain[last].height + 1;
        let take = if self.max_tx_per_block < self.mempool.len() {
            self.max_tx_per_block
        } else {
            self.mempool.len()
        };
        let mut txs = self.mempool.split_off(take);
        std::mem::swap(&mut self.mempool, &mut txs);
        execute(&mut self.ctx, &mut self.nonces, &txs);
        let hash = header_hash(self.hash_alg, parent_hash.as_str(), height, txs.len(), timestamp);
        let sig = sign_mldsa3(hash.as_str().as_bytes(), self.validator_sk.as_slice());
        let block = Block {
            height,
            parent: parent_hash,
            hash,
            timestamp,
            validator_pk: to_hex(self.validator_pk.as_slice()),
            validator_sig: to_hex(sig.as_slice()),
            txs,
        };
        let out = block.copy();
        self.chain.push(block);
        proof {
            assert(self.chain@.drop_last() =~= old(self).chain@);
            lemma_hex_round_trip(sig@);
            lemma_hex_round_trip(self.validator_pk@);
        }
        out
    }

    /// Whether this node is the scheduled leader of the next height and
    /// holds a secret key to sign with.
    pub fn is_next_leader(&self, cfg: &PoAConfig) -> (r: bool)
        requires
            self.chain@.len() > 0,
            cfg.validators@.len() > 0,
        ensures
            r == (self.chain@.last().height < u64::MAX && same_ignoring_ascii_case(
                leader_at(cfg.validators@, (self.chain@.last().height + 1) as u64).pk@,
                hex_encode(self.validator_pk@),
            ) && self.validator_sk@.len() > 0),
    {
        let h = self.chain[self.chain.len() - 1].height;
        if h == u64::MAX {
            return false;
        }
        let expected = cfg.expected_leader(h + 1);
        let own = self.validator_pk_hex();
        eq_ignore_ascii_case(expected.pk.as_str(), own.as_str()) && self.has_sk()
    }

    /// Drops from the mempool every transaction whose hash a committed
    /// transaction carries.
    fn drop_committed(&mut self, committed: &Vec<Tx>)
        ensures
            final(self).mempool@ == uncommitted(old(self).mempool@, committed@),
            final(self).ctx == old(self).ctx,
            final(self).chain == old(self).chain,
            final(self).nonces == old(self).nonces,
    {
        let mut pool: Vec<Tx> = Vec::new();
        std::mem::swap(&mut self.mempool, &mut pool);
        let ghost all = pool@;
        let n = pool.len();
        let mut i: usize = 0;
        while pool.len() > 0
            invariant
                0 <= i <= all.len(),
                pool@ == all.subrange(i as int, all.len() as int),
                pool@.len() == all.len() - i,
                all.len() == n,
                self.mempool@ == uncommitted(all.subrange(0, i as int), committed@),
                self.ctx == old(self).ctx,
                self.chain == old(self).chain,
                self.nonces == old(self).nonces,
            decreases pool@.len(),
        {
            let tx = pool.remove(0);
            let mut seen = false;
            let mut j: usize = 0;
            while j < committed.len()
                invariant
                    0 <= j <= committed@.len(),
                    seen == exists|k: int| 0 <= k < j && (#[trigger] committed@[k]).tx_hash@ == tx.tx_hash@,
                decreases committed@.len() - j,
            {
                if text_eq(committed[j].tx_hash.as_str(), tx.tx_hash.as_str()) {
                    seen = true;
                }
                j = j + 1;
            }
            proof {
                assert(all.subrange(0, i + 1).drop_last() =~= all.subrange(0, i as int));
                assert(all.subrange(0, i + 1).last() == tx);
            }
            if !seen {
                self.mempool.push(tx);
            }
            i = i + 1;
            proof {
                assert(pool@ =~= all.subrange(i as int, all.len() as int));
            }
        }
        proof {
            assert(all.subrange(0, i as int) =~= all);
        }
    }

    /// Applies a block that the scheduled leader produced on top of the
    /// current head: checks its parent, its height and the leader's
    /// signature, runs its transactions, appends it, and drops its
    /// transactions from the mempool.
    pub fn apply_external_block(&mut self, cfg: &PoAConfig, block: Block) -> (r: Result<Block, String>)
        requires
            old(self).wf(),
            cfg.validators@.len() > 0,
        ensures
            final(self).wf(),
            ({
                let head = old(self).chain@.last();
                if block.parent@ != head.hash@ {
                    r is Err && r->Err_0@ == "parent mismatch"@
                } else if block.height != head.height + 1 {
                    r is Err && r->Err_0@ == "height mismatch"@
                } else {
                    match poa_verdict(cfg.validators@, head.hash@, &block) {
                        Err(e) => r is Err && r->Err_0@ == e,
                        Ok(()) => r is Ok,
                    }
                }
            }),
            r is Err ==> *final(self) == *old(self),
            r is Ok ==> {
                &&& r->Ok_0.same(&block)
                &&& final(self).chain@.drop_last() == old(self).chain@
                &&& final(self).chain@.last() == block
                &&& final(self).ctx.state() == run_all(old(self).ctx.state(), old(self).ctx.registry(), block.txs@)
                &&& final(self).ctx.registry() == old(self).ctx.registry()
                &&& final(self).nonces_view() == bump_all(old(self).nonces_view(), block.txs@)
                &&& forall|a: Seq<char>|
                    nonce_of(old(self).nonces_view(), a) + count_from(block.txs@, a) <= u64::MAX ==> #[trigger] nonce_of(
                        final(self).nonces_view(),
                        a,
                    ) == nonce_of(old(self).nonces_view(), a) + count_from(block.txs@, a)
                &&& final(self).mempool@ == uncommitted(old(self).mempool@, block.txs@)
                &&& mldsa3_accepts(
                    encode_utf8(block.hash@),
                    crate::util::hex_decode(block.validator_sig@),
                    crate::util::hex_decode(block.validator_pk@),
                )
            },
    {
        let last = self.chain.len() - 1;
        if !text_eq(block.parent.as_str(), self.chain[last].hash.as_str()) {
            return Err(String::from_str("parent mismatch"));
        }
        if self.chain[last].height == u64::MAX || block.height != self.chain[last].height + 1 {
            return Err(String::from_str("height mismatch"));
        }
        match verify_block_poa(cfg, self.chain[last].hash.as_str(), &block) {
            Err(e) => return Err(e),
            Ok(()) => {},
        }
        execute(&mut self.ctx, &mut self.nonces, &block.txs);
        let out = block.copy();
        self.drop_committed(&block.txs);
        self.chain.push(block);
        proof {
            assert(self.chain@.drop_last() =~= old(self).chain@);
        }
        Ok(out)
    }
}

} // verus!
