use qsc_rs_simple_contracts::admission::{canonical_payload, AdmitError};
use qsc_rs_simple_contracts::consensus::{verify_block_poa, PoAConfig, Validator};
use qsc_rs_simple_contracts::contracts::CtxError;
use qsc_rs_simple_contracts::json::Json;
use qsc_rs_simple_contracts::pq::{address_from_pk, keygen_mldsa3, sign_mldsa3, verify_mldsa3, SIGNATURE_BYTES};
use qsc_rs_simple_contracts::runtime::{new_shared, NodeConfig, Runtime};
use qsc_rs_simple_contracts::types::RpcCall;
use qsc_rs_simple_contracts::util::HashAlg;

struct Key {
    sk: Vec<u8>,
    pk: Vec<u8>,
    addr: String,
}

fn key() -> Key {
    let (sk, pk) = keygen_mldsa3();
    let addr = address_from_pk(HashAlg::Sha3_512, &pk);
    Key { sk, pk, addr }
}

fn node(chain_id: &str, validator: &Key, minter: Option<String>) -> Runtime {
    new_shared(NodeConfig {
        chain_id: chain_id.to_string(),
        validator_sk: validator.sk.clone(),
        validator_pk: validator.pk.clone(),
        hash_alg: HashAlg::Sha3_512,
        sig_algs_allowed: vec!["mldsa3".to_string()],
        minter,
        max_supply: u64::MAX,
        max_tx_per_block: 100,
        max_pending_per_addr: 100,
        genesis_ms: 0,
    })
}

fn obj(members: Vec<(&str, Json)>) -> Json {
    Json::Object(members.into_iter().map(|(k, v)| (k.to_string(), v)).collect())
}

fn signed(k: &Key, chain_id: &str, method: &str, args: Json, nonce: u64) -> RpcCall {
    let mut body = RpcCall {
        from: k.addr.clone(),
        contract: "token".to_string(),
        method: method.to_string(),
        args,
        alg: "mldsa3".to_string(),
        pk: hex::encode(&k.pk),
        sig: String::new(),
        nonce,
        chain_id: chain_id.to_string(),
    };
    let payload = canonical_payload(&body);
    body.sig = hex::encode(&sign_mldsa3(payload.as_bytes(), &k.sk));
    body
}

fn transfer_args(to: &str, amount: u64) -> Json {
    obj(vec![("to", Json::Str(to.to_string())), ("amount", Json::UInt(amount))])
}

fn balance(rt: &Runtime, who: &str) -> u64 {
    let args = obj(vec![("who", Json::Str(who.to_string()))]);
    match rt.dispatch_query("token", "balance_of", &args) {
        Ok(Json::UInt(n)) => n,
        _ => panic!("balance_of did not return a number"),
    }
}

fn supply(rt: &Runtime) -> u64 {
    match rt.dispatch_query("token", "total_supply", &obj(vec![])) {
        Ok(Json::UInt(n)) => n,
        _ => panic!("total_supply did not return a number"),
    }
}

fn minted(chain_id: &str) -> (Runtime, Key) {
    let k = key();
    let mut rt = node(chain_id, &k, None);
    let body = signed(&k, chain_id, "mint", transfer_args(&k.addr, 1000), 0);
    assert!(matches!(rt.submit_call(body), Ok(true)));
    rt.produce_block_at(1);
    (rt, k)
}

#[test]
fn keygen_mint_balance() {
    let (rt, k) = minted("qsc-test");
    assert_eq!(balance(&rt, &k.addr), 1000);
    assert_eq!(supply(&rt), 1000);
    assert_eq!(rt.next_nonce(&k.addr), 1);
    assert_eq!(rt.head().height, 1);
    assert_eq!(rt.head().txs.len(), 1);
}

#[test]
fn transfer_moves_balance() {
    let (mut rt, k) = minted("qsc-test");
    let other = key();
    let body = signed(&k, "qsc-test", "transfer", transfer_args(&other.addr, 400), 1);
    assert!(matches!(rt.submit_call(body), Ok(true)));
    rt.produce_block_at(2);
    assert_eq!(balance(&rt, &k.addr), 600);
    assert_eq!(balance(&rt, &other.addr), 400);
    assert_eq!(supply(&rt), 1000);
    assert_eq!(rt.next_nonce(&k.addr), 2);
}

#[test]
fn self_transfer_is_included_but_fails() {
    let (mut rt, k) = minted("qsc-test");
    let body = signed(&k, "qsc-test", "transfer", transfer_args(&k.addr, 1), 1);
    assert!(matches!(rt.submit_call(body), Ok(true)));
    let b = rt.produce_block_at(2);
    assert_eq!(b.txs.len(), 1);
    assert_eq!(rt.next_nonce(&k.addr), 2);
    assert_eq!(balance(&rt, &k.addr), 1000);
    assert_eq!(supply(&rt), 1000);
    let mut ctx_rt = rt;
    let call = ctx_rt.head().txs[0].call.copy();
    match ctx_rt.dispatch_mut(&call) {
        Err(CtxError::Logic(m)) => assert_eq!(m, "self-transfer not allowed"),
        _ => panic!("expected a logic error"),
    }
}

#[test]
fn bad_nonce_names_expected() {
    let (mut rt, k) = minted("qsc-test");
    let other = key();
    let body = signed(&k, "qsc-test", "transfer", transfer_args(&other.addr, 1), 1);
    assert!(matches!(rt.submit_call(body), Ok(true)));
    rt.produce_block_at(2);
    let body = signed(&k, "qsc-test", "transfer", transfer_args(&other.addr, 1), 5);
    match rt.submit_call(body) {
        Err(e @ AdmitError::BadNonce(2)) => assert_eq!(e.message(), "bad nonce"),
        _ => panic!("expected bad nonce"),
    }
}

#[test]
fn non_minter_cannot_mint() {
    let (mut rt, k) = minted("qsc-test");
    let holder = key();
    let body = signed(&holder, "qsc-test", "mint", transfer_args(&holder.addr, 5), 0);
    match rt.submit_call(body) {
        Err(e @ AdmitError::MintNotAllowed(_)) => {
            assert_eq!(e.message(), "mint not allowed for this sender");
            if let AdmitError::MintNotAllowed(m) = e {
                assert_eq!(m, k.addr);
            }
        }
        _ => panic!("expected the minter gate"),
    }
    assert_eq!(rt.mempool.len(), 0);
}

#[test]
fn replay_after_commit_is_bad_nonce() {
    let k = key();
    let mut rt = node("qsc-test", &k, None);
    let body = signed(&k, "qsc-test", "mint", transfer_args(&k.addr, 10), 0);
    let again = signed(&k, "qsc-test", "mint", transfer_args(&k.addr, 10), 0);
    assert!(matches!(rt.submit_call(body), Ok(true)));
    rt.produce_block_at(1);
    assert!(matches!(rt.submit_call(again), Err(AdmitError::BadNonce(1))));
}

#[test]
fn other_chain_id_is_rejected() {
    let k = key();
    let mut rt = node("qsc-other", &k, None);
    let body = signed(&k, "qsc-test", "mint", transfer_args(&k.addr, 10), 0);
    match rt.submit_call(body) {
        Err(AdmitError::WrongChainId(c)) => assert_eq!(c, "qsc-other"),
        _ => panic!("expected wrong chain id"),
    }
}

#[test]
fn from_must_match_key() {
    let k = key();
    let other = key();
    let mut rt = node("qsc-test", &k, None);
    let mut body = signed(&k, "qsc-test", "mint", transfer_args(&k.addr, 10), 0);
    body.from = other.addr.clone();
    match rt.submit_call(body) {
        Err(AdmitError::FromMismatch(a)) => assert_eq!(a, k.addr),
        _ => panic!("expected from mismatch"),
    }
}

#[test]
fn unknown_algorithm_and_bad_signature() {
    let k = key();
    let mut rt = node("qsc-test", &k, None);
    let mut body = signed(&k, "qsc-test", "mint", transfer_args(&k.addr, 10), 0);
    body.alg = "ed25519".to_string();
    assert!(matches!(rt.submit_call(body), Err(AdmitError::AlgNotAllowed(_))));
    let mut body = signed(&k, "qsc-test", "mint", transfer_args(&k.addr, 10), 0);
    body.args = transfer_args(&k.addr, 11);
    assert!(matches!(rt.submit_call(body), Err(AdmitError::InvalidSignature)));
}

#[test]
fn algorithm_name_in_any_case() {
    let (mut rt, k) = minted("qsc-test");
    let other = key();
    let mut body = signed(&k, "qsc-test", "transfer", transfer_args(&other.addr, 1), 1);
    body.alg = "MLDSA3".to_string();
    assert!(matches!(rt.submit_call(body), Ok(true)));
}

#[test]
fn signatures_verify_under_the_pair() {
    let k = key();
    let other = key();
    let sig = sign_mldsa3(b"payload", &k.sk);
    assert_eq!(sig.len(), SIGNATURE_BYTES);
    assert_eq!(sig, sign_mldsa3(b"payload", &k.sk));
    assert!(verify_mldsa3(b"payload", &sig, &k.pk));
    assert!(!verify_mldsa3(b"payload!", &sig, &k.pk));
    assert!(!verify_mldsa3(b"payload", &sig, &other.pk));
    assert!(!verify_mldsa3(b"payload", &sig[..sig.len() - 1], &k.pk));
    let rt = node("qsc-test", &k, None);
    let g = rt.head();
    let gsig = hex::decode(&g.validator_sig).unwrap();
    assert!(verify_mldsa3(g.hash.as_bytes(), &gsig, &k.pk));
    assert_eq!(g.hash.len(), 128);
}

#[test]
fn pending_cap_drops_silently() {
    let k = key();
    let mut rt = node("qsc-test", &k, None);
    rt.max_pending_per_addr = 1;
    let a = signed(&k, "qsc-test", "mint", transfer_args(&k.addr, 1), 0);
    let b = signed(&k, "qsc-test", "mint", transfer_args(&k.addr, 1), 0);
    assert!(matches!(rt.submit_call(a), Ok(true)));
    assert!(matches!(rt.submit_call(b), Ok(false)));
    assert_eq!(rt.mempool.len(), 1);
}

#[test]
fn block_takes_at_most_the_drain_cap() {
    let k = key();
    let mut rt = node("qsc-test", &k, None);
    rt.max_tx_per_block = 1;
    let others: Vec<Key> = (0..2).map(|_| key()).collect();
    for o in &others {
        let body = signed(o, "qsc-test", "transfer", transfer_args(&k.addr, 1), 0);
        assert!(matches!(rt.submit_call(body), Ok(true)));
    }
    let b = rt.produce_block_at(5);
    assert_eq!(b.txs.len(), 1);
    assert_eq!(b.txs[0].call.from, others[0].addr);
    assert_eq!(rt.mempool.len(), 1);
    assert_eq!(b.timestamp, 5);
}

fn validators(keys: &[&Key]) -> PoAConfig {
    PoAConfig {
        validators: keys
            .iter()
            .enumerate()
            .map(|(i, k)| Validator { id: format!("v{}", i), url: format!("http://v{}", i), pk: hex::encode(&k.pk) })
            .collect(),
        slot_ms: 3000,
    }
}

#[test]
fn poa_happy_path() {
    let k1 = key();
    let k2 = key();
    let cfg = validators(&[&k2, &k1]);
    let mut v1 = node("qsc-test", &k1, None);
    let mut v2 = node("qsc-test", &k2, Some(k1.addr.clone()));
    assert_eq!(v1.head().hash, v2.head().hash);
    assert!(v1.is_next_leader(&cfg));
    assert!(!v2.is_next_leader(&cfg));
    assert_eq!(cfg.expected_leader(1).pk, hex::encode(&k1.pk));
    let body = signed(&k1, "qsc-test", "mint", transfer_args(&k1.addr, 7), 0);
    assert!(matches!(v1.submit_call(body), Ok(true)));
    let b1 = v1.produce_block_at(10);
    let applied = v2.apply_external_block(&cfg, b1.copy()).expect("block 1 applies");
    assert_eq!(applied.height, 1);
    assert_eq!(v2.head().hash, v1.head().hash);
    assert_eq!(balance(&v2, &k1.addr), 7);
    assert_eq!(v2.next_nonce(&k1.addr), 1);
    let b2 = v2.produce_block_at(20);
    assert!(v1.apply_external_block(&cfg, b2).is_ok());
    assert_eq!(v1.head().height, 2);
    assert_eq!(v1.head().hash, v2.head().hash);
}

#[test]
fn wrong_leader_rejected() {
    let k1 = key();
    let k2 = key();
    let cfg = validators(&[&k2, &k1]);
    let mut v1 = node("qsc-test", &k1, None);
    let mut v2 = node("qsc-test", &k2, None);
    let b1 = v1.produce_block_at(10);
    assert!(v2.apply_external_block(&cfg, b1).is_ok());
    let b2 = v1.produce_block_at(20);
    match v2.apply_external_block(&cfg, b2) {
        Err(e) => assert!(e.starts_with("unexpected leader")),
        Ok(_) => panic!("a block from the wrong leader was applied"),
    }
    assert_eq!(v2.head().height, 1);
}

#[test]
fn external_block_parent_and_height_checked() {
    let k1 = key();
    let k2 = key();
    let cfg = validators(&[&k2, &k1]);
    let mut v1 = node("qsc-test", &k1, None);
    let mut v2 = node("qsc-test", &k2, None);
    let b1 = v1.produce_block_at(10);
    let mut wrong_parent = b1.copy();
    wrong_parent.parent = "f".repeat(128);
    assert_eq!(v2.apply_external_block(&cfg, wrong_parent).unwrap_err(), "parent mismatch");
    let mut wrong_height = b1.copy();
    wrong_height.height = 3;
    assert_eq!(v2.apply_external_block(&cfg, wrong_height).unwrap_err(), "height mismatch");
    let mut forged = b1.copy();
    forged.hash = "0".repeat(128);
    assert_eq!(v2.apply_external_block(&cfg, forged).unwrap_err(), "invalid leader signature");
    let parent = v2.head().hash;
    assert!(verify_block_poa(&cfg, &parent, &b1).is_ok());
}

#[test]
fn external_block_clears_committed_from_mempool() {
    let k1 = key();
    let k2 = key();
    let cfg = validators(&[&k2, &k1]);
    let mut v1 = node("qsc-test", &k1, None);
    let mut v2 = node("qsc-test", &k2, Some(k1.addr.clone()));
    let body = signed(&k1, "qsc-test", "mint", transfer_args(&k1.addr, 3), 0);
    let copy = signed(&k1, "qsc-test", "mint", transfer_args(&k1.addr, 3), 0);
    assert!(matches!(v1.submit_call(body), Ok(true)));
    assert!(matches!(v2.submit_call(copy), Ok(true)));
    let b1 = v1.produce_block_at(10);
    assert!(v2.apply_external_block(&cfg, b1).is_ok());
    assert_eq!(v2.mempool.len(), 0);
}
