use qsc_rs_simple_contracts::admission::canonical_payload;
use qsc_rs_simple_contracts::consensus::{eq_ignore_ascii_case, PoAConfig, Validator};
use qsc_rs_simple_contracts::contracts::token::{add_u64, is_valid_addr, sub_u64, Token};
use qsc_rs_simple_contracts::contracts::{dispatch_mut, dispatch_query, Contract, Ctx, CtxError};
use qsc_rs_simple_contracts::json::Json;
use qsc_rs_simple_contracts::runtime::header_hash;
use qsc_rs_simple_contracts::security::allowed_sig_algs;
use qsc_rs_simple_contracts::types::RpcCall;
use qsc_rs_simple_contracts::util::{current_hash_alg, decode_hex_or_empty, hash_hex, HashAlg};

fn obj(members: Vec<(&str, Json)>) -> Json {
    Json::Object(members.into_iter().map(|(k, v)| (k.to_string(), v)).collect())
}

fn addr(c: char) -> String {
    std::iter::repeat(c).take(128).collect()
}

fn token_ctx(cap: u64) -> Ctx {
    let mut ctx = Ctx::new();
    ctx.register(Contract::Token(Token { max_supply: cap, minter: "minter".to_string() }));
    ctx
}

fn mint(ctx: &mut Ctx, to: &str, amount: u64) -> Result<Json, CtxError> {
    let args = obj(vec![("to", Json::Str(to.to_string())), ("amount", Json::UInt(amount))]);
    dispatch_mut(ctx, "minter", "token", "mint", &args)
}

fn transfer(ctx: &mut Ctx, from: &str, to: &str, amount: u64) -> Result<Json, CtxError> {
    let args = obj(vec![("to", Json::Str(to.to_string())), ("amount", Json::UInt(amount))]);
    dispatch_mut(ctx, from, "token", "transfer", &args)
}

fn bal(ctx: &Ctx, who: &str) -> u64 {
    match dispatch_query(ctx, "token", "balance_of", &obj(vec![("who", Json::Str(who.to_string()))])) {
        Ok(Json::UInt(n)) => n,
        _ => panic!("no balance"),
    }
}

fn total(ctx: &Ctx) -> u64 {
    match dispatch_query(ctx, "token", "total_supply", &obj(vec![])) {
        Ok(Json::UInt(n)) => n,
        _ => panic!("no total"),
    }
}

fn logic(r: Result<Json, CtxError>) -> String {
    match r {
        Err(CtxError::Logic(m)) => m,
        other => panic!("expected a logic error, got {:?}", other),
    }
}

fn bad_args(r: Result<Json, CtxError>) -> String {
    match r {
        Err(CtxError::BadArgs(m)) => m,
        other => panic!("expected bad args, got {:?}", other),
    }
}

#[test]
fn empty_token_reads_zero() {
    let ctx = token_ctx(u64::MAX);
    assert_eq!(total(&ctx), 0);
    assert_eq!(bal(&ctx, &addr('a')), 0);
}

#[test]
fn mint_and_transfer_keep_sum() {
    let mut ctx = token_ctx(u64::MAX);
    let (a, b) = (addr('a'), addr('b'));
    assert!(mint(&mut ctx, &a, 70).is_ok());
    assert!(mint(&mut ctx, &b, 30).is_ok());
    assert!(transfer(&mut ctx, &a, &b, 20).is_ok());
    assert_eq!(bal(&ctx, &a), 50);
    assert_eq!(bal(&ctx, &b), 50);
    assert_eq!(total(&ctx), bal(&ctx, &a) + bal(&ctx, &b));
}

#[test]
fn mint_receipt_names_event() {
    let mut ctx = token_ctx(u64::MAX);
    let a = addr('c');
    let r = mint(&mut ctx, &a, 9).unwrap();
    assert_eq!(r.to_text(), format!("{{\"ok\":true,\"event\":\"Mint\",\"to\":\"{}\",\"amount\":9}}", a));
}

#[test]
fn cap_and_overflow() {
    let mut ctx = token_ctx(100);
    let a = addr('a');
    assert!(mint(&mut ctx, &a, 100).is_ok());
    assert_eq!(logic(mint(&mut ctx, &a, 1)), "max supply exceeded");
    let mut big = token_ctx(u64::MAX);
    assert!(mint(&mut big, &a, u64::MAX).is_ok());
    assert_eq!(logic(mint(&mut big, &a, 1)), "overflow");
    assert_eq!(total(&big), u64::MAX);
}

#[test]
fn transfer_errors() {
    let mut ctx = token_ctx(u64::MAX);
    let (a, b) = (addr('a'), addr('b'));
    assert!(mint(&mut ctx, &a, 5).is_ok());
    assert_eq!(logic(transfer(&mut ctx, &a, &b, 6)), "underflow");
    assert_eq!(logic(transfer(&mut ctx, &a, &a, 1)), "self-transfer not allowed");
    assert_eq!(bad_args(transfer(&mut ctx, &a, "xyz", 1)), "to (invalid addr)");
    assert_eq!(bad_args(transfer(&mut ctx, &a, &b, 0)), "amount must be > 0");
    let no_amount = obj(vec![("to", Json::Str(b.clone()))]);
    assert_eq!(bad_args(dispatch_mut(&mut ctx, &a, "token", "transfer", &no_amount)), "amount");
    assert_eq!(bad_args(dispatch_mut(&mut ctx, "minter", "token", "mint", &obj(vec![]))), "to");
    assert!(matches!(dispatch_mut(&mut ctx, &a, "token", "burn", &obj(vec![])), Err(CtxError::MethodNotFound)));
    assert!(matches!(dispatch_mut(&mut ctx, &a, "nft", "mint", &obj(vec![])), Err(CtxError::ContractNotFound)));
    assert!(matches!(dispatch_query(&ctx, "nft", "total_supply", &obj(vec![])), Err(CtxError::ContractNotFound)));
    assert!(matches!(dispatch_query(&ctx, "token", "balance_of", &obj(vec![])), Err(CtxError::BadArgs(_))));
    assert_eq!(bal(&ctx, &a), 5);
    assert_eq!(total(&ctx), 5);
}

#[test]
fn only_the_minter_mints() {
    let mut ctx = token_ctx(u64::MAX);
    let a = addr('a');
    let args = obj(vec![("to", Json::Str(a.clone())), ("amount", Json::UInt(5))]);
    assert_eq!(logic(dispatch_mut(&mut ctx, &a, "token", "mint", &args)), "mint not allowed for this sender");
    assert_eq!(total(&ctx), 0);
    assert_eq!(bal(&ctx, &a), 0);
}

#[test]
fn checked_arithmetic() {
    assert_eq!(add_u64(2, 3).unwrap(), 5);
    assert!(matches!(add_u64(u64::MAX, 1), Err(CtxError::Logic(_))));
    assert_eq!(sub_u64(5, 5).unwrap(), 0);
    assert!(matches!(sub_u64(0, 1), Err(CtxError::Logic(_))));
}

#[test]
fn address_shape() {
    assert!(is_valid_addr(&addr('F')));
    assert!(!is_valid_addr(&addr('g')));
    assert!(!is_valid_addr("abc"));
}

#[test]
fn known_digests() {
    assert_eq!(
        hash_hex(HashAlg::Sha3_512, b""),
        "a69f73cca23a9ac5c8b567dc185a756e97c982164fe25859e0d1dcc1475c80a615b2123af1f5f94c11e3e9402c3ac558f500199d95b6d3e301758586281dcd26"
    );
    assert_eq!(
        hash_hex(HashAlg::Blake2b512, b""),
        "786a02f742015903c6c6fd852552d272912f4740e15847618a86e217f71f5419d25e1031afee585313896444934eb04b903a685b1448b755d56f701afe9be2ce"
    );
}

#[test]
fn block_hash_digests_header() {
    let parent = "0".repeat(128);
    let header = format!("{}|{}|{}|{}", parent, 4u64, 2usize, 77u128);
    assert_eq!(header_hash(HashAlg::Sha3_512, &parent, 4, 2, 77), hash_hex(HashAlg::Sha3_512, header.as_bytes()));
}

#[test]
fn hex_decoding() {
    assert_eq!(decode_hex_or_empty("0aFf"), vec![10u8, 255]);
    assert_eq!(decode_hex_or_empty("abc"), Vec::<u8>::new());
    assert_eq!(decode_hex_or_empty("zz"), Vec::<u8>::new());
}

#[test]
fn canonical_payload_is_fixed_text() {
    let body = RpcCall {
        from: "ab".to_string(),
        contract: "token".to_string(),
        method: "mint".to_string(),
        args: obj(vec![("to", Json::Str("x\"y".to_string())), ("amount", Json::UInt(5)), ("l", Json::Array(vec![Json::Null, Json::Bool(false), Json::OtherNumber("-1.5".to_string())]))]),
        alg: "mldsa3".to_string(),
        pk: String::new(),
        sig: String::new(),
        nonce: 3,
        chain_id: "c".to_string(),
    };
    let expected = "{\"from\":\"ab\",\"nonce\":3,\"chain_id\":\"c\",\"contract\":\"token\",\"method\":\"mint\",\"args\":{\"to\":\"x\\\"y\",\"amount\":5,\"l\":[null,false,-1.5]}}";
    assert_eq!(canonical_payload(&body), expected);
    assert_eq!(canonical_payload(&body), canonical_payload(&body));
}

#[test]
fn allow_list_parsing() {
    assert_eq!(allowed_sig_algs(None), vec!["mldsa3".to_string()]);
    assert_eq!(allowed_sig_algs(Some(" MLDSA3, ,Foo ")), vec!["mldsa3".to_string(), "foo".to_string()]);
    assert_eq!(allowed_sig_algs(Some("")), Vec::<String>::new());
}

#[test]
fn hash_alg_selection() {
    assert_eq!(current_hash_alg(None), HashAlg::Sha3_512);
    assert_eq!(current_hash_alg(Some("BLAKE2")), HashAlg::Blake2b512);
    assert_eq!(current_hash_alg(Some("blake2b-512")), HashAlg::Blake2b512);
    assert_eq!(current_hash_alg(Some("sha3-512")), HashAlg::Sha3_512);
}

#[test]
fn leader_rotation_and_case() {
    let v = |p: &str| Validator { id: p.to_string(), url: String::new(), pk: p.to_string() };
    let cfg = PoAConfig { validators: vec![v("aa"), v("bb"), v("cc")], slot_ms: 3000 };
    assert_eq!(cfg.expected_leader(0).pk, "aa");
    assert_eq!(cfg.expected_leader(4).pk, "bb");
    assert_eq!(cfg.expected_leader(5).pk, "cc");
    assert!(eq_ignore_ascii_case("AbC", "aBc"));
    assert!(!eq_ignore_ascii_case("abc", "abd"));
    assert!(!eq_ignore_ascii_case("abc", "ab"));
}

#[test]
fn json_string_escapes() {
    let j = Json::Str("a\"b\\c\nd\u{1}e\u{1f}é".to_string());
    assert_eq!(j.to_text(), "\"a\\\"b\\\\c\\nd\\u0001e\\u001fé\"");
}

#[test]
fn allow_list_trims_unicode_white_space() {
    assert_eq!(allowed_sig_algs(Some("\u{3000}MLDSA3\t,\u{a0}")), vec!["mldsa3".to_string()]);
}
