//! The built-in token: mint, transfer, total supply and balances, with
//! checked 64-bit accounting in the `token` namespace.
use vstd::prelude::*;
use crate::json::{Json, JsonV};
use crate::store::{has_key, key_index, keys_unique, lookup, put, ns_view, ns_get, ns_put, text_eq, lemma_put, lemma_key_index_unique};
use crate::util::is_hex_char;
use super::{CtxError, CtxResult, Failure, result_view};

verus! {

broadcast use vstd::seq::group_seq_axioms;

/// The token contract; `max_supply` caps the total supply and only
/// `minter` may mint.
#[derive(Debug)]
pub struct Token {
    pub max_supply: u64,
    pub minter: String,
}

/// A token namespace as a mathematical value.
pub type NsV = Seq<(Seq<char>, JsonV)>;

pub open spec fn total_key() -> Seq<char> {
    "total_supply"@
}

/// A well-formed account address: 128 hex digits.
pub open spec fn is_address(s: Seq<char>) -> bool {
    s.len() == 128 && forall|i: int| 0 <= i < s.len() ==> #[trigger] is_hex_char(s[i])
}

/// The amount stored under `k`: its value where it is an unsigned integer, else 0.
pub open spec fn amount_of(ns: NsV, k: Seq<char>) -> nat {
    match lookup(ns, k) {
        Some(JsonV::UInt(n)) => n as nat,
        _ => 0,
    }
}

/// What one entry adds to the sum of balances.
pub open spec fn entry_balance(p: (Seq<char>, JsonV)) -> nat {
    if p.0 == total_key() {
        0
    } else {
        match p.1 {
            JsonV::UInt(n) => n as nat,
            _ => 0,
        }
    }
}

/// The sum of all balances: every entry but the total supply.
pub open spec fn balance_sum(ns: NsV) -> nat
    decreases ns.len(),
{
    if ns.len() == 0 {
        0
    } else {
        balance_sum(ns.drop_last()) + entry_balance(ns.last())
    }
}

/// The token's accounting invariant: the balances sum to the total supply,
/// which stays within the cap.
pub open spec fn supply_invariant(ns: NsV, cap: u64) -> bool {
    &&& keys_unique(ns)
    &&& balance_sum(ns) == amount_of(ns, total_key())
    &&& amount_of(ns, total_key()) <= cap
}

pub open spec fn text_arg(args: JsonV, key: Seq<char>) -> Option<Seq<char>> {
    match args.field(key) {
        Some(v) => v.as_text(),
        None => None,
    }
}

pub open spec fn u64_arg(args: JsonV, key: Seq<char>) -> Option<u64> {
    match args.field(key) {
        Some(v) => v.as_u64(),
        None => None,
    }
}

pub open spec fn event(name: Seq<char>, parties: Seq<(Seq<char>, JsonV)>, amount: u64) -> JsonV {
    JsonV::Object(
        seq![("ok"@, JsonV::Bool(true)), ("event"@, JsonV::Str(name))] + parties + seq![
            ("amount"@, JsonV::UInt(amount)),
        ],
    )
}

/// `mint {to, amount}` by `caller`: the namespace after the call and its outcome.
pub open spec fn mint_effect(ns: NsV, caller: Seq<char>, args: JsonV, cap: u64, minter: Seq<char>) -> (
    NsV,
    Result<JsonV, Failure>,
) {
    if caller != minter {
        (ns, Err(Failure::Logic("mint not allowed for this sender"@)))
    } else {
        mint_checked(ns, args, cap)
    }
}

/// `mint {to, amount}` once the caller is known to be the minter.
pub open spec fn mint_checked(ns: NsV, args: JsonV, cap: u64) -> (NsV, Result<JsonV, Failure>) {
    match text_arg(args, "to"@) {
        None => (ns, Err(Failure::BadArgs("to"@))),
        Some(to) => if !is_address(to) {
            (ns, Err(Failure::BadArgs("to (invalid addr)"@)))
        } else {
            match u64_arg(args, "amount"@) {
                None => (ns, Err(Failure::BadArgs("amount"@))),
                Some(amount) => if amount == 0 {
                    (ns, Err(Failure::BadArgs("amount must be > 0"@)))
                } else {
                    let total = amount_of(ns, total_key());
                    if total + amount > u64::MAX {
                        (ns, Err(Failure::Logic("overflow"@)))
                    } else if total + amount > cap {
                        (ns, Err(Failure::Logic("max supply exceeded"@)))
                    } else {
                        let ns1 = put(ns, total_key(), JsonV::UInt((total + amount) as u64));
                        let bal = amount_of(ns1, to);
                        if bal + amount > u64::MAX {
                            (ns1, Err(Failure::Logic("overflow"@)))
                        } else {
                            (
                                put(ns1, to, JsonV::UInt((bal + amount) as u64)),
                                Ok(event("Mint"@, seq![("to"@, JsonV::Str(to))], amount)),
                            )
                        }
                    }
                },
            }
        },
    }
}

/// `transfer {to, amount}` by `caller`: the namespace after the call and its outcome.
pub open spec fn transfer_effect(ns: NsV, caller: Seq<char>, args: JsonV) -> (
    NsV,
    Result<JsonV, Failure>,
) {
    match text_arg(args, "to"@) {
        None => (ns, Err(Failure::BadArgs("to"@))),
        Some(to) => if !is_address(to) {
            (ns, Err(Failure::BadArgs("to (invalid addr)"@)))
        } else if to == caller {
            (ns, Err(Failure::Logic("self-transfer not allowed"@)))
        } else {
            match u64_arg(args, "amount"@) {
                None => (ns, Err(Failure::BadArgs("amount"@))),
                Some(amount) => if amount == 0 {
                    (ns, Err(Failure::BadArgs("amount must be > 0"@)))
                } else {
                    let from_bal = amount_of(ns, caller);
                    if from_bal < amount {
                        (ns, Err(Failure::Logic("underflow"@)))
                    } else {
                        let ns1 = put(ns, caller, JsonV::UInt((from_bal - amount) as u64));
                        let to_bal = amount_of(ns1, to);
                        if to_bal + amount > u64::MAX {
                            (ns1, Err(Failure::Logic("overflow"@)))
                        } else {
                            (
                                put(ns1, to, JsonV::UInt((to_bal + amount) as u64)),
                                Ok(
                                    event(
                                        "Transfer"@,
                                        seq![("from"@, JsonV::Str(caller)), ("to"@, JsonV::Str(to))],
                                        amount,
                                    ),
                                ),
                            )
                        }
                    }
                },
            }
        },
    }
}

/// A state-changing call on the token.
pub open spec fn token_call(
    ns: NsV,
    caller: Seq<char>,
    method: Seq<char>,
    args: JsonV,
    cap: u64,
    minter: Seq<char>,
) -> (NsV, Result<JsonV, Failure>) {
    if method == "mint"@ {
        mint_effect(ns, caller, args, cap, minter)
    } else if method == "transfer"@ {
        transfer_effect(ns, caller, args)
    } else {
        (ns, Err(Failure::MethodNotFound))
    }
}

/// A read-only query on the token.
pub open spec fn token_query(ns: NsV, method: Seq<char>, args: JsonV) -> Result<JsonV, Failure> {
    if method == "total_supply"@ {
        match lookup(ns, total_key()) {
            Some(v) => Ok(v),
            None => Ok(JsonV::UInt(0)),
        }
    } else if method == "balance_of"@ {
        match text_arg(args, "who"@) {
            None => Err(Failure::BadArgs("who"@)),
            Some(who) => match lookup(ns, who) {
                Some(v) => Ok(v),
                None => Ok(JsonV::UInt(0)),
            },
        }
    } else {
        Err(Failure::MethodNotFound)
    }
}

proof fn lemma_sum_update(s: NsV, i: int, p: (Seq<char>, JsonV))
    requires
        0 <= i < s.len(),
    ensures
        balance_sum(s.update(i, p)) == balance_sum(s) - entry_balance(s[i]) + entry_balance(p),
    decreases s.len(),
{
    let t = s.update(i, p);
    if i == s.len() - 1 {
        assert(t.drop_last() =~= s.drop_last());
    } else {
        lemma_sum_update(s.drop_last(), i, p);
        assert(t.drop_last() =~= s.drop_last().update(i, p));
    }
}

proof fn lemma_entry_le_sum(s: NsV, i: int)
    requires
        0 <= i < s.len(),
    ensures
        entry_balance(s[i]) <= balance_sum(s),
    decreases s.len(),
{
    if i < s.len() - 1 {
        lemma_entry_le_sum(s.drop_last(), i);
    }
}

proof fn lemma_total_key_len()
    ensures
        total_key().len() == 12,
{
    reveal_strlit("total_supply");
}

/// For a key other than the total supply, its amount is what its entry adds to the sum.
proof fn lemma_amount_is_entry(s: NsV, k: Seq<char>)
    requires
        keys_unique(s),
        k != total_key(),
    ensures
        amount_of(s, k) == (if has_key(s, k) { entry_balance(s[key_index(s, k)]) } else { 0 }),
        amount_of(s, k) <= balance_sum(s),
{
    if has_key(s, k) {
        let i = key_index(s, k);
        lemma_key_index_unique(s, k, i);
        lemma_entry_le_sum(s, i);
    }
}

proof fn lemma_put_sum(s: NsV, k: Seq<char>, n: u64)
    requires
        keys_unique(s),
    ensures
        k != total_key() ==> balance_sum(put(s, k, JsonV::UInt(n))) == balance_sum(s) - amount_of(s, k) + n,
        k == total_key() ==> balance_sum(put(s, k, JsonV::UInt(n))) == balance_sum(s),
{
    if k != total_key() {
        lemma_amount_is_entry(s, k);
    }
    if has_key(s, k) {
        let i = key_index(s, k);
        lemma_key_index_unique(s, k, i);
        lemma_sum_update(s, i, (k, JsonV::UInt(n)));
    } else {
        assert(s.push((k, JsonV::UInt(n))).drop_last() =~= s);
    }
}

/// An empty namespace meets the supply invariant under any cap.
pub proof fn lemma_empty_supply_invariant(cap: u64)
    ensures
        supply_invariant(Seq::empty(), cap),
{
}

/// The supply invariant is kept by every call on the token, whatever its
/// method and arguments, from any caller other than the total-supply key.
pub proof fn lemma_call_keeps_supply_invariant(
    ns: NsV,
    caller: Seq<char>,
    method: Seq<char>,
    args: JsonV,
    cap: u64,
    minter: Seq<char>,
)
    requires
        supply_invariant(ns, cap),
        caller != total_key(),
    ensures
        supply_invariant(token_call(ns, caller, method, args, cap, minter).0, cap),
{
    lemma_total_key_len();
    let total = amount_of(ns, total_key());
    if method == "mint"@ && caller == minter {
        if let Some(to) = text_arg(args, "to"@) {
            if let Some(amount) = u64_arg(args, "amount"@) {
                if is_address(to) && amount != 0 && total + amount <= u64::MAX && total + amount <= cap {
                    let ns1 = put(ns, total_key(), JsonV::UInt((total + amount) as u64));
                    lemma_put(ns, total_key(), JsonV::UInt((total + amount) as u64));
                    lemma_put_sum(ns, total_key(), (total + amount) as u64);
                    assert(to != total_key());
                    assert(amount_of(ns1, to) == amount_of(ns, to));
                    lemma_amount_is_entry(ns, to);
                    let bal = amount_of(ns1, to);
                    lemma_put(ns1, to, JsonV::UInt((bal + amount) as u64));
                    lemma_put_sum(ns1, to, (bal + amount) as u64);
                }
            }
        }
    } else if method == "transfer"@ {
        if let Some(to) = text_arg(args, "to"@) {
            if let Some(amount) = u64_arg(args, "amount"@) {
                let from_bal = amount_of(ns, caller);
                if is_address(to) && to != caller && amount != 0 && from_bal >= amount {
                    let ns1 = put(ns, caller, JsonV::UInt((from_bal - amount) as u64));
                    lemma_put(ns, caller, JsonV::UInt((from_bal - amount) as u64));
                    lemma_put_sum(ns, caller, (from_bal - amount) as u64);
                    assert(to != total_key());
                    assert(amount_of(ns1, total_key()) == total);
                    assert(amount_of(ns1, to) == amount_of(ns, to));
                    lemma_amount_is_entry(ns1, to);
                    let to_bal = amount_of(ns1, to);
                    lemma_put(ns1, to, JsonV::UInt((to_bal + amount) as u64));
                    lemma_put_sum(ns1, to, (to_bal + amount) as u64);
                }
            }
        }
    }
}

/// Checked addition; an overflow is the logic error `overflow`.
pub fn add_u64(a: u64, b: u64) -> (r: Result<u64, CtxError>)
    ensures
        a + b <= u64::MAX ==> r == Ok::<u64, CtxError>((a + b) as u64),
        a + b > u64::MAX ==> r is Err && r->Err_0@ == Failure::Logic("overflow"@),
{
    match a.checked_add(b) {
        Some(c) => Ok(c),
        None => Err(CtxError::Logic(String::from_str("overflow"))),
    }
}

/// Checked subtraction; an underflow is the logic error `underflow`.
pub fn sub_u64(a: u64, b: u64) -> (r: Result<u64, CtxError>)
    ensures
        a >= b ==> r == Ok::<u64, CtxError>((a - b) as u64),
        a < b ==> r is Err && r->Err_0@ == Failure::Logic("underflow"@),
{
    match a.checked_sub(b) {
        Some(c) => Ok(c),
        None => Err(CtxError::Logic(String::from_str("underflow"))),
    }
}

/// Whether `s` is 128 hex digits.
pub fn is_valid_addr(s: &str) -> (r: bool)
    ensures
        r == is_address(s@),
{
    let n = s.unicode_len();
    if n != 128 {
        return false;
    }
    let mut i: usize = 0;
    while i < n
        invariant
            n == s@.len(),
            0 <= i <= n,
            forall|j: int| 0 <= j < i ==> #[trigger] is_hex_char(s@[j]),
        decreases n - i,
    {
        let c = s.get_char(i);
        if !(('0' <= c && c <= '9') || ('a' <= c && c <= 'f') || ('A' <= c && c <= 'F')) {
            assert(!is_hex_char(s@[i as int]));
            return false;
        }
        i = i + 1;
    }
    true
}

fn amount_in(ns: &Vec<(String, Json)>, k: &str) -> (r: u64)
    ensures
        r as nat == amount_of(ns_view(ns@), k@),
{
    match ns_get(ns, k) {
        Some(v) => match v.as_u64() {
            Some(n) => n,
            None => 0,
        },
        None => 0,
    }
}

fn text_field(args: &Json, key: &str) -> (r: Option<String>)
    ensures
        r is None <==> text_arg(args@, key@) is None,
        r is Some ==> text_arg(args@, key@) == Some(r->0@),
{
    match args.get(key) {
        Some(v) => match v.as_str() {
            Some(s) => Some(s.clone()),
            None => None,
        },
        None => None,
    }
}

fn u64_field(args: &Json, key: &str) -> (r: Option<u64>)
    ensures
        r == u64_arg(args@, key@),
{
    match args.get(key) {
        Some(v) => v.as_u64(),
        None => None,
    }
}

impl Token {
    pub fn copy(&self) -> (r: Token)
        ensures
            r == *self,
    {
        Token { max_supply: self.max_supply, minter: self.minter.clone() }
    }

    /// The contract's name, which is also its namespace.
    pub fn name(&self) -> (r: &'static str)
        ensures
            r@ == "token"@,
    {
        "token"
    }

    /// A state-changing call on the namespace `ns` by `caller`.
    pub fn call(&self, ns: &mut Vec<(String, Json)>, caller: &str, method: &str, args: &Json) -> (r: CtxResult)
        ensures
            (ns_view(final(ns)@), result_view(&r)) == token_call(
                ns_view(old(ns)@),
                caller@,
                method@,
                args@,
                self.max_supply,
                self.minter@,
            ),
    {
        if text_eq(method, "mint") {
            self.mint(ns, caller, args)
        } else if text_eq(method, "transfer") {
            self.transfer(ns, caller, args)
        } else {
            Err(CtxError::MethodNotFound)
        }
    }

    #[verifier::rlimit(100)]
    fn mint(&self, ns: &mut Vec<(String, Json)>, caller: &str, args: &Json) -> (r: CtxResult)
        ensures
            (ns_view(final(ns)@), result_view(&r)) == mint_effect(
                ns_view(old(ns)@),
                caller@,
                args@,
                self.max_supply,
                self.minter@,
            ),
    {
        if !text_eq(caller, self.minter.as_str()) {
            return Err(CtxError::Logic(String::from_str("mint not allowed for this sender")));
        }
        let to = match text_field(args, "to") {
            Some(t) => t,
            None => return Err(CtxError::BadArgs(String::from_str("to"))),
        };
        if !is_valid_addr(to.as_str()) {
            return Err(CtxError::BadArgs(String::from_str("to (invalid addr)")));
        }
        let amount = match u64_field(args, "amount") {
            Some(a) => a,
            None => return Err(CtxError::BadArgs(String::from_str("amount"))),
        };
        if amount == 0 {
            return Err(CtxError::BadArgs(String::from_str("amount must be > 0")));
        }
        let total = amount_in(ns, "total_supply");
        let new_total = match add_u64(total, amount) {
            Ok(t) => t,
            Err(e) => return Err(e),
        };
        if new_total > self.max_supply {
            return Err(CtxError::Logic(String::from_str("max supply exceeded")));
        }
        ns_put(ns, String::from_str("total_supply"), Json::UInt(new_total));
        let bal = amount_in(ns, to.as_str());
        let new_bal = match add_u64(bal, amount) {
            Ok(b) => b,
            Err(e) => return Err(e),
        };
        ns_put(ns, to.clone(), Json::UInt(new_bal));
        Ok(mint_event(&to, amount))
    }

    #[verifier::rlimit(100)]
    fn transfer(&self, ns: &mut Vec<(String, Json)>, caller: &str, args: &Json) -> (r: CtxResult)
        ensures
            (ns_view(final(ns)@), result_view(&r)) == transfer_effect(ns_view(old(ns)@), caller@, args@),
    {
        let to = match text_field(args, "to") {
            Some(t) => t,
            None => return Err(CtxError::BadArgs(String::from_str("to"))),
        };
        if !is_valid_addr(to.as_str()) {
            return Err(CtxError::BadArgs(String::from_str("to (invalid addr)")));
        }
        if text_eq(to.as_str(), caller) {
            return Err(CtxError::Logic(String::from_str("self-transfer not allowed")));
        }
        let amount = match u64_field(args, "amount") {
            Some(a) => a,
            None => return Err(CtxError::BadArgs(String::from_str("amount"))),
        };
        if amount == 0 {
            return Err(CtxError::BadArgs(String::from_str("amount must be > 0")));
        }
        let from_bal = amount_in(ns, caller);
        let new_from = match sub_u64(from_bal, amount) {
            Ok(b) => b,
            Err(e) => return Err(e),
        };
        let from = caller.to_owned();
        ns_put(ns, from.clone(), Json::UInt(new_from));
        let to_bal = amount_in(ns, to.as_str());
        let new_to = match add_u64(to_bal, amount) {
            Ok(b) => b,
            Err(e) => return Err(e),
        };
        ns_put(ns, to.clone(), Json::UInt(new_to));
        Ok(transfer_event(&from, &to, amount))
    }

    /// A read-only query on the namespace `ns`.
    pub fn query(&self, ns: &Vec<(String, Json)>, method: &str, args: &Json) -> (r: CtxResult)
        ensures
            result_view(&r) == token_query(ns_view(ns@), method@, args@),
    {
        if text_eq(method, "total_supply") {
            match ns_get(ns, "total_supply") {
                Some(v) => Ok(v.copy()),
                None => Ok(Json::UInt(0)),
            }
        } else if text_eq(method, "balance_of") {
            let who = match text_field(args, "who") {
                Some(w) => w,
                None => return Err(CtxError::BadArgs(String::from_str("who"))),
            };
            match ns_get(ns, who.as_str()) {
                Some(v) => Ok(v.copy()),
                None => Ok(Json::UInt(0)),
            }
        } else {
            Err(CtxError::MethodNotFound)
        }
    }
}

fn mint_event(to: &String, amount: u64) -> (r: Json)
    ensures
        r@ == event("Mint"@, seq![("to"@, JsonV::Str(to@))], amount),
{
    let mut v: Vec<(String, Json)> = Vec::new();
    v.push((String::from_str("ok"), Json::Bool(true)));
    v.push((String::from_str("event"), Json::Str(String::from_str("Mint"))));
    v.push((String::from_str("to"), Json::Str(to.clone())));
    v.push((String::from_str("amount"), Json::UInt(amount)));
    proof {
        assert(ns_view(v@) =~= event("Mint"@, seq![("to"@, JsonV::Str(to@))], amount)->Object_0);
    }
    Json::object(v)
}

fn transfer_event(from: &String, to: &String, amount: u64) -> (r: Json)
    ensures
        r@ == event(
            "Transfer"@,
            seq![("from"@, JsonV::Str(from@)), ("to"@, JsonV::Str(to@))],
            amount,
        ),
{
    let mut v: Vec<(String, Json)> = Vec::new();
    v.push((String::from_str("ok"), Json::Bool(true)));
    v.push((String::from_str("event"), Json::Str(String::from_str("Transfer"))));
    v.push((String::from_str("from"), Json::Str(from.clone())));
    v.push((String::from_str("to"), Json::Str(to.clone())));
    v.push((String::from_str("amount"), Json::UInt(amount)));
    proof {
        assert(ns_view(v@) =~= event(
            "Transfer"@,
            seq![("from"@, JsonV::Str(from@)), ("to"@, JsonV::Str(to@))],
            amount,
        )->Object_0);
    }
    Json::object(v)
}

} // verus!
