//! The contract registry, the namespaced state store and dispatch.
use vstd::prelude::*;
use crate::json::{Json, JsonV};
use crate::store::{find_key, keys_unique, lookup, put, ns_view, lemma_find_in_view};
use self::token::{Token, NsV, token_call, token_query};

pub mod token;

verus! {

/// Why a contract call failed.
#[derive(Debug)]
pub enum CtxError {
    BadArgs(String),
    MethodNotFound,
    ContractNotFound,
    Logic(String),
}

/// A contract failure as a mathematical value.
pub enum Failure {
    BadArgs(Seq<char>),
    MethodNotFound,
    ContractNotFound,
    Logic(Seq<char>),
}

impl View for CtxError {
    type V = Failure;

    open spec fn view(&self) -> Failure {
        match self {
            CtxError::BadArgs(d) => Failure::BadArgs(d@),
            CtxError::MethodNotFound => Failure::MethodNotFound,
            CtxError::ContractNotFound => Failure::ContractNotFound,
            CtxError::Logic(d) => Failure::Logic(d@),
        }
    }
}

pub type CtxResult = Result<Json, CtxError>;

/// The outcome of a contract call as a mathematical value.
pub open spec fn result_view(r: &CtxResult) -> Result<JsonV, Failure> {
    match r {
        Ok(j) => Ok(j@),
        Err(e) => Err(e@),
    }
}

/// A registered contract. The set of kinds is fixed; each owns the namespace
/// named after it.
#[derive(Debug)]
pub enum Contract {
    Token(Token),
}

impl Contract {
    pub fn copy(&self) -> (r: Contract)
        ensures
            r == *self,
    {
        match self {
            Contract::Token(t) => Contract::Token(t.copy()),
        }
    }

    pub open spec fn spec_name(self) -> Seq<char> {
        match self {
            Contract::Token(_) => "token"@,
        }
    }

    pub fn name(&self) -> (r: &'static str)
        ensures
            r@ == self.spec_name(),
    {
        match self {
            Contract::Token(t) => t.name(),
        }
    }
}

/// The registry as a mathematical value: name to contract.
pub type RegistryV = Seq<(Seq<char>, Contract)>;

pub open spec fn registry_view(v: Seq<(String, Contract)>) -> RegistryV {
    v.map_values(|p: (String, Contract)| (p.0@, p.1))
}

/// The state store as a mathematical value: namespace to its entries.
pub type StateV = Seq<(Seq<char>, NsV)>;

pub open spec fn state_view(v: Seq<(String, Vec<(String, Json)>)>) -> StateV {
    v.map_values(|p: (String, Vec<(String, Json)>)| (p.0@, ns_view(p.1@)))
}

/// The entries of namespace `name`; none where it does not exist yet.
pub open spec fn ns_of(st: StateV, name: Seq<char>) -> NsV {
    match lookup(st, name) {
        Some(ns) => ns,
        None => Seq::empty(),
    }
}

/// A mutating call through the registry: the state after it and its outcome.
#[verifier::opaque]
pub open spec fn dispatch_call(
    st: StateV,
    reg: RegistryV,
    caller: Seq<char>,
    contract: Seq<char>,
    method: Seq<char>,
    args: JsonV,
) -> (StateV, Result<JsonV, Failure>) {
    match lookup(reg, contract) {
        None => (st, Err(Failure::ContractNotFound)),
        Some(Contract::Token(t)) => {
            let (ns, out) = token_call(ns_of(st, "token"@), caller, method, args, t.max_supply, t.minter@);
            (put(st, "token"@, ns), out)
        },
    }
}

/// A read-only query through the registry.
pub open spec fn dispatch_read(
    st: StateV,
    reg: RegistryV,
    contract: Seq<char>,
    method: Seq<char>,
    args: JsonV,
) -> Result<JsonV, Failure> {
    match lookup(reg, contract) {
        None => Err(Failure::ContractNotFound),
        Some(Contract::Token(_)) => token_query(ns_of(st, "token"@), method, args),
    }
}

/// The contract registry and the namespaced state store.
pub struct Ctx {
    state: Vec<(String, Vec<(String, Json)>)>,
    contracts: Vec<(String, Contract)>,
}

impl Ctx {
    pub closed spec fn state(&self) -> StateV {
        state_view(self.state@)
    }

    pub closed spec fn registry(&self) -> RegistryV {
        registry_view(self.contracts@)
    }

    /// Well-formed: one entry per namespace.
    pub open spec fn wf(&self) -> bool {
        keys_unique(self.state())
    }

    /// An empty store with no contract registered.
    pub fn new() -> (r: Ctx)
        ensures
            r.wf(),
            r.state() == Seq::<(Seq<char>, NsV)>::empty(),
            r.registry() == Seq::<(Seq<char>, Contract)>::empty(),
    {
        let r = Ctx { state: Vec::new(), contracts: Vec::new() };
        assert(r.state() =~= Seq::<(Seq<char>, NsV)>::empty());
        assert(r.registry() =~= Seq::<(Seq<char>, Contract)>::empty());
        r
    }

    /// Registers `c` under its name, replacing a contract of the same name.
    pub fn register(&mut self, c: Contract)
        ensures
            final(self).state() == old(self).state(),
            final(self).registry() == put(old(self).registry(), c.spec_name(), c),
    {
        let name = c.name();
        let ghost s = self.registry();
        let found = find_key(&self.contracts, name);
        proof {
            lemma_find_in_view(self.contracts@, s, name@, found);
        }
        match found {
            Some(i) => {
                self.contracts.set(i, (name.to_owned(), c));
                proof {
                    assert(self.registry() =~= put(s, name@, c));
                }
            },
            None => {
                self.contracts.push((name.to_owned(), c));
                proof {
                    assert(self.registry() =~= put(s, name@, c));
                }
            },
        }
    }

    /// The entries of namespace `name`, where it exists.
    pub fn ns(&self, name: &str) -> (r: Option<&Vec<(String, Json)>>)
        ensures
            r is None <==> lookup(self.state(), name@) is None,
            r is Some ==> lookup(self.state(), name@) == Some(ns_view(r->0@)),
    {
        let ghost s = self.state();
        let found = find_key(&self.state, name);
        proof {
            lemma_find_in_view(self.state@, s, name@, found);
        }
        match found {
            Some(i) => {
                Some(&self.state[i].1)
            },
            None => {
                None
            },
        }
    }

    /// The whole store, namespace by namespace.
    pub fn state_map(&self) -> (r: &Vec<(String, Vec<(String, Json)>)>)
        ensures
            state_view(r@) == self.state(),
    {
        &self.state
    }

    /// The contract registered under `name`.
    fn contract(&self, name: &str) -> (r: Option<Contract>)
        ensures
            r == lookup(self.registry(), name@),
    {
        let ghost s = self.registry();
        let found = find_key(&self.contracts, name);
        proof {
            lemma_find_in_view(self.contracts@, s, name@, found);
        }
        match found {
            Some(i) => {
                Some(self.contracts[i].1.copy())
            },
            None => {
                None
            },
        }
    }
}

/// Runs `method` of the contract named `contract` for `caller`, with the
/// contract's namespace open for writing.
pub fn dispatch_mut(ctx: &mut Ctx, caller: &str, contract: &str, method: &str, args: &Json) -> (r: CtxResult)
    requires
        old(ctx).wf(),
    ensures
        final(ctx).wf(),
        final(ctx).registry() == old(ctx).registry(),
        (final(ctx).state(), result_view(&r)) == dispatch_call(
            old(ctx).state(),
            old(ctx).registry(),
            caller@,
            contract@,
            method@,
            args@,
        ),
{
    reveal(dispatch_call);
    match ctx.contract(contract) {
        None => Err(CtxError::ContractNotFound),
        Some(Contract::Token(t)) => {
            let ghost st = ctx.state();
            let found = find_key(&ctx.state, "token");
            proof {
                lemma_find_in_view(ctx.state@, st, "token"@, found);
            }
            match found {
                Some(i) => {
                    let (name, mut ns) = ctx.state.remove(i);
                    let r = t.call(&mut ns, caller, method, args);
                    ctx.state.insert(i, (name, ns));
                    proof {
                        assert(ctx.state() =~= put(st, "token"@, ns_view(ns@)));
                        crate::store::lemma_put(st, "token"@, ns_view(ns@));
                    }
                    r
                },
                None => {
                    let mut ns: Vec<(String, Json)> = Vec::new();
                    proof {
                        assert(ns_view(ns@) =~= Seq::<(Seq<char>, JsonV)>::empty());
                    }
                    let r = t.call(&mut ns, caller, method, args);
                    ctx.state.push((String::from_str("token"), ns));
                    proof {
                        assert(ctx.state() =~= put(st, "token"@, ns_view(ns@)));
                        crate::store::lemma_put(st, "token"@, ns_view(ns@));
                    }
                    r
                },
            }
        },
    }
}

/// Runs the read-only `method` of the contract named `contract`.
pub fn dispatch_query(ctx: &Ctx, contract: &str, method: &str, args: &Json) -> (r: CtxResult)
    ensures
        result_view(&r) == dispatch_read(ctx.state(), ctx.registry(), contract@, method@, args@),
{
    match ctx.contract(contract) {
        None => Err(CtxError::ContractNotFound),
        Some(Contract::Token(t)) => match ctx.ns("token") {
            Some(ns) => t.query(ns, method, args),
            None => {
                let ns: Vec<(String, Json)> = Vec::new();
                assert(ns_view(ns@) =~= Seq::<(Seq<char>, JsonV)>::empty());
                t.query(&ns, method, args)
            },
        },
    }
}

} // verus!