//! Admission of signed calls: the canonical payload that clients sign, and
//! the checks a call passes before it joins the mempool.
use vstd::prelude::*;
use crate::json::{JsonV, json_quoted, quote};
use crate::pq::{mldsa3_accepts, verify_mldsa3, address_from_pk};
use crate::runtime::{Runtime, nonce_of};
use crate::store::text_eq;
use crate::types::{Auth, Call, RpcCall, Tx};
use crate::util::{lower_of, lowercase, decimal, decimal_text, decode_hex_or_empty, digest_hex, hash_hex, hex_decode_or_empty};
use vstd::utf8::encode_utf8;

verus! {


/// The canonical payload: a JSON object with the members `from`, `nonce`,
/// `chain_id`, `contract`, `method` and `args`, in that order, without
/// whitespace.
pub open spec fn canonical_text(
    from: Seq<char>,
    nonce: u64,
    chain_id: Seq<char>,
    contract: Seq<char>,
    method: Seq<char>,
    args: JsonV,
) -> Seq<char> {
    "{\"from\":"@ + json_quoted(from) + ",\"nonce\":"@ + decimal(nonce as nat) + ",\"chain_id\":"@
        + json_quoted(chain_id) + ",\"contract\":"@ + json_quoted(contract) + ",\"method\":"@
        + json_quoted(method) + ",\"args\":"@ + crate::json::json_text(args) + "}"@
}

/// The canonical payload of a request.
pub open spec fn request_payload(b: &RpcCall) -> Seq<char> {
    canonical_text(b.from@, b.nonce, b.chain_id@, b.contract@, b.method@, b.args@)
}

/// The canonical payload of an admitted transaction.
pub open spec fn tx_payload(t: &Tx) -> Seq<char> {
    canonical_text(t.call.from@, t.nonce, t.chain_id@, t.call.contract@, t.call.method@, t.call.args@)
}

/// The canonical payload of `body`, which the client signs.
pub fn canonical_payload(body: &RpcCall) -> (r: String)
    ensures
        r@ == request_payload(body),
{
    let mut p = String::from_str("{\"from\":");
    p.append(quote(body.from.as_str()).as_str());
    p.append(",\"nonce\":");
    p.append(decimal_text(body.nonce as u128).as_str());
    p.append(",\"chain_id\":");
    p.append(quote(body.chain_id.as_str()).as_str());
    p.append(",\"contract\":");
    p.append(quote(body.contract.as_str()).as_str());
    p.append(",\"method\":");
    p.append(quote(body.method.as_str()).as_str());
    p.append(",\"args\":");
    p.append(body.args.to_text().as_str());
    p.append("}");
    p
}

/// Why a call was refused.
#[derive(Debug)]
pub enum AdmitError {
    /// `from` is not the address of `pk`; holds that address.
    FromMismatch(String),
    /// The algorithm is not allowed; holds the allowed ones.
    AlgNotAllowed(Vec<String>),
    /// Another chain's call; holds this chain's id.
    WrongChainId(String),
    /// Not the next nonce of the sender; holds the expected one.
    BadNonce(u64),
    InvalidSignature,
    /// Only the minter may mint; holds the minter's address.
    MintNotAllowed(String),
}

/// A refusal as a mathematical value.
pub enum Refusal {
    FromMismatch(Seq<char>),
    AlgNotAllowed,
    WrongChainId(Seq<char>),
    BadNonce(nat),
    InvalidSignature,
    MintNotAllowed(Seq<char>),
}

impl AdmitError {
    pub open spec fn refusal(&self) -> Refusal {
        match self {
            AdmitError::FromMismatch(a) => Refusal::FromMismatch(a@),
            AdmitError::AlgNotAllowed(_) => Refusal::AlgNotAllowed,
            AdmitError::WrongChainId(c) => Refusal::WrongChainId(c@),
            AdmitError::BadNonce(n) => Refusal::BadNonce(*n as nat),
            AdmitError::InvalidSignature => Refusal::InvalidSignature,
            AdmitError::MintNotAllowed(m) => Refusal::MintNotAllowed(m@),
        }
    }

    /// The message that the refusal is reported with.
    pub fn message(&self) -> (r: String)
        ensures
            self is FromMismatch ==> r@ == "from does not match addr(pk)"@,
            self is AlgNotAllowed ==> r@ == "signature algorithm not allowed"@,
            self is WrongChainId ==> r@ == "wrong chain_id"@,
            self is BadNonce ==> r@ == "bad nonce"@,
            self is InvalidSignature ==> r@ == "invalid PQ signature"@,
            self is MintNotAllowed ==> r@ == "mint not allowed for this sender"@,
    {
        match self {
            AdmitError::FromMismatch(_) => String::from_str("from does not match addr(pk)"),
            AdmitError::AlgNotAllowed(_) => String::from_str("signature algorithm not allowed"),
            AdmitError::WrongChainId(_) => String::from_str("wrong chain_id"),
            AdmitError::BadNonce(_) => String::from_str("bad nonce"),
            AdmitError::InvalidSignature => String::from_str("invalid PQ signature"),
            AdmitError::MintNotAllowed(_) => String::from_str("mint not allowed for this sender"),
        }
    }
}

/// Whether the lower-case form of `alg` is on the allow-list.
pub open spec fn alg_allowed(allowed: Seq<String>, alg: Seq<char>) -> bool {
    exists|i: int| 0 <= i < allowed.len() && (#[trigger] allowed[i])@ == lower_of(alg)
}

/// The verdict of the admission checks, in their order.
pub open spec fn admission_verdict(rt: &Runtime, b: &RpcCall) -> Result<(), Refusal> {
    let pk = hex_decode_or_empty(b.pk@);
    let derived = digest_hex(rt.hash_alg, pk);
    let expected = nonce_of(rt.nonces_view(), b.from@);
    if b.from@ != derived {
        Err(Refusal::FromMismatch(derived))
    } else if !alg_allowed(rt.sig_algs_allowed@, b.alg@) {
        Err(Refusal::AlgNotAllowed)
    } else if b.chain_id@ != rt.chain_id@ {
        Err(Refusal::WrongChainId(rt.chain_id@))
    } else if b.nonce != expected {
        Err(Refusal::BadNonce(expected))
    } else if !(lower_of(b.alg@) == "mldsa3"@ && mldsa3_accepts(
        encode_utf8(request_payload(b)),
        hex_decode_or_empty(b.sig@),
        pk,
    )) {
        Err(Refusal::InvalidSignature)
    } else if b.contract@ == "token"@ && b.method@ == "mint"@ && b.from@ != rt.minter@ {
        Err(Refusal::MintNotAllowed(rt.minter@))
    } else {
        Ok(())
    }
}

/// Whether a transaction's signature verifies over its canonical payload
/// and its sender is the address of its key.
pub open spec fn tx_authentic(alg: crate::util::HashAlg, t: &Tx) -> bool {
    &&& mldsa3_accepts(encode_utf8(tx_payload(t)), hex_decode_or_empty(t.auth.sig@), hex_decode_or_empty(t.auth.pk@))
    &&& digest_hex(alg, hex_decode_or_empty(t.auth.pk@)) == t.call.from@
}

/// The canonical payload depends on the request's values alone: two
/// requests that agree field by field give the same payload.
pub proof fn lemma_canonical_stable(a: &RpcCall, b: &RpcCall)
    requires
        a.from@ == b.from@,
        a.nonce == b.nonce,
        a.chain_id@ == b.chain_id@,
        a.contract@ == b.contract@,
        a.method@ == b.method@,
        a.args@ == b.args@,
    ensures
        request_payload(a) == request_payload(b),
{
}

/// A request that passes admission carries a signature that verifies over
/// its canonical payload under its key, and comes from that key's address.
pub proof fn lemma_admitted_is_authentic(rt: &Runtime, b: &RpcCall)
    requires
        admission_verdict(rt, b) is Ok,
    ensures
        mldsa3_accepts(
            encode_utf8(request_payload(b)),
            hex_decode_or_empty(b.sig@),
            hex_decode_or_empty(b.pk@),
        ),
        b.from@ == digest_hex(rt.hash_alg, hex_decode_or_empty(b.pk@)),
        b.nonce == nonce_of(rt.nonces_view(), b.from@),
        b.chain_id@ == rt.chain_id@,
{
}

/// A request whose nonce the sender has already used is refused; where it
/// passes the checks before the nonce, it is refused as a bad nonce that
/// names the expected one.
pub proof fn lemma_replay_rejected(rt: &Runtime, b: &RpcCall)
    requires
        b.nonce < nonce_of(rt.nonces_view(), b.from@),
    ensures
        admission_verdict(rt, b) is Err,
        b.from@ == digest_hex(rt.hash_alg, hex_decode_or_empty(b.pk@)) && alg_allowed(rt.sig_algs_allowed@, b.alg@)
            && b.chain_id@ == rt.chain_id@ ==> admission_verdict(rt, b) == Err::<(), Refusal>(
            Refusal::BadNonce(nonce_of(rt.nonces_view(), b.from@)),
        ),
{
}

/// A request signed for another chain is refused, whatever its signature.
pub proof fn lemma_foreign_chain_rejected(rt: &Runtime, b: &RpcCall)
    requires
        b.chain_id@ != rt.chain_id@,
    ensures
        admission_verdict(rt, b) is Err,
{
}

fn alg_in(allowed: &Vec<String>, alg: &str) -> (r: bool)
    ensures
        r == alg_allowed(allowed@, alg@),
{
    let l = lowercase(alg);
    let mut i: usize = 0;
    while i < allowed.len()
        invariant
            0 <= i <= allowed@.len(),
            l@ == lower_of(alg@),
            forall|j: int| 0 <= j < i ==> (#[trigger] allowed@[j])@ != lower_of(alg@),
        decreases allowed@.len() - i,
    {
        if allowed[i] == l {
            return true;
        }
        i = i + 1;
    }
    false
}

impl Runtime {
    /// Admits a signed call: checks in order that `from` is the address of
    /// `pk`, that the algorithm is allowed, the chain id, the nonce, the
    /// signature over the canonical payload and the minter gate, then queues
    /// the transaction. `Ok(false)` is a call that passed but was dropped
    /// because its sender has too many pending.
    pub fn submit_call(&mut self, body: RpcCall) -> (r: Result<bool, AdmitError>)
        ensures
            match r {
                Ok(_) => admission_verdict(old(self), &body) == Ok::<(), Refusal>(()),
                Err(e) => admission_verdict(old(self), &body) == Err::<(), Refusal>(e.refusal()),
            },
            r is Err || r == Ok::<bool, AdmitError>(false) ==> final(self).mempool@ == old(self).mempool@,
            r == Ok::<bool, AdmitError>(true) ==> {
                let t = final(self).mempool@.last();
                &&& final(self).mempool@.drop_last() == old(self).mempool@
                &&& t.call.from@ == body.from@
                &&& t.call.contract@ == body.contract@
                &&& t.call.method@ == body.method@
                &&& t.call.args@ == body.args@
                &&& t.auth.alg@ == body.alg@
                &&& t.auth.pk@ == body.pk@
                &&& t.auth.sig@ == body.sig@
                &&& t.nonce == body.nonce
                &&& t.chain_id@ == body.chain_id@
                &&& t.tx_hash@ == digest_hex(old(self).hash_alg, encode_utf8(request_payload(&body)))
                &&& tx_authentic(old(self).hash_alg, &t)
            },
            r is Ok ==> (r == Ok::<bool, AdmitError>(true)) == (crate::runtime::count_from(old(self).mempool@, body.from@)
                < old(self).max_pending_per_addr),
            final(self).ctx == old(self).ctx,
            final(self).chain == old(self).chain,
            final(self).nonces == old(self).nonces,
    {
        let pk = decode_hex_or_empty(body.pk.as_str());
        let derived = address_from_pk(self.hash_alg, pk.as_slice());
        if !text_eq(body.from.as_str(), derived.as_str()) {
            return Err(AdmitError::FromMismatch(derived));
        }
        if !alg_in(&self.sig_algs_allowed, body.alg.as_str()) {
            let mut allowed: Vec<String> = Vec::new();
            let mut i: usize = 0;
            while i < self.sig_algs_allowed.len()
                decreases self.sig_algs_allowed@.len() - i,
            {
                allowed.push(self.sig_algs_allowed[i].clone());
                i = i + 1;
            }
            return Err(AdmitError::AlgNotAllowed(allowed));
        }
        if !text_eq(body.chain_id.as_str(), self.chain_id.as_str()) {
            return Err(AdmitError::WrongChainId(self.chain_id.clone()));
        }
        let expected = self.next_nonce(body.from.as_str());
        if body.nonce != expected {
            return Err(AdmitError::BadNonce(expected));
        }
        let payload = canonical_payload(&body);
        let ok = if text_eq(lowercase(body.alg.as_str()).as_str(), "mldsa3") {
            let sig = decode_hex_or_empty(body.sig.as_str());
            verify_mldsa3(payload.as_str().as_bytes(), sig.as_slice(), pk.as_slice())
        } else {
            false
        };
        if !ok {
            return Err(AdmitError::InvalidSignature);
        }
        if text_eq(body.contract.as_str(), "token") && text_eq(body.method.as_str(), "mint") && !text_eq(
            body.from.as_str(),
            self.minter.as_str(),
        ) {
            return Err(AdmitError::MintNotAllowed(self.minter.clone()));
        }
        let tx_hash = hash_hex(self.hash_alg, payload.as_str().as_bytes());
        let RpcCall { from, contract, method, args, alg, pk: pk_hex, sig, nonce, chain_id } = body;
        let queued = self.submit(
            Call { from, contract, method, args },
            Auth { alg, pk: pk_hex, sig },
            nonce,
            chain_id,
            tx_hash,
        );
        Ok(queued)
    }
}

} // verus!
