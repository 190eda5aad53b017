//! Proof of authority: the leader schedule and the check of a block that
//! another validator produced.
use vstd::prelude::*;
use crate::pq::{mldsa3_accepts, verify_mldsa3};
use crate::types::Block;
use crate::util::{from_hex, hex_decode, is_hex_text};
use crate::store::text_eq;
use vstd::utf8::encode_utf8;

verus! {

/// A member of the validator set.
#[derive(Clone, Debug)]
pub struct Validator {
    pub id: String,
    pub url: String,
    pub pk: String,
}

/// The validator set, in schedule order, and the slot length.
#[derive(Clone, Debug)]
pub struct PoAConfig {
    pub validators: Vec<Validator>,
    pub slot_ms: u64,
}

/// The validator scheduled to produce the block at height `h`.
pub open spec fn leader_at(validators: Seq<Validator>, h: u64) -> Validator {
    validators[(h as int) % (validators.len() as int)]
}

pub open spec fn ascii_lower_code(c: char) -> u32 {
    if 65 <= (c as u32) && (c as u32) <= 90 {
        (c as u32 + 32) as u32
    } else {
        c as u32
    }
}

/// Equal text once ASCII letters are folded to lower case.
pub open spec fn same_ignoring_ascii_case(a: Seq<char>, b: Seq<char>) -> bool {
    a.len() == b.len() && forall|i: int|
        0 <= i < a.len() ==> #[trigger] ascii_lower_code(a[i]) == ascii_lower_code(b[i])
}

/// The verdict on block `b` as the successor of the block with hash `parent_hash`.
pub open spec fn poa_verdict(validators: Seq<Validator>, parent_hash: Seq<char>, b: &Block) -> Result<(), Seq<char>> {
    let expected = leader_at(validators, b.height).pk@;
    if !same_ignoring_ascii_case(b.validator_pk@, expected) {
        Err("unexpected leader: got "@ + b.validator_pk@ + ", expected "@ + expected)
    } else if b.parent@ != parent_hash {
        Err("bad parent: "@ + b.parent@ + " != "@ + parent_hash)
    } else if !is_hex_text(b.validator_sig@) {
        Err("bad leader sig hex"@)
    } else if !is_hex_text(b.validator_pk@) {
        Err("bad leader pk hex"@)
    } else if !mldsa3_accepts(
        encode_utf8(b.hash@),
        hex_decode(b.validator_sig@),
        hex_decode(b.validator_pk@),
    ) {
        Err("invalid leader signature"@)
    } else {
        Ok(())
    }
}

impl PoAConfig {
    /// The validator scheduled for height `height_next`.
    pub fn expected_leader(&self, height_next: u64) -> (r: &Validator)
        requires
            self.validators@.len() > 0,
        ensures
            *r == leader_at(self.validators@, height_next),
    {
        let n = self.validators.len();
        let i = (height_next % (n as u64)) as usize;
        &self.validators[i]
    }
}

/// Whether `a` and `b` are equal once ASCII letters are folded to lower case.
pub fn eq_ignore_ascii_case(a: &str, b: &str) -> (r: bool)
    ensures
        r == same_ignoring_ascii_case(a@, b@),
{
    let n = a.unicode_len();
    if n != b.unicode_len() {
        return false;
    }
    let mut i: usize = 0;
    while i < n
        invariant
            n == a@.len(),
            n == b@.len(),
            0 <= i <= n,
            forall|j: int| 0 <= j < i ==> #[trigger] ascii_lower_code(a@[j]) == ascii_lower_code(b@[j]),
        decreases n - i,
    {
        let x = a.get_char(i) as u32;
        let y = b.get_char(i) as u32;
        let lx = if 65 <= x && x <= 90 { x + 32 } else { x };
        let ly = if 65 <= y && y <= 90 { y + 32 } else { y };
        if lx != ly {
            assert(ascii_lower_code(a@[i as int]) != ascii_lower_code(b@[i as int]));
            return false;
        }
        i = i + 1;
    }
    true
}

/// Checks that `block` was produced by the scheduled leader, on top of the
/// block with hash `parent_hash`, and carries the leader's signature of its hash.
pub fn verify_block_poa(cfg: &PoAConfig, parent_hash: &str, block: &Block) -> (r: Result<(), String>)
    requires
        cfg.validators@.len() > 0,
    ensures
        match r {
            Ok(()) => poa_verdict(cfg.validators@, parent_hash@, block) == Ok::<(), Seq<char>>(()),
            Err(e) => poa_verdict(cfg.validators@, parent_hash@, block) == Err::<(), Seq<char>>(e@),
        },
{
    let expected = cfg.expected_leader(block.height);
    if !eq_ignore_ascii_case(block.validator_pk.as_str(), expected.pk.as_str()) {
        let mut m = String::from_str("unexpected leader: got ");
        m.append(block.validator_pk.as_str());
        m.append(", expected ");
        m.append(expected.pk.as_str());
        return Err(m);
    }
    if !text_eq(block.parent.as_str(), parent_hash) {
        let mut m = String::from_str("bad parent: ");
        m.append(block.parent.as_str());
        m.append(" != ");
        m.append(parent_hash);
        return Err(m);
    }
    let sig = match from_hex(block.validator_sig.as_str()) {
        Some(s) => s,
        None => return Err(String::from_str("bad leader sig hex")),
    };
    let pk = match from_hex(block.validator_pk.as_str()) {
        Some(p) => p,
        None => return Err(String::from_str("bad leader pk hex")),
    };
    if !verify_mldsa3(block.hash.as_str().as_bytes(), sig.as_slice(), pk.as_slice()) {
        return Err(String::from_str("invalid leader signature"));
    }
    Ok(())
}

} // verus!
