//! Digests, hex rendering and decimal rendering.
use vstd::prelude::*;

verus! {

/// Digest algorithm used for every hash of the node.
#[derive(Clone, Copy, Debug, PartialEq, Eq, Structural)]
pub enum HashAlg {
    Sha3_512,
    Blake2b512,
}

/// The lowercase hex digit of a value below sixteen.
pub open spec fn hex_digit(n: int) -> char {
    if n < 10 {
        (n + 48) as char
    } else {
        (n + 87) as char
    }
}

/// Lowercase hex rendering: two digits per byte, high nibble first.
pub open spec fn hex_encode(b: Seq<u8>) -> Seq<char> {
    Seq::new(
        2 * b.len(),
        |i: int|
            if i % 2 == 0 {
                hex_digit(b[i / 2] as int / 16)
            } else {
                hex_digit(b[i / 2] as int % 16)
            },
    )
}

pub open spec fn is_hex_char(c: char) -> bool {
    ('0' <= c && c <= '9') || ('a' <= c && c <= 'f') || ('A' <= c && c <= 'F')
}

pub open spec fn hex_value(c: char) -> int {
    if '0' <= c && c <= '9' {
        c as int - 48
    } else if 'a' <= c && c <= 'f' {
        c as int - 87
    } else {
        c as int - 55
    }
}

/// Text that decodes as hex: an even number of hex digits of either case.
pub open spec fn is_hex_text(s: Seq<char>) -> bool {
    s.len() % 2 == 0 && forall|i: int| 0 <= i < s.len() ==> #[trigger] is_hex_char(s[i])
}

/// The bytes that hex text stands for.
pub open spec fn hex_decode(s: Seq<char>) -> Seq<u8> {
    Seq::new(s.len() / 2, |i: int| (hex_value(s[2 * i]) * 16 + hex_value(s[2 * i + 1])) as u8)
}

/// Decoded bytes of hex text, or no bytes where the text is not hex.
pub open spec fn hex_decode_or_empty(s: Seq<char>) -> Seq<u8> {
    if is_hex_text(s) {
        hex_decode(s)
    } else {
        Seq::empty()
    }
}

/// Decimal rendering of a natural number, without sign or leading zeros.
pub open spec fn decimal(n: nat) -> Seq<char>
    decreases n,
{
    if n < 10 {
        seq![(n + 48) as char]
    } else {
        decimal(n / 10).push((n % 10 + 48) as char)
    }
}

proof fn lemma_hex_digit(d: int)
    requires
        0 <= d < 16,
    ensures
        is_hex_char(hex_digit(d)),
        hex_value(hex_digit(d)) == d,
{
}

/// Hex text decodes back to the bytes it renders.
pub proof fn lemma_hex_round_trip(b: Seq<u8>)
    ensures
        is_hex_text(hex_encode(b)),
        hex_decode(hex_encode(b)) == b,
{
    let t = hex_encode(b);
    assert forall|i: int| 0 <= i < t.len() implies #[trigger] is_hex_char(t[i]) by {
        if i % 2 == 0 {
            lemma_hex_digit(b[i / 2] as int / 16);
        } else {
            lemma_hex_digit(b[i / 2] as int % 16);
        }
    }
    assert forall|i: int| 0 <= i < b.len() implies #[trigger] hex_decode(t)[i] == b[i] by {
        assert((2 * i) / 2 == i && (2 * i + 1) / 2 == i && (2 * i) % 2 == 0 && (2 * i + 1) % 2 == 1);
        lemma_hex_digit(b[i] as int / 16);
        lemma_hex_digit(b[i] as int % 16);
    }
    assert(hex_decode(t) =~= b);
}

pub uninterp spec fn sha3_512_of(data: Seq<u8>) -> Seq<u8>;

pub uninterp spec fn blake2b_512_of(data: Seq<u8>) -> Seq<u8>;

/// The 64-byte digest of `data` under `alg`.
pub open spec fn digest_of(alg: HashAlg, data: Seq<u8>) -> Seq<u8> {
    match alg {
        HashAlg::Sha3_512 => sha3_512_of(data),
        HashAlg::Blake2b512 => blake2b_512_of(data),
    }
}

/// The hex text of the digest of `data` under `alg`.
pub open spec fn digest_hex(alg: HashAlg, data: Seq<u8>) -> Seq<char> {
    hex_encode(digest_of(alg, data))
}

/// Relies on `sha3::Sha3_512::digest`: a 64-byte digest that depends on the input alone.
#[verifier::external_body]
fn sha3_512(data: &[u8]) -> (r: Vec<u8>)
    ensures
        r@ == sha3_512_of(data@),
        r@.len() == 64,
{
    <sha3::Sha3_512 as sha3::Digest>::digest(data).to_vec()
}

/// Relies on `blake2::Blake2b512::digest`: a 64-byte digest that depends on the input alone.
#[verifier::external_body]
fn blake2b_512(data: &[u8]) -> (r: Vec<u8>)
    ensures
        r@ == blake2b_512_of(data@),
        r@.len() == 64,
{
    <blake2::Blake2b512 as blake2::Digest>::digest(data).to_vec()
}

/// Relies on `hex::encode`: two lowercase hex digits per byte, high nibble first.
#[verifier::external_body]
pub(crate) fn to_hex(b: &[u8]) -> (r: String)
    ensures
        r@ == hex_encode(b@),
{
    hex::encode(b)
}

/// Relies on `hex::decode`: it accepts exactly an even number of hex digits of
/// either case, and turns each pair into one byte.
#[verifier::external_body]
pub(crate) fn from_hex(s: &str) -> (r: Option<Vec<u8>>)
    ensures
        r is Some <==> is_hex_text(s@),
        r is Some ==> r->0@ == hex_decode(s@),
{
    hex::decode(s).ok()
}

/// Relies on the `Display` of `u128`: plain decimal digits.
#[verifier::external_body]
pub(crate) fn decimal_text(n: u128) -> (r: String)
    ensures
        r@ == decimal(n as nat),
{
    n.to_string()
}

pub uninterp spec fn lower_of(s: Seq<char>) -> Seq<char>;

/// Relies on `str::to_lowercase`: the lower-case form, which depends on the
/// text alone.
#[verifier::external_body]
pub(crate) fn lowercase(s: &str) -> (r: String)
    ensures
        r@ == lower_of(s@),
{
    s.to_lowercase()
}

/// The algorithm a setting names: BLAKE2b-512 for `blake2b-512`,
/// `blake2b512` or `blake2` in any case, SHA3-512 otherwise and by default.
pub open spec fn hash_alg_named(setting: Option<Seq<char>>) -> HashAlg {
    match setting {
        Some(s) => if lower_of(s) == "blake2b-512"@ || lower_of(s) == "blake2b512"@ || lower_of(s)
            == "blake2"@ {
            HashAlg::Blake2b512
        } else {
            HashAlg::Sha3_512
        },
        None => HashAlg::Sha3_512,
    }
}

/// The digest algorithm that a setting selects.
pub fn current_hash_alg(setting: Option<&str>) -> (r: HashAlg)
    ensures
        r == hash_alg_named(
            match setting {
                Some(s) => Some(s@),
                None => None,
            },
        ),
{
    match setting {
        Some(s) => {
            let l = lowercase(s);
            if l == String::from_str("blake2b-512") || l == String::from_str("blake2b512") || l
                == String::from_str("blake2") {
                HashAlg::Blake2b512
            } else {
                HashAlg::Sha3_512
            }
        },
        None => HashAlg::Sha3_512,
    }
}

/// Relies on `std::time::SystemTime::now`: milliseconds since the Unix
/// epoch, 0 for a clock set before it. Nothing is promised of the value.
#[verifier::external_body]
pub fn now_ms() -> (r: u128) {
    std::time::SystemTime::now().duration_since(std::time::UNIX_EPOCH).unwrap_or_default().as_millis()
}

/// Hex decoding where text that is not hex gives no bytes.
pub fn decode_hex_or_empty(s: &str) -> (r: Vec<u8>)
    ensures
        r@ == hex_decode_or_empty(s@),
{
    match from_hex(s) {
        Some(v) => v,
        None => Vec::new(),
    }
}

/// The digest of `data` under `alg`, as 128 lowercase hex digits.
pub fn hash_hex(alg: HashAlg, data: &[u8]) -> (r: String)
    ensures
        r@ == digest_hex(alg, data@),
        r@.len() == 128,
{
    let d = match alg {
        HashAlg::Sha3_512 => sha3_512(data),
        HashAlg::Blake2b512 => blake2b_512(data),
    };
    to_hex(d.as_slice())
}

} // verus!
