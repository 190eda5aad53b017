//! JSON values as the contracts and the canonical payload see them.
use vstd::prelude::*;
use crate::util::{decimal, decimal_text, hex_digit};
use crate::store::{find_key, ns_view};

verus! {

broadcast use vstd::std_specs::vec::group_vec_axioms, vstd::seq::group_seq_axioms;

/// A JSON value. Numbers that are non-negative integers within `u64` are held
/// as such; any other number is held by its JSON text. Object members keep
/// their order.
#[derive(Debug)]
pub enum Json {
    Null,
    Bool(bool),
    UInt(u64),
    OtherNumber(String),
    Str(String),
    Array(Vec<Json>),
    Object(Vec<(String, Json)>),
}

/// The mathematical value of a `Json`.
pub enum JsonV {
    Null,
    Bool(bool),
    UInt(u64),
    OtherNumber(Seq<char>),
    Str(Seq<char>),
    Array(Seq<JsonV>),
    Object(Seq<(Seq<char>, JsonV)>),
}

pub open spec fn json_view(j: Json) -> JsonV
    decreases j, 0nat,
{
    match j {
        Json::Null => JsonV::Null,
        Json::Bool(b) => JsonV::Bool(b),
        Json::UInt(n) => JsonV::UInt(n),
        Json::OtherNumber(t) => JsonV::OtherNumber(t@),
        Json::Str(s) => JsonV::Str(s@),
        Json::Array(v) => JsonV::Array(items_view(v@, v@.len() as nat)),
        Json::Object(v) => JsonV::Object(members_view(v@, v@.len() as nat)),
    }
}

/// Views of the first `n` items.
pub open spec fn items_view(s: Seq<Json>, n: nat) -> Seq<JsonV>
    decreases s, n,
{
    if n == 0 || n > s.len() {
        Seq::empty()
    } else {
        items_view(s, (n - 1) as nat).push(json_view(s[n - 1]))
    }
}

/// Views of the first `n` members.
pub open spec fn members_view(s: Seq<(String, Json)>, n: nat) -> Seq<(Seq<char>, JsonV)>
    decreases s, n,
{
    if n == 0 || n > s.len() {
        Seq::empty()
    } else {
        members_view(s, (n - 1) as nat).push((s[n - 1].0@, json_view(s[n - 1].1)))
    }
}

impl View for Json {
    type V = JsonV;

    open spec fn view(&self) -> JsonV {
        json_view(*self)
    }
}

/// How a character stands inside a JSON string: quote and backslash are
/// escaped, control characters get their short escape or `\u00xx`, any other
/// character stands for itself.
pub open spec fn json_escape(c: char) -> Seq<char> {
    if c == '"' {
        seq!['\\', '"']
    } else if c == '\\' {
        seq!['\\', '\\']
    } else if c == '\x08' {
        seq!['\\', 'b']
    } else if c == '\t' {
        seq!['\\', 't']
    } else if c == '\n' {
        seq!['\\', 'n']
    } else if c == '\x0c' {
        seq!['\\', 'f']
    } else if c == '\r' {
        seq!['\\', 'r']
    } else if (c as u32) < 32 {
        seq!['\\', 'u', '0', '0', hex_digit((c as u32) as int / 16), hex_digit((c as u32) as int % 16)]
    } else {
        seq![c]
    }
}

/// The escaped characters of `s`, in order.
pub open spec fn json_escaped(s: Seq<char>) -> Seq<char>
    decreases s.len(),
{
    if s.len() == 0 {
        Seq::empty()
    } else {
        json_escaped(s.drop_last()) + json_escape(s.last())
    }
}

/// The JSON string literal of `s`.
pub open spec fn json_quoted(s: Seq<char>) -> Seq<char> {
    seq!['"'] + json_escaped(s) + seq!['"']
}

/// Relies on `serde_json::to_string` on a string slice: the quoted JSON
/// string literal, escaped by serde_json's table of escapes.
#[verifier::external_body]
pub(crate) fn quote(s: &str) -> (r: String)
    ensures
        r@ == json_quoted(s@),
{
    serde_json::to_string(s).unwrap_or_default()
}

/// Compact JSON text: no whitespace, members in their stored order.
pub open spec fn json_text(j: JsonV) -> Seq<char>
    decreases j, 0nat,
{
    match j {
        JsonV::Null => "null"@,
        JsonV::Bool(b) => if b { "true"@ } else { "false"@ },
        JsonV::UInt(n) => decimal(n as nat),
        JsonV::OtherNumber(t) => t,
        JsonV::Str(s) => json_quoted(s),
        JsonV::Array(v) => "["@ + items_text(v, v.len() as nat) + "]"@,
        JsonV::Object(v) => "{"@ + members_text(v, v.len() as nat) + "}"@,
    }
}

/// The first `n` items, comma-separated.
pub open spec fn items_text(s: Seq<JsonV>, n: nat) -> Seq<char>
    decreases s, n,
{
    if n == 0 || n > s.len() {
        Seq::empty()
    } else if n == 1 {
        json_text(s[0])
    } else {
        items_text(s, (n - 1) as nat) + ","@ + json_text(s[n - 1])
    }
}

/// The first `n` members as `"key":value`, comma-separated.
pub open spec fn members_text(s: Seq<(Seq<char>, JsonV)>, n: nat) -> Seq<char>
    decreases s, n,
{
    if n == 0 || n > s.len() {
        Seq::empty()
    } else if n == 1 {
        json_quoted(s[0].0) + ":"@ + json_text(s[0].1)
    } else {
        members_text(s, (n - 1) as nat) + ","@ + json_quoted(s[n - 1].0) + ":"@ + json_text(
            s[n - 1].1,
        )
    }
}

/// The value of the first member named `key`.
pub open spec fn member(s: Seq<(Seq<char>, JsonV)>, key: Seq<char>) -> Option<JsonV>
    decreases s.len(),
{
    if s.len() == 0 {
        None
    } else if s[0].0 == key {
        Some(s[0].1)
    } else {
        member(s.drop_first(), key)
    }
}

impl JsonV {
    /// The member `key` of an object; nothing for other values.
    pub open spec fn field(self, key: Seq<char>) -> Option<JsonV> {
        match self {
            JsonV::Object(v) => member(v, key),
            _ => None,
        }
    }

    pub open spec fn as_text(self) -> Option<Seq<char>> {
        match self {
            JsonV::Str(s) => Some(s),
            _ => None,
        }
    }

    pub open spec fn as_u64(self) -> Option<u64> {
        match self {
            JsonV::UInt(n) => Some(n),
            _ => None,
        }
    }
}

proof fn lemma_items_view(s: Seq<Json>, n: nat, i: int)
    requires
        n <= s.len(),
        0 <= i < n,
    ensures
        items_view(s, n).len() == n,
        items_view(s, n)[i] == json_view(s[i]),
    decreases n,
{
    if i < n - 1 {
        lemma_items_view(s, (n - 1) as nat, i);
    }
    lemma_items_len(s, (n - 1) as nat);
}

proof fn lemma_items_len(s: Seq<Json>, n: nat)
    requires
        n <= s.len(),
    ensures
        items_view(s, n).len() == n,
    decreases n,
{
    if n > 0 {
        lemma_items_len(s, (n - 1) as nat);
    }
}

proof fn lemma_members_len(s: Seq<(String, Json)>, n: nat)
    requires
        n <= s.len(),
    ensures
        members_view(s, n).len() == n,
    decreases n,
{
    if n > 0 {
        lemma_members_len(s, (n - 1) as nat);
    }
}

proof fn lemma_members_view(s: Seq<(String, Json)>, n: nat, i: int)
    requires
        n <= s.len(),
        0 <= i < n,
    ensures
        members_view(s, n)[i] == (s[i].0@, json_view(s[i].1)),
    decreases n,
{
    if i < n - 1 {
        lemma_members_view(s, (n - 1) as nat, i);
    }
    lemma_members_len(s, (n - 1) as nat);
}

proof fn lemma_member_first(s: Seq<(Seq<char>, JsonV)>, key: Seq<char>, i: int)
    requires
        0 <= i < s.len(),
        s[i].0 == key,
        forall|j: int| 0 <= j < i ==> (#[trigger] s[j]).0 != key,
    ensures
        member(s, key) == Some(s[i].1),
    decreases i,
{
    if i > 0 {
        assert(s[0].0 != key);
        assert forall|j: int| 0 <= j < i - 1 implies (#[trigger] s.drop_first()[j]).0 != key by {
            assert(s.drop_first()[j] == s[j + 1]);
        }
        lemma_member_first(s.drop_first(), key, i - 1);
    }
}

proof fn lemma_member_absent(s: Seq<(Seq<char>, JsonV)>, key: Seq<char>)
    requires
        forall|j: int| 0 <= j < s.len() ==> (#[trigger] s[j]).0 != key,
    ensures
        member(s, key) is None,
    decreases s.len(),
{
    if s.len() > 0 {
        assert(s[0].0 != key);
        assert forall|j: int| 0 <= j < s.len() - 1 implies (#[trigger] s.drop_first()[j]).0 != key by {
            assert(s.drop_first()[j] == s[j + 1]);
        }
        lemma_member_absent(s.drop_first(), key);
    }
}

proof fn lemma_members_all(v: Seq<(String, Json)>)
    ensures
        members_view(v, v.len() as nat).len() == v.len(),
        forall|j: int|
            0 <= j < v.len() ==> #[trigger] members_view(v, v.len() as nat)[j] == (
            v[j].0@,
            json_view(v[j].1),
        ),
{
    lemma_members_len(v, v.len() as nat);
    assert forall|j: int| 0 <= j < v.len() implies #[trigger] members_view(v, v.len() as nat)[j] == (
    v[j].0@, json_view(v[j].1)) by {
        lemma_members_view(v, v.len() as nat, j);
    }
}

proof fn lemma_found_member(v: Seq<(String, Json)>, key: Seq<char>, i: int)
    requires
        0 <= i < v.len(),
        v[i].0@ == key,
        forall|j: int| 0 <= j < i ==> (#[trigger] v[j]).0@ != key,
    ensures
        member(members_view(v, v.len() as nat), key) == Some(json_view(v[i].1)),
{
    let mv = members_view(v, v.len() as nat);
    lemma_members_all(v);
    assert forall|j: int| 0 <= j < i implies (#[trigger] mv[j]).0 != key by {
        assert(mv[j].0 == v[j].0@);
    }
    lemma_member_first(mv, key, i);
}

proof fn lemma_absent_member(v: Seq<(String, Json)>, key: Seq<char>)
    requires
        forall|j: int| 0 <= j < v.len() ==> (#[trigger] v[j]).0@ != key,
    ensures
        member(members_view(v, v.len() as nat), key) is None,
{
    let mv = members_view(v, v.len() as nat);
    lemma_members_all(v);
    assert forall|j: int| 0 <= j < mv.len() implies (#[trigger] mv[j]).0 != key by {
        assert(mv[j].0 == v[j].0@);
    }
    lemma_member_absent(mv, key);
}

impl Json {
    /// An object with the given members, in their order.
    pub fn object(v: Vec<(String, Json)>) -> (r: Json)
        ensures
            r@ == JsonV::Object(ns_view(v@)),
    {
        proof {
            lemma_members_all(v@);
            assert(members_view(v@, v@.len() as nat) =~= ns_view(v@));
        }
        Json::Object(v)
    }

    /// The member `key` of an object.
    #[verifier::rlimit(40)]
    pub fn get(&self, key: &str) -> (r: Option<&Json>)
        ensures
            r is None <==> self@.field(key@) is None,
            r is Some ==> self@.field(key@) == Some(r->0@),
    {
        match self {
            Json::Object(v) => match find_key(v, key) {
                Some(i) => {
                    assert(self@ == JsonV::Object(members_view(v@, v@.len() as nat)));
                    proof {
                        lemma_found_member(v@, key@, i as int);
                    }
                    Some(&v[i].1)
                },
                None => {
                    assert(self@ == JsonV::Object(members_view(v@, v@.len() as nat)));
                    proof {
                        lemma_absent_member(v@, key@);
                    }
                    None
                },
            },
            _ => None,
        }
    }

    pub fn as_str(&self) -> (r: Option<&String>)
        ensures
            r is None <==> self@.as_text() is None,
            r is Some ==> self@.as_text() == Some(r->0@),
    {
        match self {
            Json::Str(s) => Some(s),
            _ => None,
        }
    }

    pub fn as_u64(&self) -> (r: Option<u64>)
        ensures
            r == self@.as_u64(),
    {
        match self {
            Json::UInt(n) => Some(*n),
            _ => None,
        }
    }

    /// A copy of this value.
    pub fn copy(&self) -> (r: Json)
        ensures
            r@ == self@,
        decreases self@,
    {
        match self {
            Json::Null => Json::Null,
            Json::Bool(b) => Json::Bool(*b),
            Json::UInt(n) => Json::UInt(*n),
            Json::OtherNumber(t) => Json::OtherNumber(t.clone()),
            Json::Str(t) => Json::Str(t.clone()),
            Json::Array(v) => {
                assert(self@ == JsonV::Array(items_view(v@, v@.len() as nat)));
                proof {
                    lemma_items_len(v@, v@.len() as nat);
                }
                let mut w: Vec<Json> = Vec::new();
                let mut i: usize = 0;
                while i < v.len()
                    invariant
                        0 <= i <= v@.len(),
                        w@.len() == i,
                        self@ == JsonV::Array(items_view(v@, v@.len() as nat)),
                        items_view(v@, v@.len() as nat).len() == v@.len(),
                        forall|j: int| 0 <= j < i ==> (#[trigger] w@[j])@ == v@[j]@,
                    decreases v@.len() - i,
                {
                    proof {
                        lemma_items_view(v@, v@.len() as nat, i as int);
                        assert(decreases_to!(self@ => self@->Array_0));
                        assert(decreases_to!(self@->Array_0 => self@->Array_0[i as int]));
                    }
                    w.push(v[i].copy());
                    i = i + 1;
                }
                proof {
                    lemma_same_items(w@, v@, v@.len() as nat);
                }
                Json::Array(w)
            },
            Json::Object(v) => {
                assert(self@ == JsonV::Object(members_view(v@, v@.len() as nat)));
                proof {
                    lemma_members_len(v@, v@.len() as nat);
                }
                let mut w: Vec<(String, Json)> = Vec::new();
                let mut i: usize = 0;
                while i < v.len()
                    invariant
                        0 <= i <= v@.len(),
                        w@.len() == i,
                        self@ == JsonV::Object(members_view(v@, v@.len() as nat)),
                        members_view(v@, v@.len() as nat).len() == v@.len(),
                        forall|j: int|
                            0 <= j < i ==> (#[trigger] w@[j]).0@ == v@[j].0@ && w@[j].1@ == v@[j].1@,
                    decreases v@.len() - i,
                {
                    proof {
                        lemma_members_view(v@, v@.len() as nat, i as int);
                        lemma_members_len(v@, v@.len() as nat);
                        assert(decreases_to!(self@ => self@->Object_0));
                        assert(decreases_to!(self@->Object_0 => self@->Object_0[i as int]));
                        assert(decreases_to!(self@->Object_0[i as int] => self@->Object_0[i as int].1));
                    }
                    w.push((v[i].0.clone(), v[i].1.copy()));
                    i = i + 1;
                }
                proof {
                    lemma_same_members(w@, v@, v@.len() as nat);
                }
                Json::Object(w)
            },
        }
    }

    /// The compact JSON text of this value.
    pub fn to_text(&self) -> (r: String)
        ensures
            r@ == json_text(self@),
    {
        let mut out = String::new();
        self.write_to(&mut out);
        out
    }

    fn write_to(&self, out: &mut String)
        ensures
            final(out)@ == old(out)@ + json_text(self@),
        decreases self@,
    {
        match self {
            Json::Null => {
                out.append("null");
            },
            Json::Bool(b) => {
                if *b {
                    out.append("true");
                } else {
                    out.append("false");
                }
            },
            Json::UInt(n) => {
                let t = decimal_text(*n as u128);
                out.append(t.as_str());
            },
            Json::OtherNumber(t) => {
                out.append(t.as_str());
            },
            Json::Str(s) => {
                let q = quote(s.as_str());
                out.append(q.as_str());
            },
            Json::Array(v) => {
                let ghost iv = items_view(v@, v@.len() as nat);
                assert(self@ == JsonV::Array(iv));
                proof {
                    lemma_items_len(v@, v@.len() as nat);
                }
                out.append("[");
                let ghost start = out@;
                let mut i: usize = 0;
                while i < v.len()
                    invariant
                        0 <= i <= v@.len(),
                        iv.len() == v@.len(),
                        self@ == JsonV::Array(iv),
                        iv == items_view(v@, v@.len() as nat),
                        out@ == start + items_text(iv, i as nat),
                    decreases v@.len() - i,
                {
                    proof {
                        lemma_items_view(v@, v@.len() as nat, i as int);
                        assert(decreases_to!(self@ => self@->Array_0));
                        assert(decreases_to!(self@->Array_0 => self@->Array_0[i as int]));
                    }
                    if i > 0 {
                        out.append(",");
                    }
                    v[i].write_to(out);
                    i = i + 1;
                    proof {
                        assert(out@ =~= start + items_text(iv, i as nat));
                    }
                }
                out.append("]");
                proof {
                    assert(out@ =~= old(out)@ + json_text(self@));
                }
            },
            Json::Object(v) => {
                let ghost mv = members_view(v@, v@.len() as nat);
                assert(self@ == JsonV::Object(mv));
                proof {
                    lemma_members_len(v@, v@.len() as nat);
                }
                out.append("{");
                let ghost start = out@;
                let mut i: usize = 0;
                while i < v.len()
                    invariant
                        0 <= i <= v@.len(),
                        mv.len() == v@.len(),
                        self@ == JsonV::Object(mv),
                        mv == members_view(v@, v@.len() as nat),
                        out@ == start + members_text(mv, i as nat),
                    decreases v@.len() - i,
                {
                    proof {
                        lemma_members_view(v@, v@.len() as nat, i as int);
                        assert(decreases_to!(self@ => self@->Object_0));
                        assert(decreases_to!(self@->Object_0 => self@->Object_0[i as int]));
                        assert(decreases_to!(self@->Object_0[i as int] => self@->Object_0[i as int].1));
                    }
                    if i > 0 {
                        out.append(",");
                    }
                    let q = quote(v[i].0.as_str());
                    out.append(q.as_str());
                    out.append(":");
                    v[i].1.write_to(out);
                    i = i + 1;
                    proof {
                        assert(out@ =~= start + members_text(mv, i as nat));
                    }
                }
                out.append("}");
                proof {
                    assert(out@ =~= old(out)@ + json_text(self@));
                }
            },
        }
    }
}

proof fn lemma_same_items(a: Seq<Json>, b: Seq<Json>, n: nat)
    requires
        a.len() == b.len(),
        n <= a.len(),
        forall|j: int| 0 <= j < a.len() ==> (#[trigger] a[j])@ == b[j]@,
    ensures
        items_view(a, n) == items_view(b, n),
    decreases n,
{
    if n > 0 {
        lemma_same_items(a, b, (n - 1) as nat);
        assert(a[n - 1]@ == b[n - 1]@);
    }
}

proof fn lemma_same_members(a: Seq<(String, Json)>, b: Seq<(String, Json)>, n: nat)
    requires
        a.len() == b.len(),
        n <= a.len(),
        forall|j: int| 0 <= j < a.len() ==> (#[trigger] a[j]).0@ == b[j].0@ && a[j].1@ == b[j].1@,
    ensures
        members_view(a, n) == members_view(b, n),
    decreases n,
{
    if n > 0 {
        lemma_same_members(a, b, (n - 1) as nat);
        assert(a[n - 1].0@ == b[n - 1].0@ && a[n - 1].1@ == b[n - 1].1@);
    }
}

} // verus!
