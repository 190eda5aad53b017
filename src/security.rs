//! The allow-list of signature algorithms.
use vstd::prelude::*;
use crate::util::{lower_of, lowercase};

verus! {

broadcast use vstd::seq::group_seq_axioms;

/// Unicode White_Space.
pub open spec fn is_white_space(c: char) -> bool {
    let u = c as u32;
    (9 <= u && u <= 13) || u == 32 || u == 0x85 || u == 0xA0 || u == 0x1680 || (0x2000 <= u && u
        <= 0x200A) || u == 0x2028 || u == 0x2029 || u == 0x202F || u == 0x205F || u == 0x3000
}

pub open spec fn trim_start(s: Seq<char>) -> Seq<char>
    decreases s.len(),
{
    if s.len() > 0 && is_white_space(s[0]) {
        trim_start(s.drop_first())
    } else {
        s
    }
}

pub open spec fn trim_end(s: Seq<char>) -> Seq<char>
    decreases s.len(),
{
    if s.len() > 0 && is_white_space(s.last()) {
        trim_end(s.drop_last())
    } else {
        s
    }
}

/// The text without leading and trailing white space.
pub open spec fn trimmed(s: Seq<char>) -> Seq<char> {
    trim_end(trim_start(s))
}

/// Relies on `str::trim`: the text without leading and trailing characters
/// of the Unicode White_Space property.
#[verifier::external_body]
fn trim(s: &str) -> (r: &str)
    ensures
        r@ == trimmed(s@),
{
    s.trim()
}

/// The pieces of `s` between commas, in order; text without a comma is one piece.
pub open spec fn split_commas(s: Seq<char>) -> Seq<Seq<char>>
    decreases s.len(),
{
    if s.len() == 0 {
        seq![Seq::empty()]
    } else {
        let prev = split_commas(s.drop_last());
        if s.last() == ',' {
            prev.push(Seq::empty())
        } else {
            prev.update(prev.len() - 1, prev.last().push(s.last()))
        }
    }
}

/// Each piece trimmed and lower-cased, the empty ones left out.
pub open spec fn normalized(pieces: Seq<Seq<char>>) -> Seq<Seq<char>>
    decreases pieces.len(),
{
    if pieces.len() == 0 {
        pieces
    } else {
        let rest = normalized(pieces.drop_last());
        let p = lower_of(trimmed(pieces.last()));
        if p.len() == 0 {
            rest
        } else {
            rest.push(p)
        }
    }
}

/// The allow-list that a comma-separated setting names; `mldsa3` by default.
pub open spec fn allow_list(setting: Option<Seq<char>>) -> Seq<Seq<char>> {
    match setting {
        Some(s) => normalized(split_commas(s)),
        None => normalized(split_commas("mldsa3"@)),
    }
}

proof fn lemma_split_len(s: Seq<char>)
    ensures
        split_commas(s).len() >= 1,
    decreases s.len(),
{
    if s.len() > 0 {
        lemma_split_len(s.drop_last());
    }
}

fn split_on_commas(s: &str) -> (r: Vec<String>)
    ensures
        r@.map_values(|p: String| p@) == split_commas(s@),
{
    let n = s.unicode_len();
    let mut pieces: Vec<String> = Vec::new();
    let mut start: usize = 0;
    let mut i: usize = 0;
    proof {
        assert(s@.subrange(0, 0) =~= Seq::<char>::empty());
        assert(pieces@.map_values(|p: String| p@) =~= Seq::<Seq<char>>::empty());
        assert(pieces@.map_values(|p: String| p@).push(s@.subrange(0, 0)) =~= seq![Seq::<char>::empty()]);
    }
    while i < n
        invariant
            n == s@.len(),
            0 <= start <= i <= n,
            split_commas(s@.subrange(0, i as int)) == pieces@.map_values(|p: String| p@).push(
                s@.subrange(start as int, i as int),
            ),
        decreases n - i,
    {
        proof {
            assert(s@.subrange(0, i + 1).drop_last() =~= s@.subrange(0, i as int));
            assert(s@.subrange(0, i + 1).last() == s@[i as int]);
            lemma_split_len(s@.subrange(0, i as int));
        }
        let ghost before = pieces@.map_values(|p: String| p@);
        if s.get_char(i) == ',' {
            let piece = s.substring_char(start, i);
            pieces.push(piece.to_owned());
            proof {
                assert(pieces@.map_values(|p: String| p@) =~= before.push(s@.subrange(start as int, i as int)));
                assert(s@.subrange(i + 1, i + 1) =~= Seq::<char>::empty());
            }
            start = i + 1;
            proof {
                assert(split_commas(s@.subrange(0, i + 1)) =~= pieces@.map_values(|p: String| p@).push(
                    s@.subrange(start as int, i + 1),
                ));
            }
        } else {
            proof {
                assert(s@.subrange(start as int, i + 1) =~= s@.subrange(start as int, i as int).push(s@[i as int]));
                assert(split_commas(s@.subrange(0, i + 1)) =~= pieces@.map_values(|p: String| p@).push(
                    s@.subrange(start as int, i + 1),
                ));
            }
        }
        i = i + 1;
    }
    let last = s.substring_char(start, n);
    pieces.push(last.to_owned());
    proof {
        assert(s@.subrange(0, n as int) =~= s@);
        assert(pieces@.map_values(|p: String| p@) =~= split_commas(s@));
    }
    pieces
}

/// The allowed signature algorithms: the comma-separated setting, each
/// entry trimmed and lower-cased, empty entries left out; `mldsa3` where
/// there is no setting.
pub fn allowed_sig_algs(setting: Option<&str>) -> (r: Vec<String>)
    ensures
        r@.map_values(|p: String| p@) == allow_list(
            match setting {
                Some(s) => Some(s@),
                None => None,
            },
        ),
{
    let text = match setting {
        Some(s) => s,
        None => "mldsa3",
    };
    let pieces = split_on_commas(text);
    let ghost pv = pieces@.map_values(|p: String| p@);
    let mut out: Vec<String> = Vec::new();
    let mut i: usize = 0;
    while i < pieces.len()
        invariant
            0 <= i <= pieces@.len(),
            pv == pieces@.map_values(|p: String| p@),
            out@.map_values(|p: String| p@) == normalized(pv.subrange(0, i as int)),
        decreases pieces@.len() - i,
    {
        let l = lowercase(trim(pieces[i].as_str()));
        proof {
            assert(pv.subrange(0, i + 1).drop_last() =~= pv.subrange(0, i as int));
            assert(pv.subrange(0, i + 1).last() == pieces@[i as int]@);
        }
        if l.unicode_len() > 0 {
            out.push(l);
            proof {
                assert(out@.map_values(|p: String| p@) =~= normalized(pv.subrange(0, i as int)).push(l@));
            }
        }
        i = i + 1;
    }
    proof {
        assert(pv.subrange(0, pieces@.len() as int) =~= pv);
    }
    out
}

} // verus!
