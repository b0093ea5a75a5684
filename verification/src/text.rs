//! Small verified helpers over `&str` values: equality, suffix test,
//! whitespace trimming, and splitting on commas.

use vstd::prelude::*;
use vstd::string::StrSliceExecFns;

verus! {

/// One character of optional whitespace around a header token.
pub open spec fn spec_is_space(c: char) -> bool {
    c == ' ' || c == '\t'
}

/// The token with leading and trailing whitespace removed.
pub open spec fn spec_trim(s: Seq<char>) -> Seq<char>
    decreases s.len(),
{
    if s.len() == 0 {
        s
    } else if spec_is_space(s.first()) {
        spec_trim(s.drop_first())
    } else if spec_is_space(s.last()) {
        spec_trim(s.drop_last())
    } else {
        s
    }
}

/// Whether `s` ends with `suffix`.
pub open spec fn spec_ends_with(s: Seq<char>, suffix: Seq<char>) -> bool {
    s.len() >= suffix.len() && s.subrange(s.len() - suffix.len(), s.len() as int) == suffix
}

/// The pieces of `s` between commas, in order; no commas yields one piece.
pub open spec fn spec_split_commas(s: Seq<char>) -> Seq<Seq<char>> {
    spec_split_rec(s, Seq::empty())
}

/// Splitting helper: `cur` is the piece accumulated so far.
pub open spec fn spec_split_rec(s: Seq<char>, cur: Seq<char>) -> Seq<Seq<char>>
    decreases s.len(),
{
    if s.len() == 0 {
        seq![cur]
    } else if s.first() == ',' {
        seq![cur] + spec_split_rec(s.drop_first(), Seq::empty())
    } else {
        spec_split_rec(s.drop_first(), cur.push(s.first()))
    }
}

/// Relies on String::from_utf8: it succeeds exactly on valid UTF-8 and
/// decodes those bytes as UTF-8 text.
#[verifier::external_body]
pub fn bytes_to_string(v: Vec<u8>) -> (r: Option<String>)
    ensures
        r is Some <==> vstd::utf8::valid_utf8(v@),
        r is Some ==> r->Some_0@ == vstd::utf8::decode_utf8(v@),
{
    match String::from_utf8(v) {
        Ok(s) => Some(s),
        Err(_) => None,
    }
}

/// Character-wise string equality.
pub fn str_eq(a: &str, b: &str) -> (r: bool)
    ensures
        r == (a@ == b@),
{
    let n = a.unicode_len();
    if n != b.unicode_len() {
        return false;
    }
    let mut i: usize = 0;
    while i < n
        invariant
            i <= n,
            n == a@.len(),
            n == b@.len(),
            forall|j: int| 0 <= j < i ==> a@[j] == b@[j],
        decreases n - i,
    {
        if a.get_char(i) != b.get_char(i) {
            return false;
        }
        i += 1;
    }
    proof {
        assert(a@ =~= b@);
    }
    true
}

/// Whether `s` ends with `suffix`, character-wise.
pub fn str_ends_with(s: &str, suffix: &str) -> (r: bool)
    ensures
        r == spec_ends_with(s@, suffix@),
{
    let n = s.unicode_len();
    let m = suffix.unicode_len();
    if m > n {
        return false;
    }
    let tail = s.substring_char(n - m, n);
    str_eq(tail, suffix)
}

/// A copy of `s` with leading and trailing whitespace removed.
pub fn str_trim(s: &str) -> (r: String)
    ensures
        r@ == spec_trim(s@),
    decreases s@.len(),
{
    let n = s.unicode_len();
    if n == 0 {
        return String::new();
    }
    let first = s.get_char(0);
    if first == ' ' || first == '\t' {
        return str_trim(s.substring_char(1, n));
    }
    let last = s.get_char(n - 1);
    if last == ' ' || last == '\t' {
        return str_trim(s.substring_char(0, n - 1));
    }
    s.to_owned()
}

/// The pieces of `s` between commas, in order.
pub fn split_commas(s: &str) -> (r: Vec<String>)
    ensures
        r.deep_view() == spec_split_commas(s@),
{
    let n = s.unicode_len();
    let mut tokens: Vec<String> = Vec::new();
    let mut start: usize = 0;
    let mut i: usize = 0;
    proof {
        assert(s@.skip(0) =~= s@);
        assert(s@.subrange(0, 0) =~= Seq::<char>::empty());
        assert(tokens.deep_view() =~~= Seq::<Seq<char>>::empty());
        assert(Seq::<Seq<char>>::empty() + spec_split_rec(s@, Seq::empty()) =~~= spec_split_rec(
            s@,
            Seq::empty(),
        ));
    }
    while i < n
        invariant
            start <= i <= n,
            n == s@.len(),
            spec_split_commas(s@) == tokens.deep_view() + spec_split_rec(
                s@.skip(i as int),
                s@.subrange(start as int, i as int),
            ),
        decreases n - i,
    {
        let ghost prev_tokens = tokens.deep_view();
        let c = s.get_char(i);
        proof {
            assert(s@.skip(i as int).first() == s@[i as int]);
            assert(s@.skip(i as int).drop_first() =~= s@.skip(i as int + 1));
        }
        if c == ',' {
            let tok = s.substring_char(start, i).to_owned();
            tokens.push(tok);
            proof {
                assert(tokens.deep_view() =~~= prev_tokens.push(s@.subrange(
                    start as int,
                    i as int,
                )));
                assert(s@.subrange(i as int + 1, i as int + 1) =~= Seq::<char>::empty());
                assert(tokens.deep_view() + spec_split_rec(s@.skip(i as int + 1), Seq::empty())
                    =~~= prev_tokens + spec_split_rec(
                    s@.skip(i as int),
                    s@.subrange(start as int, i as int),
                ));
            }
            start = i + 1;
        } else {
            proof {
                assert(s@.subrange(start as int, i as int).push(s@[i as int]) =~= s@.subrange(
                    start as int,
                    i as int + 1,
                ));
            }
        }
        i += 1;
    }
    let tok = s.substring_char(start, n).to_owned();
    tokens.push(tok);
    proof {
        assert(s@.skip(n as int).len() == 0);
        assert(tokens.deep_view() =~~= spec_split_commas(s@));
    }
    tokens
}

} // verus!
