//! Small verified helpers over strings.

use vstd::prelude::*;
use vstd::string::{StrSliceExecFns, StringExecFns};

verus! {

/// String equality stated over the views.
pub fn str_eq(a: &str, b: &str) -> (r: bool)
    ensures
        r == (a@ == b@),
{
    let owned_a: String = a.to_owned();
    let owned_b: String = b.to_owned();
    owned_a == owned_b
}

/// What `str::to_lowercase` returns; the result depends on the characters
/// alone.
pub uninterp spec fn lower_of(s: Seq<char>) -> Seq<char>;

/// Relies on str::to_lowercase: lowercases the string, character by
/// character, by the Unicode tables; the result is a function of the input
/// characters alone.
#[verifier::external_body]
pub(crate) fn lowercase(s: &str) -> (r: String)
    ensures
        r@ == lower_of(s@),
{
    s.to_lowercase()
}

/// The position of the last occurrence of `sep`.
pub open spec fn last_sep_index(s: Seq<char>, sep: char) -> Option<int>
    decreases s.len(),
{
    if s.len() == 0 {
        None
    } else if s.last() == sep {
        Some(s.len() - 1)
    } else {
        last_sep_index(s.drop_last(), sep)
    }
}

/// What follows the last occurrence of `sep`; the whole text when `sep`
/// does not occur.
pub open spec fn spec_last_segment(s: Seq<char>, sep: char) -> Seq<char> {
    match last_sep_index(s, sep) {
        None => s,
        Some(i) => s.skip(i + 1),
    }
}

/// The text after the last `sep` — the final path segment of a URL, or the
/// id part of a colon-separated URI.
pub fn last_segment(s: &str, sep: char) -> (r: String)
    ensures
        r@ == spec_last_segment(s@, sep),
{
    let n = s.unicode_len();
    let mut k: usize = n;
    proof {
        assert(s@.take(n as int) =~= s@);
    }
    while k > 0
        invariant
            k <= n,
            n == s@.len(),
            last_sep_index(s@, sep) == last_sep_index(s@.take(k as int), sep),
        decreases k,
    {
        let c = s.get_char(k - 1);
        proof {
            assert(s@.take(k as int).last() == s@[k as int - 1]);
        }
        if c == sep {
            let tail = s.substring_char(k, n);
            proof {
                assert(s@.subrange(k as int, n as int) =~= s@.skip(k as int));
            }
            return tail.to_owned();
        }
        proof {
            assert(s@.take(k as int).drop_last() =~= s@.take(k as int - 1));
        }
        k = k - 1;
    }
    proof {
        assert(s@.take(0) =~= Seq::<char>::empty());
    }
    s.to_owned()
}

/// The parts joined by `sep`, in order.
pub open spec fn spec_join_upto(parts: Seq<String>, sep: Seq<char>, k: int) -> Seq<char>
    decreases k,
{
    if k <= 0 {
        Seq::empty()
    } else if k == 1 {
        parts[0]@
    } else {
        spec_join_upto(parts, sep, k - 1) + sep + parts[k - 1]@
    }
}

/// The parts joined by `sep`.
pub open spec fn spec_join(parts: Seq<String>, sep: Seq<char>) -> Seq<char> {
    spec_join_upto(parts, sep, parts.len() as int)
}

/// Joins the parts with `sep` between each two.
pub fn join_strings(parts: &Vec<String>, sep: &str) -> (r: String)
    ensures
        r@ == spec_join(parts@, sep@),
{
    let n = parts.len();
    let mut out = String::new();
    let mut i: usize = 0;
    while i < n
        invariant
            i <= n,
            n == parts@.len(),
            out@ == spec_join_upto(parts@, sep@, i as int),
        decreases n - i,
    {
        if i > 0 {
            out.append(sep);
        }
        out.append(parts[i].as_str());
        proof {
            assert(out@ =~= spec_join_upto(parts@, sep@, i as int + 1));
        }
        i = i + 1;
    }
    out
}

/// The characters of `s`, as a vector.
pub fn str_to_chars(s: &str) -> (r: Vec<char>)
    ensures
        r@ == s@,
{
    let n = s.unicode_len();
    let mut out: Vec<char> = Vec::new();
    let mut i: usize = 0;
    while i < n
        invariant
            i <= n,
            n == s@.len(),
            out@ == s@.take(i as int),
        decreases n - i,
    {
        out.push(s.get_char(i));
        proof {
            assert(out@ =~= s@.take(i as int + 1));
        }
        i = i + 1;
    }
    proof {
        assert(s@.take(n as int) =~= s@);
    }
    out
}

/// Relies on `core::iter::Iterator::collect` via `FromIterator` for
/// `String`: collecting characters builds the string of exactly those
/// characters, in order.
#[verifier::external_body]
pub(crate) fn chars_to_string(v: &Vec<char>) -> (r: String)
    ensures
        r@ == v@,
{
    v.iter().collect()
}

} // verus!
