//! What is said of strings, and the string functions of std that are taken
//! on trust.

use vstd::prelude::*;

verus! {

/// The pieces of `s` between the occurrences of `sep`: one more piece than
/// there are separators, some of them possibly empty.
pub open spec fn pieces(s: Seq<char>, sep: char) -> Seq<Seq<char>>
    decreases s.len(),
{
    if s.len() == 0 {
        seq![Seq::empty()]
    } else {
        let p = pieces(s.drop_last(), sep);
        if s.last() == sep {
            p.push(Seq::empty())
        } else {
            p.drop_last().push(p.last().push(s.last()))
        }
    }
}

/// `needle` occurs in `hay`.
pub open spec fn occurs_in(hay: Seq<char>, needle: Seq<char>) -> bool {
    exists|i: int|
        0 <= i && i + needle.len() <= hay.len() && #[trigger] hay.subrange(i, i + needle.len())
            == needle
}

/// `s` without the occurrences of `c` at its end.
pub open spec fn without_trailing(s: Seq<char>, c: char) -> Seq<char>
    decreases s.len(),
{
    if s.len() > 0 && s.last() == c {
        without_trailing(s.drop_last(), c)
    } else {
        s
    }
}

/// The characters of each string of `v`, in order.
pub open spec fn texts_of(v: Seq<String>) -> Seq<Seq<char>> {
    Seq::new(v.len(), |i: int| v[i]@)
}

/// Tells whether the two slices hold the same characters. They are
/// compared as owned strings, for which `==` is specified.
pub(crate) fn same_text(a: &str, b: &str) -> (r: bool)
    ensures
        r == (a@ == b@),
{
    a.to_owned() == b.to_owned()
}

/// Calls `str::split` with the separator `:` and collects the pieces.
/// Trusted: the result holds the pieces of `s` between its colons, in
/// order.
#[verifier::external_body]
pub(crate) fn split_at_colons(s: &str) -> (r: Vec<String>)
    ensures
        texts_of(r@) == pieces(s@, ':'),
{
    s.split(':').map(String::from).collect()
}

/// Calls `str::contains` with a string pattern. Trusted: true exactly when
/// `needle` occurs in `hay`.
#[verifier::external_body]
pub(crate) fn contains_text(hay: &str, needle: &str) -> (r: bool)
    ensures
        r == occurs_in(hay@, needle@),
{
    hay.contains(needle)
}

/// Calls `str::trim_end_matches` with the pattern `/`. Trusted: the result
/// is `s` without the slashes at its end.
#[verifier::external_body]
pub(crate) fn trim_end_slashes(s: &str) -> (r: &str)
    ensures
        r@ == without_trailing(s@, '/'),
{
    s.trim_end_matches('/')
}

} // verus!
