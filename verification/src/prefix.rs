//! The prefix mapping of the `curie` crate, and what is taken on trust of
//! it.

use vstd::prelude::*;

verus! {

/// `curie::PrefixMapping`, taken as it is: a default namespace and a list of
/// prefixes with their namespaces, of which Verus sees nothing.
#[verifier::external_type_specification]
#[verifier::external_body]
pub struct ExPrefixMapping(curie::PrefixMapping);

/// `curie::InvalidPrefixError`, the error of `PrefixMapping::add_prefix`.
#[verifier::external_type_specification]
#[verifier::external_body]
pub struct ExInvalidPrefixError(curie::InvalidPrefixError);

/// The default namespace of a prefix mapping, if one was set.
pub uninterp spec fn default_namespace(pm: curie::PrefixMapping) -> Option<Seq<char>>;

/// The (prefix, namespace) pairs of a prefix mapping, in the order in which
/// their prefixes were first added.
pub uninterp spec fn registered(pm: curie::PrefixMapping) -> Seq<(Seq<char>, Seq<char>)>;

/// `p` is an initial part of `s`.
pub open spec fn starts_with(s: Seq<char>, p: Seq<char>) -> bool {
    p.len() <= s.len() && s.subrange(0, p.len() as int) == p
}

/// `s` without every leading repetition of `p`.
pub open spec fn trim_start(s: Seq<char>, p: Seq<char>) -> Seq<char>
    decreases s.len(),
{
    if p.len() > 0 && starts_with(s, p) {
        trim_start(s.subrange(p.len() as int, s.len() as int), p)
    } else {
        s
    }
}

/// The first pair of `entries` whose namespace starts `iri`.
pub open spec fn first_match(entries: Seq<(Seq<char>, Seq<char>)>, iri: Seq<char>) -> Option<
    (Seq<char>, Seq<char>),
>
    decreases entries.len(),
{
    if entries.len() == 0 {
        None
    } else if starts_with(iri, entries[0].1) {
        Some(entries[0])
    } else {
        first_match(entries.drop_first(), iri)
    }
}

/// The compact form of `iri`. The default namespace is tried first and gives
/// the bare remainder; then the registered pairs in order, the first match
/// giving `prefix:remainder`. `None` when no namespace starts `iri`.
pub open spec fn compact(
    default: Option<Seq<char>>,
    entries: Seq<(Seq<char>, Seq<char>)>,
    iri: Seq<char>,
) -> Option<Seq<char>> {
    if default.is_some() && starts_with(iri, default.unwrap()) {
        Some(trim_start(iri, default.unwrap()))
    } else {
        match first_match(entries, iri) {
            Some(e) => Some(e.0 + seq![':'] + trim_start(iri, e.1)),
            None => None,
        }
    }
}

/// `entries` after `prefix` is bound to `ns`: a prefix that is already there
/// keeps its place and gets the new namespace, a new one goes to the end.
pub open spec fn bind(entries: Seq<(Seq<char>, Seq<char>)>, prefix: Seq<char>, ns: Seq<char>) -> Seq<
    (Seq<char>, Seq<char>),
>
    decreases entries.len(),
{
    if entries.len() == 0 {
        seq![(prefix, ns)]
    } else if entries[0].0 == prefix {
        seq![(prefix, ns)] + entries.drop_first()
    } else {
        seq![entries[0]] + bind(entries.drop_first(), prefix, ns)
    }
}

/// Calls `PrefixMapping::shrink_iri` and writes the CURIE out as text.
/// Trusted: the result is the compact form of `iri` under the mapping's
/// default namespace and registered pairs, and `None` exactly when no
/// namespace of the mapping starts `iri`. An empty namespace starts every
/// IRI and takes nothing away from it.
#[verifier::external_body]
pub(crate) fn shrink_iri(pm: &curie::PrefixMapping, iri: &str) -> (r: Option<String>)
    ensures
        match r {
            Some(s) => compact(default_namespace(*pm), registered(*pm), iri@) == Some(s@),
            None => compact(default_namespace(*pm), registered(*pm), iri@).is_none(),
        },
{
    match pm.shrink_iri(iri) {
        Ok(c) => Some(String::from(c)),
        Err(_) => None,
    }
}

/// Calls `PrefixMapping::set_default`. Trusted: the default namespace becomes
/// `ns` and the registered pairs stay.
#[verifier::external_body]
pub(crate) fn set_default(pm: &mut curie::PrefixMapping, ns: &str)
    ensures
        default_namespace(*final(pm)) == Some(ns@),
        registered(*final(pm)) == registered(*old(pm)),
{
    pm.set_default(ns)
}

/// Calls `PrefixMapping::add_prefix`. Trusted: the prefix `_` is refused and
/// leaves the mapping as it was; any other prefix is bound to `ns`.
#[verifier::external_body]
pub(crate) fn add_prefix(pm: &mut curie::PrefixMapping, prefix: &str, ns: &str) -> (r: Result<
    (),
    curie::InvalidPrefixError,
>)
    ensures
        r.is_ok() <==> prefix@ != "_"@,
        default_namespace(*final(pm)) == default_namespace(*old(pm)),
        registered(*final(pm)) == if prefix@ == "_"@ {
            registered(*old(pm))
        } else {
            bind(registered(*old(pm)), prefix@, ns@)
        },
{
    pm.add_prefix(prefix, ns)
}

} // verus!
