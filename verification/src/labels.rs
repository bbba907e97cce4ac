//! The index from IRIs to their labels.

use vstd::prelude::*;
use crate::ontology::{AnnotationSubject, AnnotationValue, Axiom};
use crate::ontology::unpack_literal;
use crate::text::same_text;
use crate::vocab::RDFS_LABEL;

verus! {

/// The preferred display text of each labelled IRI. No IRI is held twice.
pub struct LabelIndex {
    entries: Vec<(String, String)>,
}

spec fn distinct_keys(e: Seq<(String, String)>) -> bool {
    forall|i: int, j: int| 0 <= i < j < e.len() ==> e[i].0@ != e[j].0@
}

spec fn holds(e: Seq<(String, String)>, k: Seq<char>, i: int) -> bool {
    0 <= i < e.len() && e[i].0@ == k
}

spec fn lookup(e: Seq<(String, String)>, k: Seq<char>) -> Option<Seq<char>> {
    if exists|i: int| holds(e, k, i) {
        Some(e[choose|i: int| holds(e, k, i)].1@)
    } else {
        None
    }
}

proof fn lookup_at(e: Seq<(String, String)>, i: int)
    requires
        distinct_keys(e),
        0 <= i < e.len(),
    ensures
        lookup(e, e[i].0@) == Some(e[i].1@),
{
    assert(holds(e, e[i].0@, i));
    let c = choose|c: int| holds(e, e[i].0@, c);
    assert(c == i) by {
        if c < i {
            assert(e[c].0@ != e[i].0@);
        } else if i < c {
            assert(e[i].0@ != e[c].0@);
        }
    }
}

proof fn lookup_absent(e: Seq<(String, String)>, k: Seq<char>)
    requires
        forall|i: int| 0 <= i < e.len() ==> e[i].0@ != k,
    ensures
        lookup(e, k).is_none(),
{
    assert forall|i: int| !holds(e, k, i) by {}
}

impl View for LabelIndex {
    type V = Map<Seq<char>, Seq<char>>;

    closed spec fn view(&self) -> Map<Seq<char>, Seq<char>> {
        as_map(self.entries@)
    }
}

impl LabelIndex {
    #[verifier::type_invariant]
    closed spec fn distinct(&self) -> bool {
        distinct_keys(self.entries@)
    }

    /// An index without labels.
    pub fn new() -> (r: LabelIndex)
        ensures
            r@ == Map::<Seq<char>, Seq<char>>::empty(),
    {
        let r = LabelIndex { entries: Vec::new() };
        proof {
            assert forall|k: Seq<char>| lookup(r.entries@, k).is_none() by {
                lookup_absent(r.entries@, k);
            }
            assert(r@ =~= Map::<Seq<char>, Seq<char>>::empty());
        }
        r
    }

    /// The label of `iri`, if it has one.
    pub fn get(&self, iri: &str) -> (r: Option<&String>)
        ensures
            match r {
                Some(text) => self@.contains_key(iri@) && self@[iri@] == text@,
                None => !self@.contains_key(iri@),
            },
    {
        proof {
            use_type_invariant(self);
        }
        let mut i: usize = 0;
        while i < self.entries.len()
            invariant
                i <= self.entries.len(),
                distinct_keys(self.entries@),
                forall|j: int| 0 <= j < i ==> self.entries[j].0@ != iri@,
            decreases self.entries.len() - i,
        {
            if same_text(self.entries[i].0.as_str(), iri) {
                proof {
                    lookup_at(self.entries@, i as int);
                }
                return Some(&self.entries[i].1);
            }
            i += 1;
        }
        proof {
            lookup_absent(self.entries@, iri@);
        }
        None
    }

    /// The index in which `iri` has the label `text`, in place of the one it
    /// had, and every other IRI the label it has here.
    pub fn insert(self, iri: String, text: String) -> (r: LabelIndex)
        ensures
            r@ == self@.insert(iri@, text@),
    {
        proof {
            use_type_invariant(&self);
        }
        let ghost before = self.entries@;
        let mut entries = self.entries;
        let mut i: usize = 0;
        while i < entries.len()
            invariant
                i <= entries.len(),
                entries@ == before,
                before == self.entries@,
                distinct_keys(before),
                forall|j: int| 0 <= j < i ==> entries[j].0@ != iri@,
            decreases entries.len() - i,
        {
            if same_text(entries[i].0.as_str(), iri.as_str()) {
                entries.set(i, (iri, text));
                proof {
                    let after = entries@;
                    assert(after.len() == before.len());
                    assert forall|j: int| 0 <= j < after.len() implies #[trigger] after[j].0@
                        == before[j].0@ by {}
                    assert(distinct_keys(after));
                    updated(before, after, i as int, iri@, text@);
                }
                return LabelIndex { entries };
            }
            i += 1;
        }
        entries.push((iri, text));
        proof {
            let after = entries@;
            assert forall|j: int| 0 <= j < before.len() implies #[trigger] after[j] == before[j] by {}
            assert(distinct_keys(after));
            appended(before, after, iri@, text@);
        }
        LabelIndex { entries }
    }
}

spec fn as_map(e: Seq<(String, String)>) -> Map<Seq<char>, Seq<char>> {
    Map::new(|k: Seq<char>| lookup(e, k).is_some(), |k: Seq<char>| lookup(e, k).unwrap())
}

proof fn updated(
    before: Seq<(String, String)>,
    after: Seq<(String, String)>,
    i: int,
    k: Seq<char>,
    v: Seq<char>,
)
    requires
        distinct_keys(before),
        distinct_keys(after),
        0 <= i < before.len(),
        after.len() == before.len(),
        before[i].0@ == k,
        after[i].0@ == k,
        after[i].1@ == v,
        forall|j: int| 0 <= j < before.len() && j != i ==> after[j] == before[j],
    ensures
        as_map(after) == as_map(before).insert(k, v),
{
    assert forall|q: Seq<char>| #[trigger] lookup(after, q) == if q == k {
        Some(v)
    } else {
        lookup(before, q)
    } by {
        if q == k {
            lookup_at(after, i);
        } else if exists|j: int| holds(before, q, j) {
            let j = choose|j: int| holds(before, q, j);
            lookup_at(before, j);
            lookup_at(after, j);
        } else {
            assert forall|j: int| 0 <= j < after.len() implies after[j].0@ != q by {
                assert(!holds(before, q, j));
            }
            lookup_absent(after, q);
        }
    }
    assert(as_map(after) =~= as_map(before).insert(k, v));
}

proof fn appended(before: Seq<(String, String)>, after: Seq<(String, String)>, k: Seq<char>, v: Seq<char>)
    requires
        distinct_keys(before),
        distinct_keys(after),
        after.len() == before.len() + 1,
        after[before.len() as int].0@ == k,
        after[before.len() as int].1@ == v,
        forall|j: int| 0 <= j < before.len() ==> after[j] == before[j],
    ensures
        as_map(after) == as_map(before).insert(k, v),
{
    assert forall|q: Seq<char>| #[trigger] lookup(after, q) == if q == k {
        Some(v)
    } else {
        lookup(before, q)
    } by {
        if q == k {
            lookup_at(after, before.len() as int);
        } else if exists|j: int| holds(before, q, j) {
            let j = choose|j: int| holds(before, q, j);
            lookup_at(before, j);
            lookup_at(after, j);
        } else {
            assert forall|j: int| 0 <= j < after.len() implies after[j].0@ != q by {
                if j < before.len() {
                    assert(!holds(before, q, j));
                }
            }
            lookup_absent(after, q);
        }
    }
    assert(as_map(after) =~= as_map(before).insert(k, v));
}

/// The IRI and the text of `ax` when it gives a named entity an
/// `rdfs:label` with a literal value.
pub open spec fn label_assertion(ax: Axiom) -> Option<(Seq<char>, Seq<char>)> {
    match ax {
        Axiom::AnnotationAssertion {
            subject: AnnotationSubject::IRI(s),
            ap,
            av: AnnotationValue::Literal(l),
        } => if ap@ == RDFS_LABEL@ {
            Some((s@, l.text()))
        } else {
            None
        },
        _ => None,
    }
}

/// The labels that `axioms` assert, a later label replacing an earlier one
/// of the same IRI.
pub open spec fn labels_of(axioms: Seq<Axiom>) -> Map<Seq<char>, Seq<char>>
    decreases axioms.len(),
{
    if axioms.len() == 0 {
        Map::empty()
    } else {
        let rest = labels_of(axioms.drop_last());
        match label_assertion(axioms.last()) {
            Some(p) => rest.insert(p.0, p.1),
            None => rest,
        }
    }
}

/// Builds the label index of an ontology in one pass over its axioms.
pub fn get_label_hashmap(ontology: &Vec<Axiom>) -> (r: LabelIndex)
    ensures
        r@ == labels_of(ontology@),
{
    let mut label_map = LabelIndex::new();
    let mut i: usize = 0;
    while i < ontology.len()
        invariant
            i <= ontology.len(),
            label_map@ == labels_of(ontology@.take(i as int)),
        decreases ontology.len() - i,
    {
        assert(ontology@.take(i + 1).drop_last() == ontology@.take(i as int));
        match &ontology[i] {
            Axiom::AnnotationAssertion { subject, ap, av } => match subject {
                AnnotationSubject::IRI(iri) => {
                    if same_text(ap.as_str(), RDFS_LABEL) {
                        match av {
                            AnnotationValue::Literal(literal) => {
                                label_map = label_map.insert(iri.clone(), unpack_literal(literal));
                            },
                            _ => (),
                        }
                    }
                },
                AnnotationSubject::AnonymousIndividual(_) => (),
            },
            _ => (),
        }
        i += 1;
    }
    assert(ontology@.take(ontology.len() as int) == ontology@);
    label_map
}

} // verus!
