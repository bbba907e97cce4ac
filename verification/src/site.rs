//! Builds the pages of all declared entities.

use vstd::prelude::*;
use crate::catalog::declared_iris;
use crate::text::texts_of;
use crate::models::Kind;
use crate::ontology::Axiom;
use crate::page::{page_error, page_of, EntityPageModel, PageView};
use crate::render_html::{Names, OntologyRender, RenderError, RenderErrorKind};
use crate::text::same_text;

verus! {

/// An entity whose page could not be built, and why.
#[derive(Debug, PartialEq, Eq)]
pub struct PageFailure {
    pub iri: String,
    pub error: RenderError,
}

/// The mathematical value of a [`PageFailure`].
pub struct FailureView {
    pub iri: Seq<char>,
    pub error: RenderErrorKind,
}

impl View for PageFailure {
    type V = FailureView;

    open spec fn view(&self) -> FailureView {
        FailureView { iri: self.iri@, error: self.error.0 }
    }
}

/// The pages of a site: one for each declared entity whose page could be
/// built, and the entities whose page could not.
#[derive(Debug, PartialEq, Eq)]
pub struct SitePages {
    pub pages: Vec<EntityPageModel>,
    pub failures: Vec<PageFailure>,
}

/// The values of the pages of `v`, in order.
pub open spec fn pages_view(v: Seq<EntityPageModel>) -> Seq<PageView> {
    Seq::new(v.len(), |i: int| v[i]@)
}

/// The values of the failures of `v`, in order.
pub open spec fn failures_view(v: Seq<PageFailure>) -> Seq<FailureView> {
    Seq::new(v.len(), |i: int| v[i]@)
}

/// `s` without the later occurrences of what it holds more than once.
pub open spec fn dedup(s: Seq<Seq<char>>) -> Seq<Seq<char>>
    decreases s.len(),
{
    if s.len() == 0 {
        Seq::empty()
    } else {
        let d = dedup(s.drop_last());
        if d.contains(s.last()) {
            d
        } else {
            d.push(s.last())
        }
    }
}

/// Every declaration in the order in which the site takes the kinds:
/// classes, named individuals, data properties, object properties,
/// annotation properties.
pub open spec fn declarations(axioms: Seq<Axiom>) -> Seq<Seq<char>> {
    declared_iris(axioms, Kind::Class) + declared_iris(axioms, Kind::NamedIndividual)
        + declared_iris(axioms, Kind::DataProperty) + declared_iris(axioms, Kind::ObjectProperty)
        + declared_iris(axioms, Kind::AnnotationProperty)
}

/// The entities of the site, each once, in the order of their first
/// declaration.
pub open spec fn site_order(axioms: Seq<Axiom>) -> Seq<Seq<char>> {
    dedup(declarations(axioms))
}

/// The pages of the entities of `order` that have one, in that order.
pub open spec fn pages_of(names: Names, axioms: Seq<Axiom>, order: Seq<Seq<char>>) -> Seq<PageView>
    decreases order.len(),
{
    if order.len() == 0 {
        Seq::empty()
    } else {
        let rest = pages_of(names, axioms, order.drop_last());
        if page_error(axioms, order.last()).is_none() {
            rest.push(page_of(names, axioms, order.last()))
        } else {
            rest
        }
    }
}

/// The entities of `order` that have no page, each with the reason, in that
/// order.
pub open spec fn failures_of(axioms: Seq<Axiom>, order: Seq<Seq<char>>) -> Seq<FailureView>
    decreases order.len(),
{
    if order.len() == 0 {
        Seq::empty()
    } else {
        let rest = failures_of(axioms, order.drop_last());
        match page_error(axioms, order.last()) {
            Some(k) => rest.push(FailureView { iri: order.last(), error: k }),
            None => rest,
        }
    }
}

/// Without its later repetitions a sequence holds nothing twice, and holds
/// what it held before.
pub proof fn dedup_is_distinct(s: Seq<Seq<char>>)
    ensures
        dedup(s).no_duplicates(),
        forall|x: Seq<char>| dedup(s).contains(x) <==> s.contains(x),
    decreases s.len(),
{
    if s.len() > 0 {
        let rest = s.drop_last();
        dedup_is_distinct(rest);
        let d = dedup(rest);
        let last = s.last();
        assert forall|x: Seq<char>| dedup(s).contains(x) <==> s.contains(x) by {
            assert(d.contains(x) <==> rest.contains(x));
            if s.contains(x) {
                let i = choose|i: int| 0 <= i < s.len() && s[i] == x;
                if i < s.len() - 1 {
                    assert(rest[i] == x);
                    assert(rest.contains(x));
                    let j = choose|j: int| 0 <= j < d.len() && d[j] == x;
                    if !d.contains(last) {
                        assert(d.push(last)[j] == x);
                    }
                } else if !d.contains(last) {
                    assert(d.push(last)[d.len() as int] == x);
                }
                assert(dedup(s).contains(x));
            }
            if dedup(s).contains(x) {
                let j = choose|j: int| 0 <= j < dedup(s).len() && dedup(s)[j] == x;
                if j < d.len() {
                    assert(d[j] == x);
                    assert(d.contains(x));
                    assert(rest.contains(x));
                    let i = choose|i: int| 0 <= i < rest.len() && rest[i] == x;
                    assert(s[i] == x);
                } else {
                    assert(s[s.len() - 1] == x);
                }
                assert(s.contains(x));
            }
        }
    }
}

/// Every page is the page of an entity of `order`.
pub proof fn pages_follow_order(names: Names, axioms: Seq<Axiom>, order: Seq<Seq<char>>)
    ensures
        forall|i: int|
            0 <= i < pages_of(names, axioms, order).len() ==> order.contains(
                (#[trigger] pages_of(names, axioms, order)[i]).iri,
            ),
    decreases order.len(),
{
    if order.len() > 0 {
        let rest = order.drop_last();
        pages_follow_order(names, axioms, rest);
        let before = pages_of(names, axioms, rest);
        assert forall|i: int| 0 <= i < pages_of(names, axioms, order).len() implies order.contains(
            (#[trigger] pages_of(names, axioms, order)[i]).iri,
        ) by {
            if i < before.len() {
                assert(rest.contains(before[i].iri));
                let j = choose|j: int| 0 <= j < rest.len() && rest[j] == before[i].iri;
                assert(order[j] == before[i].iri);
            } else {
                assert(order[order.len() - 1] == order.last());
            }
        }
    }
}

/// Where no entity is taken twice, no two pages are pages of one IRI.
pub proof fn pages_are_distinct(names: Names, axioms: Seq<Axiom>, order: Seq<Seq<char>>)
    requires
        order.no_duplicates(),
    ensures
        forall|i: int, j: int|
            0 <= i < j < pages_of(names, axioms, order).len() ==> pages_of(names, axioms, order)[i].iri
                != pages_of(names, axioms, order)[j].iri,
    decreases order.len(),
{
    if order.len() > 0 {
        let rest = order.drop_last();
        assert forall|a: int, b: int| 0 <= a < b < rest.len() implies rest[a] != rest[b] by {
            assert(order[a] != order[b]);
        }
        pages_are_distinct(names, axioms, rest);
        pages_follow_order(names, axioms, rest);
        let before = pages_of(names, axioms, rest);
        let all = pages_of(names, axioms, order);
        assert forall|i: int, j: int| 0 <= i < j < all.len() implies all[i].iri != all[j].iri by {
            if j >= before.len() {
                assert(rest.contains(before[i].iri));
                let k = choose|k: int| 0 <= k < rest.len() && rest[k] == before[i].iri;
                assert(order[k] != order[order.len() - 1]);
            }
        }
    }
}

/// Tells whether `iri` is one of `seen`.
fn holds_text(seen: &Vec<String>, iri: &str) -> (r: bool)
    ensures
        r == texts_of(seen@).contains(iri@),
{
    let mut i: usize = 0;
    while i < seen.len()
        invariant
            i <= seen.len(),
            forall|j: int| 0 <= j < i ==> seen[j]@ != iri@,
        decreases seen.len() - i,
    {
        if same_text(seen[i].as_str(), iri) {
            assert(texts_of(seen@)[i as int] == iri@);
            return true;
        }
        i += 1;
    }
    assert forall|j: int| 0 <= j < texts_of(seen@).len() implies texts_of(seen@)[j] != iri@ by {
        assert(seen[j]@ != iri@);
    }
    false
}

/// Adds to `seen` each string of `more` that it does not hold yet.
fn add_unseen(seen: &mut Vec<String>, more: Vec<String>, Ghost(before): Ghost<Seq<Seq<char>>>)
    requires
        texts_of(old(seen)@) == dedup(before),
    ensures
        texts_of(final(seen)@) == dedup(before + texts_of(more@)),
{
    let mut i: usize = 0;
    assert(before + texts_of(more@).take(0) =~= before);
    while i < more.len()
        invariant
            i <= more.len(),
            texts_of(seen@) == dedup(before + texts_of(more@).take(i as int)),
        decreases more.len() - i,
    {
        let ghost all = before + texts_of(more@).take(i + 1);
        assert(all.drop_last() =~= before + texts_of(more@).take(i as int));
        assert(all.last() == more[i as int]@);
        if !holds_text(seen, more[i].as_str()) {
            let ghost was = seen@;
            let owned = more[i].clone();
            seen.push(owned);
            assert(texts_of(seen@) =~= texts_of(was).push(more[i as int]@));
        }
        i += 1;
    }
    assert(texts_of(more@).take(more.len() as int) =~= texts_of(more@));
}

impl OntologyRender {
    /// The entities of the site, each once: classes first, then named
    /// individuals, data properties, object properties and annotation
    /// properties, each kind in the order of its declarations.
    pub fn declared_entities(&self) -> (r: Vec<String>)
        ensures
            texts_of(r@) == site_order(self.ontology@),
    {
        let mut seen: Vec<String> = Vec::new();
        let ghost a = self.ontology@;
        let ghost none = Seq::<Seq<char>>::empty();
        assert(texts_of(seen@) =~= dedup(none));
        let classes = self.get_iris_for_declaration(Kind::Class);
        add_unseen(&mut seen, classes, Ghost(none));
        assert(none + declared_iris(a, Kind::Class) =~= declared_iris(a, Kind::Class));
        let individuals = self.get_iris_for_declaration(Kind::NamedIndividual);
        add_unseen(&mut seen, individuals, Ghost(declared_iris(a, Kind::Class)));
        let data = self.get_iris_for_declaration(Kind::DataProperty);
        add_unseen(
            &mut seen,
            data,
            Ghost(declared_iris(a, Kind::Class) + declared_iris(a, Kind::NamedIndividual)),
        );
        let objects = self.get_iris_for_declaration(Kind::ObjectProperty);
        add_unseen(
            &mut seen,
            objects,
            Ghost(
                declared_iris(a, Kind::Class) + declared_iris(a, Kind::NamedIndividual)
                    + declared_iris(a, Kind::DataProperty),
            ),
        );
        let annotations = self.get_iris_for_declaration(Kind::AnnotationProperty);
        add_unseen(
            &mut seen,
            annotations,
            Ghost(
                declared_iris(a, Kind::Class) + declared_iris(a, Kind::NamedIndividual)
                    + declared_iris(a, Kind::DataProperty) + declared_iris(a, Kind::ObjectProperty),
            ),
        );
        seen
    }

    /// Builds the page of every declared entity. An entity declared more
    /// than once has one page. A page that cannot be built is reported with
    /// its reason and does not keep the others from being built.
    pub fn render_all_declarations(&self) -> (r: SitePages)
        ensures
            pages_view(r.pages@) == pages_of(self.names(), self.ontology@, site_order(self.ontology@)),
            failures_view(r.failures@) == failures_of(self.ontology@, site_order(self.ontology@)),
            forall|i: int, j: int|
                0 <= i < j < r.pages.len() ==> r.pages[i].iri@ != r.pages[j].iri@,
    {
        let order = self.declared_entities();
        let mut pages: Vec<EntityPageModel> = Vec::new();
        let mut failures: Vec<PageFailure> = Vec::new();
        let mut i: usize = 0;
        assert(pages_view(pages@) =~= pages_of(
            self.names(),
            self.ontology@,
            texts_of(order@).take(0),
        ));
        assert(failures_view(failures@) =~= failures_of(self.ontology@, texts_of(order@).take(0)));
        while i < order.len()
            invariant
                i <= order.len(),
                pages_view(pages@) == pages_of(
                    self.names(),
                    self.ontology@,
                    texts_of(order@).take(i as int),
                ),
                failures_view(failures@) == failures_of(
                    self.ontology@,
                    texts_of(order@).take(i as int),
                ),
            decreases order.len() - i,
        {
            let ghost next = texts_of(order@).take(i + 1);
            assert(next.drop_last() =~= texts_of(order@).take(i as int));
            assert(next.last() == order[i as int]@);
            match self.render_declaration_iri(order[i].as_str()) {
                Ok(page) => {
                    let ghost was = pages@;
                    pages.push(page);
                    assert(pages_view(pages@) =~= pages_view(was).push(page@));
                },
                Err(error) => {
                    let ghost was = failures@;
                    let failure = PageFailure { iri: order[i].clone(), error };
                    failures.push(failure);
                    assert(failures_view(failures@) =~= failures_view(was).push(failure@));
                },
            }
            i += 1;
        }
        assert(texts_of(order@).take(order.len() as int) =~= texts_of(order@));
        proof {
            dedup_is_distinct(declarations(self.ontology@));
            pages_are_distinct(self.names(), self.ontology@, site_order(self.ontology@));
            assert forall|i: int, j: int| 0 <= i < j < pages.len() implies pages[i].iri@
                != pages[j].iri@ by {
                assert(pages_view(pages@)[i].iri == pages[i].iri@);
                assert(pages_view(pages@)[j].iri == pages[j].iri@);
            }
        }
        SitePages { pages, failures }
    }
}

} // verus!
