//! Builds the page of one entity: its kind, annotations and relationships.

use vstd::prelude::*;
use crate::models::{AnnotationView, Kind, OntologyAnnotation};
use crate::ontology::{unpack_annotation_value, AnnotationSubject, AnnotationValue, Axiom};
use crate::relations::{relations_supported, relationships_of, RelationshipSet, RelationshipsView};
use crate::render_html::{Names, OntologyRender, RenderError, RenderErrorKind};
use crate::text::same_text;
use crate::vocab::{RDFS_LABEL, SKOS_DEFINITION, SKOS_EXAMPLE};

verus! {

/// The annotations of one entity: label, definition and example apart, the
/// others in the order in which they were read.
#[derive(Debug, PartialEq, Eq)]
pub struct EntityAnnotations {
    pub label: Option<String>,
    pub definition: Option<String>,
    pub example: Option<String>,
    pub generic: Vec<OntologyAnnotation>,
}

/// The mathematical value of an [`EntityAnnotations`].
pub struct AnnotationsView {
    pub label: Option<Seq<char>>,
    pub definition: Option<Seq<char>>,
    pub example: Option<Seq<char>>,
    pub generic: Seq<AnnotationView>,
}

/// The characters of an optional string.
pub open spec fn optional_text(s: Option<String>) -> Option<Seq<char>> {
    match s {
        Some(t) => Some(t@),
        None => None,
    }
}

/// The values of the annotations of `v`, in order.
pub open spec fn entries_of(v: Seq<OntologyAnnotation>) -> Seq<AnnotationView> {
    Seq::new(v.len(), |i: int| v[i]@)
}

impl View for EntityAnnotations {
    type V = AnnotationsView;

    open spec fn view(&self) -> AnnotationsView {
        AnnotationsView {
            label: optional_text(self.label),
            definition: optional_text(self.definition),
            example: optional_text(self.example),
            generic: entries_of(self.generic@),
        }
    }
}

/// All that one entity page shows.
#[derive(Debug, PartialEq, Eq)]
pub struct EntityPageModel {
    pub kind: Kind,
    pub iri: String,
    pub annotations: EntityAnnotations,
    pub relationships: RelationshipSet,
}

/// The mathematical value of an [`EntityPageModel`].
pub struct PageView {
    pub kind: Kind,
    pub iri: Seq<char>,
    pub annotations: AnnotationsView,
    pub relationships: RelationshipsView,
}

impl View for EntityPageModel {
    type V = PageView;

    open spec fn view(&self) -> PageView {
        PageView {
            kind: self.kind,
            iri: self.iri@,
            annotations: self.annotations@,
            relationships: self.relationships@,
        }
    }
}

/// The kind that `ax` declares `target` to be, if it declares it.
pub open spec fn declared_kind(ax: Axiom, target: Seq<char>) -> Option<Kind> {
    match ax {
        Axiom::DeclareClass(i) => if i@ == target {
            Some(Kind::Class)
        } else {
            None
        },
        Axiom::DeclareObjectProperty(i) => if i@ == target {
            Some(Kind::ObjectProperty)
        } else {
            None
        },
        Axiom::DeclareAnnotationProperty(i) => if i@ == target {
            Some(Kind::AnnotationProperty)
        } else {
            None
        },
        Axiom::DeclareDataProperty(i) => if i@ == target {
            Some(Kind::DataProperty)
        } else {
            None
        },
        Axiom::DeclareNamedIndividual(i) => if i@ == target {
            Some(Kind::NamedIndividual)
        } else {
            None
        },
        _ => None,
    }
}

/// Some axiom declares `target`.
pub open spec fn declared(axioms: Seq<Axiom>, target: Seq<char>) -> bool {
    exists|i: int| 0 <= i < axioms.len() && declared_kind(#[trigger] axioms[i], target).is_some()
}

/// The kind of `target`: that of its last declaration, `Undefined` without
/// one.
pub open spec fn kind_of(axioms: Seq<Axiom>, target: Seq<char>) -> Kind
    decreases axioms.len(),
{
    if axioms.len() == 0 {
        Kind::Undefined
    } else {
        match declared_kind(axioms.last(), target) {
            Some(k) => k,
            None => kind_of(axioms.drop_last(), target),
        }
    }
}

/// An annotation as it is shown: the property is given its short form.
pub open spec fn annotation_entry(names: Names, ap: Seq<char>, value: Seq<char>) -> AnnotationView {
    AnnotationView { iri: ap, display: names.shrink(ap), value }
}

/// The text of a well-known annotation: that of the value, or the IRI of
/// the entity where the value has no text.
pub open spec fn text_or(av: AnnotationValue, target: Seq<char>) -> Seq<char> {
    match av.text() {
        Some(t) => t,
        None => target,
    }
}

/// No annotation at all.
pub open spec fn no_annotations() -> AnnotationsView {
    AnnotationsView { label: None, definition: None, example: None, generic: Seq::empty() }
}

/// The annotations of `target` after `ax` was read, `acc` being those
/// before it. Label, definition and example are replaced by a later one;
/// any other annotation whose value has a text is added to the rest.
pub open spec fn annotate(names: Names, acc: AnnotationsView, ax: Axiom, target: Seq<char>) -> AnnotationsView {
    match ax {
        Axiom::AnnotationAssertion { subject: AnnotationSubject::IRI(s), ap, av } => if s@
            != target {
            acc
        } else if ap@ == RDFS_LABEL@ {
            AnnotationsView { label: Some(text_or(av, target)), ..acc }
        } else if ap@ == SKOS_DEFINITION@ {
            AnnotationsView { definition: Some(text_or(av, target)), ..acc }
        } else if ap@ == SKOS_EXAMPLE@ {
            AnnotationsView { example: Some(text_or(av, target)), ..acc }
        } else {
            match av.text() {
                Some(t) => AnnotationsView {
                    generic: acc.generic.push(annotation_entry(names, ap@, t)),
                    ..acc
                },
                None => acc,
            }
        },
        _ => acc,
    }
}

/// The annotations that `axioms`, read in order, give `target`.
pub open spec fn annotations_of(names: Names, axioms: Seq<Axiom>, target: Seq<char>) -> AnnotationsView
    decreases axioms.len(),
{
    if axioms.len() == 0 {
        no_annotations()
    } else {
        annotate(names, annotations_of(names, axioms.drop_last(), target), axioms.last(), target)
    }
}

/// The page of `target`.
pub open spec fn page_of(names: Names, axioms: Seq<Axiom>, target: Seq<char>) -> PageView {
    PageView {
        kind: kind_of(axioms, target),
        iri: target,
        annotations: annotations_of(names, axioms, target),
        relationships: relationships_of(names, axioms, target),
    }
}

/// Why `target` has no page, if it has none: it is not declared, or else
/// an entry of it is not supported.
pub open spec fn page_error(axioms: Seq<Axiom>, target: Seq<char>) -> Option<RenderErrorKind> {
    if !declared(axioms, target) {
        Some(RenderErrorKind::UnknownEntityKind)
    } else if !relations_supported(axioms, target) {
        Some(RenderErrorKind::UnsupportedConstruct)
    } else {
        None
    }
}

/// An entity has a kind other than `Undefined` exactly when it is declared.
pub proof fn kind_known_iff_declared(axioms: Seq<Axiom>, target: Seq<char>)
    ensures
        kind_of(axioms, target) != Kind::Undefined <==> declared(axioms, target),
    decreases axioms.len(),
{
    if axioms.len() > 0 {
        let rest = axioms.drop_last();
        kind_known_iff_declared(rest, target);
        if declared_kind(axioms.last(), target).is_some() {
            assert(axioms[axioms.len() - 1] == axioms.last());
        } else {
            if declared(rest, target) {
                let i = choose|i: int|
                    0 <= i < rest.len() && declared_kind(#[trigger] rest[i], target).is_some();
                assert(axioms[i] == rest[i]);
            }
            if declared(axioms, target) {
                let i = choose|i: int|
                    0 <= i < axioms.len() && declared_kind(#[trigger] axioms[i], target).is_some();
                assert(rest[i] == axioms[i]);
            }
        }
    }
}

/// Adding an annotation adds its value.
pub(crate) proof fn entry_pushed(v: Seq<OntologyAnnotation>, a: OntologyAnnotation)
    ensures
        entries_of(v.push(a)) == entries_of(v).push(a@),
{
    assert(entries_of(v.push(a)) =~= entries_of(v).push(a@));
}

/// The kind that one axiom declares `target` to be.
pub fn declaration_kind(ax: &Axiom, target: &str) -> (r: Option<Kind>)
    ensures
        r == declared_kind(*ax, target@),
{
    match ax {
        Axiom::DeclareClass(i) => if same_text(i.as_str(), target) {
            Some(Kind::Class)
        } else {
            None
        },
        Axiom::DeclareObjectProperty(i) => if same_text(i.as_str(), target) {
            Some(Kind::ObjectProperty)
        } else {
            None
        },
        Axiom::DeclareAnnotationProperty(i) => if same_text(i.as_str(), target) {
            Some(Kind::AnnotationProperty)
        } else {
            None
        },
        Axiom::DeclareDataProperty(i) => if same_text(i.as_str(), target) {
            Some(Kind::DataProperty)
        } else {
            None
        },
        Axiom::DeclareNamedIndividual(i) => if same_text(i.as_str(), target) {
            Some(Kind::NamedIndividual)
        } else {
            None
        },
        _ => None,
    }
}

impl EntityAnnotations {
    /// No annotation at all.
    pub fn new() -> (r: Self)
        ensures
            r@ == no_annotations(),
    {
        let r = EntityAnnotations { label: None, definition: None, example: None, generic: Vec::new() };
        assert(r@.generic =~= Seq::empty());
        r
    }
}

impl OntologyRender {
    /// The kind of the entity `target`: that of its last declaration.
    pub fn entity_kind(&self, target: &str) -> (r: Kind)
        ensures
            r == kind_of(self.ontology@, target@),
            r != Kind::Undefined <==> declared(self.ontology@, target@),
    {
        let mut kind = Kind::Undefined;
        let mut i: usize = 0;
        while i < self.ontology.len()
            invariant
                i <= self.ontology.len(),
                kind == kind_of(self.ontology@.take(i as int), target@),
            decreases self.ontology.len() - i,
        {
            assert(self.ontology@.take(i + 1).drop_last() == self.ontology@.take(i as int));
            assert(self.ontology@.take(i + 1).last() == self.ontology@[i as int]);
            match declaration_kind(&self.ontology[i], target) {
                Some(k) => {
                    kind = k;
                },
                None => (),
            }
            i += 1;
        }
        proof {
            assert(self.ontology@.take(self.ontology.len() as int) == self.ontology@);
            kind_known_iff_declared(self.ontology@, target@);
        }
        kind
    }

    /// An annotation as it is shown.
    pub fn build_annotation(&self, ap: &str, value: String) -> (r: OntologyAnnotation)
        ensures
            r@ == annotation_entry(self.names(), ap@, value@),
    {
        OntologyAnnotation { iri: String::from_str(ap), display: self.shrink(ap), value }
    }

    /// Reads one axiom for the annotations of `target`.
    fn annotate_one(&self, acc: &mut EntityAnnotations, ax: &Axiom, target: &str)
        ensures
            final(acc)@ == annotate(self.names(), old(acc)@, *ax, target@),
    {
        match ax {
            Axiom::AnnotationAssertion { subject: AnnotationSubject::IRI(s), ap, av } => {
                if same_text(s.as_str(), target) {
                    let value = unpack_annotation_value(av);
                    if same_text(ap.as_str(), RDFS_LABEL) {
                        acc.label = Some(text_or_iri(value, target));
                    } else if same_text(ap.as_str(), SKOS_DEFINITION) {
                        acc.definition = Some(text_or_iri(value, target));
                    } else if same_text(ap.as_str(), SKOS_EXAMPLE) {
                        acc.example = Some(text_or_iri(value, target));
                    } else {
                        match value {
                            Some(vv) => {
                                let annotation = self.build_annotation(ap.as_str(), vv);
                                proof {
                                    entry_pushed(acc.generic@, annotation);
                                }
                                acc.generic.push(annotation);
                            },
                            None => (),
                        }
                    }
                }
            },
            _ => (),
        }
    }

    /// Collects the annotations of the entity `target`, in one pass.
    pub fn collect_annotations(&self, target: &str) -> (r: EntityAnnotations)
        ensures
            r@ == annotations_of(self.names(), self.ontology@, target@),
    {
        let mut acc = EntityAnnotations::new();
        let mut i: usize = 0;
        while i < self.ontology.len()
            invariant
                i <= self.ontology.len(),
                acc@ == annotations_of(self.names(), self.ontology@.take(i as int), target@),
            decreases self.ontology.len() - i,
        {
            assert(self.ontology@.take(i + 1).drop_last() == self.ontology@.take(i as int));
            assert(self.ontology@.take(i + 1).last() == self.ontology@[i as int]);
            self.annotate_one(&mut acc, &self.ontology[i], target);
            i += 1;
        }
        assert(self.ontology@.take(self.ontology.len() as int) == self.ontology@);
        acc
    }

    /// Builds the page of the entity `iri`: its kind, its annotations and
    /// its relationships. Fails with `UnknownEntityKind` when no axiom
    /// declares the entity, whatever else is said of it, and otherwise with
    /// `UnsupportedConstruct` when an entry of the entity is not supported.
    pub fn render_declaration_iri(&self, iri: &str) -> (r: Result<EntityPageModel, RenderError>)
        ensures
            !declared(self.ontology@, iri@) ==> r == Err::<EntityPageModel, RenderError>(
                RenderError(RenderErrorKind::UnknownEntityKind),
            ),
            match r {
                Ok(p) => page_error(self.ontology@, iri@).is_none() && p@ == page_of(
                    self.names(),
                    self.ontology@,
                    iri@,
                ),
                Err(e) => page_error(self.ontology@, iri@) == Some(e.0),
            },
    {
        let kind = self.entity_kind(iri);
        match kind {
            Kind::Undefined => Err(RenderError(RenderErrorKind::UnknownEntityKind)),
            _ => {
                let relationships = match self.collect_relationships(iri) {
                    Ok(set) => set,
                    Err(e) => {
                        return Err(e);
                    },
                };
                let annotations = self.collect_annotations(iri);
                Ok(EntityPageModel { kind, iri: String::from_str(iri), annotations, relationships })
            },
        }
    }
}

/// The text of a well-known annotation, or the IRI of the entity where the
/// value has none.
fn text_or_iri(value: Option<String>, target: &str) -> (r: String)
    ensures
        r@ == match value {
            Some(t) => t@,
            None => target@,
        },
{
    match value {
        Some(t) => t,
        None => String::from_str(target),
    }
}

} // verus!
