use curie::PrefixMapping;
use hyper_ontology::config::{OntologyConfig, Settings};
use hyper_ontology::models::{Kind, OntologyAnnotation};
use hyper_ontology::ontology::{
    AnnotationSubject, AnnotationValue, Axiom, ClassExpression, Literal, ObjectPropertyExpression,
};
use hyper_ontology::page::{declaration_kind, EntityAnnotations, EntityPageModel};
use hyper_ontology::relations::RelationshipSet;
use hyper_ontology::render_html::{
    DisplayComp, EntityDisplay, OntologyRender, RenderError, RenderErrorKind,
};
use hyper_ontology::vocab::{RDFS_LABEL, SKOS_DEFINITION, SKOS_EXAMPLE};

const BASE: &str = "http://example.com/onto#";

fn render(axioms: Vec<Axiom>) -> OntologyRender {
    let settings = Settings {
        ontology: OntologyConfig { iri: BASE.to_string(), source: None, suffix: None },
        title: None,
        baseurl: None,
        import: None,
        templates: None,
        assets: None,
        build: None,
    };
    let mut pm = PrefixMapping::default();
    pm.add_prefix("rdfs", "http://www.w3.org/2000/01/rdf-schema#").unwrap();
    OntologyRender::new_with_settings(settings, axioms, pm).unwrap()
}

fn iri(name: &str) -> String {
    format!("{}{}", BASE, name)
}

fn text(s: &str) -> AnnotationValue {
    AnnotationValue::Literal(Literal::Simple { literal: s.to_string() })
}

fn annotate(subject: &str, ap: &str, av: AnnotationValue) -> Axiom {
    Axiom::AnnotationAssertion { subject: AnnotationSubject::IRI(iri(subject)), ap: ap.to_string(), av }
}

fn no_annotations() -> EntityAnnotations {
    EntityAnnotations { label: None, definition: None, example: None, generic: vec![] }
}

#[test]
fn page_kind_follows_declaration() {
    let r = render(vec![
        Axiom::DeclareClass(iri("C")),
        Axiom::DeclareObjectProperty(iri("op")),
        Axiom::DeclareAnnotationProperty(iri("ap")),
        Axiom::DeclareDataProperty(iri("dp")),
        Axiom::DeclareNamedIndividual(iri("i")),
    ]);
    assert_eq!(r.entity_kind(&iri("C")), Kind::Class);
    assert_eq!(r.entity_kind(&iri("op")), Kind::ObjectProperty);
    assert_eq!(r.entity_kind(&iri("ap")), Kind::AnnotationProperty);
    assert_eq!(r.entity_kind(&iri("dp")), Kind::DataProperty);
    assert_eq!(r.entity_kind(&iri("i")), Kind::NamedIndividual);
    assert_eq!(r.entity_kind(&iri("missing")), Kind::Undefined);
}

#[test]
fn page_kind_last_declaration_wins() {
    let r = render(vec![
        Axiom::DeclareClass(iri("X")),
        Axiom::DeclareNamedIndividual(iri("X")),
        Axiom::DeclareClass(iri("Y")),
    ]);
    assert_eq!(r.entity_kind(&iri("X")), Kind::NamedIndividual);
    assert_eq!(r.entity_kind(&iri("Y")), Kind::Class);
}

#[test]
fn page_declaration_kind_of_one_axiom() {
    assert_eq!(declaration_kind(&Axiom::DeclareClass(iri("A")), &iri("A")), Some(Kind::Class));
    assert_eq!(declaration_kind(&Axiom::DeclareClass(iri("A")), &iri("B")), None);
    assert_eq!(
        declaration_kind(&Axiom::DeclareDataProperty(iri("d")), &iri("d")),
        Some(Kind::DataProperty)
    );
    assert_eq!(declaration_kind(&Axiom::Other, &iri("A")), None);
}

#[test]
fn page_without_declaration_is_unknown_entity_kind() {
    let r = render(vec![
        Axiom::DeclareClass(iri("Cat")),
        Axiom::SubClassOf {
            sup: ClassExpression::Class(iri("Animal")),
            sub: ClassExpression::Class(iri("Cat")),
        },
    ]);
    assert_eq!(
        r.render_declaration_iri(&iri("Animal")),
        Err(RenderError(RenderErrorKind::UnknownEntityKind))
    );
    assert!(r.render_declaration_iri(&iri("Cat")).is_ok());
}

#[test]
fn page_unknown_kind_comes_before_unsupported_construct() {
    let r = render(vec![Axiom::SubClassOf {
        sup: ClassExpression::ObjectHasSelf(ObjectPropertyExpression::ObjectProperty(iri("p"))),
        sub: ClassExpression::Class(iri("Cat")),
    }]);
    assert_eq!(
        r.render_declaration_iri(&iri("Cat")),
        Err(RenderError(RenderErrorKind::UnknownEntityKind))
    );
}

#[test]
fn page_of_declared_entity_with_unsupported_entry_is_unsupported_construct() {
    let before = render(vec![
        Axiom::DeclareClass(iri("Cat")),
        Axiom::SubClassOf {
            sup: ClassExpression::ObjectHasSelf(ObjectPropertyExpression::ObjectProperty(iri("p"))),
            sub: ClassExpression::Class(iri("Cat")),
        },
    ]);
    assert_eq!(
        before.render_declaration_iri(&iri("Cat")),
        Err(RenderError(RenderErrorKind::UnsupportedConstruct))
    );
    let after = render(vec![
        Axiom::SubClassOf {
            sup: ClassExpression::ObjectHasSelf(ObjectPropertyExpression::ObjectProperty(iri("p"))),
            sub: ClassExpression::Class(iri("Cat")),
        },
        Axiom::DeclareClass(iri("Cat")),
    ]);
    assert_eq!(
        after.render_declaration_iri(&iri("Cat")),
        Err(RenderError(RenderErrorKind::UnsupportedConstruct))
    );
}

#[test]
fn page_of_undeclared_entity_is_unknown_kind_whatever_mentions_it() {
    let r = render(vec![
        annotate("Cat", RDFS_LABEL, text("Cat")),
        Axiom::SubClassOf {
            sup: ClassExpression::Class(iri("Cat")),
            sub: ClassExpression::Class(iri("Kitten")),
        },
        Axiom::EquivalentClasses(vec![
            ClassExpression::Class(iri("Cat")),
            ClassExpression::DataMinCardinality { n: 1, dp: iri("lives") },
        ]),
        Axiom::DeclareClass(iri("Kitten")),
    ]);
    assert_eq!(
        r.render_declaration_iri(&iri("Cat")),
        Err(RenderError(RenderErrorKind::UnknownEntityKind))
    );
    assert!(r.render_declaration_iri(&iri("Kitten")).is_ok());
}

#[test]
fn page_annotations_are_routed_by_property() {
    let r = render(vec![
        annotate("Cat", RDFS_LABEL, text("Cat")),
        annotate("Cat", SKOS_DEFINITION, text("A small feline")),
        annotate("Cat", SKOS_EXAMPLE, text("Tom")),
        annotate("Cat", "http://www.w3.org/2000/01/rdf-schema#comment", text("purrs")),
        annotate("Cat", "http://other.org/seeAlso", AnnotationValue::IRI(iri("Dog"))),
        annotate("Dog", RDFS_LABEL, text("Dog")),
    ]);
    let a = r.collect_annotations(&iri("Cat"));
    assert_eq!(
        a,
        EntityAnnotations {
            label: Some("Cat".to_string()),
            definition: Some("A small feline".to_string()),
            example: Some("Tom".to_string()),
            generic: vec![
                OntologyAnnotation {
                    iri: "http://www.w3.org/2000/01/rdf-schema#comment".to_string(),
                    display: "rdfs:comment".to_string(),
                    value: "purrs".to_string(),
                },
                OntologyAnnotation {
                    iri: "http://other.org/seeAlso".to_string(),
                    display: "http://other.org/seeAlso".to_string(),
                    value: iri("Dog"),
                },
            ],
        }
    );
    assert_eq!(
        r.collect_annotations(&iri("Dog")),
        EntityAnnotations { label: Some("Dog".to_string()), ..no_annotations() }
    );
    assert_eq!(r.collect_annotations(&iri("Bird")), no_annotations());
}

#[test]
fn page_annotation_later_one_replaces_well_known() {
    let r = render(vec![
        annotate("Cat", SKOS_DEFINITION, text("first")),
        annotate("Cat", SKOS_DEFINITION, text("second")),
    ]);
    assert_eq!(r.collect_annotations(&iri("Cat")).definition, Some("second".to_string()));
}

#[test]
fn page_annotation_without_text_falls_back_or_is_dropped() {
    let r = render(vec![
        annotate("Cat", RDFS_LABEL, AnnotationValue::AnonymousIndividual("_:b".to_string())),
        annotate(
            "Cat",
            "http://other.org/note",
            AnnotationValue::AnonymousIndividual("_:c".to_string()),
        ),
    ]);
    assert_eq!(
        r.collect_annotations(&iri("Cat")),
        EntityAnnotations { label: Some(iri("Cat")), ..no_annotations() }
    );
}

#[test]
fn page_annotation_of_anonymous_subject_is_passed_over() {
    let r = render(vec![Axiom::AnnotationAssertion {
        subject: AnnotationSubject::AnonymousIndividual(iri("Cat")),
        ap: RDFS_LABEL.to_string(),
        av: text("ghost"),
    }]);
    assert_eq!(r.collect_annotations(&iri("Cat")), no_annotations());
}

#[test]
fn page_build_annotation_shortens_property() {
    let r = render(vec![]);
    assert_eq!(
        r.build_annotation("http://www.w3.org/2000/01/rdf-schema#seeAlso", "v".to_string()),
        OntologyAnnotation {
            iri: "http://www.w3.org/2000/01/rdf-schema#seeAlso".to_string(),
            display: "rdfs:seeAlso".to_string(),
            value: "v".to_string(),
        }
    );
}

#[test]
fn page_model_combines_kind_annotations_and_relationships() {
    let r = render(vec![
        Axiom::DeclareClass(iri("Cat")),
        annotate("Cat", RDFS_LABEL, text("Cat")),
        annotate("Animal", RDFS_LABEL, text("Animal (living)")),
        Axiom::SubClassOf {
            sup: ClassExpression::Class(iri("Animal")),
            sub: ClassExpression::Class(iri("Cat")),
        },
    ]);
    let page = r.render_declaration_iri(&iri("Cat")).unwrap();
    assert_eq!(
        page,
        EntityPageModel {
            kind: Kind::Class,
            iri: iri("Cat"),
            annotations: EntityAnnotations { label: Some("Cat".to_string()), ..no_annotations() },
            relationships: RelationshipSet {
                superclasses: vec![DisplayComp::Simple(EntityDisplay::new(
                    iri("Animal"),
                    "Animal".to_string(),
                    "Animal (living)".to_string()
                ))],
                subclasses: vec![],
                equivalent_classes: vec![],
                inverse_properties: vec![],
                property_domain: None,
                property_range: None,
                class_assertions: vec![],
            },
        }
    );
}

#[test]
fn page_annotations_new_is_empty() {
    assert_eq!(EntityAnnotations::new(), no_annotations());
}
