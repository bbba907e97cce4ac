use curie::PrefixMapping;
use hyper_ontology::catalog::declared_iri;
use hyper_ontology::config::{OntologyConfig, Settings};
use hyper_ontology::models::Kind;
use hyper_ontology::ontology::{AnnotationSubject, AnnotationValue, Axiom, Literal};
use hyper_ontology::render_html::{EntityDisplay, OntologyRender, SideBar};
use hyper_ontology::vocab::RDFS_LABEL;

const BASE: &str = "http://example.com/onto#";

fn render(axioms: Vec<Axiom>) -> OntologyRender {
    let settings = Settings {
        ontology: OntologyConfig { iri: BASE.to_string(), source: None, suffix: None },
        title: None,
        baseurl: None,
        import: None,
        templates: None,
        assets: None,
        build: None,
    };
    OntologyRender::new_with_settings(settings, axioms, PrefixMapping::default()).unwrap()
}

fn iri(name: &str) -> String {
    format!("{}{}", BASE, name)
}

fn label(subject: &str, text: &str) -> Axiom {
    Axiom::AnnotationAssertion {
        subject: AnnotationSubject::IRI(subject.to_string()),
        ap: RDFS_LABEL.to_string(),
        av: AnnotationValue::Literal(Literal::Simple { literal: text.to_string() }),
    }
}

fn entity(iri: &str, identifier: &str, display: &str) -> EntityDisplay {
    EntityDisplay::new(iri.to_string(), identifier.to_string(), display.to_string())
}

#[test]
fn catalog_default_sidebar_is_empty() {
    let s = SideBar::default();
    assert!(s.classes.is_empty());
    assert!(s.named_individuals.is_empty());
    assert!(s.annotation_props.is_empty());
    assert!(s.data_props.is_empty());
    assert!(s.object_props.is_empty());
}

#[test]
fn catalog_iris_for_each_kind_in_declaration_order() {
    let r = render(vec![
        Axiom::DeclareClass(iri("B")),
        Axiom::DeclareObjectProperty(iri("op")),
        Axiom::DeclareClass(iri("A")),
        Axiom::DeclareDataProperty(iri("dp")),
        Axiom::DeclareNamedIndividual(iri("i")),
        Axiom::DeclareAnnotationProperty(iri("ap")),
        Axiom::DeclareClass(iri("B")),
        Axiom::Other,
    ]);
    assert_eq!(r.get_iris_for_declaration(Kind::Class), vec![iri("B"), iri("A"), iri("B")]);
    assert_eq!(r.get_iris_for_declaration(Kind::ObjectProperty), vec![iri("op")]);
    assert_eq!(r.get_iris_for_declaration(Kind::DataProperty), vec![iri("dp")]);
    assert_eq!(r.get_iris_for_declaration(Kind::NamedIndividual), vec![iri("i")]);
    assert_eq!(r.get_iris_for_declaration(Kind::AnnotationProperty), vec![iri("ap")]);
    assert_eq!(r.get_iris_for_declaration(Kind::Undefined), Vec::<String>::new());
}

#[test]
fn catalog_declared_iri_of_one_axiom() {
    let a = Axiom::DeclareClass(iri("A"));
    assert_eq!(declared_iri(&a, Kind::Class), Some(&iri("A")));
    assert_eq!(declared_iri(&a, Kind::ObjectProperty), None);
    assert_eq!(declared_iri(&Axiom::Other, Kind::Class), None);
}

#[test]
fn catalog_groups_declared_entities_by_kind() {
    let r = render(vec![
        Axiom::DeclareClass(iri("Cat")),
        label(&iri("Cat"), "Cat (animal)"),
        Axiom::DeclareClass("http://other.org/Dog".to_string()),
        Axiom::DeclareNamedIndividual(iri("tom")),
        Axiom::DeclareObjectProperty(iri("eats")),
        Axiom::DeclareAnnotationProperty(iri("note")),
        Axiom::DeclareDataProperty(iri("age")),
    ]);
    let s = r.collect_entity_tree().unwrap();
    assert_eq!(
        s,
        SideBar {
            classes: vec![
                entity(&iri("Cat"), "Cat", "Cat (animal)"),
                entity("http://other.org/Dog", "http://other.org/Dog", "http://other.org/Dog"),
            ],
            named_individuals: vec![entity(&iri("tom"), "tom", "tom")],
            annotation_props: vec![entity(&iri("note"), "note", "note")],
            data_props: vec![entity(&iri("age"), "age", "age")],
            object_props: vec![entity(&iri("eats"), "eats", "eats")],
        }
    );
}

#[test]
fn catalog_data_property_identifier_falls_back_to_label() {
    let r = render(vec![
        Axiom::DeclareDataProperty("http://other.org/weight".to_string()),
        label("http://other.org/weight", "Weight"),
        Axiom::DeclareDataProperty("http://other.org/height".to_string()),
        Axiom::DeclareDataProperty(iri("age")),
        label(&iri("age"), "Age"),
        Axiom::DeclareClass("http://other.org/Thing".to_string()),
        label("http://other.org/Thing", "Thing"),
    ]);
    let s = r.collect_entity_tree().unwrap();
    assert_eq!(
        s.data_props,
        vec![
            entity("http://other.org/weight", "Weight", "Weight"),
            entity("http://other.org/height", "http://other.org/height", "http://other.org/height"),
            entity(&iri("age"), "age", "Age"),
        ]
    );
    assert_eq!(s.classes, vec![entity("http://other.org/Thing", "http://other.org/Thing", "Thing")]);
    assert_eq!(
        r.build_data_property_display("http://other.org/weight"),
        entity("http://other.org/weight", "Weight", "Weight")
    );
}

#[test]
fn catalog_of_empty_ontology_is_empty() {
    let r = render(vec![]);
    assert_eq!(
        r.collect_entity_tree().unwrap(),
        SideBar {
            classes: vec![],
            named_individuals: vec![],
            annotation_props: vec![],
            data_props: vec![],
            object_props: vec![],
        }
    );
}

#[test]
fn catalog_entry_of_namespace_iri_is_never_empty() {
    let r = render(vec![
        Axiom::DeclareClass(BASE.to_string()),
        Axiom::DeclareNamedIndividual(BASE.to_string()),
        Axiom::DeclareObjectProperty(BASE.to_string()),
        Axiom::DeclareAnnotationProperty(BASE.to_string()),
        Axiom::DeclareDataProperty(BASE.to_string()),
    ]);
    let s = r.collect_entity_tree().unwrap();
    assert_eq!(
        s,
        SideBar {
            classes: vec![entity(BASE, BASE, BASE)],
            named_individuals: vec![entity(BASE, BASE, BASE)],
            annotation_props: vec![entity(BASE, BASE, BASE)],
            data_props: vec![entity(BASE, BASE, BASE)],
            object_props: vec![entity(BASE, BASE, BASE)],
        }
    );
}

#[test]
fn catalog_entries_with_empty_label_show_identifier() {
    let r = render(vec![
        Axiom::DeclareClass(iri("Cat")),
        label(&iri("Cat"), ""),
        Axiom::DeclareDataProperty("http://other.org/weight".to_string()),
        label("http://other.org/weight", ""),
        Axiom::DeclareDataProperty(BASE.to_string()),
        label(BASE, "Base"),
    ]);
    let s = r.collect_entity_tree().unwrap();
    assert_eq!(s.classes, vec![entity(&iri("Cat"), "Cat", "Cat")]);
    assert_eq!(
        s.data_props,
        vec![
            entity("http://other.org/weight", "http://other.org/weight", "http://other.org/weight"),
            entity(BASE, BASE, "Base"),
        ]
    );
    for e in s.classes.iter().chain(s.data_props.iter()) {
        assert!(!e.identifier.is_empty());
        assert!(!e.display.is_empty());
    }
}
