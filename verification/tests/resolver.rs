use curie::PrefixMapping;
use hyper_ontology::config::{OntologyConfig, Settings};
use hyper_ontology::labels::{get_label_hashmap, LabelIndex};
use hyper_ontology::ontology::{AnnotationSubject, AnnotationValue, Axiom, Literal};
use hyper_ontology::render_html::{
    EntityDisplay, OntologyRender, RenderError, RenderErrorKind,
};
use hyper_ontology::vocab::RDFS_LABEL;

const BASE: &str = "http://example.com/onto#";
const FOAF: &str = "http://xmlns.com/foaf/0.1/";

fn settings(iri: &str, import: Option<Vec<OntologyConfig>>) -> Settings {
    Settings {
        ontology: OntologyConfig { iri: iri.to_string(), source: None, suffix: None },
        title: None,
        baseurl: None,
        import,
        templates: None,
        assets: None,
        build: None,
    }
}

fn import(prefix: Option<&str>, iri: &str) -> OntologyConfig {
    OntologyConfig { iri: iri.to_string(), source: None, suffix: prefix.map(|p| p.to_string()) }
}

fn render(axioms: Vec<Axiom>) -> OntologyRender {
    let mut pm = PrefixMapping::default();
    pm.add_prefix("foaf", FOAF).unwrap();
    OntologyRender::new_with_settings(settings(BASE, None), axioms, pm).unwrap()
}

fn label(subject: &str, text: &str) -> Axiom {
    Axiom::AnnotationAssertion {
        subject: AnnotationSubject::IRI(subject.to_string()),
        ap: RDFS_LABEL.to_string(),
        av: AnnotationValue::Literal(Literal::Simple { literal: text.to_string() }),
    }
}

#[test]
fn shrink_uses_default_namespace_without_prefix() {
    let r = render(vec![]);
    assert_eq!(r.shrink("http://example.com/onto#Cat"), "Cat");
}

#[test]
fn shrink_uses_registered_prefix() {
    let r = render(vec![]);
    assert_eq!(r.shrink("http://xmlns.com/foaf/0.1/Agent"), "foaf:Agent");
}

#[test]
fn shrink_returns_unmatched_iri_unchanged() {
    let r = render(vec![]);
    assert_eq!(r.shrink("http://other.org/Thing"), "http://other.org/Thing");
}

#[test]
fn shrink_is_idempotent_on_short_form_without_match() {
    let r = render(vec![]);
    let once = r.shrink("http://example.com/onto#Cat");
    assert_eq!(r.shrink(&once), once);
    let kept = r.shrink("urn:x:y");
    assert_eq!(kept, "urn:x:y");
    assert_eq!(r.shrink(&kept), kept);
}

#[test]
fn shrink_takes_first_registered_namespace_that_matches() {
    let mut pm = PrefixMapping::default();
    pm.add_prefix("a", "http://example.com/").unwrap();
    pm.add_prefix("b", "http://example.com/other/").unwrap();
    let r = OntologyRender::new_with_settings(settings("http://base.org/", None), vec![], pm).unwrap();
    assert_eq!(r.shrink("http://example.com/other/thing"), "a:other/thing");
}

#[test]
fn shrink_prefers_default_namespace_over_registered() {
    let mut pm = PrefixMapping::default();
    pm.add_prefix("o", BASE).unwrap();
    let r = OntologyRender::new_with_settings(settings(BASE, None), vec![], pm).unwrap();
    assert_eq!(r.shrink("http://example.com/onto#Cat"), "Cat");
}

#[test]
fn shrink_drops_every_leading_repetition_of_namespace() {
    let r = render(vec![]);
    assert_eq!(r.shrink("http://example.com/onto#http://example.com/onto#Cat"), "Cat");
}

#[test]
fn shrink_of_namespace_itself_is_empty() {
    let r = render(vec![]);
    assert_eq!(r.shrink(BASE), "");
    assert_eq!(r.shrink(FOAF), "foaf:");
}

#[test]
fn label_returns_asserted_text() {
    let r = render(vec![label("http://example.com/onto#Cat", "Cat (animal)")]);
    assert_eq!(r.label("http://example.com/onto#Cat"), "Cat (animal)");
}

#[test]
fn label_falls_back_to_short_form() {
    let r = render(vec![label("http://example.com/onto#Cat", "Cat (animal)")]);
    assert_eq!(r.label("http://example.com/onto#Dog"), "Dog");
    assert_eq!(r.label("http://other.org/Dog"), "http://other.org/Dog");
}

#[test]
fn label_later_assertion_wins() {
    let r = render(vec![
        label("http://example.com/onto#Cat", "first"),
        label("http://example.com/onto#Dog", "dog"),
        label("http://example.com/onto#Cat", "second"),
    ]);
    assert_eq!(r.label("http://example.com/onto#Cat"), "second");
    assert_eq!(r.label("http://example.com/onto#Dog"), "dog");
}

#[test]
fn label_index_ignores_other_properties_and_subjects() {
    let axioms = vec![
        Axiom::AnnotationAssertion {
            subject: AnnotationSubject::IRI("http://example.com/onto#A".to_string()),
            ap: "http://www.w3.org/2000/01/rdf-schema#comment".to_string(),
            av: AnnotationValue::Literal(Literal::Simple { literal: "a comment".to_string() }),
        },
        Axiom::AnnotationAssertion {
            subject: AnnotationSubject::AnonymousIndividual("_:b1".to_string()),
            ap: RDFS_LABEL.to_string(),
            av: AnnotationValue::Literal(Literal::Simple { literal: "anonymous".to_string() }),
        },
        Axiom::AnnotationAssertion {
            subject: AnnotationSubject::IRI("http://example.com/onto#B".to_string()),
            ap: RDFS_LABEL.to_string(),
            av: AnnotationValue::IRI("http://example.com/onto#C".to_string()),
        },
        Axiom::AnnotationAssertion {
            subject: AnnotationSubject::IRI("http://example.com/onto#D".to_string()),
            ap: RDFS_LABEL.to_string(),
            av: AnnotationValue::Literal(Literal::Language {
                literal: "Hund".to_string(),
                lang: "de".to_string(),
            }),
        },
        Axiom::AnnotationAssertion {
            subject: AnnotationSubject::IRI("http://example.com/onto#E".to_string()),
            ap: RDFS_LABEL.to_string(),
            av: AnnotationValue::Literal(Literal::Datatype {
                literal: "42".to_string(),
                datatype_iri: "http://www.w3.org/2001/XMLSchema#integer".to_string(),
            }),
        },
    ];
    let index = get_label_hashmap(&axioms);
    assert_eq!(index.get("http://example.com/onto#A"), None);
    assert_eq!(index.get("_:b1"), None);
    assert_eq!(index.get("http://example.com/onto#B"), None);
    assert_eq!(index.get("http://example.com/onto#D"), Some(&"Hund".to_string()));
    assert_eq!(index.get("http://example.com/onto#E"), Some(&"42".to_string()));
}

#[test]
fn label_index_insert_replaces_and_keeps_others() {
    let index = LabelIndex::new();
    assert_eq!(index.get("a"), None);
    let index = index.insert("a".to_string(), "one".to_string());
    let index = index.insert("b".to_string(), "two".to_string());
    let index = index.insert("a".to_string(), "three".to_string());
    assert_eq!(index.get("a"), Some(&"three".to_string()));
    assert_eq!(index.get("b"), Some(&"two".to_string()));
    assert_eq!(index.get("c"), None);
}

#[test]
fn entity_display_new_keeps_its_arguments() {
    let e = EntityDisplay::new("i".to_string(), "id".to_string(), "shown".to_string());
    assert_eq!(e.iri, "i");
    assert_eq!(e.identifier, "id");
    assert_eq!(e.display, "shown");
}

#[test]
fn build_entity_display_uses_short_form_and_label() {
    let r = render(vec![label("http://example.com/onto#Cat", "Cat")]);
    let labelled = r.build_entity_display("http://example.com/onto#Cat");
    assert_eq!(
        labelled,
        EntityDisplay::new(
            "http://example.com/onto#Cat".to_string(),
            "Cat".to_string(),
            "Cat".to_string()
        )
    );
    let plain = r.build_entity_display("http://xmlns.com/foaf/0.1/Agent");
    assert_eq!(
        plain,
        EntityDisplay::new(
            "http://xmlns.com/foaf/0.1/Agent".to_string(),
            "foaf:Agent".to_string(),
            "foaf:Agent".to_string()
        )
    );
    let foreign = r.build_entity_display("http://other.org/X");
    assert_eq!(foreign.identifier, "http://other.org/X");
    assert_eq!(foreign.display, "http://other.org/X");
}

#[test]
fn new_with_settings_sets_default_namespace() {
    let r = OntologyRender::new_with_settings(
        settings("http://base.org/", None),
        vec![],
        PrefixMapping::default(),
    )
    .unwrap();
    assert_eq!(r.shrink("http://base.org/Thing"), "Thing");
    assert_eq!(r.shrink("http://example.com/onto#Cat"), "http://example.com/onto#Cat");
}

#[test]
fn new_with_settings_binds_import_suffixes() {
    let imports = vec![
        import(Some("skos"), "http://www.w3.org/2004/02/skos/core#"),
        import(None, "http://purl.org/dc/terms/"),
        import(Some("dce"), "http://purl.org/dc/elements/1.1/"),
    ];
    let r = OntologyRender::new_with_settings(
        settings(BASE, Some(imports)),
        vec![],
        PrefixMapping::default(),
    )
    .unwrap();
    assert_eq!(r.shrink("http://www.w3.org/2004/02/skos/core#definition"), "skos:definition");
    assert_eq!(r.shrink("http://purl.org/dc/elements/1.1/contributor"), "dce:contributor");
    assert_eq!(r.shrink("http://purl.org/dc/terms/title"), "http://purl.org/dc/terms/title");
}

#[test]
fn new_with_settings_rebinding_keeps_place_of_prefix() {
    let mut pm = PrefixMapping::default();
    pm.add_prefix("a", "http://first.org/").unwrap();
    pm.add_prefix("b", "http://second.org/").unwrap();
    let imports = vec![import(Some("a"), "http://second.org/sub/")];
    let r = OntologyRender::new_with_settings(settings(BASE, Some(imports)), vec![], pm).unwrap();
    assert_eq!(r.shrink("http://second.org/sub/x"), "a:x");
    assert_eq!(r.shrink("http://second.org/x"), "b:x");
    assert_eq!(r.shrink("http://first.org/x"), "http://first.org/x");
}

#[test]
fn new_with_settings_refuses_reserved_prefix() {
    let imports = vec![
        import(Some("ok"), "http://ok.org/"),
        import(Some("_"), "http://blank.org/"),
    ];
    let r = OntologyRender::new_with_settings(
        settings(BASE, Some(imports)),
        vec![],
        PrefixMapping::default(),
    );
    match r {
        Ok(_) => panic!("the reserved prefix was accepted"),
        Err(e) => assert_eq!(e, RenderError(RenderErrorKind::ReservedPrefix)),
    }
}

#[test]
fn new_with_settings_indexes_labels() {
    let r = render(vec![label("http://other.org/X", "An X")]);
    assert_eq!(r.label_map.get("http://other.org/X"), Some(&"An X".to_string()));
    assert_eq!(r.ontology.len(), 1);
    assert_eq!(r.settings.ontology.iri, BASE);
}

#[test]
fn render_error_messages() {
    assert_eq!(
        RenderError(RenderErrorKind::UnsupportedConstruct).message(),
        "Unsupported class expression"
    );
    assert_eq!(RenderError(RenderErrorKind::UnknownEntityKind).message(), "Unknown entity kind");
    assert_eq!(RenderError(RenderErrorKind::ReservedPrefix).message(), "Error when adding prefixes");
}

#[test]
fn identifier_is_short_form_or_whole_iri_where_that_is_empty() {
    let r = render(vec![]);
    assert_eq!(r.identifier("http://example.com/onto#Cat"), "Cat");
    assert_eq!(r.identifier("http://xmlns.com/foaf/0.1/Agent"), "foaf:Agent");
    assert_eq!(r.identifier("http://other.org/Thing"), "http://other.org/Thing");
    assert_eq!(r.identifier(BASE), BASE);
    assert_eq!(
        r.identifier("http://example.com/onto#http://example.com/onto#"),
        "http://example.com/onto#http://example.com/onto#"
    );
    assert_eq!(r.identifier(FOAF), "foaf:");
}

#[test]
fn build_entity_display_of_namespace_iri_is_never_empty() {
    let r = render(vec![]);
    let e = r.build_entity_display(BASE);
    assert_eq!(e, EntityDisplay::new(BASE.to_string(), BASE.to_string(), BASE.to_string()));
    assert!(!e.identifier.is_empty());
    assert!(!e.display.is_empty());
    let labelled = render(vec![label(BASE, "The ontology")]).build_entity_display(BASE);
    assert_eq!(
        labelled,
        EntityDisplay::new(BASE.to_string(), BASE.to_string(), "The ontology".to_string())
    );
}

#[test]
fn build_entity_display_with_empty_label_shows_identifier() {
    let r = render(vec![
        label("http://example.com/onto#Cat", ""),
        label("http://other.org/Dog", ""),
        label(BASE, ""),
    ]);
    assert_eq!(
        r.build_entity_display("http://example.com/onto#Cat"),
        EntityDisplay::new(
            "http://example.com/onto#Cat".to_string(),
            "Cat".to_string(),
            "Cat".to_string()
        )
    );
    assert_eq!(
        r.build_entity_display("http://other.org/Dog"),
        EntityDisplay::new(
            "http://other.org/Dog".to_string(),
            "http://other.org/Dog".to_string(),
            "http://other.org/Dog".to_string()
        )
    );
    assert_eq!(
        r.build_entity_display(BASE),
        EntityDisplay::new(BASE.to_string(), BASE.to_string(), BASE.to_string())
    );
}

#[test]
fn label_is_never_empty_for_an_iri_that_is_not_empty() {
    let r = render(vec![label("http://example.com/onto#Cat", ""), label(FOAF, "")]);
    assert_eq!(r.label("http://example.com/onto#Cat"), "Cat");
    assert_eq!(r.label(BASE), BASE);
    assert_eq!(r.label(FOAF), "foaf:");
    let later_empty = render(vec![
        label("http://example.com/onto#Cat", "Cat (animal)"),
        label("http://example.com/onto#Cat", ""),
    ]);
    assert_eq!(later_empty.label("http://example.com/onto#Cat"), "Cat");
}

#[test]
fn shrink_with_an_empty_namespace_drops_nothing() {
    let empty_default =
        OntologyRender::new_with_settings(settings("", None), vec![], PrefixMapping::default())
            .unwrap();
    assert_eq!(empty_default.shrink("http://other.org/Thing"), "http://other.org/Thing");
    assert_eq!(empty_default.shrink(""), "");
    let mut pm = PrefixMapping::default();
    pm.add_prefix("e", "").unwrap();
    let empty_registered =
        OntologyRender::new_with_settings(settings("http://base.org/", None), vec![], pm).unwrap();
    assert_eq!(empty_registered.shrink("xyz"), "e:xyz");
    assert_eq!(empty_registered.shrink(""), "e:");
    assert_eq!(empty_registered.identifier(""), "e:");
}
