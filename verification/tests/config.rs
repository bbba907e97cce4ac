use hyper_ontology::config::{
    parse_import, parse_imports, template_glob, BuildConfig, CliOptions, OntologyConfig, Settings,
};

fn base() -> Settings {
    Settings {
        ontology: OntologyConfig {
            iri: "http://example.com/onto#".to_string(),
            source: Some("onto.owx".to_string()),
            suffix: None,
        },
        title: Some("Configured".to_string()),
        baseurl: None,
        import: None,
        templates: Some("./templates".to_string()),
        assets: None,
        build: Some(BuildConfig { render: true, output: "./old".to_string() }),
    }
}

fn no_options() -> CliOptions {
    CliOptions {
        iri: None,
        source: None,
        suffix: None,
        url: None,
        title: None,
        templates: None,
        assets: None,
        imported: None,
        build: None,
    }
}

fn import(prefix: &str, iri: &str) -> OntologyConfig {
    OntologyConfig { iri: iri.to_string(), source: None, suffix: Some(prefix.to_string()) }
}

#[test]
fn config_parse_import_splits_at_the_colon() {
    assert_eq!(parse_import("ex:example"), Some(import("ex", "example")));
    assert_eq!(parse_import(":x"), Some(import("", "x")));
    assert_eq!(parse_import("x:"), Some(import("x", "")));
}

#[test]
fn config_parse_import_wants_exactly_one_colon() {
    assert_eq!(parse_import("nocolon"), None);
    assert_eq!(parse_import(""), None);
    assert_eq!(parse_import("skos:http://www.w3.org/2004/02/skos/core#"), None);
    assert_eq!(parse_import("a:b:c"), None);
}

#[test]
fn config_parse_imports_passes_over_what_is_no_import() {
    let texts = vec!["a:one".to_string(), "bad".to_string(), "b:two".to_string(), "x:y:z".to_string()];
    assert_eq!(parse_imports(&texts), vec![import("a", "one"), import("b", "two")]);
    assert_eq!(parse_imports(&vec![]), vec![]);
}

#[test]
fn config_without_options_keeps_settings_and_sets_default_build() {
    let r = base().overridden_by(no_options());
    assert_eq!(
        r,
        Settings {
            build: Some(BuildConfig { render: false, output: "./public".to_string() }),
            ..base()
        }
    );
}

#[test]
fn config_options_win_over_settings() {
    let cli = CliOptions {
        iri: Some("http://cli.org/".to_string()),
        source: Some("cli.owx".to_string()),
        suffix: Some("cli".to_string()),
        url: Some("http://host/".to_string()),
        title: Some("Given".to_string()),
        templates: Some("./t".to_string()),
        assets: Some("./static".to_string()),
        imported: None,
        build: Some(BuildConfig { render: true, output: "./out".to_string() }),
    };
    let r = base().overridden_by(cli);
    assert_eq!(
        r,
        Settings {
            ontology: OntologyConfig {
                iri: "http://cli.org/".to_string(),
                source: Some("cli.owx".to_string()),
                suffix: Some("cli".to_string()),
            },
            title: Some("Given".to_string()),
            baseurl: Some("http://host/".to_string()),
            import: None,
            templates: Some("./t".to_string()),
            assets: Some("./static".to_string()),
            build: Some(BuildConfig { render: true, output: "./out".to_string() }),
        }
    );
}

#[test]
fn config_imports_of_the_command_line_follow_the_configured() {
    let configured = Settings { import: Some(vec![import("a", "one")]), ..base() };
    let cli = CliOptions {
        imported: Some(vec!["b:two".to_string(), "bad".to_string()]),
        ..no_options()
    };
    let r = configured.overridden_by(cli);
    assert_eq!(r.import, Some(vec![import("a", "one"), import("b", "two")]));

    let only_cli = base().overridden_by(CliOptions {
        imported: Some(vec!["c:three".to_string()]),
        ..no_options()
    });
    assert_eq!(only_cli.import, Some(vec![import("c", "three")]));

    let only_configured =
        Settings { import: Some(vec![import("a", "one")]), ..base() }.overridden_by(no_options());
    assert_eq!(only_configured.import, Some(vec![import("a", "one")]));
}

#[test]
fn config_template_glob_drops_trailing_slashes() {
    assert_eq!(template_glob("./templates"), "./templates/**/*.html");
    assert_eq!(template_glob("./templates/"), "./templates/**/*.html");
    assert_eq!(template_glob("dir///"), "dir/**/*.html");
    assert_eq!(template_glob("/"), "/**/*.html");
    assert_eq!(template_glob(""), "/**/*.html");
    assert_eq!(template_glob("a/b"), "a/b/**/*.html");
}
