//! The settings of a build, and how the command line replaces them.

use vstd::prelude::*;
use crate::text::{pieces, split_at_colons, texts_of, trim_end_slashes, without_trailing};

verus! {

/// Where an ontology lives and how its entities are abbreviated.
#[derive(Debug, PartialEq, Eq)]
pub struct OntologyConfig {
    pub iri: String,
    pub source: Option<String>,
    pub suffix: Option<String>,
}

/// Options of one build of the site.
#[derive(Debug, PartialEq, Eq)]
pub struct BuildConfig {
    pub render: bool,
    pub output: String,
}

/// Everything a build is configured with.
#[derive(Debug, PartialEq, Eq)]
pub struct Settings {
    pub ontology: OntologyConfig,
    pub title: Option<String>,
    pub baseurl: Option<String>,
    pub import: Option<Vec<OntologyConfig>>,
    pub templates: Option<String>,
    pub assets: Option<String>,
    pub build: Option<BuildConfig>,
}

/// What the command line may give in place of the configured settings.
#[derive(Debug, PartialEq, Eq)]
pub struct CliOptions {
    pub iri: Option<String>,
    pub source: Option<String>,
    pub suffix: Option<String>,
    pub url: Option<String>,
    pub title: Option<String>,
    pub templates: Option<String>,
    pub assets: Option<String>,
    /// Imported ontologies, each written `prefix:iri`.
    pub imported: Option<Vec<String>>,
    /// The options of the build command, where that command was given.
    pub build: Option<BuildConfig>,
}

/// The mathematical value of an [`OntologyConfig`].
pub struct ConfigView {
    pub iri: Seq<char>,
    pub source: Option<Seq<char>>,
    pub suffix: Option<Seq<char>>,
}

impl View for OntologyConfig {
    type V = ConfigView;

    open spec fn view(&self) -> ConfigView {
        ConfigView {
            iri: self.iri@,
            source: match self.source {
                Some(s) => Some(s@),
                None => None,
            },
            suffix: match self.suffix {
                Some(s) => Some(s@),
                None => None,
            },
        }
    }
}

/// The values of the configurations of `v`, in order.
pub open spec fn configs_of(v: Seq<OntologyConfig>) -> Seq<ConfigView> {
    Seq::new(v.len(), |i: int| v[i]@)
}

/// The import that `text` names: `text` has exactly one colon, the prefix
/// before it and the IRI behind it.
pub open spec fn import_of(text: Seq<char>) -> Option<ConfigView> {
    let p = pieces(text, ':');
    if p.len() == 2 {
        Some(ConfigView { iri: p[1], source: None, suffix: Some(p[0]) })
    } else {
        None
    }
}

/// The imports that `texts` name, in order; a text that names none is
/// passed over.
pub open spec fn imports_from(texts: Seq<Seq<char>>) -> Seq<ConfigView>
    decreases texts.len(),
{
    if texts.len() == 0 {
        Seq::empty()
    } else {
        let rest = imports_from(texts.drop_last());
        match import_of(texts.last()) {
            Some(c) => rest.push(c),
            None => rest,
        }
    }
}

/// `first` where it is there, else `second`.
pub open spec fn preferred(first: Option<String>, second: Option<String>) -> Option<String> {
    if first.is_some() {
        first
    } else {
        second
    }
}

/// Reads one import written `prefix:iri`.
pub fn parse_import(text: &str) -> (r: Option<OntologyConfig>)
    ensures
        match r {
            Some(c) => import_of(text@) == Some(c@),
            None => import_of(text@).is_none(),
        },
{
    let content = split_at_colons(text);
    assert(texts_of(content@).len() == content.len());
    if content.len() == 2 {
        assert(texts_of(content@)[0] == content[0]@);
        assert(texts_of(content@)[1] == content[1]@);
        Some(OntologyConfig { iri: content[1].clone(), source: None, suffix: Some(content[0].clone()) })
    } else {
        None
    }
}

/// Reads the imports given on the command line.
pub fn parse_imports(texts: &Vec<String>) -> (r: Vec<OntologyConfig>)
    ensures
        configs_of(r@) == imports_from(texts_of(texts@)),
{
    let mut out: Vec<OntologyConfig> = Vec::new();
    let mut i: usize = 0;
    assert(configs_of(out@) =~= imports_from(texts_of(texts@).take(0)));
    while i < texts.len()
        invariant
            i <= texts.len(),
            configs_of(out@) == imports_from(texts_of(texts@).take(i as int)),
        decreases texts.len() - i,
    {
        let ghost next = texts_of(texts@).take(i + 1);
        assert(next.drop_last() =~= texts_of(texts@).take(i as int));
        assert(next.last() == texts[i as int]@);
        match parse_import(texts[i].as_str()) {
            Some(c) => {
                let ghost was = out@;
                out.push(c);
                assert(configs_of(out@) =~= configs_of(was).push(c@));
            },
            None => (),
        }
        i += 1;
    }
    assert(texts_of(texts@).take(texts.len() as int) =~= texts_of(texts@));
    out
}

fn prefer(first: Option<String>, second: Option<String>) -> (r: Option<String>)
    ensures
        r == preferred(first, second),
{
    match first {
        Some(s) => Some(s),
        None => second,
    }
}

impl Settings {
    /// The settings with what the command line gives in place of them: a
    /// value given there wins, the imports given there follow the
    /// configured ones, and the build options are those of the build
    /// command, or no rendering of imports into `./public` without it.
    pub fn overridden_by(self, cli: CliOptions) -> (r: Settings)
        ensures
            r.baseurl == preferred(cli.url, self.baseurl),
            r.title == preferred(cli.title, self.title),
            r.templates == preferred(cli.templates, self.templates),
            r.assets == preferred(cli.assets, self.assets),
            r.ontology.iri == match cli.iri {
                Some(i) => i,
                None => self.ontology.iri,
            },
            r.ontology.source == preferred(cli.source, self.ontology.source),
            r.ontology.suffix == preferred(cli.suffix, self.ontology.suffix),
            match cli.build {
                Some(b) => r.build == Some(b),
                None => r.build matches Some(b) && !b.render && b.output@ == "./public"@,
            },
            match (self.import, cli.imported) {
                (Some(i), Some(j)) => r.import matches Some(v) && configs_of(v@) == configs_of(i@)
                    + imports_from(texts_of(j@)),
                (Some(i), None) => r.import == Some(i),
                (None, Some(j)) => r.import matches Some(v) && configs_of(v@) == imports_from(
                    texts_of(j@),
                ),
                (None, None) => r.import.is_none(),
            },
    {
        let imports: Option<Vec<OntologyConfig>> = match &cli.imported {
            Some(texts) => Some(parse_imports(texts)),
            None => None,
        };
        let new_imports = match self.import {
            Some(mut i) => match imports {
                Some(mut j) => {
                    let ghost a = i@;
                    let ghost b = j@;
                    i.append(&mut j);
                    assert(configs_of(i@) =~= configs_of(a) + configs_of(b));
                    Some(i)
                },
                None => Some(i),
            },
            None => imports,
        };
        let build = match cli.build {
            Some(b) => b,
            None => BuildConfig { render: false, output: String::from_str("./public") },
        };
        Settings {
            baseurl: prefer(cli.url, self.baseurl),
            title: prefer(cli.title, self.title),
            ontology: OntologyConfig {
                iri: match cli.iri {
                    Some(i) => i,
                    None => self.ontology.iri,
                },
                source: prefer(cli.source, self.ontology.source),
                suffix: prefer(cli.suffix, self.ontology.suffix),
            },
            import: new_imports,
            templates: prefer(cli.templates, self.templates),
            assets: prefer(cli.assets, self.assets),
            build: Some(build),
        }
    }
}

/// The pattern that finds the templates under the directory `dir`.
pub fn template_glob(dir: &str) -> (r: String)
    ensures
        r@ == without_trailing(dir@, '/') + "/**/*.html"@,
{
    let out = String::from_str(trim_end_slashes(dir));
    out.concat("/**/*.html")
}

} // verus!
