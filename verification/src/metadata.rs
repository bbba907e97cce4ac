//! Builds what the index page shows of the ontology itself.

use vstd::prelude::*;
use crate::catalog::{catalog_of, SideBarView};
use crate::models::{AnnotationView, OntologyAnnotation};
use crate::ontology::{unpack_annotation_value, Axiom};
use crate::page::{annotation_entry, entries_of, entry_pushed, optional_text};
use crate::render_html::{Names, OntologyRender, RenderError, SideBar};
use crate::text::same_text;
use crate::vocab::{DCT_DESCRIPTION, DCT_LICENSE, DCT_TITLE, DC_CONTRIBUTOR};

verus! {

/// All that the index page shows of the ontology itself.
#[derive(Debug, PartialEq, Eq)]
pub struct OntologyMetadataModel {
    pub iri: Option<String>,
    pub version_iri: Option<String>,
    pub title: Option<String>,
    pub description: Option<String>,
    pub license: Option<String>,
    pub contributors: Vec<OntologyAnnotation>,
    pub generic_annotations: Vec<OntologyAnnotation>,
    pub sidebar: SideBar,
}

/// The mathematical value of an [`OntologyMetadataModel`].
pub struct MetadataView {
    pub iri: Option<Seq<char>>,
    pub version_iri: Option<Seq<char>>,
    pub title: Option<Seq<char>>,
    pub description: Option<Seq<char>>,
    pub license: Option<Seq<char>>,
    pub contributors: Seq<AnnotationView>,
    pub generic_annotations: Seq<AnnotationView>,
    pub sidebar: SideBarView,
}

impl View for OntologyMetadataModel {
    type V = MetadataView;

    open spec fn view(&self) -> MetadataView {
        MetadataView {
            iri: optional_text(self.iri),
            version_iri: optional_text(self.version_iri),
            title: optional_text(self.title),
            description: optional_text(self.description),
            license: optional_text(self.license),
            contributors: entries_of(self.contributors@),
            generic_annotations: entries_of(self.generic_annotations@),
            sidebar: self.sidebar@,
        }
    }
}

/// `new` where there is one, else `old`.
pub open spec fn replaced(old: Option<Seq<char>>, new: Option<String>) -> Option<Seq<char>> {
    match new {
        Some(t) => Some(t@),
        None => old,
    }
}

/// The metadata after `ax` was read, `acc` being that before it. An
/// ontology identifier replaces the IRI and the version it names. An
/// annotation of the ontology whose value has a text is a contributor, the
/// title, the license or the description by its property, and one of the
/// other annotations else.
pub open spec fn describe(names: Names, acc: MetadataView, ax: Axiom) -> MetadataView {
    match ax {
        Axiom::OntologyID { iri, viri } => MetadataView {
            iri: replaced(acc.iri, iri),
            version_iri: replaced(acc.version_iri, viri),
            ..acc
        },
        Axiom::OntologyAnnotation { ap, av } => match av.text() {
            None => acc,
            Some(t) => if ap@ == DC_CONTRIBUTOR@ {
                MetadataView {
                    contributors: acc.contributors.push(annotation_entry(names, ap@, t)),
                    ..acc
                }
            } else if ap@ == DCT_TITLE@ {
                MetadataView { title: Some(t), ..acc }
            } else if ap@ == DCT_LICENSE@ {
                MetadataView { license: Some(t), ..acc }
            } else if ap@ == DCT_DESCRIPTION@ {
                MetadataView { description: Some(t), ..acc }
            } else {
                MetadataView {
                    generic_annotations: acc.generic_annotations.push(annotation_entry(names, ap@, t)),
                    ..acc
                }
            },
        },
        _ => acc,
    }
}

/// The metadata that `axioms`, read in order, give, over the catalog
/// `sidebar`.
pub open spec fn described(names: Names, axioms: Seq<Axiom>, sidebar: SideBarView) -> MetadataView
    decreases axioms.len(),
{
    if axioms.len() == 0 {
        MetadataView {
            iri: None,
            version_iri: None,
            title: None,
            description: None,
            license: None,
            contributors: Seq::empty(),
            generic_annotations: Seq::empty(),
            sidebar,
        }
    } else {
        describe(names, described(names, axioms.drop_last(), sidebar), axioms.last())
    }
}

/// The metadata of the ontology `axioms`, with its catalog.
pub open spec fn metadata_of(names: Names, axioms: Seq<Axiom>) -> MetadataView {
    described(names, axioms, catalog_of(names, axioms))
}

impl OntologyRender {
    /// Reads one axiom for the metadata.
    fn describe_one(&self, acc: &mut OntologyMetadataModel, ax: &Axiom)
        ensures
            final(acc)@ == describe(self.names(), old(acc)@, *ax),
    {
        match ax {
            Axiom::OntologyID { iri, viri } => {
                match viri {
                    Some(i) => {
                        acc.version_iri = Some(i.clone());
                    },
                    None => (),
                }
                match iri {
                    Some(i) => {
                        acc.iri = Some(i.clone());
                    },
                    None => (),
                }
            },
            Axiom::OntologyAnnotation { ap, av } => {
                match unpack_annotation_value(av) {
                    Some(vv) => {
                        if same_text(ap.as_str(), DC_CONTRIBUTOR) {
                            let aa = self.build_annotation(ap.as_str(), vv);
                            proof {
                                entry_pushed(acc.contributors@, aa);
                            }
                            acc.contributors.push(aa);
                        } else if same_text(ap.as_str(), DCT_TITLE) {
                            acc.title = Some(vv);
                        } else if same_text(ap.as_str(), DCT_LICENSE) {
                            acc.license = Some(vv);
                        } else if same_text(ap.as_str(), DCT_DESCRIPTION) {
                            acc.description = Some(vv);
                        } else {
                            let aa = self.build_annotation(ap.as_str(), vv);
                            proof {
                                entry_pushed(acc.generic_annotations@, aa);
                            }
                            acc.generic_annotations.push(aa);
                        }
                    },
                    None => (),
                }
            },
            _ => (),
        }
    }

    /// Builds what the index page shows: the identifier and the version of
    /// the ontology, its annotations and the catalog of its entities.
    pub fn render_metadata(&self) -> (r: Result<OntologyMetadataModel, RenderError>)
        ensures
            r matches Ok(m) && m@ == metadata_of(self.names(), self.ontology@),
    {
        let sidebar = match self.collect_entity_tree() {
            Ok(sb) => sb,
            Err(e) => {
                return Err(e);
            },
        };
        let ghost catalog = sidebar@;
        let mut acc = OntologyMetadataModel {
            iri: None,
            version_iri: None,
            title: None,
            description: None,
            license: None,
            contributors: Vec::new(),
            generic_annotations: Vec::new(),
            sidebar,
        };
        assert(acc@.contributors =~= Seq::empty());
        assert(acc@.generic_annotations =~= Seq::empty());
        let mut i: usize = 0;
        while i < self.ontology.len()
            invariant
                i <= self.ontology.len(),
                acc@ == described(self.names(), self.ontology@.take(i as int), catalog),
            decreases self.ontology.len() - i,
        {
            assert(self.ontology@.take(i + 1).drop_last() == self.ontology@.take(i as int));
            assert(self.ontology@.take(i + 1).last() == self.ontology@[i as int]);
            self.describe_one(&mut acc, &self.ontology[i]);
            i += 1;
        }
        assert(self.ontology@.take(self.ontology.len() as int) == self.ontology@);
        Ok(acc)
    }
}

} // verus!
