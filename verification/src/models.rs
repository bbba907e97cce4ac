//! The kinds of entities and the annotations as they are shown.

use vstd::prelude::*;

verus! {

/// The kind of entity that a page describes.
#[derive(Clone, Copy, Debug, PartialEq, Eq, Structural)]
pub enum Kind {
    Class,
    ObjectProperty,
    AnnotationProperty,
    DataProperty,
    NamedIndividual,
    Undefined,
}

impl Kind {
    /// The name by which the templates know the kind.
    pub fn name(&self) -> (r: &'static str)
        ensures
            r@ == match *self {
                Kind::Class => "klss"@,
                Kind::ObjectProperty => "object-property"@,
                Kind::AnnotationProperty => "annotation-property"@,
                Kind::DataProperty => "data-property"@,
                Kind::NamedIndividual => "named-individual"@,
                Kind::Undefined => "undefined"@,
            },
    {
        match self {
            Kind::Class => "klss",
            Kind::ObjectProperty => "object-property",
            Kind::AnnotationProperty => "annotation-property",
            Kind::DataProperty => "data-property",
            Kind::NamedIndividual => "named-individual",
            Kind::Undefined => "undefined",
        }
    }
}

/// One annotation as it is shown: the property, its short form and the value.
#[derive(Debug, PartialEq, Eq)]
pub struct OntologyAnnotation {
    pub iri: String,
    pub display: String,
    pub value: String,
}

/// The mathematical value of an [`OntologyAnnotation`].
pub struct AnnotationView {
    pub iri: Seq<char>,
    pub display: Seq<char>,
    pub value: Seq<char>,
}

impl View for OntologyAnnotation {
    type V = AnnotationView;

    open spec fn view(&self) -> AnnotationView {
        AnnotationView { iri: self.iri@, display: self.display@, value: self.value@ }
    }
}

} // verus!
