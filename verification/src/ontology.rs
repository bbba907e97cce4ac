//! The axioms and expressions of an ontology, as far as the pages read
//! them.

use vstd::prelude::*;

verus! {

/// An individual: named by an IRI, or anonymous with a node identifier.
#[derive(Debug, PartialEq, Eq)]
pub enum Individual {
    Named(String),
    Anonymous(String),
}

/// A literal value; only its text is ever shown.
#[derive(Debug, PartialEq, Eq)]
pub enum Literal {
    Simple { literal: String },
    Language { literal: String, lang: String },
    Datatype { literal: String, datatype_iri: String },
}

/// What an annotation is about.
#[derive(Debug, PartialEq, Eq)]
pub enum AnnotationSubject {
    IRI(String),
    AnonymousIndividual(String),
}

/// What an annotation says.
#[derive(Debug, PartialEq, Eq)]
pub enum AnnotationValue {
    Literal(Literal),
    IRI(String),
    AnonymousIndividual(String),
}

/// A named object property, or the inverse of one.
#[derive(Debug, PartialEq, Eq)]
pub enum ObjectPropertyExpression {
    ObjectProperty(String),
    InverseObjectProperty(String),
}

/// The lower side of a sub-property axiom: one property expression or a
/// chain of them.
#[derive(Debug, PartialEq, Eq)]
pub enum SubObjectPropertyExpression {
    ObjectPropertyChain(Vec<ObjectPropertyExpression>),
    ObjectPropertyExpression(ObjectPropertyExpression),
}

/// A class expression. The data ranges of data restrictions are left out:
/// nothing here reads them.
#[derive(Debug, PartialEq, Eq)]
#[allow(inconsistent_fields)]
pub enum ClassExpression {
    Class(String),
    ObjectIntersectionOf(Vec<ClassExpression>),
    ObjectUnionOf(Vec<ClassExpression>),
    ObjectComplementOf(Box<ClassExpression>),
    ObjectOneOf(Vec<Individual>),
    ObjectSomeValuesFrom { ope: ObjectPropertyExpression, bce: Box<ClassExpression> },
    ObjectAllValuesFrom { ope: ObjectPropertyExpression, bce: Box<ClassExpression> },
    ObjectHasValue { ope: ObjectPropertyExpression, i: Individual },
    ObjectHasSelf(ObjectPropertyExpression),
    ObjectMinCardinality { n: u32, ope: ObjectPropertyExpression, bce: Box<ClassExpression> },
    ObjectMaxCardinality { n: u32, ope: ObjectPropertyExpression, bce: Box<ClassExpression> },
    ObjectExactCardinality { n: u32, ope: ObjectPropertyExpression, bce: Box<ClassExpression> },
    DataSomeValuesFrom { dp: String },
    DataAllValuesFrom { dp: String },
    DataHasValue { dp: String, l: Literal },
    DataMinCardinality { n: u32, dp: String },
    DataMaxCardinality { n: u32, dp: String },
    DataExactCardinality { n: u32, dp: String },
}

/// One statement of an ontology. `Other` stands for every kind of statement
/// that no page shows.
#[derive(Debug, PartialEq, Eq)]
#[allow(inconsistent_fields)]
pub enum Axiom {
    OntologyID { iri: Option<String>, viri: Option<String> },
    OntologyAnnotation { ap: String, av: AnnotationValue },
    DeclareClass(String),
    DeclareObjectProperty(String),
    DeclareAnnotationProperty(String),
    DeclareDataProperty(String),
    DeclareNamedIndividual(String),
    SubClassOf { sup: ClassExpression, sub: ClassExpression },
    EquivalentClasses(Vec<ClassExpression>),
    SubObjectPropertyOf { sup: ObjectPropertyExpression, sub: SubObjectPropertyExpression },
    InverseObjectProperties(String, String),
    ObjectPropertyDomain { ope: ObjectPropertyExpression, ce: ClassExpression },
    ObjectPropertyRange { ope: ObjectPropertyExpression, ce: ClassExpression },
    ClassAssertion { ce: ClassExpression, i: Individual },
    AnnotationAssertion { subject: AnnotationSubject, ap: String, av: AnnotationValue },
    Other,
}

/// True when `ce` is built only from the constructs that a page can show:
/// named classes, intersections, unions, complements, existential and
/// universal restrictions, value restrictions on a named individual and
/// data value restrictions.
pub open spec fn supported(ce: ClassExpression) -> bool
    decreases ce,
{
    match ce {
        ClassExpression::Class(_) => true,
        ClassExpression::ObjectIntersectionOf(v) => forall|i: int|
            0 <= i < v.len() ==> supported(#[trigger] v[i]),
        ClassExpression::ObjectUnionOf(v) => forall|i: int|
            0 <= i < v.len() ==> supported(#[trigger] v[i]),
        ClassExpression::ObjectComplementOf(b) => supported(*b),
        ClassExpression::ObjectSomeValuesFrom { ope, bce } => supported(*bce),
        ClassExpression::ObjectAllValuesFrom { ope, bce } => supported(*bce),
        ClassExpression::ObjectHasValue { ope, i } => i is Named,
        ClassExpression::DataHasValue { dp, l } => true,
        _ => false,
    }
}

impl Literal {
    /// The text of the literal, without language tag or datatype.
    pub open spec fn text(self) -> Seq<char> {
        match self {
            Literal::Simple { literal } => literal@,
            Literal::Language { literal, lang } => literal@,
            Literal::Datatype { literal, datatype_iri } => literal@,
        }
    }
}

impl AnnotationValue {
    /// The text that stands for the value: a literal's text or an IRI; an
    /// anonymous individual has none.
    pub open spec fn text(self) -> Option<Seq<char>> {
        match self {
            AnnotationValue::Literal(l) => Some(l.text()),
            AnnotationValue::IRI(i) => Some(i@),
            AnnotationValue::AnonymousIndividual(_) => None,
        }
    }
}

impl ObjectPropertyExpression {
    /// The named property that the expression is built on.
    pub open spec fn named(self) -> Seq<char> {
        match self {
            ObjectPropertyExpression::ObjectProperty(p) => p@,
            ObjectPropertyExpression::InverseObjectProperty(p) => p@,
        }
    }
}

/// The text of a literal: the language tag or the datatype is dropped.
pub fn unpack_literal(l: &Literal) -> (r: String)
    ensures
        r@ == l.text(),
{
    match l {
        Literal::Simple { literal } => literal.clone(),
        Literal::Language { literal, lang: _ } => literal.clone(),
        Literal::Datatype { literal, datatype_iri: _ } => literal.clone(),
    }
}

/// The text of an annotation value, borrowed from it.
pub fn get_annotation_value(av: &AnnotationValue) -> (r: Option<&str>)
    ensures
        match r {
            Some(s) => av.text() == Some(s@),
            None => av.text().is_none(),
        },
{
    match av {
        AnnotationValue::AnonymousIndividual(_) => None,
        AnnotationValue::Literal(l) => match l {
            Literal::Simple { literal } => Some(literal.as_str()),
            Literal::Language { literal, lang: _ } => Some(literal.as_str()),
            Literal::Datatype { literal, datatype_iri: _ } => Some(literal.as_str()),
        },
        AnnotationValue::IRI(ii) => Some(ii.as_str()),
    }
}

/// The text of an annotation value as an owned string.
pub fn unpack_annotation_value(av: &AnnotationValue) -> (r: Option<String>)
    ensures
        match r {
            Some(s) => av.text() == Some(s@),
            None => av.text().is_none(),
        },
{
    match av {
        AnnotationValue::AnonymousIndividual(_) => None,
        AnnotationValue::Literal(l) => Some(unpack_literal(l)),
        AnnotationValue::IRI(ii) => Some(ii.clone()),
    }
}

} // verus!
