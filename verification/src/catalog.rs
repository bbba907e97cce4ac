//! Lists the declared entities by kind, for navigation.

use vstd::prelude::*;
use crate::models::Kind;
use crate::text::texts_of;
use crate::ontology::Axiom;
use crate::render_html::{
    all_well_formed, entities_of, EntityDisplay, EntityView, Names, OntologyRender, RenderError,
    SideBar,
};

verus! {

/// The mathematical value of a [`SideBar`].
pub struct SideBarView {
    pub classes: Seq<EntityView>,
    pub named_individuals: Seq<EntityView>,
    pub annotation_props: Seq<EntityView>,
    pub data_props: Seq<EntityView>,
    pub object_props: Seq<EntityView>,
}

impl View for SideBar {
    type V = SideBarView;

    open spec fn view(&self) -> SideBarView {
        SideBarView {
            classes: entities_of(self.classes@),
            named_individuals: entities_of(self.named_individuals@),
            annotation_props: entities_of(self.annotation_props@),
            data_props: entities_of(self.data_props@),
            object_props: entities_of(self.object_props@),
        }
    }
}

/// The IRI that `ax` declares to be of kind `kind`, if it declares one.
pub open spec fn declares(ax: Axiom, kind: Kind) -> Option<Seq<char>> {
    match ax {
        Axiom::DeclareClass(i) => if kind == Kind::Class {
            Some(i@)
        } else {
            None
        },
        Axiom::DeclareObjectProperty(i) => if kind == Kind::ObjectProperty {
            Some(i@)
        } else {
            None
        },
        Axiom::DeclareAnnotationProperty(i) => if kind == Kind::AnnotationProperty {
            Some(i@)
        } else {
            None
        },
        Axiom::DeclareDataProperty(i) => if kind == Kind::DataProperty {
            Some(i@)
        } else {
            None
        },
        Axiom::DeclareNamedIndividual(i) => if kind == Kind::NamedIndividual {
            Some(i@)
        } else {
            None
        },
        _ => None,
    }
}

/// The IRIs that `axioms` declare to be of kind `kind`, one for each
/// declaration, in the order of the declarations.
pub open spec fn declared_iris(axioms: Seq<Axiom>, kind: Kind) -> Seq<Seq<char>>
    decreases axioms.len(),
{
    if axioms.len() == 0 {
        Seq::empty()
    } else {
        let rest = declared_iris(axioms.drop_last(), kind);
        match declares(axioms.last(), kind) {
            Some(i) => rest.push(i),
            None => rest,
        }
    }
}

/// How a data property is listed: as any entity, but where no namespace
/// starts its IRI the identifier is the display text, that is the label
/// where there is one.
pub open spec fn data_property_entity(names: Names, iri: Seq<char>) -> EntityView {
    EntityView {
        iri,
        identifier: if names.matches(iri) {
            names.identifier(iri)
        } else {
            names.label(iri)
        },
        display: names.label(iri),
    }
}

/// The catalog of `axioms`: each declared entity under its kind.
pub open spec fn catalog_of(names: Names, axioms: Seq<Axiom>) -> SideBarView {
    SideBarView {
        classes: declared_iris(axioms, Kind::Class).map_values(|i: Seq<char>| names.entity(i)),
        named_individuals: declared_iris(axioms, Kind::NamedIndividual).map_values(
            |i: Seq<char>| names.entity(i),
        ),
        annotation_props: declared_iris(axioms, Kind::AnnotationProperty).map_values(
            |i: Seq<char>| names.entity(i),
        ),
        data_props: declared_iris(axioms, Kind::DataProperty).map_values(
            |i: Seq<char>| data_property_entity(names, i),
        ),
        object_props: declared_iris(axioms, Kind::ObjectProperty).map_values(
            |i: Seq<char>| names.entity(i),
        ),
    }
}

/// The IRI that one axiom declares to be of kind `kind`.
pub fn declared_iri(ax: &Axiom, kind: Kind) -> (r: Option<&String>)
    ensures
        match r {
            Some(i) => declares(*ax, kind) == Some(i@),
            None => declares(*ax, kind).is_none(),
        },
{
    match ax {
        Axiom::DeclareClass(i) => match kind {
            Kind::Class => Some(i),
            _ => None,
        },
        Axiom::DeclareObjectProperty(i) => match kind {
            Kind::ObjectProperty => Some(i),
            _ => None,
        },
        Axiom::DeclareAnnotationProperty(i) => match kind {
            Kind::AnnotationProperty => Some(i),
            _ => None,
        },
        Axiom::DeclareDataProperty(i) => match kind {
            Kind::DataProperty => Some(i),
            _ => None,
        },
        Axiom::DeclareNamedIndividual(i) => match kind {
            Kind::NamedIndividual => Some(i),
            _ => None,
        },
        _ => None,
    }
}

impl OntologyRender {
    /// The IRIs declared to be of kind `kind`, in the order of their
    /// declarations.
    pub fn get_iris_for_declaration(&self, kind: Kind) -> (r: Vec<String>)
        ensures
            texts_of(r@) == declared_iris(self.ontology@, kind),
    {
        let mut out: Vec<String> = Vec::new();
        let mut i: usize = 0;
        assert(texts_of(out@) =~= declared_iris(self.ontology@.take(0), kind));
        while i < self.ontology.len()
            invariant
                i <= self.ontology.len(),
                texts_of(out@) == declared_iris(self.ontology@.take(i as int), kind),
            decreases self.ontology.len() - i,
        {
            assert(self.ontology@.take(i + 1).drop_last() == self.ontology@.take(i as int));
            assert(self.ontology@.take(i + 1).last() == self.ontology@[i as int]);
            match declared_iri(&self.ontology[i], kind) {
                Some(iri) => {
                    let ghost before = out@;
                    let owned = iri.clone();
                    out.push(owned);
                    assert(texts_of(out@) =~= texts_of(before).push(iri@));
                },
                None => (),
            }
            i += 1;
        }
        assert(self.ontology@.take(self.ontology.len() as int) == self.ontology@);
        out
    }

    /// How a data property is listed.
    pub fn build_data_property_display(&self, iri: &str) -> (r: EntityDisplay)
        ensures
            r@ == data_property_entity(self.names(), iri@),
            iri@.len() > 0 ==> r.wf(),
    {
        let display = self.label(iri);
        let identifier = match crate::prefix::shrink_iri(&self.prefix_mapping, iri) {
            Some(s) => {
                if s.as_str().is_empty() {
                    String::from_str(iri)
                } else {
                    s
                }
            },
            None => display.clone(),
        };
        EntityDisplay::new(String::from_str(iri), identifier, display)
    }

    /// The entities declared to be of kind `kind`, as they are listed.
    fn list_entities(&self, kind: Kind) -> (r: Vec<EntityDisplay>)
        ensures
            entities_of(r@) == declared_iris(self.ontology@, kind).map_values(
                |i: Seq<char>|
                    if kind == Kind::DataProperty {
                        data_property_entity(self.names(), i)
                    } else {
                        self.names().entity(i)
                    },
            ),
            all_well_formed(r@),
    {
        let iris = self.get_iris_for_declaration(kind);
        let mut out: Vec<EntityDisplay> = Vec::new();
        let mut i: usize = 0;
        while i < iris.len()
            invariant
                i <= iris.len(),
                out.len() == i,
                forall|j: int|
                    0 <= j < i ==> (#[trigger] out[j])@ == if kind == Kind::DataProperty {
                        data_property_entity(self.names(), iris[j]@)
                    } else {
                        self.names().entity(iris[j]@)
                    },
                all_well_formed(out@),
            decreases iris.len() - i,
        {
            let e = match kind {
                Kind::DataProperty => self.build_data_property_display(iris[i].as_str()),
                _ => self.build_entity_display(iris[i].as_str()),
            };
            out.push(e);
            i += 1;
        }
        assert(entities_of(out@) =~= texts_of(iris@).map_values(
            |i: Seq<char>|
                if kind == Kind::DataProperty {
                    data_property_entity(self.names(), i)
                } else {
                    self.names().entity(i)
                },
        ));
        out
    }

    /// Builds the navigation catalog: every declared entity, listed under
    /// its kind in the order of the declarations. No entry has an empty
    /// identifier or display text, unless its IRI is empty.
    pub fn collect_entity_tree(&self) -> (r: Result<SideBar, RenderError>)
        ensures
            r matches Ok(s) && s@ == catalog_of(self.names(), self.ontology@),
            r matches Ok(s) && {
                &&& all_well_formed(s.classes@)
                &&& all_well_formed(s.named_individuals@)
                &&& all_well_formed(s.annotation_props@)
                &&& all_well_formed(s.data_props@)
                &&& all_well_formed(s.object_props@)
            },
    {
        let mut side_bar = SideBar::default();
        side_bar.classes = self.list_entities(Kind::Class);
        side_bar.named_individuals = self.list_entities(Kind::NamedIndividual);
        side_bar.object_props = self.list_entities(Kind::ObjectProperty);
        side_bar.annotation_props = self.list_entities(Kind::AnnotationProperty);
        side_bar.data_props = self.list_entities(Kind::DataProperty);
        proof {
            let n = self.names();
            let c = catalog_of(n, self.ontology@);
            assert(side_bar@.classes =~= c.classes);
            assert(side_bar@.named_individuals =~= c.named_individuals);
            assert(side_bar@.object_props =~= c.object_props);
            assert(side_bar@.annotation_props =~= c.annotation_props);
            assert(side_bar@.data_props =~= c.data_props);
        }
        Ok(side_bar)
    }
}

} // verus!
