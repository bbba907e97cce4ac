//! What a page shows of entities and expressions, and the ontology with
//! all that its pages are built from.

use vstd::prelude::*;
use crate::config::{OntologyConfig, Settings};
use crate::labels::{get_label_hashmap, labels_of, LabelIndex};
use crate::ontology::Axiom;
use crate::prefix::{add_prefix, bind, compact, default_namespace, registered, set_default, shrink_iri};

verus! {

/// Why a page could not be built.
#[derive(Clone, Copy, Debug, PartialEq, Eq, Structural)]
pub enum RenderErrorKind {
    /// A class expression uses a construct that no page can show.
    UnsupportedConstruct,
    /// The entity is not declared, so its kind is unknown.
    UnknownEntityKind,
    /// An imported ontology asks for the reserved prefix `_`.
    ReservedPrefix,
}

/// The failure to build a page, with its reason.
#[derive(Clone, Copy, Debug, PartialEq, Eq, Structural)]
pub struct RenderError(pub RenderErrorKind);

impl RenderError {
    /// The error in words.
    pub fn message(&self) -> (r: String)
        ensures
            r@ == match self.0 {
                RenderErrorKind::UnsupportedConstruct => "Unsupported class expression"@,
                RenderErrorKind::UnknownEntityKind => "Unknown entity kind"@,
                RenderErrorKind::ReservedPrefix => "Error when adding prefixes"@,
            },
    {
        match self.0 {
            RenderErrorKind::UnsupportedConstruct => String::from_str("Unsupported class expression"),
            RenderErrorKind::UnknownEntityKind => String::from_str("Unknown entity kind"),
            RenderErrorKind::ReservedPrefix => String::from_str("Error when adding prefixes"),
        }
    }
}

/// An entity as it is shown: its IRI, its short identifier and its label.
#[derive(Debug, PartialEq, Eq)]
pub struct EntityDisplay {
    pub iri: String,
    pub identifier: String,
    pub display: String,
}

/// The mathematical value of an [`EntityDisplay`].
pub struct EntityView {
    pub iri: Seq<char>,
    pub identifier: Seq<char>,
    pub display: Seq<char>,
}

impl View for EntityDisplay {
    type V = EntityView;

    open spec fn view(&self) -> EntityView {
        EntityView { iri: self.iri@, identifier: self.identifier@, display: self.display@ }
    }
}

impl EntityDisplay {
    /// Neither the identifier nor the label is empty.
    pub open spec fn wf(&self) -> bool {
        self.identifier@.len() > 0 && self.display@.len() > 0
    }

    /// The entity `iri`, shown as `display` and identified by `identifier`.
    pub fn new(iri: String, identifier: String, display: String) -> (r: Self)
        ensures
            r.iri == iri,
            r.identifier == identifier,
            r.display == display,
    {
        EntityDisplay { iri, identifier, display }
    }
}

/// The members of an intersection or a union.
#[derive(Debug, PartialEq, Eq)]
pub struct GroupDisplay(pub Vec<DisplayComp>);

/// A restriction: the property and what it is restricted to.
#[derive(Debug, PartialEq, Eq)]
pub struct RelDisplay {
    pub rel: Box<DisplayComp>,
    pub ce: Box<DisplayComp>,
}

/// A data value restriction: the data property and the text of the value.
#[derive(Debug, PartialEq, Eq)]
pub struct DPDisplay {
    pub dp: Box<DisplayComp>,
    pub value: String,
}

/// A class or property expression as a tree ready to be shown.
#[derive(Debug, PartialEq, Eq)]
pub enum DisplayComp {
    Simple(EntityDisplay),
    And(GroupDisplay),
    Or(GroupDisplay),
    SomeValuesFrom(RelDisplay),
    Value(RelDisplay),
    All(RelDisplay),
    Not(Box<DisplayComp>),
    Data(DPDisplay),
}

/// The mathematical value of a [`DisplayComp`].
pub enum DisplayNode {
    Simple(EntityView),
    And(Seq<DisplayNode>),
    Or(Seq<DisplayNode>),
    Not(Box<DisplayNode>),
    SomeValuesFrom { relation: Box<DisplayNode>, filler: Box<DisplayNode> },
    AllValuesFrom { relation: Box<DisplayNode>, filler: Box<DisplayNode> },
    HasValue { relation: Box<DisplayNode>, filler: Box<DisplayNode> },
    DataHasValue { property: Box<DisplayNode>, literal: Seq<char> },
}

/// The tree that `c` stands for.
pub open spec fn node_of(c: DisplayComp) -> DisplayNode
    decreases c,
{
    match c {
        DisplayComp::Simple(e) => DisplayNode::Simple(e@),
        DisplayComp::And(g) => DisplayNode::And(
            Seq::new(
                g.0.len() as nat,
                |i: int|
                    if 0 <= i < g.0.len() {
                        node_of(g.0[i])
                    } else {
                        arbitrary()
                    },
            ),
        ),
        DisplayComp::Or(g) => DisplayNode::Or(
            Seq::new(
                g.0.len() as nat,
                |i: int|
                    if 0 <= i < g.0.len() {
                        node_of(g.0[i])
                    } else {
                        arbitrary()
                    },
            ),
        ),
        DisplayComp::Not(b) => DisplayNode::Not(Box::new(node_of(*b))),
        DisplayComp::SomeValuesFrom(r) => DisplayNode::SomeValuesFrom {
            relation: Box::new(node_of(*r.rel)),
            filler: Box::new(node_of(*r.ce)),
        },
        DisplayComp::All(r) => DisplayNode::AllValuesFrom {
            relation: Box::new(node_of(*r.rel)),
            filler: Box::new(node_of(*r.ce)),
        },
        DisplayComp::Value(r) => DisplayNode::HasValue {
            relation: Box::new(node_of(*r.rel)),
            filler: Box::new(node_of(*r.ce)),
        },
        DisplayComp::Data(d) => DisplayNode::DataHasValue {
            property: Box::new(node_of(*d.dp)),
            literal: d.value@,
        },
    }
}

impl View for DisplayComp {
    type V = DisplayNode;

    open spec fn view(&self) -> DisplayNode {
        node_of(*self)
    }
}

/// The trees that the members of `v` stand for, in order.
pub open spec fn nodes_of(v: Seq<DisplayComp>) -> Seq<DisplayNode> {
    Seq::new(v.len(), |i: int| node_of(v[i]))
}

/// The values of the entities of `v`, in order.
pub open spec fn entities_of(v: Seq<EntityDisplay>) -> Seq<EntityView> {
    Seq::new(v.len(), |i: int| v[i]@)
}

/// The navigation catalog: the declared entities, one list per kind.
#[derive(Debug, PartialEq, Eq)]
pub struct SideBar {
    pub classes: Vec<EntityDisplay>,
    pub named_individuals: Vec<EntityDisplay>,
    pub annotation_props: Vec<EntityDisplay>,
    pub data_props: Vec<EntityDisplay>,
    pub object_props: Vec<EntityDisplay>,
}

impl Default for SideBar {
    fn default() -> (r: Self)
        ensures
            r.classes@.len() == 0,
            r.named_individuals@.len() == 0,
            r.annotation_props@.len() == 0,
            r.data_props@.len() == 0,
            r.object_props@.len() == 0,
    {
        SideBar {
            classes: Vec::new(),
            named_individuals: Vec::new(),
            annotation_props: Vec::new(),
            data_props: Vec::new(),
            object_props: Vec::new(),
        }
    }
}

/// What the short and the display form of an IRI are read from: the default
/// namespace, the registered (prefix, namespace) pairs and the labels.
pub struct Names {
    pub default: Option<Seq<char>>,
    pub prefixes: Seq<(Seq<char>, Seq<char>)>,
    pub labels: Map<Seq<char>, Seq<char>>,
}

impl Names {
    /// True when the default or a registered namespace starts `iri`.
    pub open spec fn matches(self, iri: Seq<char>) -> bool {
        compact(self.default, self.prefixes, iri).is_some()
    }

    /// The compact form of `iri`, or `iri` itself when no namespace starts it.
    pub open spec fn shrink(self, iri: Seq<char>) -> Seq<char> {
        match compact(self.default, self.prefixes, iri) {
            Some(c) => c,
            None => iri,
        }
    }

    /// The identifier of `iri`: its short form, or the whole IRI where the
    /// short form is empty.
    pub open spec fn identifier(self, iri: Seq<char>) -> Seq<char> {
        if self.shrink(iri).len() > 0 {
            self.shrink(iri)
        } else {
            iri
        }
    }

    /// True when `iri` has a label that is not empty.
    pub open spec fn labelled(self, iri: Seq<char>) -> bool {
        self.labels.contains_key(iri) && self.labels[iri].len() > 0
    }

    /// The display text of `iri`: its label, or its identifier where it has
    /// no label or an empty one.
    pub open spec fn label(self, iri: Seq<char>) -> Seq<char> {
        if self.labelled(iri) {
            self.labels[iri]
        } else {
            self.identifier(iri)
        }
    }

    /// How the entity `iri` is shown.
    pub open spec fn entity(self, iri: Seq<char>) -> EntityView {
        EntityView { iri, identifier: self.identifier(iri), display: self.label(iri) }
    }
}

/// Each entity of `v` whose IRI is not empty has an identifier and a display
/// text that are not empty.
pub open spec fn all_well_formed(v: Seq<EntityDisplay>) -> bool {
    forall|i: int| 0 <= i < v.len() ==> ((#[trigger] v[i]).iri@.len() > 0 ==> v[i].wf())
}

/// The registered pairs after each import of `imports` that has a suffix
/// was bound, in order, starting from `start`; `None` when one of them asks
/// for the reserved prefix `_`.
pub open spec fn import_bindings(
    imports: Seq<OntologyConfig>,
    start: Seq<(Seq<char>, Seq<char>)>,
) -> Option<Seq<(Seq<char>, Seq<char>)>>
    decreases imports.len(),
{
    if imports.len() == 0 {
        Some(start)
    } else {
        match import_bindings(imports.drop_last(), start) {
            None => None,
            Some(e) => match imports.last().suffix {
                None => Some(e),
                Some(p) => if p@ == "_"@ {
                    None
                } else {
                    Some(bind(e, p@, imports.last().iri@))
                },
            },
        }
    }
}

/// The imports of `settings`, none when the list is absent.
pub open spec fn imports_of(settings: Settings) -> Seq<OntologyConfig> {
    match settings.import {
        Some(v) => v@,
        None => Seq::empty(),
    }
}

/// An ontology with all that its pages are built from.
pub struct OntologyRender {
    pub ontology: Vec<Axiom>,
    pub prefix_mapping: curie::PrefixMapping,
    pub label_map: LabelIndex,
    pub settings: Settings,
}

impl OntologyRender {
    /// What the short and the display forms are read from: the prefix
    /// mapping and the label index.
    pub open spec fn names(&self) -> Names {
        Names {
            default: default_namespace(self.prefix_mapping),
            prefixes: registered(self.prefix_mapping),
            labels: self.label_map@,
        }
    }

    /// Puts an ontology together with its settings: indexes the labels,
    /// makes the ontology's own IRI the default namespace and binds the
    /// suffix of each import to the import's IRI. Fails exactly when an
    /// import asks for the reserved prefix.
    pub fn new_with_settings(
        settings: Settings,
        ontology: Vec<Axiom>,
        prefix_mapping: curie::PrefixMapping,
    ) -> (r: Result<Self, RenderError>)
        ensures
            match r {
                Ok(o) => {
                    &&& o.ontology == ontology
                    &&& o.settings == settings
                    &&& o.label_map@ == labels_of(ontology@)
                    &&& default_namespace(o.prefix_mapping) == Some(settings.ontology.iri@)
                    &&& import_bindings(imports_of(settings), registered(prefix_mapping)) == Some(
                        registered(o.prefix_mapping),
                    )
                },
                Err(e) => {
                    &&& e.0 == RenderErrorKind::ReservedPrefix
                    &&& import_bindings(imports_of(settings), registered(prefix_mapping)).is_none()
                },
            },
    {
        let mut pm = prefix_mapping;
        let ghost start = registered(pm);
        let label_map = get_label_hashmap(&ontology);
        set_default(&mut pm, settings.ontology.iri.as_str());
        if let Some(imports) = &settings.import {
            let mut i: usize = 0;
            while i < imports.len()
                invariant
                    i <= imports.len(),
                    imports_of(settings) == imports@,
                    start == registered(prefix_mapping),
                    default_namespace(pm) == Some(settings.ontology.iri@),
                    import_bindings(imports@.take(i as int), start) == Some(registered(pm)),
                decreases imports.len() - i,
            {
                assert(imports@.take(i + 1).drop_last() == imports@.take(i as int));
                assert(imports@.take(i + 1).last() == imports@[i as int]);
                if let Some(p) = &imports[i].suffix {
                    match add_prefix(&mut pm, p.as_str(), imports[i].iri.as_str()) {
                        Ok(_) => (),
                        Err(_) => {
                            proof {
                                unbound_stays(imports@, i as int + 1, start);
                            }
                            return Err(RenderError(RenderErrorKind::ReservedPrefix));
                        },
                    }
                }
                i += 1;
            }
            assert(imports@.take(imports.len() as int) == imports@);
        }
        Ok(OntologyRender { ontology, prefix_mapping: pm, label_map, settings })
    }

    /// The short form of `iri`: its compact form under the prefix mapping,
    /// or `iri` unchanged when no namespace of the mapping starts it.
    pub fn shrink(&self, iri: &str) -> (r: String)
        ensures
            r@ == self.names().shrink(iri@),
            !self.names().matches(iri@) ==> r@ == iri@,
    {
        match shrink_iri(&self.prefix_mapping, iri) {
            Some(s) => s,
            None => String::from_str(iri),
        }
    }

    /// The identifier of `iri`: its short form, or the whole IRI where the
    /// short form is empty. It is empty only for an empty IRI.
    pub fn identifier(&self, iri: &str) -> (r: String)
        ensures
            r@ == self.names().identifier(iri@),
            self.names().shrink(iri@).len() > 0 ==> r@ == self.names().shrink(iri@),
            self.names().shrink(iri@).len() == 0 ==> r@ == iri@,
            iri@.len() > 0 ==> r@.len() > 0,
    {
        let short = self.shrink(iri);
        if short.as_str().is_empty() {
            String::from_str(iri)
        } else {
            short
        }
    }

    /// The display text of `iri`: its label, or its identifier where it has
    /// no label or an empty one. It is empty only for an empty IRI.
    pub fn label(&self, iri: &str) -> (r: String)
        ensures
            r@ == self.names().label(iri@),
            self.names().labelled(iri@) ==> r@ == self.label_map@[iri@],
            !self.names().labelled(iri@) ==> r@ == self.names().identifier(iri@),
            iri@.len() > 0 ==> r@.len() > 0,
    {
        match self.label_map.get(iri) {
            Some(l) => {
                if l.as_str().is_empty() {
                    self.identifier(iri)
                } else {
                    l.clone()
                }
            },
            None => self.identifier(iri),
        }
    }

    /// How the entity `iri` is shown: the identifier is the short form, or
    /// the whole IRI where the short form is empty; the display text is the
    /// label, or the identifier where the label is missing or empty. Neither
    /// is empty unless the IRI is.
    pub fn build_entity_display(&self, iri: &str) -> (r: EntityDisplay)
        ensures
            r@ == self.names().entity(iri@),
            iri@.len() > 0 ==> r.wf(),
    {
        let identifier = self.identifier(iri);
        let display = self.label(iri);
        EntityDisplay::new(String::from_str(iri), identifier, display)
    }
}

/// Once a prefix of the imports cannot be bound, the whole list cannot.
pub proof fn unbound_stays(imports: Seq<OntologyConfig>, n: int, start: Seq<(Seq<char>, Seq<char>)>)
    requires
        0 <= n <= imports.len(),
        import_bindings(imports.take(n), start).is_none(),
    ensures
        import_bindings(imports, start).is_none(),
    decreases imports.len() - n,
{
    if n < imports.len() {
        assert(imports.take(n + 1).drop_last() == imports.take(n));
        unbound_stays(imports, n + 1, start);
    } else {
        assert(imports.take(n) == imports);
    }
}

} // verus!
