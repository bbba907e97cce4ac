//! The well-known properties by which annotations are routed.

use vstd::prelude::*;

verus! {

/// The property that gives an entity its label.
pub const RDFS_LABEL: &'static str = "http://www.w3.org/2000/01/rdf-schema#label";

/// The property that gives an entity its definition.
pub const SKOS_DEFINITION: &'static str = "http://www.w3.org/2004/02/skos/core#definition";

/// The property that gives an example of an entity.
pub const SKOS_EXAMPLE: &'static str = "http://www.w3.org/2004/02/skos/core#example";

/// The property that names a contributor of an ontology.
pub const DC_CONTRIBUTOR: &'static str = "http://purl.org/dc/elements/1.1/contributor";

/// The property that gives an ontology its title.
pub const DCT_TITLE: &'static str = "http://purl.org/dc/terms/title";

/// The property that names the license of an ontology.
pub const DCT_LICENSE: &'static str = "http://purl.org/dc/terms/license";

/// The property that describes an ontology.
pub const DCT_DESCRIPTION: &'static str = "http://purl.org/dc/terms/description";

} // verus!
