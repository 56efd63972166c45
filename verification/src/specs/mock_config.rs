//! A whole configuration: the routes and the named templates.
use crate::name_map::NameMap;
use crate::specs::body::body::{Body, BodyView};
use crate::specs::spec::{Spec, SpecView};
use vstd::prelude::*;

verus! {

/// The named templates that a placeholder `${ref.name}` refers to.
pub type Templates = NameMap<Body>;

/// A configuration: the routes in the order in which they are written, and
/// the named templates.
#[derive(Debug)]
pub struct MockConfig {
    pub specs: Vec<Spec>,
    pub templates: Templates,
}

/// A `MockConfig` as mathematical values.
pub struct MockConfigView {
    pub specs: Seq<SpecView>,
    pub templates: Map<Seq<char>, BodyView>,
}

impl View for MockConfig {
    type V = MockConfigView;

    open spec fn view(&self) -> MockConfigView {
        MockConfigView {
            specs: self.specs@.map_values(|s: Spec| s@),
            templates: self.templates@,
        }
    }
}

impl MockConfig {
    /// A configuration of the given routes, without templates.
    pub fn new(specs: Vec<Spec>) -> (config: Self)
        ensures
            config@.specs == specs@.map_values(|s: Spec| s@),
            config@.templates == Map::<Seq<char>, BodyView>::empty(),
    {
        MockConfig { specs, templates: NameMap::new() }
    }
}

} // verus!
