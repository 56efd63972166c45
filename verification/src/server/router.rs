//! The routes of all methods.
use crate::name_map::NameMap;
use crate::server::router_node::{
    child_index, empty_node, find_dyn, find_in, insert_at, is_well_formed,
    lemma_insert_keeps_well_formed, parts_view, Found, NodeView, RouterNode,
};
use crate::server::url::error::{UrlError, UrlErrorView};
use crate::server::url::parser::{parse_pattern, UrlParser};
use crate::server::url::token::UrlTokenView;
use crate::server::url::var::{UrlVarView, UrlVars};
use crate::specs::body::body::{Body, BodyView};
use crate::specs::method::Method;
use crate::specs::mock_config::{MockConfig, MockConfigView, Templates};
use crate::specs::response::{Response, ResponseView};
use crate::specs::spec::{Spec, SpecView};
use crate::specs::status_code::StatusCode;
use crate::text::{split, split_text};
use vstd::prelude::*;

verus! {

/// The routes of a configuration: one tree for each method that has a
/// route, the response for a request that no route matches, and the named
/// templates.
#[derive(Debug)]
pub struct Router {
    /// The trees with their methods. No method occurs twice.
    pub roots: Vec<(Method, RouterNode)>,
    /// The response for a request that no route matches.
    pub not_found: Response,
    /// The named templates of the configuration.
    pub templates: Templates,
}

/// A `Router` as mathematical values.
pub struct RouterView {
    pub roots: Seq<(Method, NodeView)>,
    pub not_found: ResponseView,
    pub templates: Map<Seq<char>, BodyView>,
}

impl View for Router {
    type V = RouterView;

    open spec fn view(&self) -> RouterView {
        RouterView {
            roots: Seq::new(self.roots@.len(), |i: int| (self.roots@[i].0, self.roots@[i].1@)),
            not_found: self.not_found@,
            templates: self.templates@,
        }
    }
}

/// The first place from `from` on at which the tree of `method` stands.
pub open spec fn root_from(roots: Seq<(Method, NodeView)>, method: Method, from: int) -> Option<int>
    decreases roots.len() - from,
{
    if from < 0 || from >= roots.len() {
        None
    } else if roots[from].0 == method {
        Some(from)
    } else {
        root_from(roots, method, from + 1)
    }
}

/// The place of the tree of `method`.
pub open spec fn root_index(roots: Seq<(Method, NodeView)>, method: Method) -> Option<int> {
    root_from(roots, method, 0)
}

/// The components of a request path: what stands between its `/`, without
/// what stands before the first `/`.
pub open spec fn path_parts(path: Seq<char>) -> Seq<Seq<char>> {
    split(path, '/').drop_first()
}

/// The segments of a pattern that count: all but the one before the first
/// `/`.
pub open spec fn route_segments(segments: Seq<Seq<UrlTokenView>>) -> Seq<Seq<UrlTokenView>> {
    if segments.len() == 0 {
        segments
    } else {
        segments.drop_first()
    }
}

/// The response that stands for a missing route: status 404 and the text
/// `Not found`.
pub open spec fn not_found_view() -> ResponseView {
    ResponseView { status: 404, delay: None, body: BodyView::String("Not found"@) }
}

impl RouterView {
    /// The tree of `method`; the empty tree if the method has no route.
    pub open spec fn root(self, method: Method) -> NodeView {
        match root_index(self.roots, method) {
            Some(i) => self.roots[i].1,
            None => empty_node(),
        }
    }

    /// Looks up a request: the tree of the method, and in it the components
    /// of the path.
    pub open spec fn find(self, method: Method, path: Seq<char>, vars: Map<Seq<char>, UrlVarView>)
        -> Found {
        find_in(self.root(method), path_parts(path), vars)
    }

    /// Whether no method has two trees, and no key or segment occurs twice
    /// among the children of a node of a tree.
    pub open spec fn is_well_formed(self) -> bool {
        &&& forall|i: int, j: int|
            0 <= i < j < self.roots.len() ==> (#[trigger] self.roots[i]).0 != (
            #[trigger] self.roots[j]).0
        &&& forall|i: int| 0 <= i < self.roots.len() ==> is_well_formed((#[trigger] self.roots[i]).1)
    }

    /// The router with the tree of `method` replaced by `node`.
    pub open spec fn with_root(self, method: Method, node: NodeView) -> RouterView {
        match root_index(self.roots, method) {
            Some(i) => RouterView { roots: self.roots.update(i, (method, node)), ..self },
            None => RouterView { roots: self.roots.push((method, node)), ..self },
        }
    }

    /// The router after the route was inserted: the pattern is parsed, and
    /// the tree of the method gets the response at the end of the segments
    /// of the pattern. A pattern with a syntax error is refused.
    pub open spec fn insert(self, spec: SpecView) -> Result<RouterView, UrlErrorView> {
        match parse_pattern(spec.url) {
            Err(e) => Err(e),
            Ok(segments) => Ok(
                self.with_root(
                    spec.method,
                    insert_at(self.root(spec.method), route_segments(segments), spec.response),
                ),
            ),
        }
    }

    /// The router after the routes `specs[from..]` were inserted in order;
    /// the first syntax error, if there is one.
    pub open spec fn insert_all(self, specs: Seq<SpecView>, from: int) -> Result<
        RouterView,
        UrlErrorView,
    >
        decreases specs.len() - from,
    {
        if from < 0 || from >= specs.len() {
            Ok(self)
        } else {
            match self.insert(specs[from]) {
                Err(e) => Err(e),
                Ok(next) => next.insert_all(specs, from + 1),
            }
        }
    }
}

/// The router without routes that holds the given templates.
pub open spec fn empty_router(templates: Map<Seq<char>, BodyView>) -> RouterView {
    RouterView { roots: Seq::empty(), not_found: not_found_view(), templates }
}

/// The router of a configuration: its routes inserted in order into the
/// router without routes.
pub open spec fn router_of(config: MockConfigView) -> Result<RouterView, UrlErrorView> {
    empty_router(config.templates).insert_all(config.specs, 0)
}

pub proof fn lemma_root_from_found(roots: Seq<(Method, NodeView)>, method: Method, from: int)
    requires
        0 <= from,
    ensures
        match root_from(roots, method, from) {
            Some(i) => from <= i < roots.len() && roots[i].0 == method && forall|k: int|
                from <= k < i ==> (#[trigger] roots[k]).0 != method,
            None => forall|k: int| from <= k < roots.len() ==> (#[trigger] roots[k]).0 != method,
        },
    decreases roots.len() - from,
{
    if from < roots.len() && roots[from].0 != method {
        lemma_root_from_found(roots, method, from + 1);
    }
}

/// Nothing is found below the node without children and without a
/// response, and no variable is bound.
pub proof fn lemma_empty_node_finds_nothing(parts: Seq<Seq<char>>, vars: Map<Seq<char>, UrlVarView>)
    ensures
        find_in(empty_node(), parts, vars) == (Found { response: None, vars }),
{
    if parts.len() > 0 {
        assert(child_index(empty_node().children, parts[0]) is None);
        assert(find_dyn(empty_node(), 0, parts, vars) == (Found { response: None, vars }));
    }
}

/// Inserting a route keeps the methods, the keys and the segments of a
/// router distinct.
pub proof fn lemma_insert_keeps_router_well_formed(router: RouterView, spec: SpecView)
    requires
        router.is_well_formed(),
    ensures
        router.insert(spec) matches Ok(after) ==> after.is_well_formed(),
{
    if let Ok(segments) = parse_pattern(spec.url) {
        let after = router.insert(spec)->Ok_0;
        let method = spec.method;
        lemma_root_from_found(router.roots, method, 0);
        let root = router.root(method);
        assert(is_well_formed(root)) by {
            if let Some(i) = root_index(router.roots, method) {
                assert(is_well_formed(router.roots[i].1));
            }
        }
        lemma_insert_keeps_well_formed(root, route_segments(segments), spec.response);
        assert forall|i: int| 0 <= i < after.roots.len() implies is_well_formed(
            (#[trigger] after.roots[i]).1,
        ) by {
            match root_index(router.roots, method) {
                Some(at) => {
                    if i != at {
                        assert(after.roots[i] == router.roots[i]);
                    }
                },
                None => {
                    if i < router.roots.len() {
                        assert(after.roots[i] == router.roots[i]);
                    }
                },
            }
        }
        assert forall|i: int, j: int| 0 <= i < j < after.roots.len() implies (
        #[trigger] after.roots[i]).0 != (#[trigger] after.roots[j]).0 by {
            match root_index(router.roots, method) {
                Some(at) => {
                    assert(after.roots[i].0 == router.roots[i].0);
                    assert(after.roots[j].0 == router.roots[j].0);
                },
                None => {
                    assert(after.roots[i] == router.roots[i]);
                    if j < router.roots.len() {
                        assert(after.roots[j] == router.roots[j]);
                    }
                },
            }
        }
    }
}

impl Default for Router {
    /// The router without routes and without templates.
    fn default() -> (router: Self)
        ensures
            router@ == empty_router(Map::empty()),
            router@.is_well_formed(),
    {
        Router::with_templates(NameMap::new())
    }
}

impl Router {
    /// The router without routes that holds the given templates.
    pub fn with_templates(templates: Templates) -> (router: Self)
        ensures
            router@ == empty_router(templates@),
            router@.is_well_formed(),
    {
        let router = Router {
            roots: Vec::new(),
            not_found: Response {
                status: StatusCode(404),
                delay: None,
                body: Body::String("Not found".to_owned()),
            },
            templates,
        };
        assert(router@.roots =~= Seq::empty());
        router
    }

    /// The router of a configuration: its routes, inserted in the order in
    /// which they are written. The first pattern with a syntax error makes
    /// the whole configuration fail.
    pub fn new(specs: MockConfig) -> (r: Result<Self, UrlError>)
        ensures
            match router_of(specs@) {
                Err(e) => r matches Err(x) && x@ == e,
                Ok(view) => r matches Ok(router) && router@ == view && router@.is_well_formed(),
            },
    {
        let MockConfig { specs: entries, templates } = specs;
        let ghost all = entries@.map_values(|s: Spec| s@);
        let mut router = Router::with_templates(templates);
        for spec in it: entries
            invariant
                all == it.seq().map_values(|s: Spec| s@),
                router_of(specs@) == router@.insert_all(all, it.index() as int),
                all == specs@.specs,
                router@.is_well_formed(),
        {
            assert(all[it.index() as int] == spec@);
            match router.insert(spec) {
                Ok(()) => {},
                Err(e) => {
                    return Err(e);
                },
            }
        }
        Ok(router)
    }

    /// The place of the tree of `method`.
    fn root_position(&self, method: &Method) -> (r: Option<usize>)
        ensures
            match r {
                Some(i) => root_index(self@.roots, *method) == Some(i as int) && i
                    < self.roots.len(),
                None => root_index(self@.roots, *method) is None,
            },
    {
        let mut i: usize = 0;
        while i < self.roots.len()
            invariant
                i <= self.roots.len(),
                forall|k: int| 0 <= k < i ==> (#[trigger] self@.roots[k]).0 != *method,
            decreases self.roots.len() - i,
        {
            if self.roots[i].0 == *method {
                proof {
                    assert(self@.roots[i as int].0 == *method);
                    lemma_root_from_found(self@.roots, *method, 0);
                }
                return Some(i);
            }
            assert(self@.roots[i as int].0 != *method);
            i += 1;
        }
        proof {
            lemma_root_from_found(self@.roots, *method, 0);
        }
        None
    }

    /// Inserts a route. A later route with the method and the segments of an
    /// earlier one replaces its response. A pattern with a syntax error
    /// leaves the router as it is.
    pub fn insert(&mut self, spec: Spec) -> (r: Result<(), UrlError>)
        ensures
            match old(self)@.insert(spec@) {
                Err(e) => r matches Err(x) && x@ == e && final(self)@ == old(self)@,
                Ok(view) => r is Ok && final(self)@ == view,
            },
            old(self)@.is_well_formed() ==> final(self)@.is_well_formed(),
    {
        proof {
            if self@.is_well_formed() {
                lemma_insert_keeps_router_well_formed(self@, spec@);
            }
        }
        let Spec { method, url, response } = spec;
        let mut parser = UrlParser::new(url.as_str());
        let segments = match parser.rest() {
            Ok(segments) => segments,
            Err(e) => {
                return Err(e);
            },
        };
        let from: usize = if segments.len() == 0 {
            0
        } else {
            1
        };
        proof {
            let all = segments@.map_values(|s: crate::server::url::segment::UrlSegment| s@);
            assert(all.skip(from as int) =~= route_segments(all));
        }
        match self.root_position(&method) {
            Some(i) => {
                proof {
                    lemma_root_from_found(self@.roots, method, 0);
                }
                self.roots[i].1.insert_segments(&segments, from, response);
                proof {
                    assert(self@.roots =~= old(self)@.roots.update(
                        i as int,
                        (method, self.roots[i as int].1@),
                    ));
                }
            },
            None => {
                let mut node = RouterNode::new();
                node.insert_segments(&segments, from, response);
                self.roots.push((method, node));
                proof {
                    assert(self@.roots =~= old(self)@.roots.push((method, node@)));
                }
            },
        }
        Ok(())
    }

    /// Finds the response for a request of the given method and path, and
    /// binds the variables of the dynamic segments that were tried.
    pub fn find<'a>(&'a self, method: &Method, url: &str, vars: &mut UrlVars) -> (r: Option<
        &'a Response,
    >)
        ensures
            final(vars)@ == self@.find(*method, url@, old(vars)@).vars,
            match r {
                Some(response) => self@.find(*method, url@, old(vars)@).response == Some(
                    response@,
                ),
                None => self@.find(*method, url@, old(vars)@).response is None,
            },
    {
        let mut parts = split_text(url, '/');
        let ghost whole = parts@.map_values(|p: String| p@);
        parts.remove(0);
        proof {
            assert(parts_view(parts@) =~= whole.drop_first());
            assert(parts_view(parts@) == path_parts(url@));
        }
        match self.root_position(method) {
            Some(i) => self.roots[i].1.find(&parts, vars),
            None => {
                proof {
                    lemma_empty_node_finds_nothing(path_parts(url@), vars@);
                }
                None
            },
        }
    }
}

} // verus!
