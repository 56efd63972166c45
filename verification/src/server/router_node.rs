//! The tree of routes of one method.
//!
//! A node has static children, found by the literal text of a path
//! component, and dynamic children, tried in the order of their insertion.
use crate::server::url::error::UrlError;
use crate::server::url::parser::{segments_left, UrlParser};
use crate::server::url::segment::{segment_match, static_text, UrlSegment};
use crate::server::url::token::UrlTokenView;
use crate::server::url::var::{UrlVarView, UrlVars};
use crate::specs::response::{Response, ResponseView};
use crate::text::to_chars;
use vstd::prelude::*;

verus! {

/// A node of the tree of routes.
#[derive(Debug, Default)]
pub struct RouterNode {
    /// The static children with their keys. No key occurs twice.
    pub children: Vec<(String, RouterNode)>,
    /// The dynamic children with their segments, in the order of insertion.
    /// No segment occurs twice.
    pub dyn_children: Vec<(UrlSegment, RouterNode)>,
    /// The response of the route that ends here.
    pub response: Option<Response>,
}

/// A `RouterNode` as a mathematical tree.
pub struct NodeView {
    pub children: Seq<(Seq<char>, NodeView)>,
    pub dyn_children: Seq<(Seq<UrlTokenView>, NodeView)>,
    pub response: Option<ResponseView>,
}

/// The node without children and without a response.
pub open spec fn empty_node() -> NodeView {
    NodeView { children: Seq::empty(), dyn_children: Seq::empty(), response: None }
}

impl RouterNode {
    /// The node as a mathematical tree.
    pub open spec fn model(self) -> NodeView
        decreases self,
    {
        NodeView {
            children: Seq::new(
                self.children@.len(),
                |i: int|
                    if 0 <= i < self.children@.len() {
                        (self.children@[i].0@, self.children@[i].1.model())
                    } else {
                        (Seq::empty(), empty_node())
                    },
            ),
            dyn_children: Seq::new(
                self.dyn_children@.len(),
                |i: int|
                    if 0 <= i < self.dyn_children@.len() {
                        (self.dyn_children@[i].0@, self.dyn_children@[i].1.model())
                    } else {
                        (Seq::empty(), empty_node())
                    },
            ),
            response: match self.response {
                Some(response) => Some(response@),
                None => None,
            },
        }
    }
}

impl View for RouterNode {
    type V = NodeView;

    open spec fn view(&self) -> NodeView {
        self.model()
    }
}

/// The first place from `from` on at which `key` stands among the static
/// children.
pub open spec fn child_from(children: Seq<(Seq<char>, NodeView)>, key: Seq<char>, from: int)
    -> Option<int>
    decreases children.len() - from,
{
    if from < 0 || from >= children.len() {
        None
    } else if children[from].0 == key {
        Some(from)
    } else {
        child_from(children, key, from + 1)
    }
}

/// The place of the static child with the key `key`.
pub open spec fn child_index(children: Seq<(Seq<char>, NodeView)>, key: Seq<char>) -> Option<int> {
    child_from(children, key, 0)
}

/// The first place from `from` on at which the segment `tokens` stands among
/// the dynamic children.
pub open spec fn dyn_from(
    children: Seq<(Seq<UrlTokenView>, NodeView)>,
    tokens: Seq<UrlTokenView>,
    from: int,
) -> Option<int>
    decreases children.len() - from,
{
    if from < 0 || from >= children.len() {
        None
    } else if children[from].0 == tokens {
        Some(from)
    } else {
        dyn_from(children, tokens, from + 1)
    }
}

/// The place of the dynamic child with the segment `tokens`.
pub open spec fn dyn_index(
    children: Seq<(Seq<UrlTokenView>, NodeView)>,
    tokens: Seq<UrlTokenView>,
) -> Option<int> {
    dyn_from(children, tokens, 0)
}

/// The outcome of looking up a path.
pub struct Found {
    /// The response of the route that the path leads to.
    pub response: Option<ResponseView>,
    /// The variables afterwards: those of before and what the dynamic
    /// segments that were tried have bound.
    pub vars: Map<Seq<char>, UrlVarView>,
}

/// Looks up the path components `parts` from `node` on. A component goes to
/// the static child with its text if there is one, else to the first dynamic
/// child whose segment matches it. The choice is final: another child is not
/// tried when the rest of the path fails below the chosen one.
pub open spec fn find_in(node: NodeView, parts: Seq<Seq<char>>, vars: Map<Seq<char>, UrlVarView>)
    -> Found
    decreases parts.len(), node.dyn_children.len() + 1,
{
    if parts.len() == 0 {
        Found { response: node.response, vars }
    } else {
        match child_index(node.children, parts[0]) {
            Some(i) => find_in(node.children[i].1, parts.drop_first(), vars),
            None => find_dyn(node, 0, parts, vars),
        }
    }
}

/// Tries the dynamic children of `node` from place `j` on against the first
/// of `parts`.
pub open spec fn find_dyn(
    node: NodeView,
    j: int,
    parts: Seq<Seq<char>>,
    vars: Map<Seq<char>, UrlVarView>,
) -> Found
    decreases parts.len(), node.dyn_children.len() - j,
{
    if parts.len() == 0 || j < 0 || j >= node.dyn_children.len() {
        Found { response: None, vars }
    } else {
        let m = segment_match(node.dyn_children[j].0, parts[0], vars);
        if m.matched {
            find_in(node.dyn_children[j].1, parts.drop_first(), m.vars)
        } else {
            find_dyn(node, j + 1, parts, m.vars)
        }
    }
}

/// The tree after the route of the given segments got the response. The
/// nodes on the way are those that are there, and new ones where none is; the
/// response of the last node is replaced.
pub open spec fn insert_at(node: NodeView, segments: Seq<Seq<UrlTokenView>>, response: ResponseView)
    -> NodeView
    decreases segments.len(),
{
    if segments.len() == 0 {
        NodeView { response: Some(response), ..node }
    } else {
        let rest = segments.drop_first();
        match static_text(segments[0]) {
            Some(key) => match child_index(node.children, key) {
                Some(i) => NodeView {
                    children: node.children.update(
                        i,
                        (key, insert_at(node.children[i].1, rest, response)),
                    ),
                    ..node
                },
                None => NodeView {
                    children: node.children.push((key, insert_at(empty_node(), rest, response))),
                    ..node
                },
            },
            None => match dyn_index(node.dyn_children, segments[0]) {
                Some(j) => NodeView {
                    dyn_children: node.dyn_children.update(
                        j,
                        (segments[0], insert_at(node.dyn_children[j].1, rest, response)),
                    ),
                    ..node
                },
                None => NodeView {
                    dyn_children: node.dyn_children.push(
                        (segments[0], insert_at(empty_node(), rest, response)),
                    ),
                    ..node
                },
            },
        }
    }
}

/// Whether no key occurs twice among the static children of a node, no
/// segment occurs twice among its dynamic children, and every segment of a
/// dynamic child holds a variable, in the whole tree.
pub open spec fn is_well_formed(node: NodeView) -> bool
    decreases node,
{
    &&& forall|j: int|
        0 <= j < node.dyn_children.len() ==> static_text((#[trigger] node.dyn_children[j]).0)
            is None
    &&& forall|i: int, j: int|
        0 <= i < j < node.children.len() ==> (#[trigger] node.children[i]).0 != (
        #[trigger] node.children[j]).0
    &&& forall|i: int, j: int|
        0 <= i < j < node.dyn_children.len() ==> (#[trigger] node.dyn_children[i]).0 != (
        #[trigger] node.dyn_children[j]).0
    &&& forall|i: int|
        0 <= i < node.children.len() ==> is_well_formed((#[trigger] node.children[i]).1)
    &&& forall|j: int|
        0 <= j < node.dyn_children.len() ==> is_well_formed((#[trigger] node.dyn_children[j]).1)
}

/// Inserting a route keeps the keys and the segments of a tree distinct and
/// the dynamic children those of segments with a variable.
pub proof fn lemma_insert_keeps_well_formed(
    node: NodeView,
    segments: Seq<Seq<UrlTokenView>>,
    response: ResponseView,
)
    requires
        is_well_formed(node),
    ensures
        is_well_formed(insert_at(node, segments, response)),
    decreases segments.len(),
{
    let after = insert_at(node, segments, response);
    if segments.len() > 0 {
        let rest = segments.drop_first();
        match static_text(segments[0]) {
            Some(key) => {
                lemma_child_from_found(node.children, key, 0);
                match child_index(node.children, key) {
                    Some(at) => {
                        assert(is_well_formed(node.children[at].1));
                        lemma_insert_keeps_well_formed(node.children[at].1, rest, response);
                        assert forall|i: int| 0 <= i < after.children.len() implies is_well_formed(
                            (#[trigger] after.children[i]).1,
                        ) by {
                            if i != at {
                                assert(after.children[i] == node.children[i]);
                            }
                        }
                        assert forall|i: int, j: int|
                            0 <= i < j < after.children.len() implies (
                        #[trigger] after.children[i]).0 != (#[trigger] after.children[j]).0 by {
                            assert(after.children[i].0 == node.children[i].0);
                            assert(after.children[j].0 == node.children[j].0);
                        }
                    },
                    None => {
                        lemma_insert_keeps_well_formed(empty_node(), rest, response);
                        assert forall|i: int| 0 <= i < after.children.len() implies is_well_formed(
                            (#[trigger] after.children[i]).1,
                        ) by {
                            if i < node.children.len() {
                                assert(after.children[i] == node.children[i]);
                            }
                        }
                        assert forall|i: int, j: int|
                            0 <= i < j < after.children.len() implies (
                        #[trigger] after.children[i]).0 != (#[trigger] after.children[j]).0 by {
                            assert(after.children[i] == node.children[i]);
                            if j < node.children.len() {
                                assert(after.children[j] == node.children[j]);
                            }
                        }
                    },
                }
            },
            None => {
                lemma_dyn_from_found(node.dyn_children, segments[0], 0);
                match dyn_index(node.dyn_children, segments[0]) {
                    Some(at) => {
                        assert(is_well_formed(node.dyn_children[at].1));
                        lemma_insert_keeps_well_formed(node.dyn_children[at].1, rest, response);
                        assert forall|j: int| 0 <= j < after.dyn_children.len() implies static_text(
                            (#[trigger] after.dyn_children[j]).0,
                        ) is None by {
                            assert(after.dyn_children[j].0 == node.dyn_children[j].0);
                        }
                        assert forall|i: int|
                            0 <= i < after.dyn_children.len() implies is_well_formed(
                            (#[trigger] after.dyn_children[i]).1,
                        ) by {
                            if i != at {
                                assert(after.dyn_children[i] == node.dyn_children[i]);
                            }
                        }
                        assert forall|i: int, j: int|
                            0 <= i < j < after.dyn_children.len() implies (
                        #[trigger] after.dyn_children[i]).0 != (
                        #[trigger] after.dyn_children[j]).0 by {
                            assert(after.dyn_children[i].0 == node.dyn_children[i].0);
                            assert(after.dyn_children[j].0 == node.dyn_children[j].0);
                        }
                    },
                    None => {
                        lemma_insert_keeps_well_formed(empty_node(), rest, response);
                        assert forall|j: int| 0 <= j < after.dyn_children.len() implies static_text(
                            (#[trigger] after.dyn_children[j]).0,
                        ) is None by {
                            if j < node.dyn_children.len() {
                                assert(after.dyn_children[j] == node.dyn_children[j]);
                            }
                        }
                        assert forall|i: int|
                            0 <= i < after.dyn_children.len() implies is_well_formed(
                            (#[trigger] after.dyn_children[i]).1,
                        ) by {
                            if i < node.dyn_children.len() {
                                assert(after.dyn_children[i] == node.dyn_children[i]);
                            }
                        }
                        assert forall|i: int, j: int|
                            0 <= i < j < after.dyn_children.len() implies (
                        #[trigger] after.dyn_children[i]).0 != (
                        #[trigger] after.dyn_children[j]).0 by {
                            assert(after.dyn_children[i] == node.dyn_children[i]);
                            if j < node.dyn_children.len() {
                                assert(after.dyn_children[j] == node.dyn_children[j]);
                            }
                        }
                    },
                }
            },
        }
    }
}

/// The views of the segments.
pub open spec fn segments_view(segments: Seq<UrlSegment>) -> Seq<Seq<UrlTokenView>> {
    segments.map_values(|s: UrlSegment| s@)
}

/// The views of the path components.
pub open spec fn parts_view(parts: Seq<String>) -> Seq<Seq<char>> {
    parts.map_values(|s: String| s@)
}

pub proof fn lemma_child_from_found(children: Seq<(Seq<char>, NodeView)>, key: Seq<char>, from: int)
    requires
        0 <= from,
    ensures
        match child_from(children, key, from) {
            Some(i) => from <= i < children.len() && children[i].0 == key && forall|k: int|
                from <= k < i ==> (#[trigger] children[k]).0 != key,
            None => forall|k: int| from <= k < children.len() ==> (#[trigger] children[k]).0 != key,
        },
    decreases children.len() - from,
{
    if from < children.len() && children[from].0 != key {
        lemma_child_from_found(children, key, from + 1);
    }
}

pub proof fn lemma_dyn_from_found(
    children: Seq<(Seq<UrlTokenView>, NodeView)>,
    tokens: Seq<UrlTokenView>,
    from: int,
)
    requires
        0 <= from,
    ensures
        match dyn_from(children, tokens, from) {
            Some(i) => from <= i < children.len() && children[i].0 == tokens && forall|k: int|
                from <= k < i ==> (#[trigger] children[k]).0 != tokens,
            None => forall|k: int|
                from <= k < children.len() ==> (#[trigger] children[k]).0 != tokens,
        },
    decreases children.len() - from,
{
    if from < children.len() && children[from].0 != tokens {
        lemma_dyn_from_found(children, tokens, from + 1);
    }
}

/// The first place is determined by what it says: the key stands there and
/// nowhere before.
pub proof fn lemma_child_index_is(children: Seq<(Seq<char>, NodeView)>, key: Seq<char>, i: int)
    requires
        0 <= i < children.len(),
        children[i].0 == key,
        forall|k: int| 0 <= k < i ==> (#[trigger] children[k]).0 != key,
    ensures
        child_index(children, key) == Some(i),
{
    lemma_child_from_found(children, key, 0);
}

pub proof fn lemma_child_index_none(children: Seq<(Seq<char>, NodeView)>, key: Seq<char>)
    requires
        forall|k: int| 0 <= k < children.len() ==> (#[trigger] children[k]).0 != key,
    ensures
        child_index(children, key) is None,
{
    lemma_child_from_found(children, key, 0);
}

pub proof fn lemma_dyn_index_is(
    children: Seq<(Seq<UrlTokenView>, NodeView)>,
    tokens: Seq<UrlTokenView>,
    i: int,
)
    requires
        0 <= i < children.len(),
        children[i].0 == tokens,
        forall|k: int| 0 <= k < i ==> (#[trigger] children[k]).0 != tokens,
    ensures
        dyn_index(children, tokens) == Some(i),
{
    lemma_dyn_from_found(children, tokens, 0);
}

pub proof fn lemma_dyn_index_none(
    children: Seq<(Seq<UrlTokenView>, NodeView)>,
    tokens: Seq<UrlTokenView>,
)
    requires
        forall|k: int| 0 <= k < children.len() ==> (#[trigger] children[k]).0 != tokens,
    ensures
        dyn_index(children, tokens) is None,
{
    lemma_dyn_from_found(children, tokens, 0);
}

impl RouterNode {
    /// A node without children and without a response.
    pub fn new() -> (node: Self)
        ensures
            node@ == empty_node(),
            is_well_formed(node@),
    {
        let node = RouterNode { children: Vec::new(), dyn_children: Vec::new(), response: None };
        assert(node@.children =~= Seq::empty());
        assert(node@.dyn_children =~= Seq::empty());
        node
    }

    /// The place of the static child with the key `key`.
    pub fn child_position(&self, key: &str) -> (r: Option<usize>)
        ensures
            match r {
                Some(i) => child_index(self@.children, key@) == Some(i as int) && i
                    < self.children.len(),
                None => child_index(self@.children, key@) is None,
            },
    {
        let mut i: usize = 0;
        while i < self.children.len()
            invariant
                i <= self.children.len(),
                forall|k: int| 0 <= k < i ==> (#[trigger] self@.children[k]).0 != key@,
            decreases self.children.len() - i,
        {
            if self.children[i].0.as_str().eq(key) {
                proof {
                    assert(self@.children[i as int].0 == key@);
                    lemma_child_index_is(self@.children, key@, i as int);
                }
                return Some(i);
            }
            assert(self@.children[i as int].0 != key@);
            i += 1;
        }
        proof {
            lemma_child_index_none(self@.children, key@);
        }
        None
    }

    /// The place of the dynamic child with the segment `segment`.
    pub fn dyn_position(&self, segment: &UrlSegment) -> (r: Option<usize>)
        ensures
            match r {
                Some(i) => dyn_index(self@.dyn_children, segment@) == Some(i as int) && i
                    < self.dyn_children.len(),
                None => dyn_index(self@.dyn_children, segment@) is None,
            },
    {
        let mut i: usize = 0;
        while i < self.dyn_children.len()
            invariant
                i <= self.dyn_children.len(),
                forall|k: int| 0 <= k < i ==> (#[trigger] self@.dyn_children[k]).0 != segment@,
            decreases self.dyn_children.len() - i,
        {
            if self.dyn_children[i].0.same(segment) {
                proof {
                    assert(self@.dyn_children[i as int].0 == segment@);
                    lemma_dyn_index_is(self@.dyn_children, segment@, i as int);
                }
                return Some(i);
            }
            assert(self@.dyn_children[i as int].0 != segment@);
            i += 1;
        }
        proof {
            lemma_dyn_index_none(self@.dyn_children, segment@);
        }
        None
    }

    /// Gives the route of the pattern that `url` is about to read, seen from
    /// this node, the response `res`. A pattern with a syntax error leaves
    /// the tree as it is.
    pub fn insert(&mut self, url: UrlParser, res: Response) -> (r: Result<(), UrlError>)
        ensures
            match segments_left(url@.chars, url@.at) {
                Err(e) => r matches Err(x) && x@ == e && final(self)@ == old(self)@,
                Ok(segments) => r is Ok && final(self)@ == insert_at(old(self)@, segments, res@),
            },
            is_well_formed(old(self)@) ==> is_well_formed(final(self)@),
    {
        let mut parser = url;
        match parser.rest() {
            Ok(segments) => {
                assert(segments_view(segments@).skip(0) =~= segments_view(segments@));
                self.insert_segments(&segments, 0, res);
                Ok(())
            },
            Err(e) => Err(e),
        }
    }

    /// Finds the response of the route that the path components `parts`
    /// lead to from this node, and binds the variables of the dynamic
    /// segments that were tried.
    pub fn find<'a>(&'a self, parts: &Vec<String>, vars: &mut UrlVars) -> (r: Option<&'a Response>)
        ensures
            final(vars)@ == find_in(self@, parts_view(parts@), old(vars)@).vars,
            match r {
                Some(response) => find_in(self@, parts_view(parts@), old(vars)@).response == Some(
                    response@,
                ),
                None => find_in(self@, parts_view(parts@), old(vars)@).response is None,
            },
    {
        let ghost all = parts_view(parts@);
        let ghost goal = find_in(self@, all, old(vars)@);
        let mut node: &RouterNode = self;
        let mut k: usize = 0;
        assert(all.skip(0) =~= all);
        while k < parts.len()
            invariant
                k <= parts.len(),
                all == parts_view(parts@),
                goal == find_in(self@, all, old(vars)@),
                goal == find_in(node@, all.skip(k as int), vars@),
            decreases parts.len() - k,
        {
            let ghost todo = all.skip(k as int);
            proof {
                assert(todo[0] == parts[k as int]@);
                assert(todo.drop_first() =~= all.skip(k + 1));
            }
            match node.child_position(parts[k].as_str()) {
                Some(i) => {
                    node = &node.children[i].1;
                },
                None => {
                    let chars = to_chars(parts[k].as_str());
                    let ghost first = vars@;
                    let mut chosen: Option<usize> = None;
                    let mut j: usize = 0;
                    while j < node.dyn_children.len() && chosen.is_none()
                        invariant
                            j <= node.dyn_children.len(),
                            todo.len() > 0,
                            chars@ == todo[0],
                            chosen is None ==> find_dyn(node@, 0, todo, first) == find_dyn(
                                node@,
                                j as int,
                                todo,
                                vars@,
                            ),
                            chosen matches Some(c) ==> c < node.dyn_children.len() && find_dyn(
                                node@,
                                0,
                                todo,
                                first,
                            ) == find_in(node@.dyn_children[c as int].1, todo.drop_first(), vars@),
                        decreases node.dyn_children.len() - j, (if chosen is None { 1int } else { 0int }),
                    {
                        assert(node@.dyn_children[j as int].0 == node.dyn_children[j as int].0@);
                        if node.dyn_children[j].0.matches_inner(&chars, vars) {
                            chosen = Some(j);
                        } else {
                            j += 1;
                        }
                    }
                    match chosen {
                        Some(c) => {
                            node = &node.dyn_children[c].1;
                        },
                        None => {
                            return None;
                        },
                    }
                },
            }
            k += 1;
        }
        match &node.response {
            Some(response) => Some(response),
            None => None,
        }
    }

    /// Gives the route of the segments `segments[from..]`, seen from this
    /// node, the response `res`.
    pub fn insert_segments(&mut self, segments: &Vec<UrlSegment>, from: usize, res: Response)
        requires
            from <= segments.len(),
        ensures
            final(self)@ == insert_at(
                old(self)@,
                segments_view(segments@).skip(from as int),
                res@,
            ),
            is_well_formed(old(self)@) ==> is_well_formed(final(self)@),
        decreases segments.len() - from,
    {
        let ghost todo = segments_view(segments@).skip(from as int);
        proof {
            if is_well_formed(self@) {
                lemma_insert_keeps_well_formed(self@, todo, res@);
            }
        }
        if from >= segments.len() {
            self.response = Some(res);
            proof {
                assert(self@.children =~= old(self)@.children);
                assert(self@.dyn_children =~= old(self)@.dyn_children);
            }
            return ;
        }
        let segment = &segments[from];
        proof {
            assert(todo[0] == segment@);
            assert(todo.drop_first() =~= segments_view(segments@).skip(from + 1));
        }
        match segment.get_static() {
            Some(key) => {
                match self.child_position(key.as_str()) {
                    Some(i) => {
                        let ghost before = self.children[i as int].1@;
                        proof {
                            lemma_child_from_found(self@.children, key@, 0);
                            assert(self@.children[i as int].0 == key@);
                        }
                        self.children[i].1.insert_segments(segments, from + 1, res);
                        proof {
                            assert(self.children@.len() == old(self).children@.len());
                            assert(self.children@[i as int].0 == old(self).children@[i as int].0);
                            assert(self.children@[i as int].1@ == insert_at(
                                before,
                                todo.drop_first(),
                                res@,
                            ));
                            assert(self@.dyn_children =~= old(self)@.dyn_children);
                            assert(self@.children =~= old(self)@.children.update(
                                i as int,
                                (key@, insert_at(before, todo.drop_first(), res@)),
                            ));
                        }
                    },
                    None => {
                        let mut node = RouterNode::new();
                        node.insert_segments(segments, from + 1, res);
                        self.children.push((key, node));
                        proof {
                            assert(self@.dyn_children =~= old(self)@.dyn_children);
                            assert(self@.children =~= old(self)@.children.push(
                                (key@, insert_at(empty_node(), todo.drop_first(), res@)),
                            ));
                        }
                    },
                }
            },
            None => {
                match self.dyn_position(segment) {
                    Some(j) => {
                        let ghost before = self.dyn_children[j as int].1@;
                        proof {
                            lemma_dyn_from_found(self@.dyn_children, segment@, 0);
                            assert(self@.dyn_children[j as int].0 == segment@);
                        }
                        self.dyn_children[j].1.insert_segments(segments, from + 1, res);
                        proof {
                            assert(self.dyn_children@.len() == old(self).dyn_children@.len());
                            assert(self.dyn_children@[j as int].0 == old(self).dyn_children@[j as int].0);
                            assert(self.dyn_children@[j as int].1@ == insert_at(
                                before,
                                todo.drop_first(),
                                res@,
                            ));
                            assert(self@.children =~= old(self)@.children);
                            assert(self@.dyn_children =~= old(self)@.dyn_children.update(
                                j as int,
                                (segment@, insert_at(before, todo.drop_first(), res@)),
                            ));
                        }
                    },
                    None => {
                        let mut node = RouterNode::new();
                        node.insert_segments(segments, from + 1, res);
                        self.dyn_children.push((segment.duplicate(), node));
                        proof {
                            assert(self@.children =~= old(self)@.children);
                            assert(self@.dyn_children =~= old(self)@.dyn_children.push(
                                (segment@, insert_at(empty_node(), todo.drop_first(), res@)),
                            ));
                        }
                    },
                }
            },
        }
    }
}

} // verus!
