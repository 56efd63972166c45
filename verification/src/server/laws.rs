//! What holds of inserting routes and of looking them up.
use crate::server::router::{
    empty_router, lemma_root_from_found, path_parts, root_index,
    route_segments, RouterView,
};
use crate::server::router_node::{
    child_index, dyn_index, empty_node, find_dyn, find_in, insert_at, lemma_child_from_found,
    lemma_child_index_is, lemma_dyn_from_found, lemma_dyn_index_is, Found, NodeView,
};
use crate::server::url::parser::{
    flush, lemma_var_at_bounds, parse_pattern, segment_from, segments_from, unescaped, var_at,
};
use crate::server::url::segment::{has_variable, literal_text, static_text};
use crate::server::url::token::UrlTokenView;
use crate::server::url::var::UrlVarView;
use crate::specs::body::body::BodyView;
use crate::specs::method::Method;
use crate::specs::response::ResponseView;
use crate::specs::spec::SpecView;
use crate::text::{
    join, lemma_join_of_split, lemma_split_from_nonempty, lemma_split_shift, lemma_split_skip,
    split, split_from,
};
use vstd::prelude::*;

verus! {

/// Whether every segment is made of one static token.
pub open spec fn is_static_route(segments: Seq<Seq<UrlTokenView>>) -> bool {
    forall|i: int| 0 <= i < segments.len() ==> static_text(#[trigger] segments[i]) is Some
}

/// The texts of the segments of a static route.
pub open spec fn route_keys(segments: Seq<Seq<UrlTokenView>>) -> Seq<Seq<char>> {
    Seq::new(segments.len(), |i: int| static_text(segments[i])->0)
}

proof fn lemma_child_index_after_update(
    children: Seq<(Seq<char>, NodeView)>,
    key: Seq<char>,
    i: int,
    node: NodeView,
)
    requires
        child_index(children, key) == Some(i),
    ensures
        0 <= i < children.len(),
        child_index(children.update(i, (key, node)), key) == Some(i),
{
    lemma_child_from_found(children, key, 0);
    lemma_child_index_is(children.update(i, (key, node)), key, i);
}

proof fn lemma_child_index_after_push(
    children: Seq<(Seq<char>, NodeView)>,
    key: Seq<char>,
    node: NodeView,
)
    requires
        child_index(children, key) is None,
    ensures
        child_index(children.push((key, node)), key) == Some(children.len() as int),
{
    lemma_child_from_found(children, key, 0);
    lemma_child_index_is(children.push((key, node)), key, children.len() as int);
}

proof fn lemma_dyn_index_after_update(
    children: Seq<(Seq<UrlTokenView>, NodeView)>,
    tokens: Seq<UrlTokenView>,
    i: int,
    node: NodeView,
)
    requires
        dyn_index(children, tokens) == Some(i),
    ensures
        0 <= i < children.len(),
        dyn_index(children.update(i, (tokens, node)), tokens) == Some(i),
{
    lemma_dyn_from_found(children, tokens, 0);
    lemma_dyn_index_is(children.update(i, (tokens, node)), tokens, i);
}

proof fn lemma_dyn_index_after_push(
    children: Seq<(Seq<UrlTokenView>, NodeView)>,
    tokens: Seq<UrlTokenView>,
    node: NodeView,
)
    requires
        dyn_index(children, tokens) is None,
    ensures
        dyn_index(children.push((tokens, node)), tokens) == Some(children.len() as int),
{
    lemma_dyn_from_found(children, tokens, 0);
    lemma_dyn_index_is(children.push((tokens, node)), tokens, children.len() as int);
}

/// Of two insertions of the same segments into a tree only the response of
/// the later one is kept: the tree is the one that the later insertion alone
/// gives.
pub proof fn node_insert_twice_keeps_the_later(
    node: NodeView,
    segments: Seq<Seq<UrlTokenView>>,
    first: ResponseView,
    second: ResponseView,
)
    ensures
        insert_at(insert_at(node, segments, first), segments, second) == insert_at(
            node,
            segments,
            second,
        ),
    decreases segments.len(),
{
    if segments.len() > 0 {
        let rest = segments.drop_first();
        match static_text(segments[0]) {
            Some(key) => match child_index(node.children, key) {
                Some(i) => {
                    let child = node.children[i].1;
                    lemma_child_index_after_update(
                        node.children,
                        key,
                        i,
                        insert_at(child, rest, first),
                    );
                    node_insert_twice_keeps_the_later(child, rest, first, second);
                    let once = node.children.update(i, (key, insert_at(child, rest, first)));
                    assert(once.update(i, (key, insert_at(once[i].1, rest, second)))
                        =~= node.children.update(i, (key, insert_at(child, rest, second))));
                },
                None => {
                    let child = insert_at(empty_node(), rest, first);
                    lemma_child_index_after_push(node.children, key, child);
                    node_insert_twice_keeps_the_later(empty_node(), rest, first, second);
                    let once = node.children.push((key, child));
                    let n = node.children.len() as int;
                    assert(once.update(n, (key, insert_at(once[n].1, rest, second)))
                        =~= node.children.push((key, insert_at(empty_node(), rest, second))));
                },
            },
            None => match dyn_index(node.dyn_children, segments[0]) {
                Some(j) => {
                    let child = node.dyn_children[j].1;
                    lemma_dyn_index_after_update(
                        node.dyn_children,
                        segments[0],
                        j,
                        insert_at(child, rest, first),
                    );
                    node_insert_twice_keeps_the_later(child, rest, first, second);
                    let once = node.dyn_children.update(
                        j,
                        (segments[0], insert_at(child, rest, first)),
                    );
                    assert(once.update(j, (segments[0], insert_at(once[j].1, rest, second)))
                        =~= node.dyn_children.update(
                        j,
                        (segments[0], insert_at(child, rest, second)),
                    ));
                },
                None => {
                    let child = insert_at(empty_node(), rest, first);
                    lemma_dyn_index_after_push(node.dyn_children, segments[0], child);
                    node_insert_twice_keeps_the_later(empty_node(), rest, first, second);
                    let once = node.dyn_children.push((segments[0], child));
                    let n = node.dyn_children.len() as int;
                    assert(once.update(n, (segments[0], insert_at(once[n].1, rest, second)))
                        =~= node.dyn_children.push(
                        (segments[0], insert_at(empty_node(), rest, second)),
                    ));
                },
            },
        }
    }
}

/// The tree of a method after it was replaced is the tree it was replaced
/// by, and replacing it again undoes the first replacement.
pub proof fn lemma_with_root(router: RouterView, method: Method, a: NodeView, b: NodeView)
    ensures
        router.with_root(method, a).root(method) == a,
        router.with_root(method, a).with_root(method, b) == router.with_root(method, b),
        router.with_root(method, a).templates == router.templates,
        router.with_root(method, a).not_found == router.not_found,
{
    lemma_root_from_found(router.roots, method, 0);
    match root_index(router.roots, method) {
        Some(i) => {
            let once = router.roots.update(i, (method, a));
            assert forall|k: int| 0 <= k < i implies (#[trigger] once[k]).0 != method by {
                assert(once[k] == router.roots[k]);
            }
            lemma_root_from_found(once, method, 0);
            assert(once[i].0 == method);
            assert(root_index(once, method) == Some(i));
            assert(once.update(i, (method, b)) =~= router.roots.update(i, (method, b)));
        },
        None => {
            let once = router.roots.push((method, a));
            let n = router.roots.len() as int;
            assert forall|k: int| 0 <= k < n implies (#[trigger] once[k]).0 != method by {
                assert(once[k] == router.roots[k]);
            }
            lemma_root_from_found(once, method, 0);
            assert(once[n].0 == method);
            assert(root_index(once, method) == Some(n));
            assert(once.update(n, (method, b)) =~= router.roots.push((method, b)));
        },
    }
}

/// Of two routes with the same method and the same pattern only the
/// response of the later one is kept: the router after both insertions is
/// the router after the later one alone.
pub proof fn insert_twice_keeps_the_later(router: RouterView, first: SpecView, second: SpecView)
    requires
        first.method == second.method,
        first.url == second.url,
    ensures
        router.insert(first) matches Ok(after) ==> after.insert(second) == router.insert(second),
        router.insert(first) is Err ==> router.insert(second) == router.insert(first),
{
    if let Ok(segments) = parse_pattern(first.url) {
        let method = first.method;
        let route = route_segments(segments);
        let root = router.root(method);
        let once = insert_at(root, route, first.response);
        lemma_with_root(router, method, once, insert_at(once, route, second.response));
        node_insert_twice_keeps_the_later(root, route, first.response, second.response);
    }
}

/// A path component that is the key of a static child goes to that child,
/// whatever dynamic children there are, and binds no variable on the way.
pub proof fn static_child_is_taken(
    node: NodeView,
    parts: Seq<Seq<char>>,
    vars: Map<Seq<char>, UrlVarView>,
)
    requires
        parts.len() > 0,
        child_index(node.children, parts[0]) is Some,
    ensures
        find_in(node, parts, vars) == find_in(
            node.children[child_index(node.children, parts[0])->0].1,
            parts.drop_first(),
            vars,
        ),
{
}

/// Where a static route of one segment and a dynamic route of one segment
/// were inserted below the same node, in either order, the text of the static
/// segment finds the response of the static route and binds no variable.
pub proof fn static_route_wins_over_dynamic(
    node: NodeView,
    fixed: Seq<UrlTokenView>,
    dynamic: Seq<UrlTokenView>,
    fixed_response: ResponseView,
    dynamic_response: ResponseView,
    vars: Map<Seq<char>, UrlVarView>,
)
    requires
        static_text(fixed) is Some,
        static_text(dynamic) is None,
    ensures
        find_in(
            insert_at(insert_at(node, seq![fixed], fixed_response), seq![dynamic], dynamic_response),
            seq![static_text(fixed)->0],
            vars,
        ) == (Found { response: Some(fixed_response), vars }),
        find_in(
            insert_at(insert_at(node, seq![dynamic], dynamic_response), seq![fixed], fixed_response),
            seq![static_text(fixed)->0],
            vars,
        ) == (Found { response: Some(fixed_response), vars }),
{
    let key = static_text(fixed)->0;
    let none = Seq::<Seq<UrlTokenView>>::empty();
    let no_parts = Seq::<Seq<char>>::empty();
    assert(seq![fixed].drop_first() =~= none);
    assert(seq![dynamic].drop_first() =~= none);
    assert(seq![key].drop_first() =~= no_parts);
    // The static route first.
    let with_fixed = insert_at(node, seq![fixed], fixed_response);
    lemma_fixed_child(node, fixed, fixed_response);
    let both = insert_at(with_fixed, seq![dynamic], dynamic_response);
    assert(both.children == with_fixed.children);
    let i = child_index(both.children, key)->0;
    assert(seq![key][0] == key);
    assert(find_in(both, seq![key], vars) == find_in(both.children[i].1, no_parts, vars));
    // The dynamic route first.
    let with_dynamic = insert_at(node, seq![dynamic], dynamic_response);
    assert(with_dynamic.children == node.children);
    lemma_fixed_child(with_dynamic, fixed, fixed_response);
    let other = insert_at(with_dynamic, seq![fixed], fixed_response);
    let j = child_index(other.children, key)->0;
    assert(find_in(other, seq![key], vars) == find_in(other.children[j].1, no_parts, vars));
}

/// After a static route of one segment was inserted below a node, the text
/// of the segment is the key of a child with the response of the route.
proof fn lemma_fixed_child(node: NodeView, fixed: Seq<UrlTokenView>, response: ResponseView)
    requires
        static_text(fixed) is Some,
    ensures
        ({
            let after = insert_at(node, seq![fixed], response);
            let key = static_text(fixed)->0;
            &&& child_index(after.children, key) matches Some(i)
            &&& 0 <= i < after.children.len()
            &&& after.children[i].1.response == Some(response)
        }),
{
    let key = static_text(fixed)->0;
    let none = Seq::<Seq<UrlTokenView>>::empty();
    assert(seq![fixed].drop_first() =~= none);
    match child_index(node.children, key) {
        Some(i) => {
            lemma_child_index_after_update(
                node.children,
                key,
                i,
                insert_at(node.children[i].1, none, response),
            );
        },
        None => {
            lemma_child_index_after_push(node.children, key, insert_at(empty_node(), none, response));
        },
    }
}

/// After a static route was inserted below a node, the texts of its
/// segments find its response and bind no variable, whatever else the tree
/// holds.
pub proof fn static_route_is_found(
    node: NodeView,
    segments: Seq<Seq<UrlTokenView>>,
    response: ResponseView,
    vars: Map<Seq<char>, UrlVarView>,
)
    requires
        is_static_route(segments),
    ensures
        find_in(insert_at(node, segments, response), route_keys(segments), vars) == (Found {
            response: Some(response),
            vars,
        }),
    decreases segments.len(),
{
    let keys = route_keys(segments);
    if segments.len() > 0 {
        let rest = segments.drop_first();
        let key = static_text(segments[0])->0;
        assert(keys[0] == key);
        assert(keys.drop_first() =~= route_keys(rest));
        assert(is_static_route(rest)) by {
            assert forall|i: int| 0 <= i < rest.len() implies static_text(
                #[trigger] rest[i],
            ) is Some by {
                assert(rest[i] == segments[i + 1]);
            }
        }
        match child_index(node.children, key) {
            Some(i) => {
                let child = node.children[i].1;
                lemma_child_index_after_update(node.children, key, i, insert_at(child, rest, response));
                static_route_is_found(child, rest, response, vars);
            },
            None => {
                lemma_child_index_after_push(
                    node.children,
                    key,
                    insert_at(empty_node(), rest, response),
                );
                static_route_is_found(empty_node(), rest, response, vars);
            },
        }
    }
}

/// In the tree that holds one static route and nothing else, a path finds
/// a response just when its components are the texts of the segments of the
/// route; no variable is bound either way.
pub proof fn lone_static_route_matches_itself_only(
    segments: Seq<Seq<UrlTokenView>>,
    response: ResponseView,
    parts: Seq<Seq<char>>,
    vars: Map<Seq<char>, UrlVarView>,
)
    requires
        is_static_route(segments),
    ensures
        find_in(insert_at(empty_node(), segments, response), parts, vars).response is Some
            <==> parts == route_keys(segments),
        find_in(insert_at(empty_node(), segments, response), parts, vars).vars == vars,
    decreases segments.len(),
{
    let keys = route_keys(segments);
    let tree = insert_at(empty_node(), segments, response);
    if segments.len() == 0 {
        if parts.len() > 0 {
            assert(child_index(tree.children, parts[0]) is None);
            assert(find_dyn(tree, 0, parts, vars) == (Found { response: None, vars }));
        } else {
            assert(parts =~= keys);
        }
    } else {
        let rest = segments.drop_first();
        let key = static_text(segments[0])->0;
        let child = insert_at(empty_node(), rest, response);
        assert(keys[0] == key);
        assert(keys.drop_first() =~= route_keys(rest));
        assert(is_static_route(rest)) by {
            assert forall|i: int| 0 <= i < rest.len() implies static_text(
                #[trigger] rest[i],
            ) is Some by {
                assert(rest[i] == segments[i + 1]);
            }
        }
        assert(child_index(empty_node().children, key) is None);
        assert(tree.children =~= seq![(key, child)]);
        assert(tree.dyn_children =~= Seq::empty());
        if parts.len() > 0 {
            lemma_child_from_found(tree.children, parts[0], 0);
            if parts[0] == key {
                assert(child_index(tree.children, parts[0]) == Some(0int));
                lone_static_route_matches_itself_only(rest, response, parts.drop_first(), vars);
                if parts.drop_first() == keys.drop_first() {
                    assert(parts.len() == keys.len()) by {
                        assert(parts.drop_first().len() == parts.len() - 1);
                        assert(keys.drop_first().len() == keys.len() - 1);
                    }
                    assert forall|i: int| 0 <= i < parts.len() implies parts[i] == keys[i] by {
                        if i > 0 {
                            assert(parts[i] == parts.drop_first()[i - 1]);
                            assert(keys[i] == keys.drop_first()[i - 1]);
                        }
                    }
                    assert(parts =~= keys);
                }
            } else {
                assert(child_index(tree.children, parts[0]) is None);
                assert(find_dyn(tree, 0, parts, vars) == (Found { response: None, vars }));
            }
        }
    }
}

/// The path that leads through the given keys: each key after a `/`.
pub open spec fn route_path(keys: Seq<Seq<char>>) -> Seq<char>
    decreases keys.len(),
{
    if keys.len() == 0 {
        Seq::empty()
    } else {
        seq!['/'] + keys[0] + route_path(keys.drop_first())
    }
}

/// Whether the text holds no `/`.
pub open spec fn is_one_part(text: Seq<char>) -> bool {
    forall|j: int| 0 <= j < text.len() ==> #[trigger] text[j] != '/'
}

/// Whether none of the keys holds a `/`.
pub open spec fn are_parts(keys: Seq<Seq<char>>) -> bool {
    forall|i: int| 0 <= i < keys.len() ==> is_one_part(#[trigger] keys[i])
}

proof fn lemma_join_route(first: Seq<char>, keys: Seq<Seq<char>>)
    ensures
        join(seq![first] + keys, '/') == first + route_path(keys),
    decreases keys.len(),
{
    let all = seq![first] + keys;
    assert(all[0] == first);
    if keys.len() == 0 {
        assert(first + route_path(keys) =~= first);
    } else {
        assert(all.drop_first() =~= keys);
        assert(keys =~= seq![keys[0]] + keys.drop_first());
        lemma_join_route(keys[0], keys.drop_first());
        assert(first + seq!['/'] + (keys[0] + route_path(keys.drop_first())) =~= first + (seq!['/']
            + keys[0] + route_path(keys.drop_first())));
    }
}

proof fn lemma_split_route(first: Seq<char>, keys: Seq<Seq<char>>)
    requires
        is_one_part(first),
        are_parts(keys),
    ensures
        split(first + route_path(keys), '/') == seq![first] + keys,
    decreases keys.len(),
{
    let s = first + route_path(keys);
    let n = first.len() as int;
    assert forall|k: int| 0 <= k < n implies #[trigger] s[k] != '/' by {
        assert(s[k] == first[k]);
    }
    lemma_split_skip(s, '/', 0, 0, n);
    if keys.len() == 0 {
        assert(s =~= first);
        assert(s.subrange(0, s.len() as int) =~= first);
        assert(seq![first] + keys =~= seq![first]);
    } else {
        let rest = keys[0] + route_path(keys.drop_first());
        assert(s =~= first + seq!['/'] + rest);
        assert(s[n] == '/');
        assert(s.subrange(0, n) =~= first);
        assert(s.subrange(n + 1, s.len() as int) =~= rest);
        lemma_split_shift(s, '/', n + 1, n + 1, n + 1);
        assert(is_one_part(keys[0]));
        assert(are_parts(keys.drop_first())) by {
            assert forall|i: int| 0 <= i < keys.drop_first().len() implies is_one_part(
                #[trigger] keys.drop_first()[i],
            ) by {
                assert(keys.drop_first()[i] == keys[i + 1]);
            }
        }
        lemma_split_route(keys[0], keys.drop_first());
        assert(seq![keys[0]] + keys.drop_first() =~= keys);
    }
}

/// The components of the path that leads through the keys are the keys.
pub proof fn lemma_parts_of_route_path(keys: Seq<Seq<char>>)
    requires
        are_parts(keys),
    ensures
        path_parts(route_path(keys)) == keys,
{
    let first = Seq::<char>::empty();
    lemma_split_route(first, keys);
    assert(first + route_path(keys) =~= route_path(keys));
    assert((seq![first] + keys).drop_first() =~= keys);
}

/// A path that is empty or starts with `/` is the path that leads through
/// its components.
pub proof fn lemma_route_path_of_parts(path: Seq<char>)
    requires
        path.len() == 0 || path[0] == '/',
    ensures
        path == route_path(path_parts(path)),
{
    let all = split(path, '/');
    lemma_split_from_nonempty(path, '/', 0, 0);
    lemma_join_of_split(path, '/', 0, 0);
    assert(path.subrange(0, path.len() as int) =~= path);
    let first = all[0];
    assert(first =~= Seq::<char>::empty()) by {
        if path.len() > 0 {
            assert(path.subrange(0, 0) =~= Seq::<char>::empty());
            lemma_split_from_nonempty(path, '/', 1, 1);
        } else {
            assert(path.subrange(0, 0) =~= Seq::<char>::empty());
        }
    }
    assert(all =~= seq![first] + all.drop_first());
    lemma_join_route(first, all.drop_first());
    assert(first + route_path(all.drop_first()) =~= route_path(all.drop_first()));
}

/// The tokens that a segment starts with are tokens of the whole segment.
proof fn lemma_segment_keeps_tokens(
    s: Seq<char>,
    pos: int,
    tokens: Seq<UrlTokenView>,
    text: Seq<char>,
)
    requires
        0 <= pos <= s.len(),
    ensures
        segment_from(s, pos, tokens, text) matches Ok((all, _)) ==> tokens.len() <= all.len()
            && forall|i: int| 0 <= i < tokens.len() ==> all[i] == tokens[i],
    decreases s.len() - pos,
{
    if pos < s.len() {
        if s[pos] == '{' {
            lemma_var_at_bounds(s, pos);
            if let Ok((token, close)) = var_at(s, pos) {
                lemma_segment_keeps_tokens(
                    s,
                    close + 1,
                    flush(tokens, text).push(token),
                    Seq::empty(),
                );
            }
        } else if s[pos] == '/' {
        } else if s[pos] == '\\' {
            if pos + 1 < s.len() {
                lemma_segment_keeps_tokens(s, pos + 2, tokens, text.push(s[pos + 1]));
            }
        } else {
            lemma_segment_keeps_tokens(s, pos + 1, tokens, text.push(s[pos]));
        }
    }
}

/// The tokens that a literal text alone gives are a static segment with that
/// text.
proof fn lemma_static_text_of_flush(text: Seq<char>)
    ensures
        static_text(flush(Seq::empty(), text)) == Some(text),
{
    let tokens = flush(Seq::<UrlTokenView>::empty(), text);
    if text.len() == 0 {
        assert(literal_text(tokens, 0) =~= text);
    } else {
        assert(tokens[0] == UrlTokenView::Static(text));
        assert(literal_text(tokens, 0) =~= Seq::<char>::empty());
        assert(literal_text(tokens, 1) =~= text);
    }
}

/// The text of a static segment is what stands in the pattern up to the `/`
/// that ends the segment, with the escapes resolved.
proof fn lemma_literal_segment(s: Seq<char>, pos: int, text: Seq<char>)
    requires
        0 <= pos <= s.len(),
        segment_from(s, pos, Seq::empty(), text) matches Ok((tokens, _)) && static_text(tokens)
            is Some,
    ensures
        ({
            let found = segment_from(s, pos, Seq::empty(), text)->Ok_0;
            let key = static_text(found.0)->0;
            match found.1 {
                Some(next) => pos < next <= s.len() && text + unescaped(s, pos) == key + seq!['/']
                    + unescaped(s, next),
                None => text + unescaped(s, pos) == key,
            }
        }),
    decreases s.len() - pos,
{
    let none = Seq::<UrlTokenView>::empty();
    let found = segment_from(s, pos, none, text)->Ok_0;
    let tokens = found.0;
    if pos >= s.len() {
        lemma_static_text_of_flush(text);
        assert(text + unescaped(s, pos) =~= text);
    } else if s[pos] == '{' {
        lemma_var_at_bounds(s, pos);
        let token = var_at(s, pos)->Ok_0.0;
        let close = var_at(s, pos)->Ok_0.1;
        let started = flush(none, text).push(token);
        lemma_segment_keeps_tokens(s, close + 1, started, Seq::empty());
        assert(token is Var);
        assert(tokens[started.len() - 1] == started[started.len() - 1]);
        assert(has_variable(tokens));
    } else if s[pos] == '/' {
        lemma_static_text_of_flush(text);
        assert(text + unescaped(s, pos) =~= text + seq!['/'] + unescaped(s, pos + 1));
    } else if s[pos] == '\\' {
        let c = s[pos + 1];
        lemma_literal_segment(s, pos + 2, text.push(c));
        assert(text.push(c) + unescaped(s, pos + 2) =~= text + unescaped(s, pos));
    } else {
        let c = s[pos];
        lemma_literal_segment(s, pos + 1, text.push(c));
        assert(text.push(c) + unescaped(s, pos + 1) =~= text + unescaped(s, pos));
    }
}

/// The texts of the segments of a static pattern, with a `/` between them,
/// are the pattern with its escapes resolved.
proof fn lemma_static_segments(s: Seq<char>, pos: int)
    requires
        0 <= pos <= s.len(),
        segments_from(s, pos) matches Ok(segments) && is_static_route(segments),
    ensures
        segments_from(s, pos)->Ok_0.len() >= 1,
        unescaped(s, pos) == join(route_keys(segments_from(s, pos)->Ok_0), '/'),
    decreases s.len() - pos,
{
    let segments = segments_from(s, pos)->Ok_0;
    let keys = route_keys(segments);
    let none = Seq::<UrlTokenView>::empty();
    let found = segment_from(s, pos, none, Seq::empty())->Ok_0;
    let tokens = found.0;
    assert(segments[0] == tokens);
    assert(static_text(segments[0]) is Some);
    assert(keys[0] == static_text(tokens)->0);
    lemma_literal_segment(s, pos, Seq::empty());
    assert(Seq::<char>::empty() + unescaped(s, pos) =~= unescaped(s, pos));
    match found.1 {
        Some(next) => {
            let rest = segments_from(s, next)->Ok_0;
            assert(segments =~= seq![tokens] + rest);
            assert(segments.drop_first() =~= rest);
            assert(is_static_route(rest)) by {
                assert forall|i: int| 0 <= i < rest.len() implies static_text(
                    #[trigger] rest[i],
                ) is Some by {
                    assert(rest[i] == segments[i + 1]);
                }
            }
            lemma_static_segments(s, next);
            assert(keys.drop_first() =~= route_keys(rest));
        },
        None => {
            assert(segments =~= seq![tokens]);
        },
    }
}

/// The path that leads through the texts of the segments of a static
/// pattern that starts with a `/` is the pattern itself with its escapes
/// resolved.
pub proof fn static_pattern_is_its_own_path(url: Seq<char>)
    requires
        parse_pattern(url) matches Ok(segments) && is_static_route(route_segments(segments)),
        url.len() > 0,
        url[0] == '/',
    ensures
        route_path(route_keys(route_segments(parse_pattern(url)->Ok_0))) == unescaped(url, 0),
{
    let segments = parse_pattern(url)->Ok_0;
    let route = route_segments(segments);
    let keys = route_keys(route);
    let none = Seq::<UrlTokenView>::empty();
    let rest = segments_from(url, 1)->Ok_0;
    assert(segments =~= seq![none] + rest);
    assert(route =~= rest);
    lemma_static_segments(url, 1);
    lemma_join_route(Seq::empty(), keys);
    let all = seq![Seq::<char>::empty()] + keys;
    assert(all.drop_first() =~= keys);
    assert(all[0] =~= Seq::<char>::empty());
    assert(Seq::<char>::empty() + seq!['/'] + join(keys, '/') =~= seq!['/'] + unescaped(url, 1));
    assert(Seq::<char>::empty() + route_path(keys) =~= route_path(keys));
}

/// After a route whose segments all are static was inserted into a router,
/// the path that leads through the texts of the segments finds the response
/// of the route and binds no variable, whatever else the router holds.
pub proof fn static_pattern_is_found(
    router: RouterView,
    spec: SpecView,
    vars: Map<Seq<char>, UrlVarView>,
)
    requires
        parse_pattern(spec.url) matches Ok(segments) && is_static_route(route_segments(segments))
            && are_parts(route_keys(route_segments(segments))),
    ensures
        router.insert(spec) matches Ok(after) && after.find(
            spec.method,
            route_path(route_keys(route_segments(parse_pattern(spec.url)->Ok_0))),
            vars,
        ) == (Found { response: Some(spec.response), vars }),
{
    let route = route_segments(parse_pattern(spec.url)->Ok_0);
    let keys = route_keys(route);
    let root = router.root(spec.method);
    let grown = insert_at(root, route, spec.response);
    lemma_with_root(router, spec.method, grown, grown);
    lemma_parts_of_route_path(keys);
    static_route_is_found(root, route, spec.response, vars);
}

/// In the router that holds one route, whose segments all are static, a
/// request of the method of the route finds a response just when its path is
/// the path that leads through the texts of the segments: each text after a
/// `/`, character for character. No variable is bound either way.
pub proof fn lone_static_pattern_matches_its_path_only(
    templates: Map<Seq<char>, BodyView>,
    spec: SpecView,
    path: Seq<char>,
    vars: Map<Seq<char>, UrlVarView>,
)
    requires
        parse_pattern(spec.url) matches Ok(segments) && is_static_route(route_segments(segments))
            && are_parts(route_keys(route_segments(segments))),
        path.len() == 0 || path[0] == '/',
    ensures
        empty_router(templates).insert(spec) matches Ok(router) && {
            &&& router.find(spec.method, path, vars).response is Some <==> path == route_path(
                route_keys(route_segments(parse_pattern(spec.url)->Ok_0)),
            )
            &&& router.find(spec.method, path, vars).response is Some ==> router.find(
                spec.method,
                path,
                vars,
            ).response == Some(spec.response)
            &&& router.find(spec.method, path, vars).vars == vars
        },
{
    let route = route_segments(parse_pattern(spec.url)->Ok_0);
    let keys = route_keys(route);
    let start = empty_router(templates);
    assert(root_index(start.roots, spec.method) is None);
    let grown = insert_at(empty_node(), route, spec.response);
    lemma_with_root(start, spec.method, grown, grown);
    lone_static_route_matches_itself_only(route, spec.response, path_parts(path), vars);
    static_route_is_found(empty_node(), route, spec.response, vars);
    if path_parts(path) == keys {
        lemma_route_path_of_parts(path);
    }
    if path == route_path(keys) {
        lemma_parts_of_route_path(keys);
    }
}

/// The first component of a string holds no separator.
proof fn lemma_first_component(s: Seq<char>, start: int, pos: int)
    requires
        0 <= start <= pos <= s.len(),
        forall|k: int| start <= k < pos ==> #[trigger] s[k] != '/',
    ensures
        is_one_part(split_from(s, '/', start, pos)[0]),
    decreases s.len() - pos,
{
    if pos < s.len() {
        if s[pos] == '/' {
            let head = s.subrange(start, pos);
            assert((seq![head] + split_from(s, '/', pos + 1, pos + 1))[0] == head);
            assert forall|j: int| 0 <= j < head.len() implies #[trigger] head[j] != '/' by {
                assert(head[j] == s[start + j]);
            }
        } else {
            lemma_first_component(s, start, pos + 1);
        }
    } else {
        let head = s.subrange(start, s.len() as int);
        assert forall|j: int| 0 <= j < head.len() implies #[trigger] head[j] != '/' by {
            assert(head[j] == s[start + j]);
        }
    }
}

/// In the router that holds one route, whose pattern holds no variable and
/// no escaped `/` and starts with a `/`, a request of the method of the route
/// finds the response of the route just when its path, behind what stands
/// before its first `/`, is the pattern with its escapes resolved, character
/// for character. No variable is bound either way.
pub proof fn static_pattern_matches_itself_only(
    templates: Map<Seq<char>, BodyView>,
    spec: SpecView,
    path: Seq<char>,
    vars: Map<Seq<char>, UrlVarView>,
)
    requires
        parse_pattern(spec.url) matches Ok(segments) && is_static_route(route_segments(segments))
            && are_parts(route_keys(route_segments(segments))),
        spec.url.len() > 0,
        spec.url[0] == '/',
    ensures
        empty_router(templates).insert(spec) matches Ok(router) && {
            &&& router.find(spec.method, path, vars).response is Some <==> path == split(
                path,
                '/',
            )[0] + unescaped(spec.url, 0)
            &&& router.find(spec.method, path, vars).response is Some ==> router.find(
                spec.method,
                path,
                vars,
            ).response == Some(spec.response)
            &&& router.find(spec.method, path, vars).vars == vars
        },
{
    let route = route_segments(parse_pattern(spec.url)->Ok_0);
    let keys = route_keys(route);
    static_pattern_is_its_own_path(spec.url);
    let start = empty_router(templates);
    assert(root_index(start.roots, spec.method) is None);
    let grown = insert_at(empty_node(), route, spec.response);
    lemma_with_root(start, spec.method, grown, grown);
    lone_static_route_matches_itself_only(route, spec.response, path_parts(path), vars);
    static_route_is_found(empty_node(), route, spec.response, vars);
    let all = split(path, '/');
    let first = all[0];
    lemma_split_from_nonempty(path, '/', 0, 0);
    lemma_first_component(path, 0, 0);
    if path == first + unescaped(spec.url, 0) {
        lemma_split_route(first, keys);
        assert((seq![first] + keys).drop_first() =~= keys);
    }
    if path_parts(path) == keys {
        lemma_join_of_split(path, '/', 0, 0);
        assert(path.subrange(0, path.len() as int) =~= path);
        assert(all =~= seq![first] + all.drop_first());
        lemma_join_route(first, all.drop_first());
    }
}

/// The same for a request whose path is empty or starts with a `/`, as the
/// path of every request does: it finds the response of the route just when
/// its path is the pattern with its escapes resolved, character for
/// character.
pub proof fn static_pattern_matches_its_own_path_only(
    templates: Map<Seq<char>, BodyView>,
    spec: SpecView,
    path: Seq<char>,
    vars: Map<Seq<char>, UrlVarView>,
)
    requires
        parse_pattern(spec.url) matches Ok(segments) && is_static_route(route_segments(segments))
            && are_parts(route_keys(route_segments(segments))),
        spec.url.len() > 0,
        spec.url[0] == '/',
        path.len() == 0 || path[0] == '/',
    ensures
        empty_router(templates).insert(spec) matches Ok(router) && {
            &&& router.find(spec.method, path, vars).response is Some <==> path == unescaped(
                spec.url,
                0,
            )
            &&& router.find(spec.method, path, vars).response is Some ==> router.find(
                spec.method,
                path,
                vars,
            ).response == Some(spec.response)
            &&& router.find(spec.method, path, vars).vars == vars
        },
{
    static_pattern_matches_itself_only(templates, spec, path, vars);
    let first = split(path, '/')[0];
    assert(first =~= Seq::<char>::empty()) by {
        assert(path.subrange(0, 0) =~= Seq::<char>::empty());
        if path.len() > 0 {
            lemma_split_from_nonempty(path, '/', 1, 1);
        }
    }
    assert(first + unescaped(spec.url, 0) =~= unescaped(spec.url, 0));
}

/// Where a route of one static segment and a route of one dynamic segment
/// were inserted into a router for the same method, in either order, the
/// path of the static route finds the response of the static route and binds
/// no variable: the dynamic route is not tried.
pub proof fn static_pattern_wins_over_dynamic(
    router: RouterView,
    fixed: SpecView,
    dynamic: SpecView,
    vars: Map<Seq<char>, UrlVarView>,
)
    requires
        fixed.method == dynamic.method,
        parse_pattern(fixed.url) is Ok,
        route_segments(parse_pattern(fixed.url)->Ok_0).len() == 1,
        static_text(route_segments(parse_pattern(fixed.url)->Ok_0)[0]) is Some,
        is_one_part(static_text(route_segments(parse_pattern(fixed.url)->Ok_0)[0])->0),
        parse_pattern(dynamic.url) is Ok,
        route_segments(parse_pattern(dynamic.url)->Ok_0).len() == 1,
        static_text(route_segments(parse_pattern(dynamic.url)->Ok_0)[0]) is None,
    ensures
        ({
            let key = static_text(route_segments(parse_pattern(fixed.url)->Ok_0)[0])->0;
            let path = route_path(seq![key]);
            let found = Found { response: Some(fixed.response), vars };
            &&& router.insert(fixed) matches Ok(first) && first.insert(dynamic) matches Ok(both)
                && both.find(fixed.method, path, vars) == found
            &&& router.insert(dynamic) matches Ok(first) && first.insert(fixed) matches Ok(both)
                && both.find(fixed.method, path, vars) == found
        }),
{
    let method = fixed.method;
    let fixed_route = route_segments(parse_pattern(fixed.url)->Ok_0);
    let dynamic_route = route_segments(parse_pattern(dynamic.url)->Ok_0);
    let f = fixed_route[0];
    let d = dynamic_route[0];
    let key = static_text(f)->0;
    assert(fixed_route =~= seq![f]);
    assert(dynamic_route =~= seq![d]);
    assert(are_parts(seq![key])) by {
        assert forall|i: int| 0 <= i < seq![key].len() implies is_one_part(
            #[trigger] seq![key][i],
        ) by {}
    }
    lemma_parts_of_route_path(seq![key]);
    let root = router.root(method);
    static_route_wins_over_dynamic(root, f, d, fixed.response, dynamic.response, vars);
    // The static route first.
    let with_fixed = insert_at(root, seq![f], fixed.response);
    let both_a = insert_at(with_fixed, seq![d], dynamic.response);
    lemma_with_root(router, method, with_fixed, both_a);
    lemma_with_root(router.with_root(method, with_fixed), method, both_a, both_a);
    // The dynamic route first.
    let with_dynamic = insert_at(root, seq![d], dynamic.response);
    let both_b = insert_at(with_dynamic, seq![f], fixed.response);
    lemma_with_root(router, method, with_dynamic, both_b);
    lemma_with_root(router.with_root(method, with_dynamic), method, both_b, both_b);
}

} // verus!
