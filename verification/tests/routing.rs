use faupi::name_map::NameMap;
use faupi::server::router::Router;
use faupi::server::url::error::UrlError;
use faupi::server::url::parser::UrlParser;
use faupi::server::url::segment::UrlSegment;
use faupi::server::url::token::UrlToken;
use faupi::server::url::var::{UrlVar, UrlVars};
use faupi::specs::body::body::Body;
use faupi::specs::method::Method;
use faupi::specs::response::Response;
use faupi::specs::spec::Spec;
use faupi::specs::status_code::StatusCode;

fn route(method: Method, url: &str, status: u16) -> Spec {
    Spec {
        method,
        url: url.to_string(),
        response: Response { status: StatusCode(status), delay: None, body: Body::Null },
    }
}

fn status_of(router: &Router, method: Method, path: &str, vars: &mut UrlVars) -> Option<u16> {
    router.find(&method, path, vars).map(|r| r.status.0)
}

#[test]
fn typed_variable_with_a_space_after_the_colon() {
    let mut parser = UrlParser::new("/{id: number}");
    assert_eq!(parser.next().unwrap(), Some(UrlSegment::empty()));
    assert_eq!(
        parser.next().unwrap(),
        Some(UrlSegment::new(vec![UrlToken::Var {
            name: "id".to_string(),
            ty: "number".to_string()
        }]))
    );
    assert_eq!(parser.next().unwrap(), None);
    let mut router = Router::default();
    router.insert(route(Method::Get, "/items/{id: number}", 200)).unwrap();
    let mut vars: UrlVars = NameMap::new();
    assert_eq!(status_of(&router, Method::Get, "/items/42", &mut vars), Some(200));
    assert_eq!(vars.get("id"), Some(&UrlVar::Number(42)));
}

#[test]
fn number_variable_binds_its_value() {
    let mut router = Router::default();
    router.insert(route(Method::Get, "/items/{id:number}", 201)).unwrap();
    let mut vars: UrlVars = NameMap::new();
    assert_eq!(status_of(&router, Method::Get, "/items/42", &mut vars), Some(201));
    assert_eq!(vars.get("id"), Some(&UrlVar::Number(42)));
    let mut vars: UrlVars = NameMap::new();
    assert_eq!(status_of(&router, Method::Get, "/items/abc", &mut vars), None);
    assert_eq!(vars.len(), 0);
}

#[test]
fn string_variable_stops_at_the_static_suffix() {
    let mut router = Router::default();
    router.insert(route(Method::Get, "/files/{name}.json", 200)).unwrap();
    let mut vars: UrlVars = NameMap::new();
    assert_eq!(status_of(&router, Method::Get, "/files/report.json", &mut vars), Some(200));
    assert_eq!(vars.get("name"), Some(&UrlVar::String("report".to_string())));
    let mut vars: UrlVars = NameMap::new();
    assert_eq!(status_of(&router, Method::Get, "/files/a.b.json", &mut vars), None);
}

#[test]
fn static_child_wins_over_dynamic_child() {
    let mut router = Router::default();
    router.insert(route(Method::Get, "/{id}", 1)).unwrap();
    router.insert(route(Method::Get, "/users", 2)).unwrap();
    let mut vars: UrlVars = NameMap::new();
    assert_eq!(status_of(&router, Method::Get, "/users", &mut vars), Some(2));
    assert_eq!(vars.len(), 0);
    assert_eq!(status_of(&router, Method::Get, "/other", &mut vars), Some(1));
    assert_eq!(vars.get("id"), Some(&UrlVar::String("other".to_string())));
}

#[test]
fn later_insertion_replaces_the_response() {
    let mut router = Router::default();
    router.insert(route(Method::Get, "/a/{id:number}/b", 1)).unwrap();
    router.insert(route(Method::Get, "/a/{id:number}/b", 2)).unwrap();
    router.insert(route(Method::Post, "/a/b", 3)).unwrap();
    router.insert(route(Method::Post, "/a/b", 4)).unwrap();
    let mut vars: UrlVars = NameMap::new();
    assert_eq!(status_of(&router, Method::Get, "/a/7/b", &mut vars), Some(2));
    assert_eq!(status_of(&router, Method::Post, "/a/b", &mut vars), Some(4));
    assert_eq!(router.roots.len(), 2);
    assert_eq!(router.roots[0].1.children[0].1.dyn_children.len(), 1);
}

#[test]
fn methods_do_not_fall_back() {
    let mut router = Router::default();
    router.insert(route(Method::Get, "/a", 1)).unwrap();
    let mut vars: UrlVars = NameMap::new();
    assert_eq!(status_of(&router, Method::Post, "/a", &mut vars), None);
    assert_eq!(status_of(&router, Method::Get, "/a", &mut vars), Some(1));
    assert_eq!(status_of(&router, Method::Get, "/a/", &mut vars), None);
    assert_eq!(status_of(&router, Method::Get, "/a/b", &mut vars), None);
    assert_eq!(status_of(&router, Method::Get, "/", &mut vars), None);
}

#[test]
fn parser_reads_segments() {
    let mut parser = UrlParser::new("/users/{id:number}/posts/{slug}");
    assert_eq!(parser.next().unwrap(), Some(UrlSegment::empty()));
    assert_eq!(
        parser.next().unwrap(),
        Some(UrlSegment::new(vec![UrlToken::Static("users".to_string())]))
    );
    assert_eq!(
        parser.next().unwrap(),
        Some(UrlSegment::new(vec![UrlToken::Var {
            name: "id".to_string(),
            ty: "number".to_string()
        }]))
    );
    assert_eq!(
        parser.next().unwrap(),
        Some(UrlSegment::new(vec![UrlToken::Static("posts".to_string())]))
    );
    assert_eq!(
        parser.next().unwrap(),
        Some(UrlSegment::new(vec![UrlToken::string("slug".to_string())]))
    );
    assert_eq!(parser.next().unwrap(), None);
}

#[test]
fn parser_reports_each_error() {
    let parse = |s: &str| UrlParser::new(s).rest().unwrap_err();
    assert_eq!(parse("/a/{id"), UrlError::UnclosedVar("id".to_string()));
    assert_eq!(parse("/a/{id:number"), UrlError::UnclosedVar("id".to_string()));
    assert_eq!(
        parse("/a/{id;x}"),
        UrlError::UnexVarChar { name: "id".to_string(), exp: ':', found: ';' }
    );
    assert_eq!(parse("/a/{1d}"), UrlError::IdentStart('1'));
    assert_eq!(parse("/a/{ id}"), UrlError::IdentStart(' '));
    assert_eq!(parse("/a/{"), UrlError::MissingIdent);
    assert_eq!(parse("/a\\"), UrlError::EscapeCharMiss);
    assert_eq!(parse("/a/{id:float}"), UrlError::InvalidType("float".to_string()));
}

#[test]
fn escape_takes_the_next_character_literally() {
    let segments = UrlParser::new("/lit\\/eral/\\{x\\}").rest().unwrap();
    assert_eq!(segments.len(), 3);
    assert_eq!(segments[1].get_static(), Some("lit/eral".to_string()));
    assert_eq!(segments[2].get_static(), Some("{x}".to_string()));
}

#[test]
fn failed_insert_leaves_the_router_as_it_was() {
    let mut router = Router::default();
    router.insert(route(Method::Get, "/{id}", 1)).unwrap();
    assert!(router.insert(route(Method::Get, "/users/{", 2)).is_err());
    let mut vars: UrlVars = NameMap::new();
    assert_eq!(status_of(&router, Method::Get, "/users", &mut vars), Some(1));
    assert_eq!(router.roots[0].1.children.len(), 0);
}

#[test]
fn number_variable_wraps_at_32_bits() {
    let segment = UrlSegment::new(vec![UrlToken::Var {
        name: "n".to_string(),
        ty: "number".to_string(),
    }]);
    let mut vars: UrlVars = NameMap::new();
    assert!(segment.matches("4294967301", &mut vars));
    assert_eq!(vars.get("n"), Some(&UrlVar::Number(5)));
    assert!(segment.matches("12abc", &mut vars));
    assert_eq!(vars.get("n"), Some(&UrlVar::Number(12)));
}

fn segment(pattern: &str) -> UrlSegment {
    let mut segments = UrlParser::new(pattern).rest().unwrap();
    assert_eq!(segments.len(), 1);
    segments.remove(0)
}

#[test]
fn static_pattern_matches_exactly_itself() {
    let mut router = Router::default();
    router.insert(route(Method::Get, "/a\\{b/c.d", 7)).unwrap();
    let mut vars: UrlVars = NameMap::new();
    assert_eq!(status_of(&router, Method::Get, "/a{b/c.d", &mut vars), Some(7));
    for path in ["/a{b/c.", "/a{b/c.dd", "/a{b", "/a{b/c.d/", "//a{b/c.d", "", "/", "/A{b/c.d"] {
        assert_eq!(status_of(&router, Method::Get, path, &mut vars), None, "{path}");
    }
    assert_eq!(vars.len(), 0);
}

#[test]
fn first_component_of_a_path_is_passed_over() {
    let mut router = Router::default();
    router.insert(route(Method::Get, "/a", 1)).unwrap();
    router.insert(route(Method::Get, "", 2)).unwrap();
    let mut vars: UrlVars = NameMap::new();
    assert_eq!(status_of(&router, Method::Get, "x/a", &mut vars), Some(1));
    assert_eq!(status_of(&router, Method::Get, "", &mut vars), Some(2));
    assert_eq!(status_of(&router, Method::Get, "anything", &mut vars), Some(2));
}

#[test]
fn pattern_with_trailing_slash_matches_the_path_with_it() {
    let mut router = Router::default();
    router.insert(route(Method::Get, "/a/", 1)).unwrap();
    let mut vars: UrlVars = NameMap::new();
    assert_eq!(status_of(&router, Method::Get, "/a/", &mut vars), Some(1));
    assert_eq!(status_of(&router, Method::Get, "/a", &mut vars), None);
    assert_eq!(status_of(&router, Method::Get, "/a/x", &mut vars), None);
    router.insert(route(Method::Get, "/a", 2)).unwrap();
    assert_eq!(status_of(&router, Method::Get, "/a", &mut vars), Some(2));
    assert_eq!(status_of(&router, Method::Get, "/a/", &mut vars), Some(1));
    assert_eq!(vars.len(), 0);
}

#[test]
fn root_pattern_matches_the_root_path() {
    let mut router = Router::default();
    router.insert(route(Method::Get, "/", 1)).unwrap();
    let mut vars: UrlVars = NameMap::new();
    assert_eq!(status_of(&router, Method::Get, "/", &mut vars), Some(1));
    assert_eq!(status_of(&router, Method::Get, "", &mut vars), None);
    assert_eq!(status_of(&router, Method::Get, "//", &mut vars), None);
    assert_eq!(status_of(&router, Method::Get, "/a", &mut vars), None);
    router.insert(route(Method::Get, "//", 2)).unwrap();
    assert_eq!(status_of(&router, Method::Get, "//", &mut vars), Some(2));
    assert_eq!(status_of(&router, Method::Get, "/", &mut vars), Some(1));
}

#[test]
fn empty_portion_is_a_static_segment() {
    let mut router = Router::default();
    router.insert(route(Method::Get, "/a//b", 1)).unwrap();
    let mut vars: UrlVars = NameMap::new();
    assert_eq!(status_of(&router, Method::Get, "/a//b", &mut vars), Some(1));
    assert_eq!(status_of(&router, Method::Get, "/a/x/b", &mut vars), None);
    assert_eq!(status_of(&router, Method::Get, "/a/b", &mut vars), None);
    let a = &router.roots[0].1.children[0].1;
    assert_eq!(a.dyn_children.len(), 0);
    assert_eq!(a.children.len(), 1);
    assert_eq!(a.children[0].0, "");
}

#[test]
fn every_portion_gives_a_segment() {
    let mut parser = UrlParser::new("");
    assert_eq!(parser.next().unwrap(), Some(UrlSegment::empty()));
    assert_eq!(parser.next().unwrap(), None);
    assert_eq!(parser.next().unwrap(), None);
    let mut parser = UrlParser::new("/a/");
    assert_eq!(parser.next().unwrap(), Some(UrlSegment::empty()));
    assert_eq!(
        parser.next().unwrap(),
        Some(UrlSegment::new(vec![UrlToken::Static("a".to_string())]))
    );
    assert_eq!(parser.next().unwrap(), Some(UrlSegment::empty()));
    assert_eq!(parser.next().unwrap(), None);
    assert_eq!(UrlParser::new("//").rest().unwrap().len(), 3);
    assert_eq!(UrlParser::new("a").rest().unwrap().len(), 1);
    let mut parser = UrlParser::new("/a/{");
    assert_eq!(parser.next().unwrap(), Some(UrlSegment::empty()));
    assert_eq!(parser.rest().unwrap_err(), UrlError::MissingIdent);
    assert_eq!(
        parser.next().unwrap(),
        Some(UrlSegment::new(vec![UrlToken::Static("a".to_string())]))
    );
}

#[test]
fn escaped_slash_belongs_to_the_segment() {
    let mut router = Router::default();
    router.insert(route(Method::Get, "/a\\/b", 1)).unwrap();
    let mut vars: UrlVars = NameMap::new();
    assert_eq!(status_of(&router, Method::Get, "/a/b", &mut vars), None);
    assert_eq!(router.roots[0].1.children[0].0, "a/b");
}

#[test]
fn whitespace_may_follow_a_name_a_colon_and_a_type() {
    assert_eq!(
        segment("{id \t:number  }"),
        UrlSegment::new(vec![UrlToken::Var { name: "id".to_string(), ty: "number".to_string() }])
    );
    assert_eq!(segment("{id\u{3000}}"), UrlSegment::new(vec![UrlToken::string("id".to_string())]));
    assert_eq!(
        segment("{id: number}"),
        UrlSegment::new(vec![UrlToken::Var { name: "id".to_string(), ty: "number".to_string() }])
    );
    assert_eq!(
        segment("{id :\t string }"),
        UrlSegment::new(vec![UrlToken::string("id".to_string())])
    );
    let err = |s: &str| UrlParser::new(s).rest().unwrap_err();
    assert_eq!(err("{id:}"), UrlError::IdentStart('}'));
    assert_eq!(err("{id: }"), UrlError::IdentStart('}'));
    assert_eq!(err("{id: 9}"), UrlError::IdentStart('9'));
    assert_eq!(err("{id:"), UrlError::MissingIdent);
    assert_eq!(err("{id:  "), UrlError::MissingIdent);
    assert_eq!(err("{id:number x}"), UrlError::UnclosedVar("id".to_string()));
    assert_eq!(err("{id:Number}"), UrlError::InvalidType("Number".to_string()));
    assert_eq!(err("{_a1:string}{"), UrlError::MissingIdent);
}

#[test]
fn segment_with_several_tokens() {
    let seg = segment("v{major:number}.{minor:number}-{tag}");
    assert_eq!(seg.tokens.len(), 6);
    assert_eq!(seg.get_static(), None);
    let mut vars: UrlVars = NameMap::new();
    assert!(seg.matches("v12.0-beta.1", &mut vars));
    assert_eq!(vars.get("major"), Some(&UrlVar::Number(12)));
    assert_eq!(vars.get("minor"), Some(&UrlVar::Number(0)));
    assert_eq!(vars.get("tag"), Some(&UrlVar::String("beta.1".to_string())));
    let mut vars: UrlVars = NameMap::new();
    assert!(!seg.matches("v12.x-beta", &mut vars));
    assert_eq!(vars.get("major"), Some(&UrlVar::Number(12)));
    assert_eq!(vars.get("minor"), None);
    assert!(!seg.matches("v1.2-", &mut vars));
    assert!(!seg.matches("w1.2-x", &mut vars));
}

#[test]
fn string_variable_needs_static_text_or_the_end_after_it() {
    let seg = segment("{a}{b:number}");
    let mut vars: UrlVars = NameMap::new();
    assert!(!seg.matches("x1", &mut vars));
    assert_eq!(vars.len(), 0);
    let seg = segment("{a}-{b}");
    assert!(!seg.matches("-x", &mut vars));
    assert!(seg.matches("x-y-z", &mut vars));
    assert_eq!(vars.get("a"), Some(&UrlVar::String("x".to_string())));
    assert_eq!(vars.get("b"), Some(&UrlVar::String("y-z".to_string())));
    let seg = UrlSegment::new(vec![
        UrlToken::string("a".to_string()),
        UrlToken::Static(String::new()),
    ]);
    assert!(seg.matches("x/y", &mut vars));
    assert_eq!(vars.get("a"), Some(&UrlVar::String("x".to_string())));
    let seg = UrlSegment::new(vec![UrlToken::Var { name: "a".to_string(), ty: "bool".to_string() }]);
    assert!(!seg.matches("true", &mut vars));
    assert!(UrlSegment::empty().matches("anything", &mut vars));
}

#[test]
fn segment_builders() {
    let mut seg = UrlSegment::empty();
    assert_eq!(seg.get_static(), Some(String::new()));
    seg.push_static(String::new());
    assert_eq!(seg.tokens.len(), 0);
    seg.push_static("users".to_string());
    assert_eq!(seg.get_static(), Some("users".to_string()));
    seg.push_static("x".to_string());
    assert_eq!(seg.get_static(), Some("usersx".to_string()));
    seg.push(UrlToken::string("v".to_string()));
    assert_eq!(seg.get_static(), None);
    assert_eq!(UrlSegment::new(vec![UrlToken::string("a".to_string())]).get_static(), None);
    assert!(seg.same(&seg.duplicate()));
    assert!(!seg.same(&UrlSegment::empty()));
    assert_eq!(
        UrlToken::var("n".to_string(), "string".to_string()),
        Ok(UrlToken::string("n".to_string()))
    );
    assert_eq!(
        UrlToken::var("n".to_string(), "int".to_string()),
        Err(UrlError::InvalidType("int".to_string()))
    );
    assert_eq!(UrlVar::default(), UrlVar::String(String::new()));
}

#[test]
fn dynamic_children_are_tried_in_the_order_of_insertion() {
    let mut router = Router::default();
    router.insert(route(Method::Get, "/{n:number}", 1)).unwrap();
    router.insert(route(Method::Get, "/{s}", 2)).unwrap();
    router.insert(route(Method::Get, "/{n:number}/x", 3)).unwrap();
    let mut vars: UrlVars = NameMap::new();
    assert_eq!(status_of(&router, Method::Get, "/12", &mut vars), Some(1));
    assert_eq!(vars.get("s"), None);
    assert_eq!(status_of(&router, Method::Get, "/ab", &mut vars), Some(2));
    assert_eq!(status_of(&router, Method::Get, "/12/x", &mut vars), Some(3));
    assert_eq!(status_of(&router, Method::Get, "/ab/x", &mut vars), None);
    assert_eq!(router.roots[0].1.dyn_children.len(), 2);
}

#[test]
fn the_chosen_child_is_final() {
    let mut router = Router::default();
    router.insert(route(Method::Get, "/{a}/x", 1)).unwrap();
    router.insert(route(Method::Get, "/{b}.z/y", 2)).unwrap();
    router.insert(route(Method::Get, "/k/y", 3)).unwrap();
    let mut vars: UrlVars = NameMap::new();
    assert_eq!(status_of(&router, Method::Get, "/q.z/y", &mut vars), None);
    assert_eq!(vars.get("a"), Some(&UrlVar::String("q.z".to_string())));
    assert_eq!(status_of(&router, Method::Get, "/k/x", &mut vars), None);
}

#[test]
fn name_map_keeps_places() {
    let mut map: NameMap<UrlVar> = NameMap::new();
    assert_eq!(map.insert("a".to_string(), UrlVar::Number(1)), None);
    assert_eq!(map.insert("b".to_string(), UrlVar::Number(2)), None);
    assert_eq!(map.insert("a".to_string(), UrlVar::Number(3)), Some(UrlVar::Number(1)));
    assert_eq!(map.len(), 2);
    assert_eq!(map.entry(0), (&"a".to_string(), &UrlVar::Number(3)));
    assert_eq!(map.entry(1), (&"b".to_string(), &UrlVar::Number(2)));
    assert_eq!(map.get("c"), None);
}
