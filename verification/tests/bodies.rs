use faupi::error::Error;
use faupi::name_map::NameMap;
use faupi::server::router::Router;
use faupi::server::server_struct::{Answer, Reply};
use faupi::server::url::error::UrlError;
use faupi::server::url::var::{UrlVar, UrlVars};
use faupi::specs::body::body::{Body, Mapping, TaggedValue};
use faupi::specs::body::dynamic::{Dynamic, DynamicValue};
use faupi::specs::body::fake::{get_fake, PASSWORD_MAX, PASSWORD_MIN};
use faupi::specs::body::number::Number;
use faupi::specs::body::resolve::{Warning, MAX_REF_DEPTH};
use faupi::specs::body::value::Value;
use faupi::specs::format::FileFormat;
use faupi::specs::method::Method;
use faupi::specs::mock_config::{MockConfig, Templates};
use faupi::specs::reload::{reload_specs, Reload};
use faupi::specs::response::Response;
use faupi::specs::spec::Spec;
use faupi::specs::status_code::StatusCode;

fn text(s: &str) -> Body {
    Body::parse(s.to_string()).unwrap()
}

fn pieces(body: &Body) -> Vec<DynamicValue> {
    match body {
        Body::Dynamic(d) => d.values.clone(),
        other => panic!("not dynamic: {:?}", other),
    }
}

fn map_of(entries: Vec<(Body, Body)>) -> Body {
    let mut mapping = Mapping::new();
    for (key, value) in entries {
        assert!(mapping.insert(key, value).is_none());
    }
    Body::Mapping(mapping)
}

#[test]
fn string_without_dollar_stays_a_string() {
    match text("plain text") {
        Body::String(s) => assert_eq!(s, "plain text"),
        other => panic!("unexpected {:?}", other),
    }
    match text("") {
        Body::String(s) => assert_eq!(s, ""),
        other => panic!("unexpected {:?}", other),
    }
}

#[test]
fn placeholders_are_told_apart() {
    assert_eq!(
        pieces(&text("hello $name!")),
        vec![
            DynamicValue::Static("hello ".to_string()),
            DynamicValue::Var("name".to_string()),
            DynamicValue::Static("!".to_string()),
        ]
    );
    assert_eq!(
        pieces(&text("${a}${fake.city_name}${ref.user}$b")),
        vec![
            DynamicValue::Var("a".to_string()),
            DynamicValue::Fake("city_name".to_string()),
            DynamicValue::Ref("user".to_string()),
            DynamicValue::Var("b".to_string()),
        ]
    );
    assert_eq!(pieces(&text("${fake}")), vec![DynamicValue::Var("fake".to_string())]);
    assert_eq!(
        pieces(&text("$fake.x")),
        vec![DynamicValue::Var("fake".to_string()), DynamicValue::Static(".x".to_string())]
    );
}

#[test]
fn placeholder_errors() {
    let err = |s: &str| Body::parse(s.to_string()).unwrap_err();
    assert_eq!(err("cost: $5"), UrlError::IdentStart('5'));
    assert_eq!(err("cost: $"), UrlError::MissingIdent);
    assert_eq!(err("${"), UrlError::MissingIdent);
    assert_eq!(err("${a"), UrlError::UnclosedVar("a".to_string()));
    assert_eq!(err("${a b}"), UrlError::UnclosedVar("a".to_string()));
    assert_eq!(err("${fake.city"), UrlError::UnclosedVar("city".to_string()));
    assert_eq!(err("${obj.x}"), UrlError::UnknownObject("obj".to_string()));
    assert_eq!(err("${ref.}"), UrlError::IdentStart('}'));
}

#[test]
fn greeting_is_resolved_to_text() {
    let body = map_of(vec![(text("greeting"), text("hello $name"))]);
    let mut vars: UrlVars = NameMap::new();
    vars.insert("name".to_string(), UrlVar::String("Ada".to_string()));
    let templates: Templates = NameMap::new();
    let resolved = body.resolve(&vars, &templates);
    assert_eq!(
        resolved.value,
        Value::Mapping(vec![(
            Value::String("greeting".to_string()),
            Value::String("hello Ada".to_string())
        )])
    );
    assert!(resolved.warnings.is_empty());
}

#[test]
fn lone_number_variable_stays_a_number() {
    let body = map_of(vec![(text("count"), text("$n")), (text("text"), text("n=$n"))]);
    let mut vars: UrlVars = NameMap::new();
    vars.insert("n".to_string(), UrlVar::Number(3));
    let templates: Templates = NameMap::new();
    let resolved = body.resolve(&vars, &templates);
    assert_eq!(
        resolved.value,
        Value::Mapping(vec![
            (Value::String("count".to_string()), Value::Number(Number::PosInt(3))),
            (Value::String("text".to_string()), Value::String("n=3".to_string())),
        ])
    );
}

#[test]
fn unbound_variable_is_empty_and_warns() {
    let vars: UrlVars = NameMap::new();
    let templates: Templates = NameMap::new();
    let resolved = text("a${missing}b${fake.nothing}c${ref.none}d").resolve(&vars, &templates);
    assert_eq!(resolved.value, Value::String("abcd".to_string()));
    assert_eq!(
        resolved.warnings,
        vec![
            Warning::UndefinedVar("missing".to_string()),
            Warning::UnknownFake("nothing".to_string()),
            Warning::UndefinedTemplate("none".to_string()),
        ]
    );
    let resolved = text("$missing").resolve(&vars, &templates);
    assert_eq!(resolved.value, Value::String(String::new()));
    assert_eq!(resolved.warnings, vec![Warning::UndefinedVar("missing".to_string())]);
}

#[test]
fn reference_replaces_the_whole_string() {
    let vars: UrlVars = NameMap::new();
    let mut templates: Templates = NameMap::new();
    templates.insert(
        "user".to_string(),
        Body::Sequence(vec![Body::Bool(true), text("x$gone"), Body::Number(Number::NegInt(-2))]),
    );
    let resolved = text("before $lost ${ref.user} after").resolve(&vars, &templates);
    assert_eq!(
        resolved.value,
        Value::Sequence(vec![
            Value::Bool(true),
            Value::String("x".to_string()),
            Value::Number(Number::NegInt(-2))
        ])
    );
    assert_eq!(
        resolved.warnings,
        vec![Warning::UndefinedVar("lost".to_string()), Warning::UndefinedVar("gone".to_string())]
    );
}

#[test]
fn circular_references_end() {
    let vars: UrlVars = NameMap::new();
    let mut templates: Templates = NameMap::new();
    templates.insert("a".to_string(), text("${ref.b}"));
    templates.insert("b".to_string(), text("x${ref.a}y"));
    let resolved = text("${ref.a}").resolve(&vars, &templates);
    assert!(MAX_REF_DEPTH % 2 == 0);
    assert_eq!(resolved.value, Value::String("xy".to_string()));
    assert_eq!(resolved.warnings, vec![Warning::RefTooDeep("a".to_string())]);
}

#[test]
fn fake_values_are_generated() {
    for name in ["building_number", "city_name", "ipv4", "password", "job_title", "title", "digit", "phone_number", "semver", "isbn13"] {
        match get_fake(name) {
            Some(UrlVar::String(_)) => {}
            other => panic!("{name}: {:?}", other),
        }
    }
    assert_eq!(get_fake("boolean"), None);
    assert_eq!(get_fake(""), None);
    let vars: UrlVars = NameMap::new();
    let templates: Templates = NameMap::new();
    let resolved = text("<${fake.digit}>").resolve(&vars, &templates);
    match resolved.value {
        Value::String(s) => {
            assert_eq!(s.chars().count(), 3);
            assert!(s.chars().nth(1).unwrap().is_ascii_digit());
        }
        other => panic!("unexpected {:?}", other),
    }
    assert!(resolved.warnings.is_empty());
}

#[test]
fn tagged_and_plain_values_are_copied() {
    let vars: UrlVars = NameMap::new();
    let templates: Templates = NameMap::new();
    let body = Body::Tagged(Box::new(TaggedValue {
        tag: "!t".to_string(),
        value: Body::Sequence(vec![Body::Null, Body::Number(Number::Float(4607182418800017408))]),
    }));
    assert_eq!(
        body.resolve(&vars, &templates).value,
        Value::Tagged(
            "!t".to_string(),
            Box::new(Value::Sequence(vec![
                Value::Null,
                Value::Number(Number::Float(4607182418800017408))
            ]))
        )
    );
}

#[test]
fn dynamic_resolves_alone() {
    let dynamic = Dynamic::new(vec![
        DynamicValue::Static("id-".to_string()),
        DynamicValue::Var("id".to_string()),
    ]);
    let mut vars: UrlVars = NameMap::new();
    vars.insert("id".to_string(), UrlVar::Number(4294967295));
    let templates: Templates = NameMap::new();
    assert_eq!(
        dynamic.resolve(&vars, &templates).value,
        Value::String("id-4294967295".to_string())
    );
    assert_eq!(UrlVar::Number(0).to_string(), "0");
    assert_eq!(UrlVar::Number(120).to_string(), "120");
}

fn spec(method: Method, url: &str, status: u16, body: Body) -> Spec {
    Spec {
        method,
        url: url.to_string(),
        response: Response { status: StatusCode(status), delay: Some(5), body },
    }
}

#[test]
fn request_is_answered() {
    let config = MockConfig::new(vec![
        spec(Method::Get, "/items/{id:number}", 200, map_of(vec![(text("id"), text("$id"))])),
        spec(Method::Get, "/bad", 99, Body::Null),
    ]);
    let router = Router::new(config).unwrap();
    assert_eq!(
        router.handle_request(&Method::Get, "/items/7"),
        Reply::Found {
            delay: Some(5),
            answer: Ok(Answer {
                status: 200,
                body: Value::Mapping(vec![(
                    Value::String("id".to_string()),
                    Value::Number(Number::PosInt(7))
                )]),
                warnings: vec![],
            }),
        }
    );
    assert_eq!(router.handle_request(&Method::Get, "/items/x"), Reply::NotFound);
    assert_eq!(router.handle_request(&Method::Put, "/items/7"), Reply::NotFound);
    assert_eq!(
        router.handle_request(&Method::Get, "/bad"),
        Reply::Found {
            delay: Some(5),
            answer: Err(Error::Msg("Invalid status code: 99".to_string())),
        }
    );
    assert_eq!(router.not_found.status, StatusCode(404));
}

#[test]
fn failed_reload_keeps_the_router() {
    let mut router =
        Router::new(MockConfig::new(vec![spec(Method::Get, "/a", 201, Body::Null)])).unwrap();
    let before = router.handle_request(&Method::Get, "/a");
    let bad = MockConfig::new(vec![
        spec(Method::Get, "/b", 200, Body::Null),
        spec(Method::Get, "/c/{x", 200, Body::Null),
    ]);
    assert_eq!(
        reload_specs(&mut router, Ok(bad)),
        Reload::Kept(Error::Url(UrlError::UnclosedVar("x".to_string())))
    );
    assert_eq!(router.handle_request(&Method::Get, "/a"), before);
    assert_eq!(router.handle_request(&Method::Get, "/b"), Reply::NotFound);
    assert_eq!(
        reload_specs(&mut router, Err(Error::Msg("no such file".to_string()))),
        Reload::Kept(Error::Msg("no such file".to_string()))
    );
    assert_eq!(router.handle_request(&Method::Get, "/a"), before);
    let good = MockConfig::new(vec![spec(Method::Get, "/b", 200, Body::Null)]);
    assert_eq!(reload_specs(&mut router, Ok(good)), Reload::Replaced);
    assert_eq!(router.handle_request(&Method::Get, "/a"), Reply::NotFound);
    assert!(matches!(router.handle_request(&Method::Get, "/b"), Reply::Found { .. }));
}

#[test]
fn file_format_goes_by_extension() {
    assert_eq!(FileFormat::from_extension(Some("yaml")), Ok(FileFormat::Yaml));
    assert_eq!(FileFormat::from_extension(Some("yml")), Ok(FileFormat::Yaml));
    assert_eq!(FileFormat::from_extension(Some("json")), Ok(FileFormat::Json));
    assert_eq!(
        FileFormat::from_extension(Some("toml")),
        Err(Error::Msg("Unsupported file type".to_string()))
    );
    assert_eq!(
        FileFormat::from_extension(None),
        Err(Error::Msg("Unsupported file type".to_string()))
    );
}

#[test]
fn methods_have_names() {
    for m in [
        Method::Get,
        Method::Head,
        Method::Post,
        Method::Put,
        Method::Delete,
        Method::Connect,
        Method::Options,
        Method::Trace,
        Method::Patch,
    ] {
        assert_eq!(Method::from_name(m.name()), Some(m));
    }
    assert_eq!(Method::from_name("get"), None);
    assert_eq!(Method::Delete.name(), "DELETE");
}

#[test]
fn error_messages() {
    assert_eq!(
        UrlError::UnclosedVar("id".to_string()).to_string(),
        "unclosed variable `id` in specification."
    );
    assert_eq!(
        UrlError::unex_var_char("id".to_string(), ':', ';').to_string(),
        "invalid character in variable id: expected :, found ;."
    );
    assert_eq!(
        UrlError::IdentStart('1').to_string(),
        "identifier must start with a letter or _, found 1."
    );
    assert_eq!(UrlError::MissingIdent.to_string(), "expected identifier");
    assert_eq!(
        UrlError::EscapeCharMiss.to_string(),
        "escape character `\\` must be followed by another character."
    );
    assert_eq!(
        UrlError::InvalidType("float".to_string()).to_string(),
        "variable type `float` doesn't exist."
    );
    assert_eq!(UrlError::UnknownObject("obj".to_string()).to_string(), "unknown object `obj`.");
    assert_eq!(Error::Url(UrlError::MissingIdent).to_string(), "expected identifier");
    assert_eq!(StatusCode(1000).checked(), Err(Error::Msg("Invalid status code: 1000".into())));
    assert_eq!(StatusCode(999).checked(), Ok(999));
    assert_eq!(StatusCode(100).checked(), Ok(100));
    assert_eq!(StatusCode::default(), StatusCode(200));
}

#[test]
fn value_tree_becomes_a_body() {
    let value = Value::Mapping(vec![
        (Value::String("plain".to_string()), Value::Null),
        (Value::String("$a".to_string()), Value::Number(Number::PosInt(1))),
        (Value::String("${a}".to_string()), Value::Number(Number::PosInt(2))),
        (
            Value::String("list".to_string()),
            Value::Sequence(vec![
                Value::Bool(false),
                Value::Tagged("!x".to_string(), Box::new(Value::String("${fake.name}".to_string()))),
            ]),
        ),
    ]);
    let body = Body::new(value).unwrap();
    let expected = map_of(vec![
        (Body::String("plain".to_string()), Body::Null),
        (
            Body::Dynamic(Dynamic::new(vec![DynamicValue::Var("a".to_string())])),
            Body::Number(Number::PosInt(2)),
        ),
        (
            Body::String("list".to_string()),
            Body::Sequence(vec![
                Body::Bool(false),
                Body::Tagged(Box::new(TaggedValue {
                    tag: "!x".to_string(),
                    value: Body::Dynamic(Dynamic::new(vec![DynamicValue::Fake(
                        "name".to_string(),
                    )])),
                })),
            ]),
        ),
    ]);
    assert!(body == expected);
    match &body {
        Body::Mapping(m) => assert_eq!(m.len(), 3),
        other => panic!("unexpected {:?}", other),
    }
}

#[test]
fn value_tree_with_a_bad_string_fails() {
    let value = Value::Sequence(vec![
        Value::String("fine".to_string()),
        Value::Mapping(vec![(Value::String("k".to_string()), Value::String("${".to_string()))]),
        Value::String("$9".to_string()),
    ]);
    assert_eq!(Body::new(value).unwrap_err(), UrlError::MissingIdent);
    let value = Value::Mapping(vec![(Value::String("$".to_string()), Value::String("${".to_string()))]);
    assert_eq!(Body::new(value).unwrap_err(), UrlError::MissingIdent);
    let value = Value::Tagged("t".to_string(), Box::new(Value::String("${x.y}".to_string())));
    assert_eq!(Body::new(value).unwrap_err(), UrlError::UnknownObject("x".to_string()));
}

#[test]
fn mappings_are_the_same_in_any_order() {
    let a = map_of(vec![
        (Body::String("x".to_string()), Body::Bool(true)),
        (Body::Number(Number::PosInt(1)), Body::Null),
    ]);
    let b = map_of(vec![
        (Body::Number(Number::PosInt(1)), Body::Null),
        (Body::String("x".to_string()), Body::Bool(true)),
    ]);
    let c = map_of(vec![
        (Body::Number(Number::PosInt(1)), Body::Null),
        (Body::String("x".to_string()), Body::Bool(false)),
    ]);
    assert!(a == b);
    assert!(a.same(&b));
    assert!(a != c);
    assert!(Body::Sequence(vec![a, Body::Null]) == Body::Sequence(vec![b, Body::Null]));
    assert!(Body::Sequence(vec![Body::Null, Body::Bool(true)]) != Body::Sequence(vec![Body::Bool(true), Body::Null]));
    assert!(Body::Null != Body::Bool(false));
    assert!(text("$a") == text("${a}"));
    assert!(text("$a") != text("$b"));
}

#[test]
fn mapping_insert_replaces_the_value_in_place() {
    let mut mapping = Mapping::new();
    assert!(mapping.insert(text("a"), Body::Bool(true)).is_none());
    assert!(mapping.insert(text("b"), Body::Bool(false)).is_none());
    let old = mapping.insert(text("a"), Body::Null);
    assert!(old == Some(Body::Bool(true)));
    assert_eq!(mapping.len(), 2);
    assert!(*mapping.entry(0).0 == text("a"));
    assert!(*mapping.entry(0).1 == Body::Null);
    assert!(*mapping.entry(1).0 == text("b"));
    assert!(Mapping::default().len() == 0);
    assert_eq!(mapping.position(&text("b")), Some(1));
    assert_eq!(mapping.position(&text("c")), None);
}

#[test]
fn every_generator_of_the_catalogue_answers() {
    let names = [
        "building_number", "city_name", "city_prefix", "city_suffix", "country_code", "latitude",
        "longitude", "post_code", "secondary_address", "secondary_address_type", "state_abbr",
        "state_name", "street_name", "street_suffix", "time_zone", "zip_code", "isbn", "isbn10",
        "isbn13", "bs", "bs_adj", "bs_noun", "bs_verb", "buzzword", "buzzword_middle",
        "buzzword_tail", "catch_phrase", "company_name", "company_suffix", "industry",
        "profession", "credit_card_number", "currency_code", "currency_name", "currency_symbol",
        "dir_path", "file_extension", "file_name", "file_path", "mime_type", "semver",
        "semver_stable", "semver_unstable", "bic", "isin", "domain_suffix", "free_email",
        "free_email_provider", "ip", "ipv4", "ipv6", "mac_address", "password", "safe_email",
        "user_agent", "username", "field", "position", "seniority", "job_title", "first_name",
        "last_name", "name", "name_with_title", "suffix", "title", "digit", "cell_number",
        "phone_number",
    ];
    assert_eq!(names.len(), 69);
    for name in names {
        match get_fake(name) {
            Some(UrlVar::String(text)) => assert!(!text.is_empty(), "{name}"),
            other => panic!("{name}: {:?}", other),
        }
    }
    for name in ["Name", "name ", "boolean", "geohash", "country_name"] {
        assert_eq!(get_fake(name), None);
    }
    for _ in 0..200 {
        match get_fake("password") {
            Some(UrlVar::String(text)) => {
                let n = text.chars().count();
                assert!((PASSWORD_MIN..PASSWORD_MAX).contains(&n));
                assert!((8..20).contains(&n));
            }
            other => panic!("{:?}", other),
        }
        match get_fake("digit") {
            Some(UrlVar::String(text)) => {
                assert_eq!(text.chars().count(), 1);
                assert!(text.chars().all(|c| c.is_ascii_digit()));
            }
            other => panic!("{:?}", other),
        }
    }
}

#[test]
fn dynamic_is_written_with_braces() {
    let body = text("a $b ${fake.isbn}${ref.c}.");
    match body {
        Body::Dynamic(d) => assert_eq!(d.to_string(), "a ${b} ${fake.isbn}${ref.c}."),
        other => panic!("unexpected {:?}", other),
    }
    assert_eq!(Dynamic::new(vec![]).to_string(), "");
}

#[test]
fn mapping_keys_are_resolved_like_values() {
    let body = map_of(vec![(text("$k"), text("$k$k")), (text("${j}"), Body::Null)]);
    let mut vars: UrlVars = NameMap::new();
    vars.insert("k".to_string(), UrlVar::Number(7));
    vars.insert("j".to_string(), UrlVar::Number(7));
    let templates: Templates = NameMap::new();
    assert_eq!(
        body.resolve(&vars, &templates).value,
        Value::Mapping(vec![
            (Value::Number(Number::PosInt(7)), Value::String("77".to_string())),
            (Value::Number(Number::PosInt(7)), Value::Null),
        ])
    );
}

#[test]
fn lone_bound_variable_beside_a_reference() {
    let mut vars: UrlVars = NameMap::new();
    vars.insert("v".to_string(), UrlVar::String("text".to_string()));
    let mut templates: Templates = NameMap::new();
    templates.insert("t".to_string(), Body::Bool(true));
    assert_eq!(text("$v").resolve(&vars, &templates).value, Value::String("text".to_string()));
    assert_eq!(text("${ref.t}").resolve(&vars, &templates).value, Value::Bool(true));
    assert_eq!(text("$v${ref.t}").resolve(&vars, &templates).value, Value::Bool(true));
    assert_eq!(
        text("${ref.u}$v${ref.t}${fake.nope}").resolve(&vars, &templates).warnings,
        vec![Warning::UndefinedTemplate("u".to_string())]
    );
}
