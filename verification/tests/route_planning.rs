use std::cmp::Ordering;
use orae::route::{
    ArgValue, AttrArgs, AttrDecl, FieldDecl, FieldKind, HttpMethod, ListArgs, LitValue, MacroArg,
    MacroError, PathExtractor, StructDecl, StructFields, expand_route_macro, nests_under_context,
    plan_controller, plan_main,
};

fn attr(name: &str) -> AttrDecl {
    AttrDecl { name: Some(name.to_string()), args: AttrArgs::Bare }
}

fn field(ident: &str, attrs: Vec<AttrDecl>) -> FieldDecl {
    FieldDecl { ident: Some(ident.to_string()), attrs }
}

fn route_struct(name: &str, fields: Vec<FieldDecl>) -> StructDecl {
    StructDecl { name: name.to_string(), attrs: vec![attr("get")], fields: StructFields::Named(fields) }
}

fn kinds(plan: &orae::route::RoutePlan) -> Vec<(&'static str, usize)> {
    plan.fields
        .iter()
        .map(|f| {
            let k = match f.kind {
                FieldKind::State => "state",
                FieldKind::Path { .. } => "path",
                FieldKind::QueryParams => "query",
                FieldKind::RequestBody => "body",
                FieldKind::Context => "context",
            };
            (k, f.field)
        })
        .collect()
}

#[test]
fn get_device_route_plan() {
    let item = route_struct(
        "GetDevice",
        vec![
            field("test_service", vec![attr("state")]),
            field("ctx", vec![attr("context")]),
            field("device_id", vec![attr("path")]),
            field("params", vec![attr("query_params")]),
        ],
    );
    let plan = expand_route_macro("/{device_id}", &item, HttpMethod::Get).unwrap();
    assert_eq!(kinds(&plan), vec![("state", 0), ("context", 1), ("path", 2), ("query", 3)]);
    assert!(matches!(plan.path, PathExtractor::Single(2)));
    assert_eq!(plan.handler_name, "GetDevice_handler");
    assert_eq!(plan.method.name(), "GET");
    assert!(plan.kept_struct_attrs.is_empty());
    assert!(plan.kept_field_attrs.iter().all(|a| a.is_empty()));
}

#[test]
fn get_config_route_collects_path_fields_into_a_tuple() {
    let named = AttrDecl {
        name: Some("path".to_string()),
        args: AttrArgs::List(ListArgs::NameValue {
            key: Some("name".to_string()),
            value: LitValue::Str("project".to_string()),
        }),
    };
    let item = route_struct(
        "GetConfig",
        vec![
            field("project_name", vec![named]),
            field("branch", vec![attr("path")]),
            field("file_path", vec![attr("path")]),
            field("project_registry", vec![attr("state")]),
        ],
    );
    let plan = expand_route_macro("/{project}/{branch}/{file_path}", &item, HttpMethod::Get).unwrap();
    match &plan.path {
        PathExtractor::Tuple(v) => assert_eq!(v, &vec![0, 1, 2]),
        other => panic!("unexpected extractor: {other:?}"),
    }
    match &plan.fields[0].kind {
        FieldKind::Path { name } => assert_eq!(name.as_deref(), Some("project")),
        other => panic!("unexpected kind: {other:?}"),
    }
}

#[test]
fn request_body_moves_last() {
    let item = route_struct(
        "CreateDevice",
        vec![field("body", vec![attr("request_body")]), field("test_service", vec![attr("state")])],
    );
    let plan = expand_route_macro("/", &item, HttpMethod::Post).unwrap();
    assert_eq!(kinds(&plan), vec![("state", 1), ("body", 0)]);
    assert!(matches!(plan.path, PathExtractor::NoPath));
    assert_eq!(plan.method.name(), "POST");
}

#[test]
fn other_attributes_are_kept() {
    let mut item = route_struct(
        "R",
        vec![field("s", vec![attr("doc"), attr("state"), attr("allow")])],
    );
    item.attrs = vec![attr("derive"), attr("post"), attr("doc")];
    let plan = expand_route_macro("/", &item, HttpMethod::Post).unwrap();
    assert_eq!(plan.kept_field_attrs, vec![vec![0, 2]]);
    assert_eq!(plan.kept_struct_attrs, vec![0, 2]);
}

#[test]
fn last_route_attribute_wins() {
    let item = route_struct("R", vec![field("x", vec![attr("state"), attr("query_params")])]);
    let plan = expand_route_macro("/", &item, HttpMethod::Get).unwrap();
    assert_eq!(kinds(&plan), vec![("query", 0)]);
}

#[test]
fn route_structs_need_named_fields() {
    let item = StructDecl { name: "T".to_string(), attrs: vec![], fields: StructFields::Unnamed };
    assert!(matches!(expand_route_macro("/", &item, HttpMethod::Get), Err(MacroError::FieldsNotNamed)));
}

#[test]
fn every_field_needs_a_route_attribute() {
    let item = route_struct("R", vec![field("a", vec![attr("state")]), field("b", vec![attr("doc")])]);
    assert!(matches!(
        expand_route_macro("/", &item, HttpMethod::Get),
        Err(MacroError::MissingRouteAttr { field: 1 })
    ));
}

#[test]
fn unnamed_field_is_rejected() {
    let item = route_struct("R", vec![FieldDecl { ident: None, attrs: vec![attr("state")] }]);
    assert!(matches!(
        expand_route_macro("/", &item, HttpMethod::Get),
        Err(MacroError::UnnamedField { field: 0 })
    ));
}

#[test]
fn duplicate_query_params_are_rejected() {
    let item = route_struct(
        "R",
        vec![field("a", vec![attr("query_params")]), field("b", vec![attr("query_params")])],
    );
    assert!(matches!(
        expand_route_macro("/", &item, HttpMethod::Get),
        Err(MacroError::DuplicateQueryParams)
    ));
}

#[test]
fn duplicate_context_and_body_are_rejected() {
    let ctx = route_struct("R", vec![field("a", vec![attr("context")]), field("b", vec![attr("context")])]);
    assert!(matches!(expand_route_macro("/", &ctx, HttpMethod::Get), Err(MacroError::DuplicateContext)));
    let body = route_struct(
        "R",
        vec![field("a", vec![attr("request_body")]), field("b", vec![attr("request_body")])],
    );
    assert!(matches!(
        expand_route_macro("/", &body, HttpMethod::Put),
        Err(MacroError::DuplicateRequestBody)
    ));
}

#[test]
fn many_state_and_path_fields_are_allowed() {
    let item = route_struct(
        "R",
        vec![
            field("a", vec![attr("state")]),
            field("b", vec![attr("state")]),
            field("x", vec![attr("path")]),
            field("y", vec![attr("path")]),
        ],
    );
    assert!(expand_route_macro("/{x}/{y}", &item, HttpMethod::Delete).is_ok());
}

#[test]
fn path_field_missing_from_template() {
    let item = route_struct("R", vec![field("device_id", vec![attr("path")])]);
    assert!(matches!(
        expand_route_macro("/{id}", &item, HttpMethod::Get),
        Err(MacroError::FieldNotInTemplate { field: 0 })
    ));
}

#[test]
fn explicit_path_name_missing_from_template() {
    let named = AttrDecl {
        name: Some("path".to_string()),
        args: AttrArgs::List(ListArgs::NameValue {
            key: Some("name".to_string()),
            value: LitValue::Str("id".to_string()),
        }),
    };
    let item = route_struct("R", vec![field("device_id", vec![named])]);
    match expand_route_macro("/{device_id}", &item, HttpMethod::Patch) {
        Err(MacroError::PathNameNotInTemplate { field, name }) => {
            assert_eq!(field, 0);
            assert_eq!(name, "id");
        }
        other => panic!("unexpected result: {other:?}"),
    }
}

#[test]
fn bad_path_arguments_are_rejected() {
    let forms = vec![
        (AttrArgs::NameValue, "value form"),
        (AttrArgs::List(ListArgs::Unparsable), "unparsable"),
        (
            AttrArgs::List(ListArgs::NameValue { key: Some("rename".to_string()), value: LitValue::Str("a".to_string()) }),
            "wrong key",
        ),
        (
            AttrArgs::List(ListArgs::NameValue { key: Some("name".to_string()), value: LitValue::Other }),
            "not a string",
        ),
    ];
    for (args, what) in forms {
        let item = route_struct("R", vec![field("a", vec![AttrDecl { name: Some("path".to_string()), args }])]);
        let r = expand_route_macro("/{a}", &item, HttpMethod::Get);
        let ok = match (what, &r) {
            ("value form", Err(MacroError::PathNameValueForm { field: 0, attr: 0 })) => true,
            ("unparsable", Err(MacroError::PathArgsUnparsable { field: 0, attr: 0 })) => true,
            ("wrong key", Err(MacroError::PathArgNotName { field: 0, attr: 0 })) => true,
            ("not a string", Err(MacroError::PathNameNotString { field: 0, attr: 0 })) => true,
            _ => false,
        };
        assert!(ok, "{what}: {r:?}");
    }
}

#[test]
fn classification_errors_come_before_duplicates() {
    let item = route_struct(
        "R",
        vec![
            field("a", vec![attr("query_params")]),
            field("b", vec![attr("query_params")]),
            field("c", vec![]),
        ],
    );
    assert!(matches!(
        expand_route_macro("/", &item, HttpMethod::Get),
        Err(MacroError::MissingRouteAttr { field: 2 })
    ));
}

fn arg(key: &str, value: ArgValue) -> MacroArg {
    MacroArg { key: Some(key.to_string()), value }
}

fn str_value(s: &str) -> ArgValue {
    ArgValue { str_lit: Some(s.to_string()), is_type: false, array: None }
}

fn array_value(items: Vec<bool>) -> ArgValue {
    ArgValue { str_lit: None, is_type: false, array: Some(items) }
}

fn type_value() -> ArgValue {
    ArgValue { str_lit: None, is_type: true, array: None }
}

#[test]
fn controller_plan_with_context_and_routes() {
    let args = vec![arg("context", str_value("/device")), arg("routes", array_value(vec![true, true]))];
    let plan = plan_controller(&args).unwrap();
    assert_eq!(plan.context, "/device");
    assert_eq!(plan.routes_arg, 1);
    assert_eq!(plan.route_count, 2);
}

#[test]
fn controller_context_defaults_to_empty() {
    let args = vec![arg("routes", array_value(vec![true]))];
    let plan = plan_controller(&args).unwrap();
    assert_eq!(plan.context, "");
    assert_eq!(plan.route_count, 1);
}

#[test]
fn controller_rejections() {
    assert!(matches!(plan_controller(&vec![]), Err(MacroError::RoutesMissing)));
    let not_string = vec![arg("context", type_value()), arg("routes", array_value(vec![]))];
    assert!(matches!(plan_controller(&not_string), Err(MacroError::ContextNotString { arg: 0 })));
    let not_array = vec![arg("routes", type_value())];
    assert!(matches!(plan_controller(&not_array), Err(MacroError::RoutesNotArray { arg: 0 })));
    let not_path = vec![arg("routes", array_value(vec![true, false]))];
    assert!(matches!(plan_controller(&not_path), Err(MacroError::RouteNotPath { arg: 0, item: 1 })));
    let bad_key = vec![arg("routes", array_value(vec![])), MacroArg { key: None, value: type_value() }];
    assert!(matches!(plan_controller(&bad_key), Err(MacroError::KeyNotIdent { arg: 1 })));
}

#[test]
fn first_matching_key_is_used() {
    let args = vec![
        arg("routes", array_value(vec![true])),
        arg("routes", array_value(vec![false])),
    ];
    assert_eq!(plan_controller(&args).unwrap().routes_arg, 0);
}

#[test]
fn main_plan_needs_async_and_state_type() {
    let args = vec![arg("state", type_value())];
    assert_eq!(plan_main(&args, true).unwrap().state_arg, 0);
    assert!(matches!(plan_main(&args, false), Err(MacroError::MainNotAsync)));
    assert!(matches!(plan_main(&vec![], true), Err(MacroError::StateMissing)));
    let not_type = vec![arg("state", str_value("AppState"))];
    assert!(matches!(plan_main(&not_type, true), Err(MacroError::StateNotType { arg: 0 })));
}

#[test]
fn controllers_nest_only_under_real_contexts() {
    assert!(!nests_under_context(""));
    assert!(!nests_under_context("/"));
    assert!(nests_under_context("/device"));
}

#[test]
fn field_kinds_compare_by_variant() {
    assert!(FieldKind::Path { name: None } == FieldKind::Path { name: Some("x".to_string()) });
    assert!(FieldKind::State != FieldKind::Context);
    assert_eq!(FieldKind::RequestBody.partial_cmp(&FieldKind::State), Some(Ordering::Greater));
    assert_eq!(FieldKind::State.partial_cmp(&FieldKind::RequestBody), Some(Ordering::Less));
    assert_eq!(FieldKind::QueryParams.partial_cmp(&FieldKind::State), Some(Ordering::Equal));
}
