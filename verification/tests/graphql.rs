use cello::graphql::{
    extract_field_name, handle_introspection, FieldDef, GraphQLConfig, GraphQLError, GraphQLMiddleware, GraphQLResponse,
    GraphQLRoute, GraphQLSchema, GraphQLType, QueryPlan, ResolverContext, TypeDef,
};
use cello::http::{JsonValue, Request};
use cello::strmap::StrMap;

#[test]
fn graphql_test_config_builder() {
    let config = GraphQLConfig::new()
        .with_path("/api/graphql")
        .with_playground(false)
        .with_max_depth(5);

    assert_eq!(config.path, "/api/graphql");
    assert!(!config.playground);
    assert_eq!(config.max_depth, Some(5));
}

#[test]
fn field_names_and_plans() {
    assert_eq!(extract_field_name("{ users { id name } }"), Some("users".to_string()));
    assert_eq!(extract_field_name("query { user(id: 1) { name } }"), Some("user".to_string()));
    assert_eq!(extract_field_name("no braces"), None);
    let m = GraphQLMiddleware::new(GraphQLConfig::new());
    match m.plan("mutation { createUser }", "Query", Some("Mutation")) {
        QueryPlan::Resolve { target, field_name } => {
            assert_eq!(target, "Mutation");
            assert_eq!(field_name, "createUser");
        }
        _ => panic!("not a resolver plan"),
    }
    assert!(matches!(m.plan("{ __schema { types } }", "Query", None), QueryPlan::Introspection));
    let closed = GraphQLMiddleware::new(GraphQLConfig::new().with_introspection(false));
    assert!(matches!(closed.plan("{ __type }", "Query", None), QueryPlan::IntrospectionDisabled));
    assert!(matches!(m.plan("   ", "Query", None), QueryPlan::Unparsable));
}

#[test]
fn routes_and_playground() {
    let m = GraphQLMiddleware::new(GraphQLConfig::new());
    assert_eq!(m.route("GET", "/graphql"), GraphQLRoute::Playground);
    assert_eq!(m.route("POST", "/graphql"), GraphQLRoute::Query);
    assert_eq!(m.route("PUT", "/graphql"), GraphQLRoute::MethodNotAllowed);
    assert_eq!(m.route("GET", "/other"), GraphQLRoute::Pass);
    assert!(m.playground_html().contains("endpoint: '/graphql'"));
    assert_eq!(GraphQLMiddleware::no_resolver_error("Query", "x"), "No resolver found for Query.x");
}

#[test]
fn introspection_describes_schema() {
    let schema = GraphQLSchema::new()
        .with_mutation_type("Mutation")
        .add_type(TypeDef {
            name: "User".to_string(),
            kind: GraphQLType::Object,
            description: Some("A user".to_string()),
            fields: vec![FieldDef {
                name: "id".to_string(),
                field_type: "ID".to_string(),
                description: None,
                arguments: vec![],
            }],
        });
    let resp = handle_introspection(&schema);
    assert!(resp.errors.is_empty());
    let data = resp.data.unwrap();
    let inner = match data.get("__schema") {
        Some(v) => v,
        None => panic!("no __schema"),
    };
    assert!(matches!(inner.get("queryType").and_then(|q| q.get("name")), Some(JsonValue::Str(n)) if n == "Query"));
    assert!(matches!(inner.get("mutationType").and_then(|q| q.get("name")), Some(JsonValue::Str(n)) if n == "Mutation"));
    assert!(matches!(inner.get("subscriptionType"), Some(JsonValue::Null)));
    match inner.get("types") {
        Some(JsonValue::Array(ts)) => {
            assert_eq!(ts.len(), 1);
            assert!(matches!(ts[0].get("kind"), Some(JsonValue::Str(k)) if k == "OBJECT"));
            assert!(matches!(ts[0].get("description"), Some(JsonValue::Str(d)) if d == "A user"));
        }
        _ => panic!("no types"),
    }
}

#[test]
fn errors_and_responses() {
    let e = GraphQLError::new("bad").with_location(1, 2).with_extension("code", JsonValue::Str("X".to_string()));
    assert_eq!(e.message, "bad");
    assert_eq!(e.locations.as_ref().unwrap()[0].column, 2);
    assert!(e.extensions.as_ref().unwrap().get("code").is_some());
    let r = GraphQLResponse::error(e);
    assert!(r.data.is_none());
    assert_eq!(r.errors.len(), 1);
    let mut vars = StrMap::new();
    vars.insert("id".to_string(), JsonValue::Number("7".to_string()));
    let ctx = ResolverContext::new(Request::new("POST", "/graphql")).with_variables(vars);
    assert!(matches!(ctx.var("id"), Some(JsonValue::Number(n)) if n == "7"));
    assert!(ctx.arg("id").is_none());
}
