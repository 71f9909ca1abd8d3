//! End-to-end scenarios over the verified core: the authentication gate,
//! the dispatcher, the built-in tool, and the credential-store build.

use mcp_server::auth::{
    auth_error_message, authenticate, build_credentials_store, AuthError, CredentialsConfig,
    CredentialsStore, UserConfig, UserCredentials,
};
use mcp_server::tools::{initialize_all_tools, GetTimeTool};
use mcp_server::validate::{check_value, json_get};
use mcp_server::{
    auth_error_envelope, finish_invoke, handle_discover, handle_invoke_lookup, Json, JsonNum,
    McpResponse, NumRepr, ERROR_AUTH, ERROR_INVALID_PARAMS, ERROR_METHOD_NOT_FOUND,
    ERROR_TOOL_EXECUTION,
};

fn key_of(x: f64) -> u64 {
    let x = x + 0.0;
    let b = x.to_bits();
    if b >> 63 == 1 {
        !b
    } else {
        b | (1u64 << 63)
    }
}

fn jnum_u(u: u64) -> Json {
    Json::Num(JsonNum { repr: NumRepr::PosInt(u), key: key_of(u as f64), txt: u.to_string() })
}

fn jnum_i(i: i64) -> Json {
    let repr = if i >= 0 { NumRepr::PosInt(i as u64) } else { NumRepr::NegInt(i) };
    Json::Num(JsonNum { repr, key: key_of(i as f64), txt: i.to_string() })
}

fn jnum_f(x: f64) -> Json {
    Json::Num(JsonNum { repr: NumRepr::Float, key: key_of(x), txt: format!("{}", x) })
}

fn jstr(s: &str) -> Json {
    Json::Str(s.to_string())
}

fn jobj(entries: Vec<(&str, Json)>) -> Json {
    Json::Obj(entries.into_iter().map(|(k, v)| (k.to_string(), v)).collect())
}

fn jarr(items: Vec<Json>) -> Json {
    Json::Arr(items)
}

fn alice_store() -> CredentialsStore {
    let mut store = CredentialsStore::new();
    assert!(store.insert(UserCredentials::new(
        "alice".to_string(),
        "k1".to_string(),
        Vec::new(),
    )));
    store
}

fn alice_user() -> mcp_server::auth::AuthenticatedUser {
    mcp_server::auth::AuthenticatedUser(UserCredentials::new(
        "alice".to_string(),
        "k1".to_string(),
        Vec::new(),
    ))
}

// ============================================================================
// Authentication scenarios
// ============================================================================

#[test]
fn missing_header_yields_missing_token_envelope() {
    let store = alice_store();
    let outcome = authenticate(None, &store);
    assert_eq!(outcome.unwrap_err(), AuthError::MissingToken);

    let envelope = auth_error_envelope(AuthError::MissingToken);
    assert!(envelope.result.is_none());
    let error = envelope.error.unwrap();
    assert_eq!(error.code, ERROR_AUTH);
    assert_eq!(error.message, "Missing Authorization header");
}

#[test]
fn malformed_header_yields_invalid_format() {
    let store = alice_store();
    let outcome = authenticate(Some("Basic dGVzdDp0ZXN0"), &store);
    assert_eq!(outcome.unwrap_err(), AuthError::InvalidFormat);
    assert_eq!(
        auth_error_message(AuthError::InvalidFormat),
        "Invalid Authorization header format. Expected: Bearer <token>"
    );
}

#[test]
fn bare_token_without_bearer_prefix_is_refused() {
    let store = alice_store();
    let outcome = authenticate(Some("k1"), &store);
    assert_eq!(outcome.unwrap_err(), AuthError::InvalidFormat);
}

#[test]
fn unknown_key_yields_invalid_token_envelope() {
    let store = alice_store();
    let outcome = authenticate(Some("Bearer nobody"), &store);
    assert_eq!(outcome.unwrap_err(), AuthError::InvalidToken);

    let envelope = auth_error_envelope(AuthError::InvalidToken);
    let error = envelope.error.unwrap();
    assert_eq!(error.code, ERROR_AUTH);
    assert_eq!(error.message, "Invalid or expired API key");
}

#[test]
fn known_key_authenticates() {
    let store = alice_store();
    let creds = authenticate(Some("Bearer k1"), &store).unwrap();
    assert_eq!(creds.username, "alice");
    assert_eq!(creds.api_key, "k1");
}

// ============================================================================
// Envelope shape
// ============================================================================

#[test]
fn success_envelope_has_result_and_no_error() {
    let response = McpResponse::success(jobj(vec![("ok", Json::Bool(true))]));
    assert!(response.result.is_some());
    assert!(response.error.is_none());
    assert_eq!(response.jsonrpc, "2.0");
}

#[test]
fn error_envelope_has_error_and_no_result() {
    let response = McpResponse::error(ERROR_TOOL_EXECUTION, "broken".to_string(), None);
    assert!(response.result.is_none());
    assert!(response.error.is_some());
    assert_eq!(response.jsonrpc, "2.0");
}

// ============================================================================
// Discovery
// ============================================================================

#[test]
fn discover_lists_registered_tools() {
    let registry = initialize_all_tools();
    let response = handle_discover(&registry);

    let result = response.result.unwrap();
    let tools = json_get(&result, &"tools".to_string()).unwrap();
    let items = match tools {
        Json::Arr(items) => items,
        other => panic!("tools should be an array, got {:?}", other),
    };
    assert_eq!(items.len(), 1);
    assert_eq!(
        json_get(&items[0], &"name".to_string()),
        Some(&jstr("get_current_time"))
    );
    assert!(json_get(&items[0], &"description".to_string()).is_some());
    assert!(json_get(&items[0], &"parameters".to_string()).is_some());
}

#[test]
fn discover_is_idempotent() {
    let registry = initialize_all_tools();
    let first = handle_discover(&registry);
    let second = handle_discover(&registry);
    assert_eq!(first, second);
}

// ============================================================================
// Invocation
// ============================================================================

#[test]
fn invoking_unknown_tool_reports_available_tools() {
    let registry = initialize_all_tools();
    let outcome = handle_invoke_lookup(&registry, &"bogus".to_string());

    let response = outcome.unwrap_err();
    let error = response.error.unwrap();
    assert_eq!(error.code, ERROR_METHOD_NOT_FOUND);
    assert_eq!(error.message, "Tool 'bogus' not found");

    let data = error.data.unwrap();
    let available = json_get(&data, &"available_tools".to_string()).unwrap();
    match available {
        Json::Arr(names) => assert!(names.contains(&jstr("get_current_time"))),
        other => panic!("available_tools should be an array, got {:?}", other),
    }
}

#[test]
fn invoking_known_tool_yields_its_handle() {
    let registry = initialize_all_tools();
    let index = handle_invoke_lookup(&registry, &"get_current_time".to_string()).unwrap();
    assert_eq!(registry.definition_at(index).name, "get_current_time");
}

#[test]
fn executor_success_becomes_success_envelope() {
    let response = finish_invoke(Ok(jobj(vec![("current_time", jstr("now"))])));
    assert!(response.error.is_none());
    assert_eq!(response.result, Some(jobj(vec![("current_time", jstr("now"))])));
}

#[test]
fn parameter_failure_is_classified_as_invalid_params() {
    let response = finish_invoke(Err("Missing required parameter: 'name'".to_string()));
    let error = response.error.unwrap();
    assert_eq!(error.code, ERROR_INVALID_PARAMS);
    assert_eq!(
        error.message,
        "Invalid parameters: Missing required parameter: 'name'"
    );
}

#[test]
fn other_failures_are_classified_as_tool_errors() {
    let response = finish_invoke(Err("Database connection failed".to_string()));
    let error = response.error.unwrap();
    assert_eq!(error.code, ERROR_TOOL_EXECUTION);
    assert_eq!(error.message, "Tool execution error: Database connection failed");
}

#[test]
fn routing_discover_answers_outright() {
    let registry = initialize_all_tools();
    let request = mcp_server::McpRequest::Discover;
    match mcp_server::route_request(&registry, &request) {
        mcp_server::RouteOutcome::Done(response) => {
            assert_eq!(response, handle_discover(&registry));
        }
        mcp_server::RouteOutcome::RunTool { .. } => panic!("discover needs no executor"),
    }
}

#[test]
fn routing_invoke_resolves_known_tool() {
    let registry = initialize_all_tools();
    let request = mcp_server::McpRequest::Invoke {
        tool_name: "get_current_time".to_string(),
        arguments: None,
    };
    match mcp_server::route_request(&registry, &request) {
        mcp_server::RouteOutcome::RunTool { index } => assert_eq!(index, 0),
        mcp_server::RouteOutcome::Done(r) => panic!("expected an executor handle, got {:?}", r),
    }
}

// ============================================================================
// The built-in tool
// ============================================================================

#[test]
fn get_time_executes_without_arguments() {
    let tool = GetTimeTool;
    let result = tool.execute(None, &alice_user()).unwrap();
    let time = json_get(&result, &"current_time".to_string()).unwrap();
    match time {
        Json::Str(s) => assert!(!s.is_empty()),
        other => panic!("current_time should be a string, got {:?}", other),
    }
}

#[test]
fn get_time_refuses_unexpected_arguments() {
    let tool = GetTimeTool;
    let err = tool
        .execute(Some(jobj(vec![("timezone", jstr("UTC"))])), &alice_user())
        .unwrap_err();
    assert_eq!(err, "Unexpected parameter: 'timezone'");
}

// ============================================================================
// Validator scenarios with exact messages
// ============================================================================

#[test]
fn short_string_reports_minimum_length() {
    let schema = jobj(vec![
        ("type", jstr("object")),
        (
            "properties",
            jobj(vec![("n", jobj(vec![("type", jstr("string")), ("minLength", jnum_u(5))]))]),
        ),
        ("required", jarr(vec![])),
        ("additionalProperties", Json::Bool(false)),
    ]);
    let args = Some(jobj(vec![("n", jstr("ab"))]));

    let err = mcp_server::tools::validate_tool_args(&schema, &args).unwrap_err();
    assert!(err.contains("must be at least 5 characters long"));
    assert_eq!(err, "Parameter 'n' must be at least 5 characters long");
}

#[test]
fn integer_satisfies_number_schema() {
    let schema = jobj(vec![("type", jstr("number"))]);
    let outcome = check_value(&"v".to_string(), &jnum_u(42), &schema);
    assert!(outcome.is_ok());
}

#[test]
fn missing_required_arguments_lists_all_names() {
    let schema = jobj(vec![
        ("properties", jobj(vec![])),
        ("required", jarr(vec![jstr("a"), jstr("b")])),
    ]);
    let err = mcp_server::tools::validate_tool_args(&schema, &None).unwrap_err();
    assert_eq!(err, "Missing required arguments: a, b");
}

#[test]
fn wrong_type_message_is_exact() {
    let schema = jobj(vec![
        ("properties", jobj(vec![("name", jobj(vec![("type", jstr("string"))]))])),
    ]);
    let args = Some(jobj(vec![("name", jnum_u(7))]));
    let err = mcp_server::tools::validate_tool_args(&schema, &args).unwrap_err();
    assert_eq!(err, "Parameter 'name' must be of type 'string', got 'integer'");
}

#[test]
fn pattern_strips_all_carets_and_stars() {
    let schema = jobj(vec![(
        "properties",
        jobj(vec![("code", jobj(vec![("pattern", jstr("^^ab**"))]))]),
    )]);
    let ok_args = Some(jobj(vec![("code", jstr("abc"))]));
    assert!(mcp_server::tools::validate_tool_args(&schema, &ok_args).is_ok());

    let bad_args = Some(jobj(vec![("code", jstr("xabc"))]));
    let err = mcp_server::tools::validate_tool_args(&schema, &bad_args).unwrap_err();
    assert_eq!(err, "Parameter 'code' does not match required pattern");
}

#[test]
fn pattern_without_caret_and_star_is_ignored() {
    let schema = jobj(vec![(
        "properties",
        jobj(vec![("code", jobj(vec![("pattern", jstr("USER"))]))]),
    )]);
    let args = Some(jobj(vec![("code", jstr("something else"))]));
    assert!(mcp_server::tools::validate_tool_args(&schema, &args).is_ok());
}

#[test]
fn minimum_message_prints_schema_bound() {
    let schema = jobj(vec![(
        "properties",
        jobj(vec![("age", jobj(vec![("minimum", jnum_u(18))]))]),
    )]);
    let args = Some(jobj(vec![("age", jnum_u(15))]));
    let err = mcp_server::tools::validate_tool_args(&schema, &args).unwrap_err();
    assert_eq!(err, "Parameter 'age' must be at least 18");
}

#[test]
fn maximum_message_prints_schema_bound() {
    let schema = jobj(vec![(
        "properties",
        jobj(vec![("age", jobj(vec![("maximum", jnum_u(100))]))]),
    )]);
    let args = Some(jobj(vec![("age", jnum_u(150))]));
    let err = mcp_server::tools::validate_tool_args(&schema, &args).unwrap_err();
    assert_eq!(err, "Parameter 'age' must be at most 100");
}

#[test]
fn max_items_message_is_exact() {
    let schema = jobj(vec![(
        "properties",
        jobj(vec![("tags", jobj(vec![("maxItems", jnum_u(3))]))]),
    )]);
    let args = Some(jobj(vec![(
        "tags",
        jarr(vec![jnum_u(1), jnum_u(2), jnum_u(3), jnum_u(4)]),
    )]));
    let err = mcp_server::tools::validate_tool_args(&schema, &args).unwrap_err();
    assert_eq!(err, "Parameter 'tags' exceeds maximum array length of 3");
}

#[test]
fn byte_length_counts_encoded_units() {
    // Two characters, four bytes: exceeds a byte-based maximum of three.
    let schema = jobj(vec![(
        "properties",
        jobj(vec![("n", jobj(vec![("maxLength", jnum_u(3))]))]),
    )]);
    let args = Some(jobj(vec![("n", jstr("\u{e9}\u{e9}"))]));
    let err = mcp_server::tools::validate_tool_args(&schema, &args).unwrap_err();
    assert_eq!(err, "Parameter 'n' exceeds maximum length of 3");
}

#[test]
fn missing_required_message_is_exact() {
    let schema = jobj(vec![
        ("properties", jobj(vec![("f", jobj(vec![("type", jstr("string"))]))])),
        ("required", jarr(vec![jstr("f")])),
    ]);
    let args = Some(jobj(vec![]));
    let err = mcp_server::tools::validate_tool_args(&schema, &args).unwrap_err();
    assert_eq!(err, "Missing required parameter: 'f'");
}

#[test]
fn unexpected_parameter_message_is_exact() {
    let schema = jobj(vec![
        ("properties", jobj(vec![("name", jobj(vec![("type", jstr("string"))]))])),
        ("additionalProperties", Json::Bool(false)),
    ]);
    let args = Some(jobj(vec![("name", jstr("ok")), ("age", jnum_u(30))]));
    let err = mcp_server::tools::validate_tool_args(&schema, &args).unwrap_err();
    assert_eq!(err, "Unexpected parameter: 'age'");
}

#[test]
fn integer_value_compares_against_float_bound() {
    let schema = jobj(vec![(
        "properties",
        jobj(vec![("age", jobj(vec![("minimum", jnum_f(18.5))]))]),
    )]);

    let low = Some(jobj(vec![("age", jnum_i(18))]));
    let err = mcp_server::tools::validate_tool_args(&schema, &low).unwrap_err();
    assert_eq!(err, "Parameter 'age' must be at least 18.5");

    let high = Some(jobj(vec![("age", jnum_i(19))]));
    assert!(mcp_server::tools::validate_tool_args(&schema, &high).is_ok());
}

#[test]
fn negative_values_compare_numerically() {
    let schema = jobj(vec![(
        "properties",
        jobj(vec![("depth", jobj(vec![("minimum", jnum_i(-5))]))]),
    )]);

    let low = Some(jobj(vec![("depth", jnum_i(-10))]));
    let err = mcp_server::tools::validate_tool_args(&schema, &low).unwrap_err();
    assert_eq!(err, "Parameter 'depth' must be at least -5");

    let high = Some(jobj(vec![("depth", jnum_i(-3))]));
    assert!(mcp_server::tools::validate_tool_args(&schema, &high).is_ok());
}

#[test]
fn negative_integers_count_as_integers() {
    let schema = jobj(vec![("type", jstr("integer"))]);
    assert!(check_value(&"v".to_string(), &jnum_i(-3), &schema).is_ok());
}

#[test]
fn length_bounds_print_in_full() {
    let schema = jobj(vec![(
        "properties",
        jobj(vec![("n", jobj(vec![("minLength", jnum_u(12345))]))]),
    )]);
    let args = Some(jobj(vec![("n", jstr("short"))]));
    let err = mcp_server::tools::validate_tool_args(&schema, &args).unwrap_err();
    assert_eq!(err, "Parameter 'n' must be at least 12345 characters long");
}

#[test]
fn largest_length_bound_prints_in_full() {
    let schema = jobj(vec![(
        "properties",
        jobj(vec![("n", jobj(vec![("minLength", jnum_u(u64::MAX))]))]),
    )]);
    let args = Some(jobj(vec![("n", jstr("short"))]));
    let err = mcp_server::tools::validate_tool_args(&schema, &args).unwrap_err();
    assert_eq!(
        err,
        "Parameter 'n' must be at least 18446744073709551615 characters long"
    );
}

#[test]
fn non_string_required_entries_are_passed_over() {
    let schema = jobj(vec![
        ("properties", jobj(vec![])),
        ("required", jarr(vec![jstr("a"), jnum_u(5), jstr("b")])),
    ]);

    let missing_b = Some(jobj(vec![("a", jnum_u(1))]));
    let err = mcp_server::tools::validate_tool_args(&schema, &missing_b).unwrap_err();
    assert_eq!(err, "Missing required parameter: 'b'");

    let complete = Some(jobj(vec![("a", jnum_u(1)), ("b", jnum_u(2))]));
    assert!(mcp_server::tools::validate_tool_args(&schema, &complete).is_ok());
}

#[test]
fn null_arguments_are_not_an_object() {
    let schema = jobj(vec![("properties", jobj(vec![]))]);
    let args = Some(Json::Null);
    let err = mcp_server::tools::validate_tool_args(&schema, &args).unwrap_err();
    assert_eq!(err, "Arguments must be an object");
}

#[test]
fn additional_false_without_properties_admits_no_key() {
    let schema = jobj(vec![("additionalProperties", Json::Bool(false))]);

    let with_key = Some(jobj(vec![("k", Json::Null)]));
    let err = mcp_server::tools::validate_tool_args(&schema, &with_key).unwrap_err();
    assert_eq!(err, "Unexpected parameter: 'k'");

    let empty = Some(jobj(vec![]));
    assert!(mcp_server::tools::validate_tool_args(&schema, &empty).is_ok());

    assert!(mcp_server::tools::validate_tool_args(&schema, &None).is_ok());
}

#[test]
fn additional_false_with_non_object_properties_admits_no_key() {
    let schema = jobj(vec![
        ("properties", jstr("not an object")),
        ("additionalProperties", Json::Bool(false)),
    ]);
    let args = Some(jobj(vec![("k", jnum_u(1))]));
    let err = mcp_server::tools::validate_tool_args(&schema, &args).unwrap_err();
    assert_eq!(err, "Unexpected parameter: 'k'");
}

// ============================================================================
// Registry collisions
// ============================================================================

#[test]
fn duplicate_tool_name_is_fatal() {
    let mut registry = mcp_server::Registry::new();
    let def = mcp_server::ToolDefinition {
        name: "clock".to_string(),
        description: "first".to_string(),
        parameters: jobj(vec![]),
    };
    registry.register(def).unwrap();

    let twin = mcp_server::ToolDefinition {
        name: "clock".to_string(),
        description: "second".to_string(),
        parameters: jobj(vec![]),
    };
    let err = registry.register(twin).unwrap_err();
    assert_eq!(
        err,
        "Duplicate tool name detected: 'clock'. Each tool must have a unique name."
    );
    assert_eq!(registry.len(), 1);
}

// ============================================================================
// Building the credential store
// ============================================================================

fn user_config(api_key: &str) -> UserConfig {
    UserConfig { api_key: api_key.to_string(), external_keys: Vec::new() }
}

#[test]
fn empty_configuration_is_refused() {
    let config = CredentialsConfig { users: Vec::new() };
    let err = build_credentials_store(&config).unwrap_err();
    assert_eq!(err, "No users found in credentials file");
}

#[test]
fn duplicate_api_key_is_refused() {
    let config = CredentialsConfig {
        users: vec![
            ("alice".to_string(), user_config("duplicate-key")),
            ("bob".to_string(), user_config("duplicate-key")),
        ],
    };
    let err = build_credentials_store(&config).unwrap_err();
    assert_eq!(err, "Duplicate API key found for user 'bob': duplicate-key");
}

#[test]
fn store_is_indexed_by_api_key() {
    let config = CredentialsConfig {
        users: vec![
            ("alice".to_string(), user_config("alice-key-123")),
            ("bob".to_string(), user_config("bob-key-456")),
        ],
    };
    let store = build_credentials_store(&config).unwrap();
    assert_eq!(store.len(), 2);

    let alice = mcp_server::auth::validate_api_key("alice-key-123", &store).unwrap();
    assert_eq!(alice.username, "alice");
    let bob = mcp_server::auth::validate_api_key("bob-key-456", &store).unwrap();
    assert_eq!(bob.username, "bob");
}
