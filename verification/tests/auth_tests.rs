use mcp_server::auth::{validate_api_key, AuthenticatedUser, CredentialsStore, UserCredentials};

const TEST_API_KEY: &str = "test-api-key-12345";
const TEST_API_KEY_2: &str = "test-api-key-67890";
const TEST_USERNAME: &str = "testuser";
const TEST_USERNAME_2: &str = "testuser2";

fn pairs(entries: Vec<(&str, &str)>) -> Vec<(String, String)> {
    entries.into_iter().map(|(k, v)| (k.to_string(), v.to_string())).collect()
}

fn create_test_user() -> UserCredentials {
    UserCredentials::new(TEST_USERNAME.to_string(), TEST_API_KEY.to_string(), Vec::new())
}

fn create_test_user_with_external_keys() -> UserCredentials {
    UserCredentials::new(
        TEST_USERNAME.to_string(),
        TEST_API_KEY.to_string(),
        pairs(vec![
            ("postgres_url", "postgresql://localhost/testdb"),
            ("stripe_key", "sk_test_123"),
        ]),
    )
}

fn create_test_credentials_store() -> CredentialsStore {
    let mut store = CredentialsStore::new();
    assert!(store.insert(create_test_user()));
    store
}

fn create_multi_user_credentials_store() -> CredentialsStore {
    let mut store = CredentialsStore::new();
    assert!(store.insert(create_test_user()));
    assert!(store.insert(UserCredentials::new(
        TEST_USERNAME_2.to_string(),
        TEST_API_KEY_2.to_string(),
        pairs(vec![
            ("postgres_url", "postgresql://localhost/test"),
            ("api_key", "external-api-key"),
        ]),
    )));
    store
}

#[test]
fn test_user_credentials_new() {
    let username = "alice";
    let api_key = "alice-key";
    let external_keys = pairs(vec![("db_url", "postgresql://localhost/db")]);

    let creds = UserCredentials::new(
        username.to_string(),
        api_key.to_string(),
        external_keys.clone(),
    );

    assert_eq!(creds.username, username);
    assert_eq!(creds.api_key, api_key);
    assert_eq!(creds.external_keys.len(), 1);
    assert_eq!(
        creds.get_external_key("db_url"),
        Some(&"postgresql://localhost/db".to_string())
    );
}

#[test]
fn test_user_credentials_get_external_key_exists() {
    let creds = UserCredentials::new(
        "testuser".to_string(),
        "test-key".to_string(),
        pairs(vec![
            ("postgres_url", "postgresql://localhost/testdb"),
            ("stripe_key", "sk_test_123"),
        ]),
    );

    assert_eq!(
        creds.get_external_key("postgres_url"),
        Some(&"postgresql://localhost/testdb".to_string())
    );
    assert_eq!(
        creds.get_external_key("stripe_key"),
        Some(&"sk_test_123".to_string())
    );
}

#[test]
fn test_user_credentials_get_external_key_not_exists() {
    let creds = UserCredentials::new("testuser".to_string(), "test-key".to_string(), Vec::new());

    assert_eq!(creds.get_external_key("nonexistent_key"), None);
}

#[test]
fn test_user_credentials_no_external_keys() {
    let creds = create_test_user();
    assert_eq!(creds.external_keys.len(), 0);
    assert_eq!(creds.get_external_key("any_key"), None);
}

#[test]
fn test_authenticated_user_credentials() {
    let user_creds = create_test_user();
    let auth_user = AuthenticatedUser(user_creds.clone());

    assert_eq!(auth_user.credentials().username, user_creds.username);
    assert_eq!(auth_user.credentials().api_key, user_creds.api_key);
}

#[test]
fn test_authenticated_user_get_external_key() {
    let user_creds = create_test_user_with_external_keys();
    let auth_user = AuthenticatedUser(user_creds);

    assert_eq!(
        auth_user.get_external_key("postgres_url"),
        Some(&"postgresql://localhost/testdb".to_string())
    );
    assert_eq!(
        auth_user.get_external_key("stripe_key"),
        Some(&"sk_test_123".to_string())
    );
    assert_eq!(auth_user.get_external_key("nonexistent"), None);
}

#[test]
fn test_validate_api_key_valid() {
    let store = create_test_credentials_store();
    let result = validate_api_key(TEST_API_KEY, &store);

    assert!(result.is_some());
    let creds = result.unwrap();
    assert_eq!(creds.username, TEST_USERNAME);
    assert_eq!(creds.api_key, TEST_API_KEY);
}

#[test]
fn test_validate_api_key_invalid() {
    let store = create_test_credentials_store();
    let result = validate_api_key("invalid-key", &store);

    assert!(result.is_none());
}

#[test]
fn test_validate_api_key_empty_store() {
    let store = CredentialsStore::new();
    let result = validate_api_key(TEST_API_KEY, &store);

    assert!(result.is_none());
}

#[test]
fn test_validate_api_key_multiple_users() {
    let store = create_multi_user_credentials_store();

    // Validate first user
    let result1 = validate_api_key(TEST_API_KEY, &store);
    assert!(result1.is_some());
    let creds1 = result1.unwrap();
    assert_eq!(creds1.username, TEST_USERNAME);

    // Validate second user
    let result2 = validate_api_key(TEST_API_KEY_2, &store);
    assert!(result2.is_some());
    let creds2 = result2.unwrap();
    assert_eq!(creds2.username, TEST_USERNAME_2);
    assert_eq!(creds2.external_keys.len(), 2);
}

#[test]
fn test_credentials_clone() {
    let creds = create_test_user_with_external_keys();
    let cloned = creds.clone();

    assert_eq!(creds.username, cloned.username);
    assert_eq!(creds.api_key, cloned.api_key);
    assert_eq!(creds.external_keys.len(), cloned.external_keys.len());
}

#[test]
fn test_authenticated_user_clone() {
    let user_creds = create_test_user();
    let auth_user = AuthenticatedUser(user_creds);
    let cloned = auth_user.clone();

    assert_eq!(
        auth_user.credentials().username,
        cloned.credentials().username
    );
}

#[test]
fn test_auth_layer_new() {
    let credentials = create_test_credentials_store();
    let layer = mcp_server::auth::AuthLayer::new(credentials.clone());

    // Construction succeeds; the store is held behind the layer.
    drop(layer);
}
