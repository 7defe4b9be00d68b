use httprs::auth::{Auth, AuthParseError};
use httprs::auth::{auth_header_value, parse_auth};

#[test]
fn parse_auth_basic() {
    // Basic Auth: username:password
    assert_eq!(
        "alice:secret123".parse::<Auth>().unwrap(),
        Auth::Basic {
            username: "alice".into(),
            password: Some("secret123".into()),
        }
    );

    // Basic Auth: only username
    assert_eq!(
        "bob".parse::<Auth>().unwrap(),
        Auth::Basic {
            username: "bob".into(),
            password: None,
        }
    );

    // Password with colons
    assert_eq!(
        "user:pass:with:colons".parse::<Auth>().unwrap(),
        Auth::Basic {
            username: "user".into(),
            password: Some("pass:with:colons".into()),
        }
    );
}

#[test]
fn parse_auth_bearer() {
    // Explicit Bearer format
    assert_eq!(
        "bearer:ghp_xxxxx".parse::<Auth>().unwrap(),
        Auth::Bearer("ghp_xxxxx".into())
    );

    // Auto-detect GitHub token
    assert_eq!(
        "ghp_1234567890abcdef".parse::<Auth>().unwrap(),
        Auth::Bearer("ghp_1234567890abcdef".into())
    );

    // Auto-detect GitLab token
    assert_eq!(
        "glpat-xxxxx".parse::<Auth>().unwrap(),
        Auth::Bearer("glpat-xxxxx".into())
    );

    // Auto-detect Stripe token
    assert_eq!(
        "sk_test_xxxxx".parse::<Auth>().unwrap(),
        Auth::Bearer("sk_test_xxxxx".into())
    );
}

#[test]
fn parse_auth_errors() {
    // Empty username
    assert!("".parse::<Auth>().is_err());
    assert!(":password".parse::<Auth>().is_err());

    // Empty Bearer token
    assert!("bearer:".parse::<Auth>().is_err());
}

#[test]
fn auth_basic_without_password() {
    let auth = "admin".parse::<Auth>().unwrap();
    assert_eq!(
        auth,
        Auth::Basic {
            username: "admin".into(),
            password: None
        }
    );
}

#[test]
fn auth_github_tokens() {
    let tokens = vec![
        "ghp_test123",
        "gho_test456",
        "ghs_test789",
        "ghu_testabc",
    ];

    for token in tokens {
        let auth = token.parse::<Auth>().unwrap();
        assert_eq!(auth, Auth::Bearer(token.to_string()));
    }
}

#[test]
fn auth_bearer_explicit_lowercase() {
    let auth = "bearer:test_token_123".parse::<Auth>().unwrap();
    assert_eq!(auth, Auth::Bearer("test_token_123".to_string()));
}

#[test]
fn auth_bearer_explicit_uppercase() {
    let auth = "Bearer:TEST_TOKEN".parse::<Auth>().unwrap();
    assert_eq!(auth, Auth::Bearer("TEST_TOKEN".to_string()));
}

#[test]
fn auth_basic_with_special_chars() {
    let auth = "user@example.com:p@ssw0rd!".parse::<Auth>().unwrap();
    assert_eq!(
        auth,
        Auth::Basic {
            username: "user@example.com".to_string(),
            password: Some("p@ssw0rd!".to_string())
        }
    );
}

#[test]
fn auth_equality() {
    let auth1 = Auth::Bearer("token123".to_string());
    let auth2 = Auth::Bearer("token123".to_string());
    let auth3 = Auth::Bearer("different".to_string());

    assert_eq!(auth1, auth2);
    assert_ne!(auth1, auth3);

    let basic1 = Auth::Basic {
        username: "user".to_string(),
        password: Some("pass".to_string()),
    };
    let basic2 = Auth::Basic {
        username: "user".to_string(),
        password: Some("pass".to_string()),
    };

    assert_eq!(basic1, basic2);
    assert_ne!(auth1, basic1);
}

#[test]
fn auth_clone() {
    let auth = Auth::Bearer("token".to_string());
    let cloned = auth.clone();
    assert_eq!(auth, cloned);
}

#[test]
fn auth_error_messages() {
    assert_eq!(
        AuthParseError::EmptyUsername.message(),
        "Username cannot be empty"
    );
    assert_eq!(
        AuthParseError::EmptyBearerToken.message(),
        "Bearer token cannot be empty."
    );
    assert_eq!(parse_auth(":pw"), Err(AuthParseError::EmptyUsername));
    assert_eq!(parse_auth("Bearer:"), Err(AuthParseError::EmptyBearerToken));
}

#[test]
fn auth_header_value_basic_encodes_credentials() {
    // base64("alice:secret123"), so a wrapper that echoed its input would fail
    let auth = Auth::Basic {
        username: "alice".to_string(),
        password: Some("secret123".to_string()),
    };
    assert_eq!(auth_header_value(&auth), "Basic YWxpY2U6c2VjcmV0MTIz");

    let no_pass = Auth::Basic {
        username: "admin".to_string(),
        password: None,
    };
    assert_eq!(auth_header_value(&no_pass), "Basic YWRtaW4=");
}

#[test]
fn auth_header_value_bearer_is_verbatim() {
    let auth = Auth::Bearer("token123".to_string());
    assert_eq!(auth_header_value(&auth), "Bearer token123");
}
