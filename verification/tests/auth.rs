use std::sync::Arc;

use coordin8::auth::{
    attached, bearer_value, extract_bearer_token, token_claims, validate_baseline, validate_baseline_at, Admission, AuthConfig,
    AuthFailure, AuthHeader, Claims, ClientAuthConfig, ClientStrategy, TokenSource,
};

fn config(secret: &str) -> AuthConfig {
    AuthConfig { secret: Some(secret.to_string()), verify_signature: true, issuer: None }
}

fn claims(exp: i64, iss: Option<&str>) -> Claims {
    Claims { sub: "greeter".to_string(), exp, iat: 0, scope: None, iss: iss.map(|s| s.to_string()) }
}

struct Fixed(Option<String>);

impl TokenSource for Fixed {
    fn token(&self) -> Option<String> {
        self.0.clone()
    }
}

#[test]
fn disabled_config_is_a_no_op() {
    let cfg = AuthConfig::default();
    assert!(!cfg.enabled());
    assert!(matches!(cfg.check_request(&AuthHeader::Missing), Ok(Admission::Open)));
}

#[test]
fn missing_token_is_rejected_when_enabled() {
    let cfg = config("shh");
    assert!(matches!(cfg.check_request(&AuthHeader::Missing), Err(AuthFailure::MissingMetadata)));
}

#[test]
fn non_bearer_metadata_is_rejected() {
    let cfg = config("shh");
    assert!(matches!(cfg.check_request(&AuthHeader::Text("Basic abc".to_string())), Err(AuthFailure::NotBearer)));
    assert!(matches!(cfg.check_request(&AuthHeader::NotText), Err(AuthFailure::NotText)));
}

#[test]
fn bearer_token_is_decoded_with_the_secret() {
    let cfg = config("shh");
    match cfg.check_request(&AuthHeader::Text("Bearer abc.def".to_string())).unwrap() {
        Admission::Decode { token, verify_with } => {
            assert_eq!(token, "abc.def");
            assert_eq!(verify_with, Some("shh".to_string()));
        }
        Admission::Open => panic!("authentication is on"),
    }
    let mut unverified = config("shh");
    unverified.verify_signature = false;
    assert!(matches!(
        unverified.check_request(&AuthHeader::Text("Bearer t".to_string())),
        Ok(Admission::Decode { verify_with: None, .. })
    ));
}

#[test]
fn expired_token_is_rejected() {
    let cfg = config("shh");
    assert!(matches!(cfg.accept_at(Ok(claims(100, None)), 100), Err(AuthFailure::Expired)));
    assert!(cfg.accept_at(Ok(claims(101, None)), 100).is_ok());
}

#[test]
fn issuer_mismatch_is_rejected() {
    let cfg = config("shh").with_issuer("coordin8".to_string());
    assert!(matches!(cfg.accept_at(Ok(claims(500, Some("someone-else"))), 100), Err(AuthFailure::UntrustedIssuer)));
    assert!(matches!(cfg.accept_at(Ok(claims(500, None)), 100), Err(AuthFailure::UntrustedIssuer)));
    assert!(cfg.accept_at(Ok(claims(500, Some("coordin8"))), 100).is_ok());
}

#[test]
fn undecodable_token_is_rejected() {
    let cfg = config("shh");
    let err = cfg.accept_at(Err("InvalidSignature".to_string()), 0).unwrap_err();
    assert_eq!(err.message(), "invalid token: InvalidSignature");
    let mut unverified = config("shh");
    unverified.verify_signature = false;
    let err = unverified.accept_at(Err("bad json".to_string()), 0).unwrap_err();
    assert_eq!(err.message(), "malformed token: bad json");
}

#[test]
fn failure_messages() {
    assert_eq!(AuthFailure::MissingMetadata.message(), "missing authorization metadata");
    assert_eq!(AuthFailure::Expired.message(), "token expired");
    assert_eq!(AuthFailure::UntrustedIssuer.message(), "token issuer not trusted");
    assert_eq!(AuthFailure::NotBearer.message(), "authorization metadata must be a Bearer token");
}

#[test]
fn settings_from_the_environment_values() {
    let cfg = AuthConfig::from_env(Some(""), None);
    assert!(!cfg.enabled());
    assert!(cfg.verify_signature);
    let cfg = AuthConfig::from_env(Some("s"), Some("0"));
    assert!(cfg.enabled());
    assert!(!cfg.verify_signature);
    assert!(!AuthConfig::from_env(None, Some("false")).verify_signature);
    assert!(AuthConfig::from_env(None, Some("no")).verify_signature);
}

#[test]
fn client_strategy_follows_the_secret() {
    assert!(matches!(AuthConfig::default().client_strategy("space"), ClientStrategy::Trust));
    match config("shh").client_strategy("space") {
        ClientStrategy::SelfMinted { secret, subject } => {
            assert_eq!(secret, "shh");
            assert_eq!(subject, "space");
        }
        ClientStrategy::Trust => panic!("authentication is on"),
    }
}

#[test]
fn minted_claims() {
    let c = token_claims("space", 1_000, 300, Some("admin".to_string()), None);
    assert_eq!(c.sub, "space");
    assert_eq!(c.iat, 1_000);
    assert_eq!(c.exp, 1_300);
    assert_eq!(c.scope, Some("admin".to_string()));
    assert!(validate_baseline_at(&c, None, 1_000).is_ok());
    let stale = token_claims("space", 1_000, -5, None, None);
    assert!(matches!(validate_baseline_at(&stale, None, 1_000), Err(AuthFailure::Expired)));
}

#[test]
fn bearer_round_trip() {
    let header = AuthHeader::Text(bearer_value("from-mtls-cn"));
    assert_eq!(extract_bearer_token(&header).unwrap(), "from-mtls-cn");
    assert_eq!(attached(Some("t".to_string())).unwrap(), Some("Bearer t".to_string()));
    assert_eq!(attached(None).unwrap(), None);
}

#[test]
fn trust_attaches_nothing() {
    let interceptor = ClientAuthConfig::trust().interceptor();
    assert!(interceptor.authorization().unwrap().is_none());
}

#[test]
fn custom_provider_attaches_whatever_it_returns() {
    let source: Arc<dyn TokenSource> = Arc::new(Fixed(Some("from-mtls-cn".to_string())));
    let interceptor = ClientAuthConfig::from_provider(Some(source)).interceptor();
    assert_eq!(interceptor.authorization().unwrap().as_deref(), Some("Bearer from-mtls-cn"));
}

#[test]
fn custom_provider_returning_none_attaches_nothing() {
    let source: Arc<dyn TokenSource> = Arc::new(Fixed(None));
    let interceptor = ClientAuthConfig::from_provider(Some(source)).interceptor();
    assert!(interceptor.authorization().unwrap().is_none());
}

#[test]
fn baseline_by_wall_clock() {
    assert!(validate_baseline(&claims(i64::MAX, None), None).is_ok());
    assert!(matches!(validate_baseline(&claims(0, None), None), Err(AuthFailure::Expired)));
    assert!(matches!(validate_baseline(&claims(i64::MAX, None), Some("x")), Err(AuthFailure::UntrustedIssuer)));
}

#[test]
fn token_that_is_not_metadata_is_refused() {
    let source: Arc<dyn TokenSource> = Arc::new(Fixed(Some("bad\ntoken".to_string())));
    let interceptor = ClientAuthConfig::from_provider(Some(source)).interceptor();
    let err = interceptor.authorization().unwrap_err();
    assert_eq!(err.message(), "token is not valid metadata");
    assert!(attached(Some("del\u{7f}".to_string())).is_err());
    assert!(attached(Some("nul\u{0}".to_string())).is_err());
}

#[test]
fn tabs_and_non_ascii_text_are_valid_metadata() {
    assert_eq!(attached(Some("a\tb".to_string())).unwrap(), Some("Bearer a\tb".to_string()));
    assert_eq!(attached(Some("t\u{f6}k".to_string())).unwrap(), Some("Bearer t\u{f6}k".to_string()));
    assert_eq!(attached(Some(String::new())).unwrap(), Some("Bearer ".to_string()));
}
