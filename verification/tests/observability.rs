use coordin8::observability::{
    export_enabled, grpc_code_label, parse_endpoint, route_metrics_request, split_grpc_path, FailureClass, LogFormat,
    LoggingConfig, MetricsConfig, MetricsRoute,
};

#[test]
fn defaults_to_pretty_when_unset() {
    assert_eq!(LogFormat::from_opt(None), LogFormat::Pretty);
}

#[test]
fn defaults_to_pretty_for_unrecognized_value() {
    assert_eq!(LogFormat::from_opt(Some("syslog")), LogFormat::Pretty);
    assert_eq!(LogFormat::from_opt(Some("")), LogFormat::Pretty);
}

#[test]
fn json_when_set() {
    assert_eq!(LogFormat::from_opt(Some("json")), LogFormat::Json);
}

#[test]
fn json_is_case_insensitive() {
    assert_eq!(LogFormat::from_opt(Some("JSON")), LogFormat::Json);
    assert_eq!(LogFormat::from_opt(Some("Json")), LogFormat::Json);
}

#[test]
fn logging_config_reads_its_setting() {
    assert_eq!(LoggingConfig::from_env(Some("jSoN")).format(), LogFormat::Json);
    assert_eq!(LoggingConfig::from_env(Some("jsonl")).format(), LogFormat::Pretty);
    assert_eq!(LoggingConfig::from_env(None).format(), LogFormat::Pretty);
}

#[test]
fn split_grpc_path_splits_service_and_method() {
    assert_eq!(
        split_grpc_path("/coordin8.RegistryService/LookupAll"),
        ("coordin8.RegistryService".to_string(), "LookupAll".to_string())
    );
}

#[test]
fn split_grpc_path_falls_back_on_malformed_input() {
    assert_eq!(split_grpc_path("nonsense"), ("unknown".to_string(), "nonsense".to_string()));
    assert_eq!(split_grpc_path(""), ("unknown".to_string(), "".to_string()));
}

#[test]
fn split_grpc_path_trims_every_leading_slash_and_splits_at_the_first() {
    assert_eq!(split_grpc_path("///svc/a/b"), ("svc".to_string(), "a/b".to_string()));
    assert_eq!(split_grpc_path("//"), ("unknown".to_string(), "".to_string()));
    assert_eq!(split_grpc_path("/svc/"), ("svc".to_string(), "".to_string()));
}

#[test]
fn metrics_config_disabled_when_port_unset() {
    assert!(!MetricsConfig { port: None }.enabled());
}

#[test]
fn metrics_config_enabled_when_port_set() {
    assert!(MetricsConfig { port: Some(9100) }.enabled());
}

#[test]
fn metrics_port_setting_is_parsed() {
    assert_eq!(MetricsConfig::from_env(Some("9100")).port, Some(9100));
    assert_eq!(MetricsConfig::from_env(Some("+80")).port, Some(80));
    assert_eq!(MetricsConfig::from_env(Some("65536")).port, None);
    assert_eq!(MetricsConfig::from_env(Some("port")).port, None);
    assert_eq!(MetricsConfig::from_env(Some("")).port, None);
    assert_eq!(MetricsConfig::from_env(None).port, None);
}

#[test]
fn metrics_endpoint_routes_by_path_then_method() {
    assert_eq!(route_metrics_request("/metrics", "GET"), MetricsRoute::Snapshot);
    assert_eq!(route_metrics_request("/metrics", "POST"), MetricsRoute::MethodNotAllowed);
    assert_eq!(route_metrics_request("/", "GET"), MetricsRoute::NotFound);
    assert_eq!(route_metrics_request("/metrics/", "POST"), MetricsRoute::NotFound);
}

#[test]
fn grpc_code_label_never_leaks_free_text_error_into_the_label() {
    let class = FailureClass::Error("some very specific transport failure".to_string());
    assert_eq!(grpc_code_label(&class), "transport_error");
}

#[test]
fn grpc_code_label_names_known_and_unknown_codes() {
    let known = FailureClass::Status { name: Some("NotFound".to_string()), raw: 5 };
    assert_eq!(grpc_code_label(&known), "NotFound");
    let unknown = FailureClass::Status { name: None, raw: -42 };
    assert_eq!(grpc_code_label(&unknown), "unrecognized(-42)");
    let unknown = FailureClass::Status { name: None, raw: 1234 };
    assert_eq!(grpc_code_label(&unknown), "unrecognized(1234)");
    assert_eq!(grpc_code_label(&FailureClass::Other), "unknown");
}

#[test]
fn endpoint_treats_empty_string_as_unset() {
    assert_eq!(parse_endpoint(Some("")), None);
    assert_eq!(parse_endpoint(None), None);
    assert_eq!(parse_endpoint(Some("http://localhost:4317")), Some("http://localhost:4317".to_string()));
}

#[test]
fn export_disabled_without_endpoint() {
    assert!(!export_enabled(&None));
}

#[test]
fn export_enabled_with_endpoint() {
    assert!(export_enabled(&Some("http://localhost:4317".to_string())));
}

#[test]
fn decimal_text_of_integers() {
    assert_eq!(coordin8::env::int_text(0), "0");
    assert_eq!(coordin8::env::int_text(7), "7");
    assert_eq!(coordin8::env::int_text(50051), "50051");
    assert_eq!(coordin8::env::int_text(-42), "-42");
    assert_eq!(coordin8::env::int_text(i32::MIN), "-2147483648");
    assert_eq!(coordin8::env::int_text(i32::MAX), "2147483647");
    assert_eq!(coordin8::env::concat("registry:", "C1"), "registry:C1");
    assert_eq!(coordin8::env::concat("", ""), "");
}
