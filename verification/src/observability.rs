//! The decisions behind logging, tracing and metrics: which log encoding
//! a setting selects, whether metrics and trace export are on, how an RPC
//! path is labelled, and how the metrics endpoint routes a request.
use vstd::prelude::*;

use crate::env::{concat, int_text};
use crate::text::{
    ascii_case_eq, digits_value, eq_ignore_ascii_case, free_of, is_unsigned_literal, parse_u16, split_once_char,
    str_eq, trim_start_char, unsigned_digits,
};

verus! {

/// How log lines are encoded.
#[derive(Debug, Clone, Copy, PartialEq, Eq, Structural)]
pub enum LogFormat {
    /// Human-readable text: the default.
    Pretty,
    /// One JSON object per line.
    Json,
}

/// The format a setting selects: `json` in any ASCII case, else pretty.
pub open spec fn log_format_of(value: Option<Seq<char>>) -> LogFormat {
    match value {
        Some(v) => if ascii_case_eq(v, "json"@) {
            LogFormat::Json
        } else {
            LogFormat::Pretty
        },
        None => LogFormat::Pretty,
    }
}

/// The view of an optional string.
pub open spec fn opt_str(value: Option<&str>) -> Option<Seq<char>> {
    match value {
        Some(v) => Some(v@),
        None => None,
    }
}

impl LogFormat {
    /// The format the value of `COORDIN8_LOG_FORMAT` selects (`None` when
    /// unset).
    pub fn from_opt(value: Option<&str>) -> (f: LogFormat)
        ensures
            f == log_format_of(opt_str(value)),
    {
        match value {
            Some(v) => if eq_ignore_ascii_case(v, "json") {
                LogFormat::Json
            } else {
                LogFormat::Pretty
            },
            None => LogFormat::Pretty,
        }
    }
}

/// Logging configuration for one service.
pub struct LoggingConfig {
    format: LogFormat,
}

impl LoggingConfig {
    /// The selected encoding.
    pub closed spec fn spec_format(&self) -> LogFormat {
        self.format
    }

    /// The configuration of the value of `COORDIN8_LOG_FORMAT` (`None`
    /// when unset).
    pub fn from_env(value: Option<&str>) -> (c: Self)
        ensures
            c.spec_format() == log_format_of(opt_str(value)),
    {
        LoggingConfig { format: LogFormat::from_opt(value) }
    }

    /// The selected encoding.
    pub fn format(&self) -> (f: LogFormat)
        ensures
            f == self.spec_format(),
    {
        self.format
    }
}

/// `s` with every leading `c` removed.
pub open spec fn trim_leading(s: Seq<char>, c: char) -> Seq<char>
    decreases s.len(),
{
    if s.len() > 0 && s[0] == c {
        trim_leading(s.drop_first(), c)
    } else {
        s
    }
}

/// A run of `n` copies of `c` followed by `r`, where `r` does not start
/// with `c`, trims to `r`.
proof fn lemma_trim_leading(n: nat, c: char, r: Seq<char>)
    requires
        r.len() > 0 ==> r[0] != c,
    ensures
        trim_leading(Seq::new(n, |_i: int| c) + r, c) == r,
    decreases n,
{
    let s = Seq::new(n, |_i: int| c) + r;
    if n == 0 {
        assert(s =~= r);
    } else {
        assert(s.drop_first() =~= Seq::new((n - 1) as nat, |_i: int| c) + r);
        lemma_trim_leading((n - 1) as nat, c, r);
    }
}

/// The labels of an RPC path: with leading `/` removed, the part before
/// the first `/` is the service and the rest the method; a path with no
/// further `/` is labelled service `unknown` with the whole trimmed path
/// as method.
pub open spec fn grpc_labels(path: Seq<char>, service: Seq<char>, method: Seq<char>) -> bool {
    let t = trim_leading(path, '/');
    if free_of('/', t) {
        service == "unknown"@ && method == t
    } else {
        t == service + seq!['/'] + method && free_of('/', service)
    }
}

/// Split a gRPC request path (`/pkg.Service/Method`) into its service and
/// method labels.
pub fn split_grpc_path(path: &str) -> (r: (String, String))
    ensures
        grpc_labels(path@, r.0@, r.1@),
{
    let trimmed = trim_start_char(path, '/');
    proof {
        lemma_trim_leading((path@.len() - trimmed@.len()) as nat, '/', trimmed@);
    }
    match split_once_char(trimmed, '/') {
        Some((service, method)) => (service.to_owned(), method.to_owned()),
        None => ("unknown".to_owned(), trimmed.to_owned()),
    }
}

/// The port a setting selects: a decimal number that fits in 16 bits,
/// otherwise none.
pub open spec fn port_of(value: Option<Seq<char>>) -> Option<u16> {
    match value {
        Some(v) => if is_unsigned_literal(v, u16::MAX as int) {
            Some(digits_value(unsigned_digits(v)) as u16)
        } else {
            None
        },
        None => None,
    }
}

/// Metrics configuration for one service: the port of the `/metrics`
/// endpoint, if it is served at all.
pub struct MetricsConfig {
    pub port: Option<u16>,
}

impl MetricsConfig {
    /// The configuration of the value of `COORDIN8_METRICS_PORT` (`None`
    /// when unset).
    pub fn from_env(value: Option<&str>) -> (c: Self)
        ensures
            c.port == port_of(opt_str(value)),
    {
        let port = match value {
            Some(v) => parse_u16(v),
            None => None,
        };
        MetricsConfig { port }
    }

    /// Whether the metrics endpoint is served.
    pub fn enabled(&self) -> (on: bool)
        ensures
            on == self.port is Some,
    {
        self.port.is_some()
    }
}

/// What the metrics endpoint answers a request with.
#[derive(Debug, Clone, Copy, PartialEq, Eq, Structural)]
pub enum MetricsRoute {
    /// Not found: any path but `/metrics`.
    NotFound,
    /// Method not allowed: `/metrics` asked with anything but `GET`.
    MethodNotAllowed,
    /// The current snapshot.
    Snapshot,
}

/// Route a request for `path` with HTTP method `method`.
pub fn route_metrics_request(path: &str, method: &str) -> (r: MetricsRoute)
    ensures
        r == (if path@ != "/metrics"@ {
            MetricsRoute::NotFound
        } else if method@ != "GET"@ {
            MetricsRoute::MethodNotAllowed
        } else {
            MetricsRoute::Snapshot
        }),
{
    if !str_eq(path, "/metrics") {
        MetricsRoute::NotFound
    } else if !str_eq(method, "GET") {
        MetricsRoute::MethodNotAllowed
    } else {
        MetricsRoute::Snapshot
    }
}

/// How a failed RPC was classified.
pub enum FailureClass {
    /// A gRPC status: the name of its code when the code is known, and the
    /// raw code.
    Status { name: Option<String>, raw: i32 },
    /// A transport failure, with its description.
    Error(String),
    /// Anything else.
    Other,
}

/// The decimal digits of `n`, most significant first.
pub open spec fn decimal_digits(n: nat) -> Seq<char>
    decreases n,
{
    if n < 10 {
        seq![(n + '0' as int) as char]
    } else {
        decimal_digits(n / 10) + seq![((n % 10) + '0' as int) as char]
    }
}

/// The decimal text of `n`, with a leading `-` when negative.
pub open spec fn decimal(n: int) -> Seq<char> {
    if n < 0 {
        seq!['-'] + decimal_digits((-n) as nat)
    } else {
        decimal_digits(n as nat)
    }
}

/// The `grpc_code` label of a failure: the code's name, or
/// `unrecognized(<raw>)` for an unknown code; `transport_error` for a
/// transport failure, whose description never reaches the label; and
/// `unknown` otherwise.
pub open spec fn code_label(class: FailureClass) -> Seq<char> {
    match class {
        FailureClass::Status { name, raw } => match name {
            Some(n) => n@,
            None => "unrecognized("@ + decimal(raw as int) + ")"@,
        },
        FailureClass::Error(_) => "transport_error"@,
        FailureClass::Other => "unknown"@,
    }
}

/// The `grpc_code` label of a failure.
pub fn grpc_code_label(class: &FailureClass) -> (label: String)
    ensures
        label@ == code_label(*class),
{
    match class {
        FailureClass::Status { name, raw } => match name {
            Some(n) => n.clone(),
            None => {
                let digits = int_text(*raw);
                let head = concat("unrecognized(", digits.as_str());
                concat(head.as_str(), ")")
            },
        },
        FailureClass::Error(_) => "transport_error".to_owned(),
        FailureClass::Other => "unknown".to_owned(),
    }
}

/// The export endpoint a setting selects: an empty value is as good as
/// none.
pub fn parse_endpoint(value: Option<&str>) -> (endpoint: Option<String>)
    ensures
        endpoint matches Some(e) ==> value matches Some(v) && e@ == v@,
        endpoint is Some == (value matches Some(v) && v@.len() > 0),
{
    match value {
        Some(v) => if v.is_empty() {
            None
        } else {
            Some(v.to_owned())
        },
        None => None,
    }
}

/// Whether traces are exported: only when an endpoint is configured.
pub fn export_enabled(endpoint: &Option<String>) -> (on: bool)
    ensures
        on == endpoint is Some,
{
    endpoint.is_some()
}

/// A transport failure's description never reaches the metrics label.
pub proof fn law_label_never_carries_error_text(description: String)
    ensures
        code_label(FailureClass::Error(description)) == "transport_error"@,
{
}

/// Labelling loses nothing of a well-formed path: service, `/` and method
/// give back the path without its leading slashes, and the service holds
/// no `/`.
pub proof fn law_labels_rebuild_the_path(path: Seq<char>, service: Seq<char>, method: Seq<char>)
    requires
        grpc_labels(path, service, method),
        !free_of('/', trim_leading(path, '/')),
    ensures
        service + seq!['/'] + method == trim_leading(path, '/'),
        free_of('/', service),
{
}

/// Only `json`, in any letter case, selects JSON logs; every other
/// setting, and none, keeps the pretty format.
pub proof fn law_json_only_when_asked(value: Seq<char>)
    ensures
        log_format_of(None) == LogFormat::Pretty,
        log_format_of(Some(value)) == LogFormat::Json <==> ascii_case_eq(value, "json"@),
{
}

} // verus!
