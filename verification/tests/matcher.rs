use coordin8::matcher::{matches_template, parse_op, parse_template, MatchOp};
use coordin8::strmap::StrMap;

fn attrs(pairs: &[(&str, &str)]) -> StrMap<String> {
    let mut m = StrMap::new();
    for (k, v) in pairs {
        m.insert(k.to_string(), v.to_string());
    }
    m
}

fn template(pairs: &[(&str, &str)]) -> StrMap<MatchOp> {
    let mut m = StrMap::new();
    for (k, v) in pairs {
        m.insert(k.to_string(), MatchOp::Eq(v.to_string()));
    }
    m
}

#[test]
fn exact_match() {
    let t = template(&[("interface", "WeatherStation"), ("region", "tampa-east")]);
    let a = attrs(&[("interface", "WeatherStation"), ("region", "tampa-east"), ("station", "7")]);
    assert!(coordin8::matcher::matches(&t, &a));
}

#[test]
fn missing_field_is_nonmatch() {
    let t = template(&[("interface", "WeatherStation"), ("region", "miami")]);
    let a = attrs(&[("interface", "WeatherStation"), ("region", "tampa-east")]);
    assert!(!coordin8::matcher::matches(&t, &a));
}

#[test]
fn any_matches_present_field() {
    let mut t = template(&[("interface", "WeatherStation")]);
    t.insert("region".to_string(), MatchOp::Any);
    let a = attrs(&[("interface", "WeatherStation"), ("region", "anything")]);
    assert!(coordin8::matcher::matches(&t, &a));
}

#[test]
fn contains_match() {
    let mut t = StrMap::new();
    t.insert("metrics".to_string(), MatchOp::Contains("humidity".to_string()));
    let a = attrs(&[("metrics", "wind,humidity,temp")]);
    assert!(coordin8::matcher::matches(&t, &a));
}

#[test]
fn match_ops_accept_what_they_say() {
    assert!(MatchOp::Eq("a".to_string()).matches("a"));
    assert!(!MatchOp::Eq("a".to_string()).matches("ab"));
    assert!(MatchOp::Contains("mid".to_string()).matches("a-mid-b"));
    assert!(!MatchOp::Contains("mid".to_string()).matches("mi-d"));
    assert!(MatchOp::StartsWith("tampa".to_string()).matches("tampa-east-7"));
    assert!(!MatchOp::StartsWith("tampa".to_string()).matches("east-tampa"));
    assert!(MatchOp::Any.matches(""));
}

#[test]
fn raw_values_parse_to_operators() {
    assert!(matches!(parse_op(""), MatchOp::Any));
    assert!(matches!(parse_op("*"), MatchOp::Any));
    assert!(matches!(parse_op("contains:humidity"), MatchOp::Contains(s) if s == "humidity"));
    assert!(matches!(parse_op("starts_with:tampa"), MatchOp::StartsWith(s) if s == "tampa"));
    assert!(matches!(parse_op("contains"), MatchOp::Eq(s) if s == "contains"));
    let ops = parse_template(&attrs(&[("a", "*"), ("b", "x")]));
    assert_eq!(ops.len(), 2);
}

#[test]
fn absent_field_matches_only_a_wildcard() {
    let a = attrs(&[("interface", "WeatherStation")]);
    assert!(matches_template(&attrs(&[("region", "*")]), &a));
    assert!(matches_template(&attrs(&[("region", "")]), &a));
    assert!(!matches_template(&attrs(&[("region", "contains:")]), &a));
    assert!(!matches_template(&attrs(&[("region", "tampa")]), &a));
}

#[test]
fn empty_template_matches_everything() {
    assert!(matches_template(&StrMap::new(), &attrs(&[("x", "y")])));
    assert!(matches_template(&StrMap::new(), &StrMap::new()));
}

#[test]
fn raw_template_forms() {
    let a = attrs(&[("kind", "sensor"), ("location", "tampa-east-7"), ("metrics", "wind,humidity,temp")]);
    assert!(matches_template(&attrs(&[("kind", "sensor")]), &a));
    assert!(matches_template(&attrs(&[("metrics", "contains:humidity")]), &a));
    assert!(matches_template(&attrs(&[("location", "starts_with:tampa")]), &a));
    assert!(matches_template(&attrs(&[("kind", "*")]), &a));
    assert!(!matches_template(&attrs(&[("kind", "camera")]), &a));
}
