//! Template matching: how a lookup template selects attribute maps.
//!
//! A template maps attribute names to operators. A plain value must equal
//! the attribute; `contains:x` and `starts_with:x` test for a substring and
//! a prefix; the empty string and `*` accept anything, including an absent
//! attribute. Every other operator rejects an attribute that is absent.
use vstd::prelude::*;

use crate::strmap::StrMap;
use crate::text::{contains, is_prefix_of, occurs_in, starts_with, str_eq, strip_prefix};

verus! {

/// A template field value. Missing fields (Any) match anything.
#[derive(Debug)]
pub enum MatchOp {
    Eq(String),
    Contains(String),
    StartsWith(String),
    Any,
}

impl MatchOp {
    /// The attribute value `v` satisfies this operator.
    pub open spec fn accepts(&self, v: Seq<char>) -> bool {
        match self {
            MatchOp::Eq(expected) => v == expected@,
            MatchOp::Contains(sub) => occurs_in(sub@, v),
            MatchOp::StartsWith(prefix) => is_prefix_of(prefix@, v),
            MatchOp::Any => true,
        }
    }

    /// Whether `value` satisfies this operator.
    pub fn matches(&self, value: &str) -> (ok: bool)
        ensures
            ok == self.accepts(value@),
    {
        match self {
            MatchOp::Eq(expected) => str_eq(value, expected.as_str()),
            MatchOp::Contains(sub) => contains(value, sub.as_str()),
            MatchOp::StartsWith(prefix) => starts_with(value, prefix.as_str()),
            MatchOp::Any => true,
        }
    }
}

/// The raw template value `v` is a wildcard: empty or `*`.
pub open spec fn is_wildcard(v: Seq<char>) -> bool {
    v.len() == 0 || v == "*"@
}

/// `op` is what parsing the raw template value `v` yields.
pub open spec fn parsed_from(op: MatchOp, v: Seq<char>) -> bool {
    if is_wildcard(v) {
        op is Any
    } else if is_prefix_of("contains:"@, v) {
        op matches MatchOp::Contains(s) && s@ == v.subrange("contains:"@.len() as int, v.len() as int)
    } else if is_prefix_of("starts_with:"@, v) {
        op matches MatchOp::StartsWith(s) && s@ == v.subrange(
            "starts_with:"@.len() as int,
            v.len() as int,
        )
    } else {
        op matches MatchOp::Eq(e) && e@ == v
    }
}

/// The raw template value `v` accepts the present attribute value `x`.
pub open spec fn raw_accepts(v: Seq<char>, x: Seq<char>) -> bool {
    if is_wildcard(v) {
        true
    } else if is_prefix_of("contains:"@, v) {
        occurs_in(v.subrange("contains:"@.len() as int, v.len() as int), x)
    } else if is_prefix_of("starts_with:"@, v) {
        is_prefix_of(v.subrange("starts_with:"@.len() as int, v.len() as int), x)
    } else {
        x == v
    }
}

/// Every field of the parsed template is satisfied by `attrs`: a present
/// attribute satisfies the field's operator, an absent one only `Any`.
pub open spec fn ops_accept(template: Map<Seq<char>, MatchOp>, attrs: Map<Seq<char>, String>) -> bool {
    forall|k: Seq<char>| #[trigger]
        template.contains_key(k) ==> if attrs.contains_key(k) {
            template[k].accepts(attrs[k]@)
        } else {
            template[k] is Any
        }
}

/// Every field of the raw template is satisfied by `attrs`: a present
/// attribute satisfies the field's value, an absent one only a wildcard.
pub open spec fn template_matches(template: Map<Seq<char>, String>, attrs: Map<Seq<char>, String>) -> bool {
    forall|k: Seq<char>| #[trigger]
        template.contains_key(k) ==> if attrs.contains_key(k) {
            raw_accepts(template[k]@, attrs[k]@)
        } else {
            is_wildcard(template[k]@)
        }
}

/// Parsing a raw value and applying the operator agrees with the raw value.
pub proof fn lemma_parsed_accepts(op: MatchOp, v: Seq<char>, x: Seq<char>)
    requires
        parsed_from(op, v),
    ensures
        op.accepts(x) == raw_accepts(v, x),
        (op is Any) == is_wildcard(v),
{
}

/// Parse one raw template value into its operator.
pub fn parse_op(v: &str) -> (op: MatchOp)
    ensures
        parsed_from(op, v@),
{
    if v.is_empty() || str_eq(v, "*") {
        MatchOp::Any
    } else if let Some(rest) = strip_prefix(v, "contains:") {
        MatchOp::Contains(rest.to_owned())
    } else if let Some(rest) = strip_prefix(v, "starts_with:") {
        MatchOp::StartsWith(rest.to_owned())
    } else {
        MatchOp::Eq(v.to_owned())
    }
}

/// Parse a template map into MatchOps.
///
/// Template values can be plain strings (Eq), or structured operators:
///   "contains:foo"    → MatchOp::Contains("foo")
///   "starts_with:foo" → MatchOp::StartsWith("foo")
///   "" or "*"         → MatchOp::Any
///   anything else     → MatchOp::Eq(value)
pub fn parse_template(template: &StrMap<String>) -> (ops: StrMap<MatchOp>)
    ensures
        ops@.dom() == template@.dom(),
        forall|k: Seq<char>| #[trigger] ops@.contains_key(k) ==> parsed_from(ops@[k], template@[k]@),
{
    let n = template.len();
    let mut ops: StrMap<MatchOp> = StrMap::new();
    let mut i: usize = 0;
    while i < n
        invariant
            n == template.size(),
            i <= n,
            forall|k: Seq<char>| #[trigger] template@.contains_key(k) ==> exists|j: int|
                0 <= j < template.size() && #[trigger] template.key_at(j) == k,
            forall|j: int| 0 <= j < template.size() ==> #[trigger] template@.contains_key(template.key_at(j)),
            forall|k: Seq<char>| #[trigger] ops@.contains_key(k) <==> exists|j: int|
                0 <= j < i && #[trigger] template.key_at(j) == k,
            forall|k: Seq<char>| #[trigger] ops@.contains_key(k) ==> parsed_from(ops@[k], template@[k]@),
        decreases n - i,
    {
        let (key, value) = template.entry(i);
        let op = parse_op(value.as_str());
        let ghost prev = ops@;
        ops.insert(key.clone(), op);
        proof {
            assert forall|k: Seq<char>| #[trigger] ops@.contains_key(k) <==> exists|j: int|
                0 <= j < i + 1 && #[trigger] template.key_at(j) == k by {
                if ops@.contains_key(k) && k != key@ {
                    assert(prev.contains_key(k));
                }
                if exists|j: int| 0 <= j < i + 1 && #[trigger] template.key_at(j) == k {
                    let j = choose|j: int| 0 <= j < i + 1 && #[trigger] template.key_at(j) == k;
                    if j < i {
                        assert(prev.contains_key(k));
                    }
                }
            }
        }
        i = i + 1;
    }
    proof {
        assert(ops@.dom() =~= template@.dom());
    }
    ops
}

/// Returns true if `attrs` satisfies all fields in `template`.
/// Fields present in the template but absent in attrs are a non-match
/// (unless the op is Any).
pub fn matches(template: &StrMap<MatchOp>, attrs: &StrMap<String>) -> (ok: bool)
    ensures
        ok == ops_accept(template@, attrs@),
{
    let n = template.len();
    let mut i: usize = 0;
    while i < n
        invariant
            n == template.size(),
            i <= n,
            forall|k: Seq<char>| #[trigger] template@.contains_key(k) ==> exists|j: int|
                0 <= j < template.size() && #[trigger] template.key_at(j) == k,
            forall|j: int| 0 <= j < template.size() ==> #[trigger] template@.contains_key(template.key_at(j)),
            forall|j: int| 0 <= j < i ==> {
                let k = #[trigger] template.key_at(j);
                if attrs@.contains_key(k) {
                    template@[k].accepts(attrs@[k]@)
                } else {
                    template@[k] is Any
                }
            },
        decreases n - i,
    {
        let (key, op) = template.entry(i);
        let ok = match attrs.get(key.as_str()) {
            Some(val) => op.matches(val.as_str()),
            None => match op {
                MatchOp::Any => true,
                _ => false,
            },
        };
        if !ok {
            return false;
        }
        i = i + 1;
    }
    true
}

/// Whether `attrs` satisfies the raw template `template`: parses it, then
/// matches.
pub fn matches_template(template: &StrMap<String>, attrs: &StrMap<String>) -> (ok: bool)
    ensures
        ok == template_matches(template@, attrs@),
{
    let ops = parse_template(template);
    let ok = matches(&ops, attrs);
    proof {
        assert forall|k: Seq<char>| #[trigger] template@.contains_key(k) implies (ops@[k] is Any)
            == is_wildcard(template@[k]@) && (attrs@.contains_key(k) ==> ops@[k].accepts(attrs@[k]@)
            == raw_accepts(template@[k]@, attrs@[k]@)) by {
            assert(ops@.contains_key(k));
            lemma_parsed_accepts(ops@[k], template@[k]@, if attrs@.contains_key(k) { attrs@[k]@ } else { Seq::empty() });
        }
        if ok {
            assert forall|k: Seq<char>| #[trigger] template@.contains_key(k) implies if attrs@.contains_key(k) {
                raw_accepts(template@[k]@, attrs@[k]@)
            } else {
                is_wildcard(template@[k]@)
            } by {
                assert(ops@.contains_key(k));
            }
        } else {
            let k = choose|k: Seq<char>| #[trigger] ops@.contains_key(k) && !(if attrs@.contains_key(k) {
                ops@[k].accepts(attrs@[k]@)
            } else {
                ops@[k] is Any
            });
            assert(template@.contains_key(k));
        }
    }
    ok
}

/// The empty template matches any attributes.
pub proof fn law_empty_template_matches_all(attrs: Map<Seq<char>, String>)
    ensures
        template_matches(Map::<Seq<char>, String>::empty(), attrs),
{
}

/// A field the attributes lack fails the template unless its template
/// value is a wildcard (`""` or `"*"`).
pub proof fn law_absent_field_needs_wildcard(
    template: Map<Seq<char>, String>,
    attrs: Map<Seq<char>, String>,
    key: Seq<char>,
)
    requires
        template.contains_key(key),
        !attrs.contains_key(key),
    ensures
        template_matches(template, attrs) ==> is_wildcard(template[key]@),
{
}

/// An exact template matches exactly the attributes that carry its
/// values: a plain value (neither wildcard nor prefixed by `contains:` or
/// `starts_with:`) is compared for equality.
pub proof fn law_exact_value_is_equality(v: Seq<char>, x: Seq<char>)
    requires
        !is_wildcard(v),
        !is_prefix_of("contains:"@, v),
        !is_prefix_of("starts_with:"@, v),
    ensures
        raw_accepts(v, x) <==> x == v,
{
}

/// Matching against parsed operators agrees with matching against the raw
/// template they were parsed from.
pub proof fn law_parsed_template_agrees(
    template: Map<Seq<char>, String>,
    ops: Map<Seq<char>, MatchOp>,
    attrs: Map<Seq<char>, String>,
)
    requires
        ops.dom() == template.dom(),
        forall|k: Seq<char>| #[trigger] ops.contains_key(k) ==> parsed_from(ops[k], template[k]@),
    ensures
        ops_accept(ops, attrs) == template_matches(template, attrs),
{
    assert forall|k: Seq<char>| #[trigger] template.contains_key(k) implies (ops[k] is Any) == is_wildcard(template[k]@)
        && (attrs.contains_key(k) ==> ops[k].accepts(attrs[k]@) == raw_accepts(template[k]@, attrs[k]@)) by {
        assert(ops.contains_key(k));
        if attrs.contains_key(k) {
            lemma_parsed_accepts(ops[k], template[k]@, attrs[k]@);
        } else {
            lemma_parsed_accepts(ops[k], template[k]@, Seq::empty());
        }
    }
}

} // verus!
