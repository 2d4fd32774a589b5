//! Recursive sanitization of structured (JSON-shaped) values: every string
//! leaf is passed through the text sanitizer, arrays and objects are walked
//! recursively, and null, booleans and numbers pass through unchanged. The
//! shape of the value — variants, array lengths, object keys and their
//! order — is preserved exactly.
use vstd::prelude::*;
use crate::fields::{sanitize_text, spec_sanitize_text};

verus! {

/// A number as carried by a structured value, kept opaque: the sanitizer
/// never inspects it.
#[verifier::external_type_specification]
#[verifier::external_body]
pub struct ExNumber(serde_json::Number);

/// A structured value: the closed tagged union the recursive sanitizer
/// walks. Object entries keep their insertion order.
#[derive(Debug, PartialEq)]
pub enum StructuredValue {
    Null,
    Bool(bool),
    Number(serde_json::Number),
    String(String),
    Array(Vec<StructuredValue>),
    Object(Vec<(String, StructuredValue)>),
}

/// `b` is exactly `a` with every string leaf replaced by its sanitized
/// form: the same variant at every position, the same array lengths, the
/// same object keys in the same order, and all other leaves unchanged.
pub open spec fn sanitized_form(a: StructuredValue, b: StructuredValue) -> bool
    decreases a,
{
    match (a, b) {
        (StructuredValue::Null, StructuredValue::Null) => true,
        (StructuredValue::Bool(x), StructuredValue::Bool(y)) => x == y,
        (StructuredValue::Number(x), StructuredValue::Number(y)) => x == y,
        (StructuredValue::String(x), StructuredValue::String(y)) => y@ == spec_sanitize_text(x@),
        (StructuredValue::Array(xs), StructuredValue::Array(ys)) => {
            &&& xs@.len() == ys@.len()
            &&& forall|i: int| 0 <= i < xs@.len() ==> sanitized_form(#[trigger] xs@[i], ys@[i])
        },
        (StructuredValue::Object(xs), StructuredValue::Object(ys)) => {
            &&& xs@.len() == ys@.len()
            &&& forall|i: int| 0 <= i < xs@.len() ==> (#[trigger] xs@[i]).0@ == ys@[i].0@
                && sanitized_form(xs@[i].1, ys@[i].1)
        },
        _ => false,
    }
}

/// `a` and `b` have the same shape: the same variant tree, with equal
/// array lengths and equal object keys in equal order; string leaves may
/// differ.
pub open spec fn same_shape(a: StructuredValue, b: StructuredValue) -> bool
    decreases a,
{
    match (a, b) {
        (StructuredValue::Null, StructuredValue::Null) => true,
        (StructuredValue::Bool(x), StructuredValue::Bool(y)) => x == y,
        (StructuredValue::Number(x), StructuredValue::Number(y)) => x == y,
        (StructuredValue::String(_), StructuredValue::String(_)) => true,
        (StructuredValue::Array(xs), StructuredValue::Array(ys)) => {
            &&& xs@.len() == ys@.len()
            &&& forall|i: int| 0 <= i < xs@.len() ==> same_shape(#[trigger] xs@[i], ys@[i])
        },
        (StructuredValue::Object(xs), StructuredValue::Object(ys)) => {
            &&& xs@.len() == ys@.len()
            &&& forall|i: int| 0 <= i < xs@.len() ==> (#[trigger] xs@[i]).0@ == ys@[i].0@
                && same_shape(xs@[i].1, ys@[i].1)
        },
        _ => false,
    }
}

/// Sanitizing preserves the shape of a value exactly: only string leaves
/// are rewritten, every other aspect — variants, array lengths, object
/// keys and their order — is kept.
pub proof fn lemma_sanitized_form_same_shape(a: StructuredValue, b: StructuredValue)
    requires
        sanitized_form(a, b),
    ensures
        same_shape(a, b),
    decreases a,
{
    match (a, b) {
        (StructuredValue::Array(xs), StructuredValue::Array(ys)) => {
            assert forall|i: int| 0 <= i < xs@.len() implies same_shape(
                #[trigger] xs@[i],
                ys@[i],
            ) by {
                lemma_sanitized_form_same_shape(xs@[i], ys@[i]);
            }
        },
        (StructuredValue::Object(xs), StructuredValue::Object(ys)) => {
            assert forall|i: int| 0 <= i < xs@.len() implies (#[trigger] xs@[i]).0@ == ys@[i].0@
                && same_shape(xs@[i].1, ys@[i].1) by {
                lemma_sanitized_form_same_shape(xs@[i].1, ys@[i].1);
            }
        },
        _ => {},
    }
}

/// Recursively sanitizes a structured value: strings are passed through
/// the text sanitizer, arrays and objects are recursed into, and null,
/// booleans and numbers are returned unchanged.
#[verifier::loop_isolation(false)]
pub fn sanitize_value(v: StructuredValue) -> (r: StructuredValue)
    ensures
        sanitized_form(v, r),
    decreases v,
{
    let ghost orig = v;
    match v {
        StructuredValue::Null => StructuredValue::Null,
        StructuredValue::Bool(x) => StructuredValue::Bool(x),
        StructuredValue::Number(x) => StructuredValue::Number(x),
        StructuredValue::String(x) => StructuredValue::String(sanitize_text(x.as_str())),
        StructuredValue::Array(mut items) => {
            let ghost xs = items@;
            let mut out: Vec<StructuredValue> = Vec::new();
            while items.len() > 0
                invariant
                    orig is Array,
                    orig->Array_0@ == xs,
                    out@.len() + items@.len() == xs.len(),
                    items@ == xs.subrange(out@.len() as int, xs.len() as int),
                    forall|i: int| 0 <= i < out@.len() ==> sanitized_form(
                        #[trigger] xs[i],
                        out@[i],
                    ),
                decreases items@.len(),
            {
                let ghost k = out@.len() as int;
                let x = items.remove(0);
                proof {
                    assert(x == xs[k]);
                    assert(items@ =~= xs.subrange(k + 1, xs.len() as int));
                    assert(decreases_to!(orig => orig->Array_0));
                    assert(decreases_to!(orig->Array_0 => orig->Array_0@));
                    assert(decreases_to!(orig->Array_0@ => orig->Array_0@[k]));
                    assert(orig->Array_0@[k] == x);
                }
                let y = sanitize_value(x);
                out.push(y);
            }
            StructuredValue::Array(out)
        },
        StructuredValue::Object(mut entries) => {
            let ghost xs = entries@;
            let mut out: Vec<(String, StructuredValue)> = Vec::new();
            while entries.len() > 0
                invariant
                    orig is Object,
                    orig->Object_0@ == xs,
                    out@.len() + entries@.len() == xs.len(),
                    entries@ == xs.subrange(out@.len() as int, xs.len() as int),
                    forall|i: int| 0 <= i < out@.len() ==> (#[trigger] xs[i]).0@ == out@[i].0@
                        && sanitized_form(xs[i].1, out@[i].1),
                decreases entries@.len(),
            {
                let ghost k = out@.len() as int;
                let pair = entries.remove(0);
                proof {
                    assert(pair == xs[k]);
                    assert(entries@ =~= xs.subrange(k + 1, xs.len() as int));
                    assert(decreases_to!(orig => orig->Object_0));
                    assert(decreases_to!(orig->Object_0 => orig->Object_0@));
                    assert(decreases_to!(orig->Object_0@ => orig->Object_0@[k]));
                    assert(decreases_to!(orig->Object_0@[k] => orig->Object_0@[k].1));
                    assert(orig->Object_0@[k] == pair);
                }
                let key = pair.0;
                let val = pair.1;
                let sval = sanitize_value(val);
                out.push((key, sval));
            }
            StructuredValue::Object(out)
        },
    }
}

} // verus!
