use sanitizer::{sanitize_value, StructuredValue};

fn s(text: &str) -> StructuredValue {
    StructuredValue::String(text.to_string())
}

fn num(n: u64) -> StructuredValue {
    StructuredValue::Number(serde_json::Number::from(n))
}

#[test]
fn sanitize_value_scenario_object() {
    let input = StructuredValue::Object(vec![
        ("name".to_string(), s("<b>Bob</b>")),
        ("age".to_string(), num(5)),
        ("tags".to_string(), StructuredValue::Array(vec![s("<i>x</i>"), s("y")])),
    ]);
    let expected = StructuredValue::Object(vec![
        ("name".to_string(), s("Bob")),
        ("age".to_string(), num(5)),
        ("tags".to_string(), StructuredValue::Array(vec![s("x"), s("y")])),
    ]);
    assert_eq!(sanitize_value(input), expected);
}

#[test]
fn sanitize_value_leaves_primitives_unchanged() {
    assert_eq!(sanitize_value(StructuredValue::Null), StructuredValue::Null);
    assert_eq!(sanitize_value(StructuredValue::Bool(true)), StructuredValue::Bool(true));
    assert_eq!(sanitize_value(num(42)), num(42));
}

#[test]
fn sanitize_value_encodes_string_leaves() {
    assert_eq!(sanitize_value(s("a & b")), s("a &amp; b"));
}

#[test]
fn sanitize_value_preserves_shape_and_order() {
    let input = StructuredValue::Array(vec![
        StructuredValue::Null,
        s("<script>x</script>"),
        StructuredValue::Object(vec![
            ("b".to_string(), StructuredValue::Bool(false)),
            ("a".to_string(), StructuredValue::Array(vec![])),
        ]),
    ]);
    let out = sanitize_value(input);
    match out {
        StructuredValue::Array(items) => {
            assert_eq!(items.len(), 3);
            assert!(matches!(items[0], StructuredValue::Null));
            assert_eq!(items[1], s("x"));
            match &items[2] {
                StructuredValue::Object(entries) => {
                    assert_eq!(entries.len(), 2);
                    assert_eq!(entries[0].0, "b");
                    assert_eq!(entries[1].0, "a");
                },
                other => panic!("expected an object, got {other:?}"),
            }
        },
        other => panic!("expected an array, got {other:?}"),
    }
}

#[test]
fn sanitize_value_empty_containers() {
    assert_eq!(
        sanitize_value(StructuredValue::Array(vec![])),
        StructuredValue::Array(vec![])
    );
    assert_eq!(
        sanitize_value(StructuredValue::Object(vec![])),
        StructuredValue::Object(vec![])
    );
}

#[test]
fn sanitize_value_deep_nesting() {
    let mut v = s("<b>deep</b> & down");
    for _ in 0..40 {
        v = StructuredValue::Array(vec![v]);
    }
    let mut out = sanitize_value(v);
    for _ in 0..40 {
        out = match out {
            StructuredValue::Array(mut items) => {
                assert_eq!(items.len(), 1);
                items.remove(0)
            },
            other => panic!("expected an array, got {other:?}"),
        };
    }
    assert_eq!(out, s("deep &amp; down"));
}
