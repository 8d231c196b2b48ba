use slm_inference::lark::{json_schema_to_lark, variants_to_lark, JsonSchemaModel};

#[test]
fn variants_grammar_without_reasoning() {
    let g = variants_to_lark(vec!["Yes".to_string(), "No".to_string()], None).unwrap();
    assert_eq!(
        g,
        "start: WS? enum_value WS?\nWS: /[ \\t\\n\\r]+/\nenum_value: \"Yes\" | \"No\""
    );
}

#[test]
fn variants_grammar_with_reasoning_and_quotes() {
    let g = variants_to_lark(
        vec!["say \"hi\"".to_string()],
        Some((" <think>\n".to_string(), "</think> ".to_string())),
    )
    .unwrap();
    assert_eq!(
        g,
        "start: [thinking] WS? enum_value WS?\nthinking: \"<think>\" /(?s).*?/ \"</think>\"\nWS: /[ \\t\\n\\r]+/\nenum_value: \"say \\\"hi\\\"\""
    );
}

#[test]
fn variants_grammar_needs_a_variant() {
    assert_eq!(
        variants_to_lark(vec![], None),
        Err("The variants list must have at least one variant defined")
    );
}

fn schema(kind: Option<&str>, props: Option<Vec<(&str, Option<&str>)>>) -> JsonSchemaModel {
    JsonSchemaModel {
        schema_type: kind.map(|k| k.to_string()),
        properties: props.map(|ps| {
            ps.into_iter()
                .map(|(n, t)| (n.to_string(), t.map(|t| t.to_string())))
                .collect()
        }),
    }
}

#[test]
fn object_grammar() {
    let s = schema(Some("object"), Some(vec![("age", Some("integer")), ("name", Some("string"))]));
    let g = json_schema_to_lark(&s, None).unwrap();
    let expected = [
        "start: free_text json_array",
        "free_text: /([^{\\[]*)/",
        "WS: /[ \\t\\n\\r]+/",
        "json_array: \"[\" WS? card (WS? \",\" WS? card)* WS? \"]\"",
        "age_field: \"\\\"age\\\"\" WS? \":\" WS? /[0-9]+/",
        "name_field: \"\\\"name\\\"\" WS? \":\" WS? /\"[^\"\\\\]*\"/",
        "card: \"{\" WS? age_field \",\" WS? name_field WS? \"}\"",
    ]
    .join("\n");
    assert_eq!(g, expected);
}

#[test]
fn object_grammar_value_patterns() {
    let s = schema(Some("object"), Some(vec![("x", Some("number")), ("ok", Some("boolean"))]));
    let g = json_schema_to_lark(&s, Some(("<think>".to_string(), "</think>".to_string()))).unwrap();
    assert!(g.starts_with("start: [thinking] json_array\nthinking: \"<think>\" /(?s).*?/ \"</think>\"\n"));
    assert!(g.contains("x_field: \"\\\"x\\\"\" WS? \":\" WS? /-?[0-9]+(\\.[0-9]+)?/"));
    assert!(g.contains("ok_field: \"\\\"ok\\\"\" WS? \":\" WS? \"true\" | \"false\""));
}

#[test]
fn object_grammar_errors() {
    assert_eq!(
        json_schema_to_lark(&schema(Some("array"), Some(vec![("a", None)])), None),
        Err("The input schema must be of type 'object' (the array element definition)")
    );
    assert_eq!(
        json_schema_to_lark(&schema(None, None), None),
        Err("The input schema must be of type 'object' (the array element definition)")
    );
    assert_eq!(
        json_schema_to_lark(&schema(Some("object"), None), None),
        Err("Missing or invalid 'properties' block in the schema")
    );
    assert_eq!(
        json_schema_to_lark(&schema(Some("object"), Some(vec![])), None),
        Err("The object schema must have at least one property defined")
    );
}

