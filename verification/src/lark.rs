//! Lark grammars that constrain generation to one of a fixed set of answers.
use vstd::prelude::*;
use vstd::string::StringExecFns;
use crate::text::{chars_of, replace_all, replace_all_exec, string_of, trim, trim_exec};

verus! {

/// The parts joined with `sep` between consecutive parts.
pub open spec fn join_with(parts: Seq<Seq<char>>, sep: Seq<char>) -> Seq<char>
    decreases parts.len(),
{
    if parts.len() == 0 {
        Seq::empty()
    } else if parts.len() == 1 {
        parts[0]
    } else {
        join_with(parts.drop_last(), sep) + sep + parts.last()
    }
}

/// A variant as a Lark string literal: in double quotes, inner quotes escaped.
pub open spec fn lark_literal(v: Seq<char>) -> Seq<char> {
    seq!['"'] + replace_all(v, seq!['"'], seq!['\\', '"']) + seq!['"']
}

/// The rules of the grammar, in order.
pub open spec fn lark_rules(variants: Seq<Seq<char>>, bounds: Option<(Seq<char>, Seq<char>)>) -> Seq<Seq<char>> {
    let head = match bounds {
        Some((a, b)) => seq![
            "start: [thinking] WS? enum_value WS?"@,
            "thinking: \""@ + trim(a) + "\" /(?s).*?/ \""@ + trim(b) + "\""@,
        ],
        None => seq!["start: WS? enum_value WS?"@],
    };
    head + seq![
        "WS: /[ \\t\\n\\r]+/"@,
        "enum_value: "@ + join_with(variants.map_values(|v: Seq<char>| lark_literal(v)), " | "@),
    ]
}

/// The grammar text: the rules, one per line.
pub open spec fn lark_grammar(variants: Seq<Seq<char>>, bounds: Option<(Seq<char>, Seq<char>)>) -> Seq<char> {
    join_with(lark_rules(variants, bounds), "\n"@)
}

/// The views of a list of strings.
pub open spec fn views_of(v: Seq<String>) -> Seq<Seq<char>> {
    v.map_values(|s: String| s@)
}

/// The views of an optional pair of strings.
pub open spec fn pair_view(b: Option<(String, String)>) -> Option<(Seq<char>, Seq<char>)> {
    match b {
        Some((a, c)) => Some((a@, c@)),
        None => None,
    }
}

/// The strings joined with `sep` between consecutive ones.
pub fn join_strings(parts: &Vec<String>, sep: &str) -> (r: String)
    ensures
        r@ == join_with(views_of(parts@), sep@),
{
    let ghost ps = views_of(parts@);
    let mut out = String::new();
    let mut k: usize = 0;
    assert(ps.take(0) =~= Seq::<Seq<char>>::empty());
    while k < parts.len()
        invariant
            k <= parts@.len(),
            ps == views_of(parts@),
            out@ == join_with(ps.take(k as int), sep@),
        decreases parts.len() - k,
    {
        if k > 0 {
            out.append(sep);
        }
        out.append(parts[k].as_str());
        assert(ps.take(k + 1).drop_last() =~= ps.take(k as int));
        assert(ps[k as int] == parts@[k as int]@);
        k = k + 1;
    }
    assert(ps.take(k as int) =~= ps);
    out
}

/// A Lark grammar that accepts exactly one of `variants` (surrounded by optional
/// whitespace), preceded by an optional reasoning block between the trimmed
/// `reasoning_bounds` markers when they are given.  An empty list of variants is
/// refused.
pub fn variants_to_lark(variants: Vec<String>, reasoning_bounds: Option<(String, String)>) -> (r: Result<String, &'static str>)
    ensures
        variants@.len() == 0 <==> r is Err,
        r matches Err(e) ==> e@ == "The variants list must have at least one variant defined"@,
        r matches Ok(g) ==> g@ == lark_grammar(views_of(variants@), pair_view(reasoning_bounds)),
{
    if variants.len() == 0 {
        return Err("The variants list must have at least one variant defined");
    }
    let mut rules: Vec<String> = Vec::new();
    match &reasoning_bounds {
        Some((start, end)) => {
            let s = string_of(&trim_exec(&chars_of(start.as_str())));
            let e = string_of(&trim_exec(&chars_of(end.as_str())));
            rules.push(String::from_str("start: [thinking] WS? enum_value WS?"));
            let mut t = String::from_str("thinking: \"");
            t.append(s.as_str());
            t.append("\" /(?s).*?/ \"");
            t.append(e.as_str());
            t.append("\"");
            rules.push(t);
        },
        None => {
            rules.push(String::from_str("start: WS? enum_value WS?"));
        },
    }
    rules.push(String::from_str("WS: /[ \\t\\n\\r]+/"));
    let mut literals: Vec<String> = Vec::new();
    let quote = chars_of("\"");
    let escaped = chars_of("\\\"");
    proof {
        reveal_strlit("\"");
        reveal_strlit("\\\"");
        assert(quote@ =~= seq!['"']);
        assert(escaped@ =~= seq!['\\', '"']);
    }
    let mut k: usize = 0;
    while k < variants.len()
        invariant
            k <= variants@.len(),
            quote@ == seq!['"'],
            escaped@ == seq!['\\', '"'],
            views_of(literals@) == views_of(variants@).take(k as int).map_values(|v: Seq<char>| lark_literal(v)),
        decreases variants.len() - k,
    {
        let body = replace_all_exec(&chars_of(variants[k].as_str()), &quote, &escaped);
        let mut lit = String::from_str("\"");
        lit.append(string_of(&body).as_str());
        lit.append("\"");
        let ghost before = views_of(literals@);
        literals.push(lit);
        proof {
            reveal_strlit("\"");
            assert(views_of(variants@)[k as int] == variants@[k as int]@);
            assert(lit@ == lark_literal(variants@[k as int]@));
            assert(views_of(literals@) =~= before.push(lit@));
            assert(views_of(variants@).take(k + 1).map_values(|v: Seq<char>| lark_literal(v))
                =~= views_of(variants@).take(k as int).map_values(|v: Seq<char>| lark_literal(v)).push(lit@));
        }
        k = k + 1;
    }
    assert(views_of(variants@).take(k as int) =~= views_of(variants@));
    let mut last = String::from_str("enum_value: ");
    last.append(join_strings(&literals, " | ").as_str());
    rules.push(last);
    let ghost rv = views_of(rules@);
    assert(rv =~= lark_rules(views_of(variants@), pair_view(reasoning_bounds)));
    Ok(join_strings(&rules, "\n"))
}

/// What the grammar builder reads of a JSON schema: the value of its `type` key
/// when it is a string, and its `properties` (when that key holds an object) as
/// (field name, value of the field's `type` key when it is a string) in the
/// object's key order.
#[derive(Debug)]
pub struct JsonSchemaModel {
    pub schema_type: Option<String>,
    pub properties: Option<Vec<(String, Option<String>)>>,
}

/// The mathematical value of a property list.
pub open spec fn properties_view(v: Seq<(String, Option<String>)>) -> Seq<(Seq<char>, Option<Seq<char>>)> {
    v.map_values(|p: (String, Option<String>)| (p.0@, match p.1 { Some(t) => Some(t@), None => None }))
}

/// The Lark pattern of a field value of the given JSON type.
pub open spec fn value_pattern(json_type: Option<Seq<char>>) -> Seq<char> {
    if json_type == Some("integer"@) {
        "/[0-9]+/"@
    } else if json_type == Some("number"@) {
        "/-?[0-9]+(\\.[0-9]+)?/"@
    } else if json_type == Some("boolean"@) {
        "\"true\" | \"false\""@
    } else {
        "/\"[^\"\\\\]*\"/"@
    }
}

/// The rule of one field: its quoted name, a colon, and its value pattern.
pub open spec fn field_rule(name: Seq<char>, json_type: Option<Seq<char>>) -> Seq<char> {
    name + "_field"@ + ": \"\\\""@ + name + "\\\"\" WS? \":\" WS? "@ + value_pattern(json_type)
}

/// The rules of the object grammar, in order.
pub open spec fn object_rules(props: Seq<(Seq<char>, Option<Seq<char>>)>, bounds: Option<(Seq<char>, Seq<char>)>) -> Seq<Seq<char>> {
    let head = match bounds {
        Some((a, b)) => seq![
            "start: [thinking] json_array"@,
            "thinking: \""@ + trim(a) + "\" /(?s).*?/ \""@ + trim(b) + "\""@,
        ],
        None => seq!["start: free_text json_array"@, "free_text: /([^{\\[]*)/"@],
    };
    head + seq!["WS: /[ \\t\\n\\r]+/"@, "json_array: \"[\" WS? card (WS? \",\" WS? card)* WS? \"]\""@]
        + props.map_values(|p: (Seq<char>, Option<Seq<char>>)| field_rule(p.0, p.1))
        + seq!["card: \"{\" WS? "@ + join_with(props.map_values(|p: (Seq<char>, Option<Seq<char>>)| p.0 + "_field"@), " \",\" WS? "@) + " WS? \"}\""@]
}

/// A field rule built from its parts.
fn field_rule_exec(name: &str, json_type: &Option<String>) -> (r: String)
    ensures
        r@ == field_rule(name@, match json_type { Some(t) => Some(t@), None => None }),
{
    let pattern = match json_type {
        Some(t) if crate::text::str_eq(t.as_str(), "integer") => "/[0-9]+/",
        Some(t) if crate::text::str_eq(t.as_str(), "number") => "/-?[0-9]+(\\.[0-9]+)?/",
        Some(t) if crate::text::str_eq(t.as_str(), "boolean") => "\"true\" | \"false\"",
        _ => "/\"[^\"\\\\]*\"/",
    };
    let mut r = String::from_str(name);
    r.append("_field");
    r.append(": \"\\\"");
    r.append(name);
    r.append("\\\"\" WS? \":\" WS? ");
    r.append(pattern);
    r
}

/// A Lark grammar for a JSON array of objects with the schema's properties,
/// preceded by an optional reasoning block between the trimmed markers when they
/// are given, or else by free text.  The schema must be of type `object` and have
/// at least one property.
pub fn json_schema_to_lark(schema: &JsonSchemaModel, reasoning_bounds: Option<(String, String)>) -> (r: Result<String, &'static str>)
    ensures
        !(schema.schema_type matches Some(t) && t@ == "object"@) ==> (r matches Err(e)
            && e@ == "The input schema must be of type 'object' (the array element definition)"@),
        (schema.schema_type matches Some(t) && t@ == "object"@) && schema.properties is None ==> (r matches Err(e)
            && e@ == "Missing or invalid 'properties' block in the schema"@),
        schema.properties matches Some(ps) ==> ((schema.schema_type matches Some(t) && t@ == "object"@) && ps@.len() == 0
            ==> (r matches Err(e) && e@ == "The object schema must have at least one property defined"@)),
        schema.properties matches Some(ps) ==> ((schema.schema_type matches Some(t) && t@ == "object"@) && ps@.len() > 0
            ==> (r matches Ok(g) && g@ == join_with(object_rules(properties_view(ps@), pair_view(reasoning_bounds)), "\n"@))),
{
    let is_object = match &schema.schema_type {
        Some(t) => crate::text::str_eq(t.as_str(), "object"),
        None => false,
    };
    if !is_object {
        return Err("The input schema must be of type 'object' (the array element definition)");
    }
    let mut rules: Vec<String> = Vec::new();
    match &reasoning_bounds {
        Some((start, end)) => {
            let s = string_of(&trim_exec(&chars_of(start.as_str())));
            let e = string_of(&trim_exec(&chars_of(end.as_str())));
            rules.push(String::from_str("start: [thinking] json_array"));
            let mut t = String::from_str("thinking: \"");
            t.append(s.as_str());
            t.append("\" /(?s).*?/ \"");
            t.append(e.as_str());
            t.append("\"");
            rules.push(t);
        },
        None => {
            rules.push(String::from_str("start: free_text json_array"));
            rules.push(String::from_str("free_text: /([^{\\[]*)/"));
        },
    }
    rules.push(String::from_str("WS: /[ \\t\\n\\r]+/"));
    rules.push(String::from_str("json_array: \"[\" WS? card (WS? \",\" WS? card)* WS? \"]\""));
    let props = match &schema.properties {
        Some(p) => p,
        None => return Err("Missing or invalid 'properties' block in the schema"),
    };
    let ghost pv = properties_view(props@);
    let ghost head = views_of(rules@);
    let mut names: Vec<String> = Vec::new();
    let mut k: usize = 0;
    while k < props.len()
        invariant
            k <= props@.len(),
            pv == properties_view(props@),
            views_of(rules@) == head + pv.take(k as int).map_values(|p: (Seq<char>, Option<Seq<char>>)| field_rule(p.0, p.1)),
            views_of(names@) == pv.take(k as int).map_values(|p: (Seq<char>, Option<Seq<char>>)| p.0 + "_field"@),
        decreases props.len() - k,
    {
        let rule = field_rule_exec(props[k].0.as_str(), &props[k].1);
        let mut name = String::from_str(props[k].0.as_str());
        name.append("_field");
        let ghost r0 = views_of(rules@);
        let ghost n0 = views_of(names@);
        rules.push(rule);
        names.push(name);
        proof {
            assert(pv[k as int] == (props@[k as int].0@, match props@[k as int].1 { Some(t) => Some(t@), None => None }));
            assert(pv.take(k + 1) =~= pv.take(k as int).push(pv[k as int]));
            assert(views_of(rules@) =~= r0.push(rule@));
            assert(views_of(names@) =~= n0.push(name@));
            assert(pv.take(k + 1).map_values(|p: (Seq<char>, Option<Seq<char>>)| field_rule(p.0, p.1))
                =~= pv.take(k as int).map_values(|p: (Seq<char>, Option<Seq<char>>)| field_rule(p.0, p.1)).push(rule@));
            assert(pv.take(k + 1).map_values(|p: (Seq<char>, Option<Seq<char>>)| p.0 + "_field"@)
                =~= pv.take(k as int).map_values(|p: (Seq<char>, Option<Seq<char>>)| p.0 + "_field"@).push(name@));
        }
        k = k + 1;
    }
    if names.len() == 0 {
        return Err("The object schema must have at least one property defined");
    }
    assert(pv.take(k as int) =~= pv);
    let mut card = String::from_str("card: \"{\" WS? ");
    card.append(join_strings(&names, " \",\" WS? ").as_str());
    card.append(" WS? \"}\"");
    let ghost before = views_of(rules@);
    rules.push(card);
    assert(views_of(rules@) =~= before.push(card@));
    assert(views_of(rules@) =~= object_rules(pv, pair_view(reasoning_bounds)));
    Ok(join_strings(&rules, "\n"))
}

} // verus!
