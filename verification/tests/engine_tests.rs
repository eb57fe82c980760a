use req::engine::extract_placeholders;
use req::engine::substitute;
use req::engine::substitute_with_bindings;
use req::error::ReqError;
use req::json::Json;

fn entry(k: &str, v: Json) -> (String, Json) {
    (k.to_string(), v)
}

#[test]
fn extract_finds_input_placeholders_in_order() {
    let ids = extract_placeholders("a {{one}} b {{two}} c {{one}}", false);
    assert_eq!(ids, vec!["one".to_string(), "two".to_string(), "one".to_string()]);
}

#[test]
fn extract_input_grammar_skips_generated() {
    let ids = extract_placeholders("{{gen:uuid}} and {{name}}", false);
    assert_eq!(ids, vec!["name".to_string()]);
}

#[test]
fn extract_generated_grammar_keeps_prefix() {
    let ids = extract_placeholders("{{gen:uuid}} and {{name}}", true);
    assert_eq!(ids, vec!["gen:uuid".to_string(), "name".to_string()]);
}

#[test]
fn extract_ignores_malformed_placeholders() {
    assert!(extract_placeholders("{{a b}} {{}} {{x y}} {single}", true).is_empty());
    assert_eq!(extract_placeholders("{{{x}}}", true), vec!["x".to_string()]);
    assert!(extract_placeholders("{{gen:}}", true).is_empty());
}

#[test]
fn substitute_is_identity_without_placeholders() {
    let contents = vec![entry("x", Json::Str("1".to_string()))];
    let out = substitute("plain text, no placeholders", &contents).unwrap();
    assert_eq!(out, "plain text, no placeholders");
}

#[test]
fn substitute_replaces_every_occurrence_once() {
    let contents = vec![entry("who", Json::Str("world".to_string()))];
    let out = substitute("hello {{who}} and {{who}}", &contents).unwrap();
    assert_eq!(out, "hello world and world");
}

#[test]
fn substitute_coerces_numbers_and_booleans() {
    let contents = vec![
        entry("n", Json::Num("42".to_string())),
        entry("b", Json::Bool(true)),
    ];
    let out = substitute("{{n}}-{{b}}", &contents).unwrap();
    assert_eq!(out, "42-true");
}

#[test]
fn substitute_does_not_rescan_inserted_values() {
    let contents = vec![
        entry("a", Json::Str("{{b}}".to_string())),
        entry("b", Json::Str("deep".to_string())),
    ];
    let out = substitute("{{a}} {{b}}", &contents).unwrap();
    assert_eq!(out, "{{b}} deep");
}

#[test]
fn substitute_fails_on_missing_entry() {
    let contents = vec![entry("x", Json::Str("1".to_string()))];
    let r = substitute("{{x}} {{missing}}", &contents);
    assert_eq!(r, Err(ReqError::UnresolvedPlaceholder));
}

#[test]
fn substitute_fails_on_non_scalar_entry() {
    let contents = vec![entry("x", Json::Arr(vec![]))];
    let r = substitute("{{x}}", &contents);
    assert_eq!(r, Err(ReqError::InvalidVariableValue));
}

#[test]
fn substitute_generates_uuid_syntax() {
    let contents: Vec<(String, Json)> = vec![];
    let a = substitute("{{gen:uuid}}", &contents).unwrap();
    let b = substitute("{{gen:uuid}}", &contents).unwrap();
    assert_ne!(a, b);
    for s in [&a, &b] {
        let cs: Vec<char> = s.chars().collect();
        assert_eq!(cs.len(), 36);
        for (i, c) in cs.iter().enumerate() {
            if i == 8 || i == 13 || i == 18 || i == 23 {
                assert_eq!(*c, '-');
            } else {
                assert!(c.is_ascii_hexdigit() && !c.is_ascii_uppercase());
            }
        }
    }
}

#[test]
fn substitute_generates_decimal_timestamp() {
    let contents: Vec<(String, Json)> = vec![];
    let out = substitute("{{gen:timestamp}}", &contents).unwrap();
    assert!(!out.is_empty());
    assert!(out.chars().all(|c| c.is_ascii_digit()));
}

#[test]
fn substitute_uses_one_value_for_all_occurrences_of_an_identifier() {
    let contents: Vec<(String, Json)> = vec![];
    let out = substitute("{{gen:uuid}}/{{gen:uuid}}", &contents).unwrap();
    let halves: Vec<&str> = out.split('/').collect();
    assert_eq!(halves.len(), 2);
    assert_eq!(halves[0], halves[1]);
}

#[test]
fn substitute_with_bindings_is_exact() {
    let bindings = vec![("k".to_string(), "v".to_string())];
    let out = substitute_with_bindings("{{k}}!", &bindings).unwrap();
    assert_eq!(out, "v!");
    let r = substitute_with_bindings("{{other}}", &bindings);
    assert_eq!(r, Err(ReqError::UnresolvedPlaceholder));
}

#[test]
fn identifiers_may_hold_dashes_and_underscores() {
    let contents = vec![entry("a-b_C9", Json::Str("ok".to_string()))];
    let out = substitute("<{{a-b_C9}}>", &contents).unwrap();
    assert_eq!(out, "<ok>");
}

#[test]
fn unknown_generated_kinds_fall_back_to_the_entries() {
    let contents = vec![entry("gen:other", Json::Str("stored".to_string()))];
    let out = substitute("{{gen:other}}", &contents).unwrap();
    assert_eq!(out, "stored");
    let empty: Vec<(String, Json)> = vec![];
    assert_eq!(
        substitute("{{gen:other}}", &empty),
        Err(ReqError::UnresolvedPlaceholder)
    );
}

#[test]
fn empty_generated_marker_is_no_placeholder() {
    let empty: Vec<(String, Json)> = vec![];
    let out = substitute("{{gen:}}", &empty).unwrap();
    assert_eq!(out, "{{gen:}}");
}
