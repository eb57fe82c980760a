use req::json::Json;
use req::json::json_to_string;
use req::template::TemplateRequest;
use req::http::Method;
use req::variable::Variable;
use req::error::ReqError;

#[test]
fn json_scalars_render_compactly() {
    assert_eq!(json_to_string(&Json::Null), "null");
    assert_eq!(json_to_string(&Json::Bool(true)), "true");
    assert_eq!(json_to_string(&Json::Bool(false)), "false");
    assert_eq!(json_to_string(&Json::Num("42".to_string())), "42");
    assert_eq!(json_to_string(&Json::Str("hi".to_string())), "\"hi\"");
}

#[test]
fn json_strings_are_escaped() {
    let j = Json::Str("a\"b\\c\nd\te\r".to_string());
    assert_eq!(json_to_string(&j), "\"a\\\"b\\\\c\\nd\\te\\r\"");
    let ctrl = Json::Str("\u{01}".to_string());
    assert_eq!(json_to_string(&ctrl), "\"\\u0001\"");
}

#[test]
fn json_containers_render_in_order() {
    let j = Json::Arr(vec![
        Json::Num("1".to_string()),
        Json::Obj(vec![("k".to_string(), Json::Str("v".to_string()))]),
        Json::Arr(vec![]),
    ]);
    assert_eq!(json_to_string(&j), "[1,{\"k\":\"v\"},[]]");
}

#[test]
fn json_round_trips_through_the_parser() {
    let j = Json::Obj(vec![
        ("a".to_string(), Json::Num("1".to_string())),
        ("b".to_string(), Json::Arr(vec![Json::Bool(false), Json::Null])),
        ("c".to_string(), Json::Str("x\"y".to_string())),
    ]);
    let text = json_to_string(&j);
    let v: serde_json::Value = serde_json::from_str(&text).unwrap();
    let back = serde_json::to_string(&v).unwrap();
    assert_eq!(text, back);
}

#[test]
fn request_serializes_to_its_stored_document() {
    let req = TemplateRequest {
        url: "https://example.test".to_string(),
        method: Method::Post,
        headers: vec![("Accept".to_string(), "application/json".to_string())],
        body: Some(Json::Obj(vec![("id".to_string(), Json::Str("1".to_string()))])),
    };
    assert_eq!(
        req.to_json_text(),
        "{\"url\":\"https://example.test\",\"method\":\"POST\",\"headers\":{\"Accept\":\"application/json\"},\"body\":{\"id\":\"1\"}}"
    );
}

#[test]
fn request_parses_back_from_its_document() {
    let req = TemplateRequest {
        url: "https://example.test".to_string(),
        method: Method::Patch,
        headers: vec![("A".to_string(), "b".to_string())],
        body: None,
    };
    let text = req.to_json_text();
    let back = TemplateRequest::parse(&text).unwrap();
    assert_eq!(back.url, req.url);
    assert_eq!(back.method, req.method);
    assert_eq!(back.headers, req.headers);
    assert_eq!(back.body, None);
}

#[test]
fn request_parse_rejects_malformed_documents() {
    assert_eq!(
        TemplateRequest::parse("not json"),
        Err(ReqError::MalformedDocument)
    );
    assert_eq!(
        TemplateRequest::parse("{\"url\":\"x\"}"),
        Err(ReqError::MalformedDocument)
    );
    assert_eq!(
        TemplateRequest::parse("{\"url\":\"x\",\"method\":\"FETCH\",\"headers\":{}}"),
        Err(ReqError::MalformedDocument)
    );
    assert_eq!(
        TemplateRequest::parse("{\"url\":\"x\",\"method\":\"GET\",\"headers\":{\"a\":1}}"),
        Err(ReqError::MalformedDocument)
    );
}

#[test]
fn request_parse_normalizes_empty_body() {
    let t = "{\"url\":\"u\",\"method\":\"GET\",\"headers\":{},\"body\":{}}";
    assert_eq!(TemplateRequest::parse(t).unwrap().body, None);
    let n = "{\"url\":\"u\",\"method\":\"GET\",\"headers\":{},\"body\":null}";
    assert_eq!(TemplateRequest::parse(n).unwrap().body, None);
    let absent = "{\"url\":\"u\",\"method\":\"GET\",\"headers\":{}}";
    assert_eq!(TemplateRequest::parse(absent).unwrap().body, None);
    let kept = "{\"url\":\"u\",\"method\":\"GET\",\"headers\":{},\"body\":{\"k\":1}}";
    assert_eq!(
        TemplateRequest::parse(kept).unwrap().body,
        Some(Json::Obj(vec![("k".to_string(), Json::Num("1".to_string()))]))
    );
}

#[test]
fn variable_documents_round_trip() {
    let v = Variable {
        name: "default".to_string(),
        contents: vec![
            ("a".to_string(), Json::Str("1".to_string())),
            ("b".to_string(), Json::Num("2".to_string())),
        ],
    };
    let text = v.save();
    assert_eq!(text, "{\"a\":\"1\",\"b\":2}");
    let back = Variable::load("default", &text).unwrap();
    assert_eq!(back.contents, v.contents);
    assert_eq!(back.name, "default");
}

#[test]
fn variable_load_rejects_bad_documents() {
    assert_eq!(
        Variable::load("v", "nope"),
        Err(ReqError::MalformedDocument)
    );
    assert_eq!(
        Variable::load("v", "[1,2]"),
        Err(ReqError::MalformedDocument)
    );
    assert_eq!(
        Variable::load("v", "{\"a\":{\"nested\":1}}"),
        Err(ReqError::InvalidVariableValue)
    );
    assert_eq!(
        Variable::load("v", "{\"a\":null}"),
        Err(ReqError::InvalidVariableValue)
    );
}
