use swag_schema::cli::to_uppercase;
use swag_schema::schema::{split_header, split_once, Method};
use swag_schema::{create_schema, Converter, JsonValue, Schema, SchemaError, SchemaParams};

fn schema(path: &str, method: &str, param: Option<Vec<&str>>, res: &str) -> Schema {
    Schema {
        root: "http://localhost".to_string(),
        path: path.to_string(),
        method: method.to_string(),
        body: None,
        header: vec![],
        query: None,
        param: param.map(|p| p.iter().map(|s| s.to_string()).collect()),
        res: res.to_string(),
    }
}

fn emit(json: &str) -> String {
    let mut c = Converter::new(2, 0, "");
    let s = schema("/", "GET", None, json);
    let all = c.convert_schema(&s).unwrap().to_string();
    let marker = "            schema:\n";
    let at = all.find(marker).unwrap() + marker.len();
    all[at..].to_string()
}

/// The text written so far, up to the heading line of a marker operation
/// written after it at the converter's level.
fn written_before_marker(c: &mut Converter, indent: &str) -> String {
    let s = schema("@@", "GET", None, "0");
    let all = c.convert_schema(&s).unwrap().to_string();
    let end = all.find(&format!("{}@@:\n", indent)).unwrap();
    all[..end].to_string()
}

fn convert_json(json: &str) -> Result<String, SchemaError> {
    let mut c = Converter::new(2, 0, "");
    c.convert_json(json)?;
    Ok(written_before_marker(&mut c, ""))
}

#[test]
fn end_to_end_scaffold() {
    let s = schema("/users/{id}", "GET", Some(vec!["id=5"]), r#"{"name":"bob"}"#);
    let mut c = Converter::new(2, 0, "");
    let out = c.convert_schema(&s).unwrap().to_string();
    let expected = "/users/{id}:
  get:
    description: unknown
    tags:
      - unknown
    parameters:
      - name: id
        in: path
        required: true
        schema:
          type: string
    responses:
      200:
        content:
          application/json:
            schema:
              type: object
              properties:
                name:
                  type: string
";
    assert_eq!(out, expected);
}

#[test]
fn malformed_body_fails_closed() {
    let s = schema("/users", "GET", None, "{not json");
    let mut c = Converter::new(2, 0, "");
    assert!(matches!(c.convert_schema(&s), Err(SchemaError::MalformedJson)));
}

#[test]
fn malformed_request_body_fails() {
    let mut s = schema("/users", "POST", None, "{}");
    s.body = Some("[1,".to_string());
    let mut c = Converter::new(2, 0, "");
    assert!(matches!(c.convert_schema(&s), Err(SchemaError::MalformedJson)));
}

#[test]
fn convert_json_malformed_is_error() {
    assert!(matches!(convert_json("{not json"), Err(SchemaError::MalformedJson)));
}

#[test]
fn array_reduces_to_first_element() {
    assert_eq!(convert_json("[1,2,3]").unwrap(), "type: number\n");
    assert_eq!(convert_json("1").unwrap(), "type: number\n");
}

#[test]
fn empty_array_and_null_are_undefined() {
    assert_eq!(convert_json("[]").unwrap(), "type: undefined\n");
    assert_eq!(convert_json("null").unwrap(), "type: undefined\n");
}

#[test]
fn booleans_are_described() {
    assert_eq!(convert_json("true").unwrap(), "type: boolean\n");
}

#[test]
fn date_detection() {
    assert_eq!(convert_json("\"2023-01-15\"").unwrap(), "type: string\n  format: date\n");
    assert_eq!(convert_json("\"hello\"").unwrap(), "type: string\n");
}

#[test]
fn date_with_time_and_slashes() {
    assert_eq!(
        convert_json("\"2023/01/15T10:20:30Z\"").unwrap(),
        "type: string\n  format: date\n"
    );
    assert_eq!(convert_json("\"2023-01-15 10:20\"").unwrap(), "type: string\n");
}

#[test]
fn object_member_order_preserved() {
    let out = emit(r#"{"b":1,"a":"x"}"#);
    let expected = "              type: object
              properties:
                b:
                  type: number
                a:
                  type: string
";
    assert_eq!(out, expected);
}

#[test]
fn nested_arrays_and_objects() {
    let out = convert_json(r#"{"xs":[{"d":"2020-02-02"}],"e":[],"n":null}"#).unwrap();
    let expected = "type: object
properties:
  xs:
    type: array
    items:
      type: object
      properties:
        d:
          type: string
            format: date
  e:
    type: array
    items:
      type: undefined
  n:
    type: undefined
";
    assert_eq!(out, expected);
}

#[test]
fn indentation_restored_after_emission() {
    let mut c = Converter::new(2, 3, "");
    c.convert_json(r#"{"a":{"b":[{"c":1}]}}"#).unwrap();
    let out = written_before_marker(&mut c, "      ");
    assert!(out.starts_with("      type: object\n"));
    assert!(out.ends_with(&format!("{}c:\n{}type: number\n", " ".repeat(18), " ".repeat(20))));
}

#[test]
fn emission_is_repeatable() {
    let json = r#"{"k":[true],"when":"2021-12-31"}"#;
    let a = convert_json(json).unwrap();
    let b = convert_json(json).unwrap();
    assert_eq!(a, b);
    let mut c = Converter::new(2, 0, "");
    c.convert_json(json).unwrap();
    c.convert_json(json).unwrap();
    assert_eq!(written_before_marker(&mut c, ""), format!("{}{}", a, a));
}

#[test]
fn write_schema_of_built_value() {
    let v = JsonValue::Object(vec![
        ("id".to_string(), JsonValue::Number),
        ("tags".to_string(), JsonValue::Array(vec![JsonValue::Str("x".to_string())])),
        ("ok".to_string(), JsonValue::Bool(true)),
    ]);
    let mut c = Converter::new(1, 0, "");
    c.write_schema(&v);
    c.object_convert(&JsonValue::Array(vec![]));
    let s = schema("", "", None, "0");
    let all = c.convert_schema(&s).unwrap().to_string();
    let expected = "type: object
properties:
 id:
  type: number
 tags:
  type: array
  items:
   type: string
 ok:
  type: boolean
type: undefined
";
    assert!(all.starts_with(expected));
}

#[test]
fn comment_prefix_gap_and_offset() {
    let mut c = Converter::new(4, 1, "#");
    c.write_string_type(true);
    let s = schema("", "", None, "0");
    let all = c.convert_schema(&s).unwrap().to_string();
    assert!(all.starts_with("#     type: string\n#         format: date\n#     :\n"));
}

#[test]
fn request_body_query_and_headers() {
    let s = Schema {
        root: "http://h".to_string(),
        path: "/items".to_string(),
        method: "POST".to_string(),
        body: Some(r#"{"n":2}"#.to_string()),
        header: vec!["X-Token : abc".to_string(), "Accept".to_string()],
        query: Some(vec!["page=1".to_string()]),
        param: None,
        res: "true".to_string(),
    };
    let mut c = Converter::new(2, 0, "");
    let out = c.convert_schema(&s).unwrap().to_string();
    let expected = "/items:
  post:
    description: unknown
    tags:
      - unknown
    parameters:
      - name: page
        in: query
        required: true
        schema:
          type: string
      - name: X-Token
        in: header
        required: true
        schema:
          type: string
      - name: Accept
        in: header
        required: true
        schema:
          type: string
    requestBody:
      content:
        application/json:
          schema:
            type: object
            properties:
              n:
                type: number
    responses:
      200:
        content:
          application/json:
            schema:
              type: boolean
";
    assert_eq!(out, expected);
}

#[test]
fn url_fills_placeholders_and_query() {
    let mut s = schema("/users/{id}/posts/{pid}", "GET", Some(vec!["id=5", "pid=a=b"]), "");
    s.query = Some(vec!["x=1".to_string(), "y=2".to_string()]);
    assert_eq!(s.get_url(), "http://localhost/users/5/posts/a=b?x=1&y=2");
    let t = schema("/plain", "GET", None, "");
    assert_eq!(t.get_url(), "http://localhost/plain");
}

#[test]
fn keys_are_split_on_first_equals() {
    let mut s = schema("/", "GET", Some(vec!["id=5", "name=a=b"]), "");
    s.query = Some(vec!["q=x".to_string(), "flag".to_string()]);
    assert_eq!(s.get_param_keys(), vec!["id", "name"]);
    assert_eq!(s.get_query_keys(), vec!["q", "flag"]);
    let t = schema("/", "GET", None, "");
    assert!(t.get_param_keys().is_empty());
    assert!(t.get_query_keys().is_empty());
}

#[test]
fn headers_are_split_and_trimmed() {
    assert_eq!(split_header("  Content-Type :  text/plain "), ("Content-Type", "text/plain"));
    assert_eq!(split_header("Auth: a:b"), ("Auth", "a:b"));
    assert_eq!(split_header(" Bare "), ("Bare", ""));
    let mut s = schema("/", "GET", None, "");
    s.header = vec![" A : 1".to_string(), "B:2".to_string()];
    assert_eq!(s.get_header_keys(), vec!["A", "B"]);
}

#[test]
fn split_once_finds_first() {
    assert_eq!(split_once("a=b=c", '='), Some(("a", "b=c")));
    assert_eq!(split_once("abc", '='), None);
    assert_eq!(split_once("=x", '='), Some(("", "x")));
}

#[test]
fn methods_are_dispatched() {
    assert_eq!(schema("/", "GET", None, "").request_method(), Ok(Method::Get));
    assert_eq!(schema("/", "POST", None, "").request_method(), Ok(Method::Post));
    assert_eq!(schema("/", "PUT", None, "").request_method(), Ok(Method::Put));
    assert_eq!(schema("/", "DELETE", None, "").request_method(), Ok(Method::Delete));
    assert_eq!(schema("/", "PATCH", None, "").request_method(), Ok(Method::Patch));
    assert_eq!(
        schema("/", "get", None, "").request_method(),
        Err(SchemaError::UnsupportedMethod)
    );
}

#[test]
fn method_is_lowercased_in_output() {
    let s = schema("/x", "DELETE", None, "1");
    let mut c = Converter::new(2, 0, "");
    let out = c.convert_schema(&s).unwrap().to_string();
    assert!(out.starts_with("/x:\n  delete:\n"));
}

#[test]
fn method_names_are_uppercased() {
    assert_eq!(to_uppercase("patch"), Ok("PATCH".to_string()));
}

#[test]
fn create_schema_keeps_fields() {
    let s = create_schema(SchemaParams {
        root: "r".to_string(),
        path: "/p".to_string(),
        method: "GET".to_string(),
        body: None,
        header: vec!["h: v".to_string()],
        query: None,
        param: Some(vec!["a=1".to_string()]),
        res: None,
    });
    assert_eq!(s.res, "");
    assert_eq!(s.path, "/p");
    assert_eq!(s.header, vec!["h: v".to_string()]);
    let t = create_schema(SchemaParams {
        root: "r".to_string(),
        path: "/p".to_string(),
        method: "GET".to_string(),
        body: Some("{}".to_string()),
        header: vec![],
        query: None,
        param: None,
        res: Some("[]".to_string()),
    });
    assert_eq!(t.res, "[]");
    assert_eq!(t.body, Some("{}".to_string()));
}
