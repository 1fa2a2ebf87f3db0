use valiforge::engine::ParamLocation;
use valiforge::openapi::{
    endpoints_from_document, parse_openapi_string, MediaEntry, PathEntry, ResponseEntry, SchemaError,
    SpecDocument, SpecOperation, SpecParameter, SpecPathItem, StatusKey,
};

const PETSTORE: &str = r#"
openapi: 3.0.3
info:
  title: Pets
  version: "1"
paths:
  /users:
    post:
      responses:
        "201":
          description: created
    get:
      parameters:
        - name: limit
          in: query
          schema:
            type: integer
        - name: X-Trace
          in: header
          required: true
          schema:
            type: string
        - $ref: '#/components/parameters/Other'
      responses:
        "200":
          description: ok
          content:
            application/json:
              schema:
                type: array
    trace:
      responses:
        "200":
          description: ok
  /users/{id}:
    delete:
      parameters:
        - name: id
          in: path
          required: true
          schema:
            type: string
      responses:
        "404":
          description: missing
        "204":
          description: gone
    options:
      responses:
        "2XX":
          description: range
  /ref:
    $ref: '#/components/pathItems/Ref'
"#;

#[test]
fn yaml_document_gives_endpoints_in_order() {
    let eps = parse_openapi_string(PETSTORE).unwrap();
    let got: Vec<(String, String, u16, bool)> = eps
        .iter()
        .map(|e| (e.method.clone(), e.path.clone(), e.expected_status, e.response_schema.is_some()))
        .collect();
    assert_eq!(
        got,
        vec![
            ("GET".to_string(), "/users".to_string(), 200, true),
            ("POST".to_string(), "/users".to_string(), 201, false),
            ("DELETE".to_string(), "/users/{id}".to_string(), 204, false),
            ("OPTIONS".to_string(), "/users/{id}".to_string(), 200, false),
        ]
    );
    for e in &eps {
        assert!(["GET", "POST", "PUT", "DELETE", "PATCH", "HEAD", "OPTIONS"].contains(&e.method.as_str()));
        assert!([200, 201, 204].contains(&e.expected_status));
        for p in &e.parameters {
            assert!(p.location != ParamLocation::Path || p.required);
        }
    }
    let get = &eps[0];
    assert_eq!(get.parameters.len(), 2);
    assert_eq!(get.parameters[0].name, "limit");
    assert_eq!(get.parameters[0].location, ParamLocation::Query);
    assert!(!get.parameters[0].required);
    assert_eq!(get.parameters[0].schema.as_ref().unwrap()["type"], "integer");
    assert_eq!(get.parameters[1].location, ParamLocation::Header);
    assert!(get.parameters[1].required);
    assert_eq!(get.response_schema.as_ref().unwrap()["type"], "array");
    let del = &eps[2];
    assert_eq!(del.parameters[0].location, ParamLocation::Path);
    assert!(del.parameters[0].required);
}

#[test]
fn json_document_is_accepted() {
    let doc = r#"{"openapi": "3.1.0", "info": {"title": "t", "version": "1"},
        "paths": {"/ping": {"head": {"responses": {"204": {"description": "pong"}}}}}}"#;
    let eps = parse_openapi_string(doc).unwrap();
    assert_eq!(eps.len(), 1);
    assert_eq!(eps[0].method, "HEAD");
    assert_eq!(eps[0].path, "/ping");
    assert_eq!(eps[0].expected_status, 204);
}

#[test]
fn other_versions_are_refused() {
    let doc = "openapi: 2.0.0\ninfo:\n  title: t\n  version: '1'\npaths: {}\n";
    match parse_openapi_string(doc) {
        Err(SchemaError::UnsupportedVersion { version }) => assert_eq!(version, "2.0.0"),
        other => panic!("expected an unsupported version, got {other:?}"),
    }
}

#[test]
fn unreadable_text_is_a_json_error() {
    match parse_openapi_string("this is not an OpenAPI document: [") {
        Err(SchemaError::JsonParse(_)) => {}
        other => panic!("expected a JSON parse error, got {other:?}"),
    }
}

fn op(parameters: Vec<Option<SpecParameter>>, responses: Vec<ResponseEntry>) -> SpecOperation {
    SpecOperation { parameters, responses }
}

fn empty_item() -> SpecPathItem {
    SpecPathItem { get: None, put: None, post: None, delete: None, options: None, head: None, patch: None }
}

#[test]
fn model_response_choice_and_required_path_params() {
    let json_schema: serde_json::Value = serde_json::from_str(r#"{"type": "string"}"#).unwrap();
    let responses = vec![
        ResponseEntry { status: StatusKey::Code(200), content: None },
        ResponseEntry { status: StatusKey::Range(2), content: Some(vec![]) },
        ResponseEntry {
            status: StatusKey::Code(201),
            content: Some(vec![
                MediaEntry { media_type: "text/plain".to_string(), schema: None },
                MediaEntry { media_type: "application/json".to_string(), schema: Some(json_schema.clone()) },
            ]),
        },
    ];
    let params = vec![
        Some(SpecParameter { location: ParamLocation::Path, name: "id".to_string(), required: false, schema: None }),
        None,
        Some(SpecParameter { location: ParamLocation::Cookie, name: "c".to_string(), required: false, schema: None }),
    ];
    let mut item = empty_item();
    item.patch = Some(op(params, responses));
    item.put = Some(op(vec![], vec![]));
    let doc = SpecDocument {
        openapi: "3.0.0".to_string(),
        paths: vec![
            PathEntry { path: "/a".to_string(), item: Some(item) },
            PathEntry { path: "/b".to_string(), item: None },
        ],
    };
    let eps = endpoints_from_document(&doc).unwrap();
    assert_eq!(eps.len(), 2);
    assert_eq!(eps[0].method, "PUT");
    assert_eq!(eps[0].expected_status, 200);
    assert!(eps[0].response_schema.is_none());
    assert_eq!(eps[1].method, "PATCH");
    assert_eq!(eps[1].expected_status, 201);
    assert_eq!(eps[1].response_schema, Some(json_schema));
    assert_eq!(eps[1].parameters.len(), 2);
    assert!(eps[1].parameters[0].required);
    assert!(!eps[1].parameters[1].required);
}

#[test]
fn model_version_check() {
    for (v, ok) in [("3.0.3", true), ("3.1", true), ("3.2.0", false), ("", false), ("v3.0", false)] {
        let doc = SpecDocument { openapi: v.to_string(), paths: vec![] };
        match endpoints_from_document(&doc) {
            Ok(eps) => {
                assert!(ok, "{v} must be refused");
                assert!(eps.is_empty());
            }
            Err(SchemaError::UnsupportedVersion { version }) => {
                assert!(!ok, "{v} must be accepted");
                assert_eq!(version, v);
            }
            Err(other) => panic!("unexpected {other:?}"),
        }
    }
}
