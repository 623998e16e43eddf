use opage::config::Config;
use opage::database::{new_object_database, new_path_database};
use opage::default_request::{
    generate_multi_request_type_functions, generate_operation, generate_path_parameters,
    generate_query_parameter_code,
};
use opage::driver::{generate_inner_paths, generate_path_code};
use opage::path_utils::generate_responses;
use opage::schema::{
    MediaType, ObjectSchema, Operation, Parameter, ParameterIn, ParameterOrRef, PathItem, RequestBody,
    Response, SchemaOrRef, SchemaType, SchemaTypeSet, SpecDocument, StreamExtension,
};
use opage::types::{Method, ModuleInfo, RequestEntity, TransferMediaType, TypeDefinition};
use opage::websocket_request::read_websocket_stream_to_string;
use opage::GeneratorError;

fn empty_schema() -> ObjectSchema {
    ObjectSchema {
        title: None,
        description: None,
        schema_type: None,
        has_const: false,
        any_of: vec![],
        one_of: vec![],
        all_of: vec![],
        properties: vec![],
        required: vec![],
        items: None,
        example: None,
    }
}

fn typed(t: SchemaType) -> ObjectSchema {
    ObjectSchema { schema_type: Some(SchemaTypeSet::Single(t)), ..empty_schema() }
}

fn inline(s: ObjectSchema) -> SchemaOrRef {
    SchemaOrRef::Object(Box::new(s))
}

fn operation(id: Option<&str>) -> Operation {
    Operation {
        operation_id: id.map(|s| s.to_string()),
        description: None,
        summary: None,
        parameters: vec![],
        request_body: None,
        responses: vec![],
        server_stream: StreamExtension::Absent,
    }
}

fn json(schema: ObjectSchema) -> (String, MediaType) {
    ("application/json".to_string(), MediaType { schema: Some(inline(schema)) })
}

fn empty_document() -> SpecDocument {
    SpecDocument { schemas: vec![], paths: vec![] }
}

fn query_parameter(name: &str, required: bool, schema: ObjectSchema) -> ParameterOrRef {
    ParameterOrRef::Parameter(Parameter {
        name: name.to_string(),
        location: ParameterIn::Query,
        required: Some(required),
        description: None,
        example: None,
        schema: Some(inline(schema)),
    })
}

fn integer_array() -> ObjectSchema {
    ObjectSchema {
        items: Some(Box::new(inline(typed(SchemaType::Integer)))),
        example: Some("[1,2,3]".to_string()),
        ..typed(SchemaType::Array)
    }
}

#[test]
fn path_parameters_in_template_order() {
    let doc = empty_document();
    let op = operation(Some("getB"));
    let path = vec!["/a/{x}/b/{y}".to_string()];
    let pp = generate_path_parameters(&doc, &op, &path, &Config::new().name_mapping, "get_b", "/a/{x}/b/{y}").unwrap();
    let props = &pp.parameters_struct.properties;
    assert_eq!(props.len(), 2);
    assert_eq!(props[0].real_name, "x");
    assert_eq!(props[1].real_name, "y");
    assert!(props.iter().all(|p| p.required && p.property_type == "String"));
    assert_eq!(pp.path_format_string, "/a/{}/b/{}");
    assert_eq!(pp.parameters_struct_variable_name, "path_parameters");
}

#[test]
fn required_sequence_query_parameter_is_expanded() {
    let doc = empty_document();
    let mut op = operation(Some("list"));
    op.parameters.push(query_parameter("ids", true, integer_array()));
    let mut db = new_object_database();
    let path = vec!["/items".to_string()];
    let q = generate_query_parameter_code(&doc, &op, &path, &Config::new().name_mapping, &mut db, "list").unwrap();
    assert_eq!(q.query_struct.properties.len(), 1);
    assert_eq!(q.query_struct.properties[0].property_type, "Vec<i32>");
    assert_eq!(q.query_struct.properties[0].example.as_deref(), Some("[1,2,3]"));
    let code = &q.unroll_query_parameters_code;
    assert!(code.starts_with("  let mut request_query_parameters: Vec<(&str, String)> = vec![];\n"));
    assert!(code.contains(
        "query_parameters.ids.iter().for_each(|query_parameter_item| request_query_parameters.push((\"ids\", query_parameter_item.to_string())));\n"
    ));
    assert!(!code.contains("(\"ids\",query_parameters.ids.to_string())"));
}

#[test]
fn optional_and_single_query_parameters() {
    let doc = empty_document();
    let mut op = operation(Some("list"));
    op.parameters.push(query_parameter("limit", true, typed(SchemaType::Integer)));
    op.parameters.push(query_parameter("tag", false, typed(SchemaType::String)));
    op.parameters.push(query_parameter("ids", false, integer_array()));
    let mut db = new_object_database();
    let path = vec!["/items".to_string()];
    let q = generate_query_parameter_code(&doc, &op, &path, &Config::new().name_mapping, &mut db, "list").unwrap();
    let expected = [
        "  let mut request_query_parameters: Vec<(&str, String)> = vec![(\"limit\",query_parameters.limit.to_string())];\n",
        "  if let Some(ref query_parameter) = query_parameters.tag {\n",
        "  request_query_parameters.push((\"tag\", query_parameter.to_string()));\n",
        "}\n",
        "  if let Some(ref query_parameter) = query_parameters.ids {\n",
        "  query_parameter.iter().for_each(|query_parameter_item| request_query_parameters.push((\"ids\", query_parameter_item.to_string())));\n",
        "}\n",
    ]
    .join("");
    assert_eq!(q.unroll_query_parameters_code, expected);
}

#[test]
fn unresolved_parameter_fails_the_operation() {
    let doc = empty_document();
    let mut op = operation(Some("list"));
    op.parameters.push(ParameterOrRef::Unresolved("gone".to_string()));
    let mut db = new_object_database();
    let err = generate_query_parameter_code(&doc, &op, &vec![], &Config::new().name_mapping, &mut db, "list").unwrap_err();
    assert!(matches!(err, GeneratorError::ParameterError(_, _)));
}

#[test]
fn missing_operation_id_spares_siblings() {
    let mut post = operation(Some("createItem"));
    post.responses.push(("201".to_string(), Response { content: vec![] }));
    let doc = SpecDocument {
        schemas: vec![],
        paths: vec![(
            "/items".to_string(),
            PathItem { operations: vec![(Method::GET, operation(None)), (Method::POST, post)] },
        )],
    };
    let mut db = new_object_database();
    let mut paths = new_path_database();
    let report = generate_inner_paths(&doc, &Config::new(), &mut db, &mut paths);
    assert_eq!(report.generated, 1);
    assert_eq!(report.failures.len(), 1);
    assert!(matches!(report.failures[0].1, GeneratorError::MissingIdError(_, _)));
    assert_eq!(paths.len(), 1);
    let entry = paths.get("create_item").unwrap();
    assert!(matches!(entry.value().method, Method::POST));
    assert_eq!(entry.value().url, "/items");
    assert_eq!(entry.value().response_entities[0].1.canonical_status_code, "Created");
}

#[test]
fn status_codes_are_canonicalized() {
    let doc = empty_document();
    let mut db = new_object_database();
    let responses = vec![
        ("404".to_string(), Response { content: vec![] }),
        ("default".to_string(), Response { content: vec![] }),
        ("200".to_string(), Response { content: vec![] }),
    ];
    let mut config = Config::new();
    let v = generate_responses(&doc, &mut db, &vec![], &config.name_mapping, &responses, "get").unwrap();
    assert_eq!(v.len(), 2);
    assert_eq!(v[0].0, "404");
    assert_eq!(v[0].1.canonical_status_code, "Not Found");
    assert_eq!(v[1].1.canonical_status_code, "OK");
    config.name_mapping.status_code_mapping.push(("404".to_string(), "Missing".to_string()));
    let v = generate_responses(&doc, &mut db, &vec![], &config.name_mapping, &responses, "get").unwrap();
    assert_eq!(v[0].1.canonical_status_code, "Missing");
    let bad = vec![("4x4".to_string(), Response { content: vec![] })];
    let err = generate_responses(&doc, &mut db, &vec![], &config.name_mapping, &bad, "get").unwrap_err();
    assert!(matches!(err, GeneratorError::StatusCodeError(_, _)));
}

#[test]
fn empty_json() {
    let mut post = operation(Some("test"));
    post.responses.push(("200".to_string(), Response { content: vec![json(empty_schema())] }));
    let doc = empty_document();
    let mut db = new_object_database();
    let mut paths = new_path_database();
    let name = generate_operation(&doc, &Config::new().name_mapping, Method::POST, "/test", &post, &mut db, &mut paths)
        .expect("Failed to generated path");
    let entry = paths.get(&name).unwrap();
    match &entry.value().response_entities[0].1.content[0].1 {
        TransferMediaType::ApplicationJson(t) => assert!(t.is_none()),
        _ => panic!("expected JSON"),
    }
}

#[test]
fn request_body_with_two_content_types() {
    let mut post = operation(Some("upload"));
    let body = RequestBody {
        content: vec![
            json(ObjectSchema {
                properties: vec![("id".to_string(), inline(typed(SchemaType::Integer)))],
                ..typed(SchemaType::Object)
            }),
            ("text/plain".to_string(), MediaType { schema: None }),
            ("image/png".to_string(), MediaType { schema: None }),
        ],
    };
    post.request_body = Some(Ok(body));
    let doc = empty_document();
    let mut db = new_object_database();
    let mut paths = new_path_database();
    generate_operation(&doc, &Config::new().name_mapping, Method::POST, "/upload", &post, &mut db, &mut paths).unwrap();
    let entry = paths.get("upload").unwrap();
    let entity = entry.value().request_entity.as_ref().unwrap();
    assert_eq!(entity.content.len(), 2);
    assert_eq!(entity.content[0].0, "application/json");
    assert!(matches!(entity.content[1].1, TransferMediaType::TextPlain));
    assert!(entry.value().request_body.is_some());
}

#[test]
fn unsupported_stream_flag_is_rejected() {
    let mut op = operation(Some("watch"));
    op.server_stream = StreamExtension::Invalid;
    let doc = empty_document();
    let mut db = new_object_database();
    let mut paths = new_path_database();
    let err = generate_path_code(&doc, &Config::new(), Method::GET, "/watch", &op, &mut db, &mut paths).unwrap_err();
    assert!(matches!(err, GeneratorError::InvalidValueError(_)));
    assert_eq!(paths.len(), 0);
}

#[test]
fn streaming_operation_models_a_connection() {
    let mut op = operation(Some("watchEvents"));
    op.server_stream = StreamExtension::Flag(true);
    op.responses.push((
        "200".to_string(),
        Response { content: vec![json(ObjectSchema { title: Some("Event".to_string()), ..typed(SchemaType::String) })] },
    ));
    let doc = empty_document();
    let mut db = new_object_database();
    let mut paths = new_path_database();
    let name = generate_path_code(&doc, &Config::new(), Method::GET, "/events/{topic}", &op, &mut db, &mut paths).unwrap();
    assert_eq!(name, "watch_events");
    let entry = paths.get("watch_events").unwrap();
    let stream = entry.value().stream.as_ref().unwrap();
    assert_eq!(stream.message_type.name, "String");
    assert!(stream.source.contains("pub fn read(&mut self) -> Result<String, String>"));
    assert!(stream.source.contains("pub fn close(&mut self"));
    assert_eq!(entry.value().path_parameters.path_format_string, "/events/{}");
}

#[test]
fn streaming_without_ok_response_is_rejected() {
    let mut op = operation(Some("watch"));
    op.server_stream = StreamExtension::Flag(true);
    op.responses.push(("204".to_string(), Response { content: vec![] }));
    let doc = empty_document();
    let mut db = new_object_database();
    let mut paths = new_path_database();
    assert!(generate_path_code(&doc, &Config::new(), Method::GET, "/watch", &op, &mut db, &mut paths).is_err());
    assert_eq!(paths.len(), 0);
}

#[test]
fn stream_source_names_the_types() {
    let source = read_websocket_stream_to_string("EventsStream", "Event");
    assert!(source.starts_with("pub struct EventsStream {\n"));
    assert!(source.contains("impl EventsStream {"));
    assert!(source.contains("serde_json::from_str::<Event>(&response_text)"));
}

#[test]
fn one_call_variant_per_content_type() {
    let doc = empty_document();
    let op = operation(Some("upload"));
    let path = vec!["/pets/{id}".to_string()];
    let m = Config::new().name_mapping;
    let pp = generate_path_parameters(&doc, &op, &path, &m, "upload", "/pets/{id}").unwrap();
    let mut db = new_object_database();
    let qp = generate_query_parameter_code(&doc, &op, &path, &m, &mut db, "upload").unwrap();
    let pet = TypeDefinition {
        name: "Pet".to_string(),
        module: Some(ModuleInfo { name: "Pet".to_string(), path: "crate::models".to_string() }),
        description: None,
        example: None,
    };
    let entity = RequestEntity {
        content: vec![
            ("application/json".to_string(), TransferMediaType::ApplicationJson(Some(pet))),
            ("text/plain".to_string(), TransferMediaType::TextPlain),
        ],
    };
    let mut imports = vec![ModuleInfo { name: "reqwest".to_string(), path: String::new() }];
    let code = generate_multi_request_type_functions(&path, &m, "upload", &pp, &mut imports, &qp, "UploadResponseType", Method::POST, &entity)
        .unwrap();
    assert_eq!(code.matches("pub async fn ").count(), 2);
    assert!(code.contains("(client: &reqwest::Client, server: &str, path_parameters: &"));
    assert!(code.contains(", content: Pet) -> Result<UploadResponseType, reqwest::Error> {\n"));
    assert!(code.contains(", content: &String) -> Result<UploadResponseType, reqwest::Error> {\n  let body = content.to_owned();\n"));
    assert!(code.contains("client.post(format!(\"{server}/pets/{}\", path_parameters.id)).json(&content);\n"));
    assert!(code.contains(".body(body);\n"));
    assert_eq!(imports.len(), 2);
    assert_eq!(imports[1].name, "Pet");

    let single = RequestEntity { content: vec![("text/plain".to_string(), TransferMediaType::TextPlain)] };
    assert!(generate_multi_request_type_functions(&path, &m, "upload", &pp, &mut imports, &qp, "R", Method::POST, &single).is_none());
    assert_eq!(imports.len(), 2);
}

#[test]
fn streaming_operation_without_id_is_missing_id() {
    let mut op = operation(None);
    op.server_stream = StreamExtension::Flag(true);
    let doc = empty_document();
    let mut db = new_object_database();
    let mut paths = new_path_database();
    let err = opage::websocket_request::generate_operation(&doc, &Config::new().name_mapping, "/watch", &op, &mut db, &mut paths)
        .unwrap_err();
    assert!(matches!(err, GeneratorError::MissingIdError(_, _)));
    assert_eq!(paths.len(), 0);
}

#[test]
fn repeated_path_parameter_appears_once() {
    let doc = empty_document();
    let op = operation(Some("get"));
    let path = vec!["/{x}/{x}".to_string()];
    let pp = generate_path_parameters(&doc, &op, &path, &Config::new().name_mapping, "get", "/{x}/{x}").unwrap();
    assert_eq!(pp.parameters_struct.properties.len(), 1);
    assert_eq!(pp.path_format_string, "/{}/{}");
}

#[test]
fn streaming_plain_text_body_is_unsupported() {
    let mut op = operation(Some("watch"));
    op.server_stream = StreamExtension::Flag(true);
    op.responses.push((
        "200".to_string(),
        Response { content: vec![("text/plain".to_string(), MediaType { schema: None })] },
    ));
    let doc = empty_document();
    let mut db = new_object_database();
    let mut paths = new_path_database();
    let err = opage::websocket_request::generate_operation(&doc, &Config::new().name_mapping, "/watch", &op, &mut db, &mut paths)
        .unwrap_err();
    assert!(matches!(err, GeneratorError::UnsupportedError(_)));
    assert_eq!(paths.len(), 0);
}

#[test]
fn query_parameter_without_schema_is_a_parameter_error() {
    let doc = empty_document();
    let mut op = operation(Some("list"));
    op.parameters.push(ParameterOrRef::Parameter(Parameter {
        name: "q".to_string(),
        location: ParameterIn::Query,
        required: None,
        description: None,
        example: None,
        schema: None,
    }));
    let mut db = new_object_database();
    let err = generate_query_parameter_code(&doc, &op, &vec![], &Config::new().name_mapping, &mut db, "list").unwrap_err();
    assert!(matches!(err, GeneratorError::ParameterError(_, _)));
}
