//! The modeler of streaming operations: a persistent connection that yields decoded messages
//! instead of a single response.
use crate::database::{insert_path, object_entries, path_entries, ObjectDatabase, PathDatabase};
use crate::default_request::{generate_path_parameters, generate_query_parameter_code, models_call, queries_resolve};
use crate::errors::GeneratorError;
use crate::name_mapping::{module_name_of, struct_name_of, NameMapping};
use crate::path_utils::{
    all_statuses_named, entity_keys, generate_request_body_entity, generate_responses, lemma_response_keys_contain,
    first_body_converted, json_body_resolves, json_schema_empty, response_keys, first_body_kept,
};
use crate::resolver::db_extends;
use crate::schema::{MediaType, Operation, Response, SpecDocument};
use crate::text::{concat, str_eq};
use crate::types::{
    Method, ModuleInfo, PathDefinition, ResponseEntity, StreamDefinition, TransferMediaType,
    TypeDefinition,
};
use vstd::prelude::*;
use vstd::string::*;

verus! {

/// The source of a connection type named `s` whose messages decode to `t`.
pub open spec fn stream_source(s: Seq<char>, t: Seq<char>) -> Seq<char> {
    "pub struct "@ + s + " {\n    socket: WebSocket<MaybeTlsStream<TcpStream>>,\n    }\n\nimpl "@ + s
        + " {\n    pub fn from(socket: WebSocket<MaybeTlsStream<TcpStream>>) -> Self {\n        "@ + s
        + " { socket: socket }\n    }\n\n    pub fn close(&mut self, code: Option<CloseFrame>) -> Result<(), Error> {\n        self.socket.close(code)\n    }\n\n    pub fn read(&mut self) -> Result<"@
        + t
        + ", String> {\n        let response = match self.socket.read() {\n            Ok(response) => response,\n            Err(err) => return Err(err.to_string()),\n        };\n\n        let response_text = match response.into_text() {\n            Ok(response) => response,\n            Err(err) => return Err(err.to_string()),\n        };\n\n        match serde_json::from_str::<"@
        + t
        + ">(&response_text) {\n            Ok(response_json_object) => Ok(response_json_object),\n            Err(err) => Err(err.to_string()),\n        }\n    }\n}\n"@
}

/// The source of a connection type with a blocking `read`, which returns one decoded message
/// or the transport or decoding error, and a `close`.
pub fn read_websocket_stream_to_string(struct_name: &str, response_type_name: &str) -> (r: String)
    ensures
        r@ == stream_source(struct_name@, response_type_name@),
{
    let mut out = "pub struct ".to_owned();
    out.append(struct_name);
    out.append(" {\n    socket: WebSocket<MaybeTlsStream<TcpStream>>,\n    }\n\nimpl ");
    out.append(struct_name);
    out.append(" {\n    pub fn from(socket: WebSocket<MaybeTlsStream<TcpStream>>) -> Self {\n        ");
    out.append(struct_name);
    out.append(
        " { socket: socket }\n    }\n\n    pub fn close(&mut self, code: Option<CloseFrame>) -> Result<(), Error> {\n        self.socket.close(code)\n    }\n\n    pub fn read(&mut self) -> Result<",
    );
    out.append(response_type_name);
    out.append(
        ", String> {\n        let response = match self.socket.read() {\n            Ok(response) => response,\n            Err(err) => return Err(err.to_string()),\n        };\n\n        let response_text = match response.into_text() {\n            Ok(response) => response,\n            Err(err) => return Err(err.to_string()),\n        };\n\n        match serde_json::from_str::<",
    );
    out.append(response_type_name);
    out.append(
        ">(&response_text) {\n            Ok(response_json_object) => Ok(response_json_object),\n            Err(err) => Err(err.to_string()),\n        }\n    }\n}\n",
    );
    out
}

fn tungstenite_modules() -> (r: Vec<ModuleInfo>) {
    vec![
        ModuleInfo { name: "TcpStream".to_owned(), path: "std::net".to_owned() },
        ModuleInfo { name: "connect".to_owned(), path: "tungstenite".to_owned() },
        ModuleInfo { name: "Error".to_owned(), path: "tungstenite".to_owned() },
        ModuleInfo { name: "WebSocket".to_owned(), path: "tungstenite".to_owned() },
        ModuleInfo { name: "CloseFrame".to_owned(), path: "tungstenite::protocol".to_owned() },
        ModuleInfo { name: "MaybeTlsStream".to_owned(), path: "tungstenite::stream".to_owned() },
    ]
}

/// What the first body of the `200` response gives as message type: the JSON type, or a
/// string for plain text; a missing body or an empty JSON schema is rejected.
pub open spec fn ok_message_outcome(ok: ResponseEntity, r: Result<TypeDefinition, GeneratorError>) -> bool {
    if ok.content@.len() == 0 {
        r matches Err(e) && e is InvalidValueError
    } else {
        match ok.content@[0].1 {
            TransferMediaType::ApplicationJson(Some(t)) => r == Ok::<TypeDefinition, GeneratorError>(t),
            TransferMediaType::ApplicationJson(None) => r matches Err(e) && e is UnsupportedError,
            TransferMediaType::TextPlain => r matches Err(e) && e is UnsupportedError,
        }
    }
}

/// What the first body of a response entity is: 0 none, 1 plain text, 2 JSON with a type,
/// 3 JSON without one.
pub open spec fn entity_body_kind(e: ResponseEntity) -> int {
    if e.content@.len() == 0 {
        0
    } else {
        match e.content@[0].1 {
            TransferMediaType::TextPlain => 1,
            TransferMediaType::ApplicationJson(Some(_)) => 2,
            TransferMediaType::ApplicationJson(None) => 3,
        }
    }
}

/// The first body of a response, as declared, is of that kind.
pub open spec fn response_body_kind(spec: SpecDocument, c: Seq<(String, MediaType)>, k: int) -> bool {
    if k == 0 {
        c.len() == 0
    } else if k == 1 {
        c.len() > 0 && c[0].0@ == "text/plain"@
    } else if k == 2 {
        c.len() > 0 && c[0].0@ == "application/json"@ && json_body_resolves(spec, c[0].1)
    } else {
        c.len() > 0 && c[0].0@ == "application/json"@ && json_schema_empty(spec, c[0].1)
    }
}

/// There is a `200` entity, and every one has a first body of that kind.
pub open spec fn ok_entities_are(entities: Seq<(String, ResponseEntity)>, k: int) -> bool {
    &&& exists|i: int| 0 <= i < entities.len() && (#[trigger] entities[i]).0@ == "200"@
    &&& forall|i: int| 0 <= i < entities.len() && (#[trigger] entities[i]).0@ == "200"@ ==> entity_body_kind(entities[i].1) == k
}

/// There is a `200` response, and every one declares a first body of that kind.
pub open spec fn ok_responses_are(spec: SpecDocument, responses: Seq<(String, Response)>, k: int) -> bool {
    &&& exists|i: int| 0 <= i < responses.len() && (#[trigger] responses[i]).0@ == "200"@
    &&& forall|i: int| 0 <= i < responses.len() && (#[trigger] responses[i]).0@ == "200"@ ==> response_body_kind(
        spec,
        responses[i].1.content@,
        k,
    )
}

/// The outcome for a `200` body of that kind: a JSON body with a type is the message type; no
/// body is an invalid value; plain text or an empty JSON schema is unsupported.
pub open spec fn kind_outcome(k: int, r: Result<TypeDefinition, GeneratorError>) -> bool {
    if k == 2 {
        r is Ok
    } else if k == 0 {
        r matches Err(e) && e is InvalidValueError
    } else {
        r matches Err(e) && e is UnsupportedError
    }
}

/// The message type of a streaming operation: the first body of its `200` response, which
/// must be plain text or JSON with a type.
pub fn stream_message_type(response_entities: &Vec<(String, ResponseEntity)>) -> (r: Result<
    TypeDefinition,
    GeneratorError,
>)
    ensures
        (forall|i: int| 0 <= i < response_entities@.len() ==> (#[trigger] response_entities@[i]).0@ != "200"@)
            ==> (r matches Err(e) && e is InvalidValueError),
        forall|i: int|
            0 <= i < response_entities@.len() && (#[trigger] response_entities@[i]).0@ == "200"@ && (forall|j: int|
                0 <= j < i ==> response_entities@[j].0@ != "200"@) ==> ok_message_outcome(response_entities@[i].1, r),
        forall|k: int| ok_entities_are(response_entities@, k) ==> #[trigger] kind_outcome(k, r),
{
    let mut i: usize = 0;
    while i < response_entities.len()
        invariant
            i <= response_entities@.len(),
            forall|j: int| 0 <= j < i ==> (#[trigger] response_entities@[j]).0@ != "200"@,
        decreases response_entities@.len() - i,
    {
        if str_eq(response_entities[i].0.as_str(), "200") {
            let ok_response = &response_entities[i].1;
            assert forall|a: int|
                0 <= a < response_entities@.len() && (#[trigger] response_entities@[a]).0@ == "200"@ && (forall|j: int|
                    0 <= j < a ==> response_entities@[j].0@ != "200"@) implies a == i by {
                if a < i {
                } else if a > i {
                    assert(response_entities@[i as int].0@ != "200"@);
                }
            }
            assert forall|k: int| ok_entities_are(response_entities@, k) implies entity_body_kind(response_entities@[i as int].1) == k by {}
            if ok_response.content.len() == 0 {
                return Err(GeneratorError::InvalidValueError("Transfer type missing".to_owned()));
            }
            return match &ok_response.content[0].1 {
                TransferMediaType::ApplicationJson(Some(type_definition)) => Ok(type_definition.copied()),
                TransferMediaType::ApplicationJson(None) => Err(
                    GeneratorError::UnsupportedError("Websocket with empty response body".to_owned()),
                ),
                TransferMediaType::TextPlain => Err(
                    GeneratorError::UnsupportedError("Websocket with a plain-text response body".to_owned()),
                ),
            };
        }
        i = i + 1;
    }
    Err(GeneratorError::InvalidValueError("No OK response found".to_owned()))
}

/// The modeled operation is a connection of the named stream type.
pub open spec fn streams_through(pd: PathDefinition, struct_name: Seq<char>) -> bool {
    pd.stream matches Some(st) && st.struct_name@ == struct_name && st.source@ == stream_source(
        struct_name,
        st.message_type.name@,
    )
}

/// The operation has a `200` response, and each offers first a JSON body that resolves to a
/// type.
pub open spec fn ok_response_is_json(spec: SpecDocument, responses: Seq<(String, Response)>) -> bool {
    ok_responses_are(spec, responses, 2)
}

proof fn lemma_ok_entities(spec: SpecDocument, responses: Seq<(String, Response)>, entities: Seq<(String, ResponseEntity)>)
    requires
        entity_keys(entities) == response_keys(responses),
        forall|j: int| 0 <= j < entities.len() ==> first_body_kept(spec, responses, #[trigger] entities[j]),
    ensures
        forall|k: int| 0 <= k <= 3 && ok_responses_are(spec, responses, k) ==> ok_entities_are(entities, k),
        (forall|i: int| 0 <= i < responses.len() ==> (#[trigger] responses[i]).0@ != "200"@) ==> forall|j: int|
            0 <= j < entities.len() ==> (#[trigger] entities[j]).0@ != "200"@,
{
    reveal_strlit("200");
    reveal_strlit("default");
    assert("200"@ != "default"@) by {
        assert("200"@[0] != "default"@[0]);
    }
    lemma_response_keys_contain(responses, "200"@);
    assert(entity_keys(entities) == response_keys(responses));
    if exists|j: int| 0 <= j < entities.len() && (#[trigger] entities[j]).0@ == "200"@ {
        let j = choose|j: int| 0 <= j < entities.len() && (#[trigger] entities[j]).0@ == "200"@;
        assert(entity_keys(entities)[j] == "200"@);
        assert(response_keys(responses).contains("200"@));
    }
    if response_keys(responses).contains("200"@) {
        let j = choose|j: int| 0 <= j < response_keys(responses).len() && response_keys(responses)[j]
            == "200"@;
        assert(entity_keys(entities)[j] == "200"@);
        assert(entities[j].0@ == "200"@);
    }
    assert forall|k: int| 0 <= k <= 3 && ok_responses_are(spec, responses, k) implies ok_entities_are(
        entities,
        k,
    ) by {
        let i = choose|i: int| 0 <= i < responses.len() && (#[trigger] responses[i]).0@ == "200"@;
        assert(response_keys(responses).contains("200"@));
        assert forall|j: int| 0 <= j < entities.len() && (#[trigger] entities[j]).0@ == "200"@
            implies entity_body_kind(entities[j].1) == k by {
            assert(first_body_kept(spec, responses, entities[j]));
            let i2 = choose|i2: int| 0 <= i2 < responses.len() && (#[trigger] responses[i2]).0@
                == entities[j].0@ && first_body_converted(
                spec,
                responses[i2].1.content@,
                entities[j].1.content@,
            );
            assert(response_body_kind(spec, responses[i2].1.content@, k));
        }
    }
}

/// Models one streaming operation and records it in the path database under its converted
/// `operationId`.
pub fn generate_operation(
    spec: &SpecDocument,
    name_mapping: &NameMapping,
    path: &str,
    operation: &Operation,
    object_database: &mut ObjectDatabase,
    path_database: &mut PathDatabase,
) -> (r: Result<String, GeneratorError>)
    ensures
        db_extends(*old(object_database), *final(object_database)),
        operation.operation_id is None ==> (r matches Err(e) && e is MissingIdError) && object_entries(
            *final(object_database),
        ) == object_entries(*old(object_database)),
        r is Err ==> path_entries(*final(path_database)) == path_entries(*old(path_database)),
        r matches Ok(n) ==> operation.operation_id matches Some(id) && n@ == module_name_of(*name_mapping, id@)
            && path_entries(*final(path_database)).contains_key(n@) && path_entries(*final(path_database)).remove(n@)
            == path_entries(*old(path_database)).remove(n@) && models_call(
            path_entries(*final(path_database))[n@],
            n@,
            Method::GET,
            path@,
            true,
) && streams_through(
            path_entries(*final(path_database))[n@],
            struct_name_of(*name_mapping, seq![path@], n@) + "Stream"@,
        ),
        operation.operation_id is Some && all_statuses_named(*name_mapping, operation.responses@) && (forall|i: int|
            0 <= i < operation.responses@.len() ==> (#[trigger] operation.responses@[i]).0@ != "200"@) ==> (r matches Err(e)
            && e is InvalidValueError),
        operation.operation_id is Some && all_statuses_named(*name_mapping, operation.responses@) && queries_resolve(
            *spec,
            operation.parameters@,
        ) && (operation.request_body matches Some(b) ==> b is Ok) && ok_response_is_json(*spec, operation.responses@) ==> r is Ok,
        operation.operation_id is Some && all_statuses_named(*name_mapping, operation.responses@) ==> (ok_responses_are(
            *spec,
            operation.responses@,
            0,
        ) ==> (r matches Err(e) && e is InvalidValueError)),
        operation.operation_id is Some && all_statuses_named(*name_mapping, operation.responses@) ==> (ok_responses_are(
            *spec,
            operation.responses@,
            1,
        ) || ok_responses_are(*spec, operation.responses@, 3) ==> (r matches Err(e) && e is UnsupportedError)),
{
    let operation_definition_path: Vec<String> = vec![path.to_owned()];
    let function_name = match &operation.operation_id {
        Some(operation_id) => name_mapping.name_to_module_name(operation_id.as_str()),
        None => {
            return Err(GeneratorError::MissingIdError("operation_id".to_owned(), path.to_owned()));
        },
    };
    let ghost db0 = *object_database;
    let response_entities = match generate_responses(
        spec,
        object_database,
        &operation_definition_path,
        name_mapping,
        &operation.responses,
        function_name.as_str(),
    ) {
        Ok(entities) => entities,
        Err(err) => {
            return Err(err);
        },
    };
    proof {
        lemma_ok_entities(*spec, operation.responses@, response_entities@);
    }
    let outcome = stream_message_type(&response_entities);
    proof {
        assert(ok_entities_are(response_entities@, 0) ==> kind_outcome(0, outcome));
        assert(ok_entities_are(response_entities@, 1) ==> kind_outcome(1, outcome));
        assert(ok_entities_are(response_entities@, 2) ==> kind_outcome(2, outcome));
        assert(ok_entities_are(response_entities@, 3) ==> kind_outcome(3, outcome));
    }
    let message_type = match outcome {
        Ok(t) => t,
        Err(err) => {
            return Err(err);
        },
    };
    let path_parameters = match generate_path_parameters(
        spec,
        operation,
        &operation_definition_path,
        name_mapping,
        function_name.as_str(),
        path,
    ) {
        Ok(p) => p,
        Err(err) => {
            return Err(err);
        },
    };
    let ghost db1 = *object_database;
    let query_parameters = match generate_query_parameter_code(
        spec,
        operation,
        &operation_definition_path,
        name_mapping,
        object_database,
        function_name.as_str(),
    ) {
        Ok(q) => q,
        Err(err) => {
            proof {
                vstd::map_lib::lemma_submap_of_trans(object_entries(db0), object_entries(db1), object_entries(*object_database));
            }
            return Err(err);
        },
    };
    proof {
        vstd::map_lib::lemma_submap_of_trans(object_entries(db0), object_entries(db1), object_entries(*object_database));
    }
    let ghost db2 = *object_database;
    let request_entity = match &operation.request_body {
        Some(request_body) => match generate_request_body_entity(
            spec,
            object_database,
            &operation_definition_path,
            name_mapping,
            request_body,
            function_name.as_str(),
        ) {
            Ok(entity) => Some(entity),
            Err(err) => {
                proof {
                    vstd::map_lib::lemma_submap_of_trans(object_entries(db0), object_entries(db2), object_entries(*object_database));
                }
                return Err(GeneratorError::CodeGenerationError("request body".to_owned(), err.message()));
            },
        },
        None => None,
    };
    proof {
        vstd::map_lib::lemma_submap_of_trans(object_entries(db0), object_entries(db2), object_entries(*object_database));
    }
    let base_name = name_mapping.name_to_struct_name(&operation_definition_path, function_name.as_str());
    let struct_name = concat(base_name.as_str(), "Stream");
    let mut used_modules = tungstenite_modules();
    if let Some(module) = &message_type.module {
        used_modules.push(module.clone());
    }
    let source = read_websocket_stream_to_string(struct_name.as_str(), message_type.name.as_str());
    let path_definition = PathDefinition {
        package: String::new(),
        name: function_name.clone(),
        method: Method::GET,
        url: path.to_owned(),
        response_name: struct_name.clone(),
        used_modules,
        request_body: None,
        request_entity,
        local_objects: Vec::new(),
        description: match &operation.description {
            Some(d) => d.clone(),
            None => String::new(),
        },
        response_entities,
        path_parameters,
        query_parameters,
        stream: Some(StreamDefinition { struct_name, message_type, source }),
    };
    insert_path(path_database, function_name.clone(), path_definition);
    assert(path_entries(*path_database).remove(function_name@) =~= path_entries(*old(path_database)).remove(
        function_name@,
    ));
    Ok(function_name)
}

} // verus!
