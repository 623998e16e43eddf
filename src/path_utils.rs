//! Request bodies, responses and content types of operations.
use crate::database::{object_entries, ObjectDatabase};
use crate::errors::GeneratorError;
use crate::name_mapping::{
    module_name_of, struct_name_of,
    lookup, status_code_from_key, status_code_of, status_digits, status_reason, NameMapping,
};
use crate::resolver::{
    ref_struct_name, simple_type_name, struct_schema,
    db_extends, get_object_or_ref_struct_name, get_or_create_object, get_type_from_schema,
    object_key, registered, MAX_RESOLUTION_DEPTH,
};
use crate::schema::{
    is_object_empty, resolve_schema, resolved, resolved_ref, schema_is_empty, MediaType, ObjectSchema, RequestBody,
    Response, SchemaOrRef, SpecDocument,
};
use crate::text::{concat, copy_path, ends_with, is_prefix, is_suffix, split_on, starts_with, str_eq};
use crate::types::{ModuleInfo, ObjectDefinition, RequestEntity, ResponseEntity, TransferMediaType, TypeDefinition};
use vstd::prelude::*;
use vstd::string::*;

verus! {

/// The type of a named object imported from the `objects` module tree.
pub open spec fn object_module_type(mapping: NameMapping, td: TypeDefinition, name: Seq<char>) -> bool {
    &&& td.name@ == name
    &&& td.module matches Some(mi) && mi.name@ == name && mi.path@ == "crate::objects::"@ + module_name_of(mapping, name)
}

/// A JSON body whose schema resolves to a non-empty schema that gives a type: a reference, a
/// scalar, a sequence of a scalar, or a struct.
pub open spec fn json_body_resolves(spec: SpecDocument, mt: MediaType) -> bool {
    match mt.schema {
        Some(sc) => match resolved(spec, sc) {
            Some(x) => !schema_is_empty(x) && (sc is Ref || simple_type_name(spec, x) is Some || struct_schema(x)),
            None => false,
        },
        None => false,
    }
}

/// A URL template segment of the form `{name}`.
pub open spec fn is_param_segment(s: Seq<char>) -> bool {
    is_prefix("{"@, s) && is_suffix("}"@, s)
}

pub fn is_path_parameter(path_component: &str) -> (r: bool)
    ensures
        r == is_param_segment(path_component@),
{
    starts_with(path_component, "{") && ends_with(path_component, "}")
}

/// The type of a JSON body: nothing for an empty schema, the named object for a reference,
/// and the resolved type for a schema given in place.
fn parse_json_data(
    spec: &SpecDocument,
    definition_path: &Vec<String>,
    name_mapping: &NameMapping,
    new_object_name: &str,
    object_database: &mut ObjectDatabase,
    json_schema_object_or_ref: &SchemaOrRef,
) -> (r: Result<Option<TypeDefinition>, GeneratorError>)
    ensures
        db_extends(*old(object_database), *final(object_database)),
        match resolved(*spec, *json_schema_object_or_ref) {
            None => r matches Err(e) && e is ResolveError,
            Some(s) => schema_is_empty(s) ==> r matches Ok(None),
        },
        *json_schema_object_or_ref matches SchemaOrRef::Ref(p) ==> match resolved_ref(*spec, p@) {
            Some(x) => !schema_is_empty(x) ==> (r matches Ok(Some(td)) && object_module_type(*name_mapping, td, ref_struct_name(*name_mapping, p@, x))),
            None => true,
        },
        *json_schema_object_or_ref matches SchemaOrRef::Object(b) ==> (!schema_is_empty(*b) ==> (simple_type_name(*spec, *b)
            matches Some(n) ==> (r matches Ok(Some(td)) && td.name@ == n && td.module is None))),
        *json_schema_object_or_ref matches SchemaOrRef::Object(b) ==> (!schema_is_empty(*b) && struct_schema(*b) ==> (r matches Ok(
            Some(_),
        ))),
{
    let schema_object = match resolve_schema(spec, json_schema_object_or_ref) {
        Ok(s) => s,
        Err(err) => {
            return Err(GeneratorError::ResolveError(concat("Failed to resolve json response ", err.message().as_str())));
        },
    };
    if is_object_empty(schema_object) {
        return Ok(None);
    }
    match json_schema_object_or_ref {
        SchemaOrRef::Ref(_) => match get_object_or_ref_struct_name(
            spec,
            definition_path,
            name_mapping,
            json_schema_object_or_ref,
        ) {
            Ok((_, object_name, description, example)) => {
                let module_name = name_mapping.name_to_module_name(object_name.as_str());
                Ok(
                    Some(
                        TypeDefinition {
                            module: Some(
                                ModuleInfo {
                                    path: concat("crate::objects::", module_name.as_str()),
                                    name: object_name.clone(),
                                },
                            ),
                            name: object_name,
                            description,
                            example,
                        },
                    ),
                )
            },
            Err(err) => Err(err),
        },
        SchemaOrRef::Object(object_schema) => {
            let path = copy_path(definition_path);
            match get_type_from_schema(
                spec,
                object_database,
                path,
                object_schema,
                Some(new_object_name),
                name_mapping,
                MAX_RESOLUTION_DEPTH,
            ) {
                Ok(type_definition) => Ok(Some(type_definition)),
                Err(err) => Err(err),
            }
        },
    }
}

/// A JSON body: its schema must be present; an empty schema gives a body without a type.
fn generate_json_content(
    spec: &SpecDocument,
    definition_path: &Vec<String>,
    name_mapping: &NameMapping,
    object_database: &mut ObjectDatabase,
    json_media_type: &MediaType,
    content_object_name: &str,
) -> (r: Result<TransferMediaType, GeneratorError>)
    ensures
        db_extends(*old(object_database), *final(object_database)),
        json_media_type.schema is None ==> (r matches Err(e) && e is ParseError),
        json_media_type.schema matches Some(s) ==> match resolved(*spec, s) {
            None => r matches Err(e) && e is ResolveError,
            Some(x) => schema_is_empty(x) ==> r matches Ok(TransferMediaType::ApplicationJson(None)),
        },
        r matches Ok(t) ==> t is ApplicationJson,
        json_body_resolves(*spec, *json_media_type) ==> (r matches Ok(TransferMediaType::ApplicationJson(Some(_)))),
{
    let schema = match &json_media_type.schema {
        Some(s) => s,
        None => {
            return Err(GeneratorError::ParseError("Failed to parse response json data".to_owned()));
        },
    };
    let new_object_name = name_mapping.name_to_struct_name(definition_path, content_object_name);
    match parse_json_data(
        spec,
        definition_path,
        name_mapping,
        new_object_name.as_str(),
        object_database,
        schema,
    ) {
        Ok(Some(type_definition)) => Ok(TransferMediaType::ApplicationJson(Some(type_definition))),
        Ok(None) => Ok(TransferMediaType::ApplicationJson(None)),
        Err(err) => Err(err),
    }
}

/// The body of one content type: plain text, or JSON; any other content type is unsupported.
fn generate_content_type(
    spec: &SpecDocument,
    definition_path: &Vec<String>,
    name_mapping: &NameMapping,
    object_database: &mut ObjectDatabase,
    content_type: &str,
    media_type: &MediaType,
    content_object_name: &str,
) -> (r: Result<TransferMediaType, GeneratorError>)
    ensures
        db_extends(*old(object_database), *final(object_database)),
        content_type@ == "text/plain"@ ==> r matches Ok(TransferMediaType::TextPlain),
        content_type@ == "application/json"@ ==> (r matches Ok(t) ==> t is ApplicationJson),
        content_type@ == "application/json"@ && json_body_resolves(*spec, *media_type) ==> (r matches Ok(
            TransferMediaType::ApplicationJson(Some(_)),
        )),
        content_type@ == "application/json"@ ==> (media_type.schema matches Some(sc) ==> (resolved(*spec, sc) matches Some(
            x,
        ) ==> (schema_is_empty(x) ==> (r matches Ok(TransferMediaType::ApplicationJson(None)))))),
        content_type@ != "text/plain"@ && content_type@ != "application/json"@ ==> (r matches Err(e)
            && e is UnsupportedError),
{
    proof {
        reveal_strlit("text/plain");
        reveal_strlit("application/json");
        assert("text/plain"@.len() != "application/json"@.len());
        assert("text/plain"@ != "application/json"@);
    }
    if str_eq(content_type, "text/plain") {
        return Ok(TransferMediaType::TextPlain);
    }
    if str_eq(content_type, "application/json") {
        return generate_json_content(
            spec,
            definition_path,
            name_mapping,
            object_database,
            media_type,
            concat(content_object_name, "Json").as_str(),
        );
    }
    Err(GeneratorError::UnsupportedError(concat("Content-Type ", content_type)))
}

/// Some entry has the key.
pub open spec fn has_key<V>(entries: Seq<(String, V)>, key: Seq<char>) -> bool {
    exists|k: int| 0 <= k < entries.len() && (#[trigger] entries[k]).0@ == key
}

/// The entry at `k` is the first JSON entry.
pub open spec fn first_json(content: Seq<(String, MediaType)>, k: int) -> bool {
    content[k].0@ == "application/json"@ && forall|k2: int| 0 <= k2 < k ==> content[k2].0@ != "application/json"@
}

/// A body whose schema resolves to an empty schema.
pub open spec fn json_schema_empty(spec: SpecDocument, mt: MediaType) -> bool {
    match mt.schema {
        Some(sc) => match resolved(spec, sc) {
            Some(x) => schema_is_empty(x),
            None => false,
        },
        None => false,
    }
}

/// A JSON entry is kept, with a type or, for an empty schema, without one.
pub open spec fn json_kept(r: Seq<(String, TransferMediaType)>, typed: bool) -> bool {
    exists|j: int| 0 <= j < r.len() && (#[trigger] r[j]).0@ == "application/json"@ && (if typed {
        r[j].1 matches TransferMediaType::ApplicationJson(Some(_))
    } else {
        r[j].1 matches TransferMediaType::ApplicationJson(None)
    })
}

/// No two entries share a key.
pub open spec fn unique_keys<V>(entries: Seq<(String, V)>) -> bool {
    forall|i: int, j: int| 0 <= i < j < entries.len() ==> (#[trigger] entries[i]).0@ != (#[trigger] entries[j]).0@
}

/// Bodies by content type: each content type that converts, once; the others are left out.
fn generated_content_types_from_content_map(
    spec: &SpecDocument,
    object_database: &mut ObjectDatabase,
    definition_path: &Vec<String>,
    name_mapping: &NameMapping,
    content: &Vec<(String, MediaType)>,
    content_object_name: &str,
) -> (r: Vec<(String, TransferMediaType)>)
    ensures
        db_extends(*old(object_database), *final(object_database)),
        unique_keys(r@),
        r@.len() <= content@.len(),
        forall|j: int| 0 <= j < r@.len() ==> has_key(content@, (#[trigger] r@[j]).0@),
        forall|i: int| 0 <= i < content@.len() && (#[trigger] content@[i]).0@ == "text/plain"@ ==> exists|j: int|
            0 <= j < r@.len() && r@[j].0@ == "text/plain"@,
        content@.len() > 0 && content@[0].0@ == "text/plain"@ ==> r@.len() > 0 && r@[0].1 is TextPlain,
        content@.len() > 0 && content@[0].0@ == "application/json"@ && json_body_resolves(*spec, content@[0].1) ==> r@.len()
            > 0 && r@[0].1 matches TransferMediaType::ApplicationJson(Some(_)),
        content@.len() == 0 ==> r@.len() == 0,
        content@.len() > 0 && content@[0].0@ == "application/json"@ && json_schema_empty(*spec, content@[0].1) ==> r@.len()
            > 0 && r@[0].1 matches TransferMediaType::ApplicationJson(None),
        forall|j: int| 0 <= j < r@.len() ==> (#[trigger] r@[j]).0@ == "text/plain"@ || r@[j].0@ == "application/json"@,
        forall|k: int| 0 <= k < content@.len() && first_json(content@, k) ==> (json_body_resolves(*spec, #[trigger] content@[k].1)
            ==> json_kept(r@, true)) && (json_schema_empty(*spec, content@[k].1) ==> json_kept(r@, false)),
{
    let mut content_map: Vec<(String, TransferMediaType)> = Vec::new();
    let mut i: usize = 0;
    while i < content.len()
        invariant
            i <= content@.len(),
            content_map@.len() <= i,
            unique_keys(content_map@),
            forall|j: int| 0 <= j < content_map@.len() ==> has_key(content@, (#[trigger] content_map@[j]).0@),
            forall|k: int| 0 <= k < i && (#[trigger] content@[k]).0@ == "text/plain"@ ==> exists|j: int|
                0 <= j < content_map@.len() && content_map@[j].0@ == "text/plain"@,
            db_extends(*old(object_database), *object_database),
            i > 0 && content@[0].0@ == "text/plain"@ ==> content_map@.len() > 0 && content_map@[0].1 is TextPlain,
            forall|j: int| 0 <= j < content_map@.len() ==> (#[trigger] content_map@[j]).0@ == "text/plain"@
                || content_map@[j].0@ == "application/json"@,
            i > 0 && content@[0].0@ == "application/json"@ && json_body_resolves(*spec, content@[0].1) ==> content_map@.len()
                > 0 && content_map@[0].1 matches TransferMediaType::ApplicationJson(Some(_)),
            has_key(content_map@, "application/json"@) ==> has_key(content@.take(i as int), "application/json"@),
            i > 0 && content@[0].0@ == "application/json"@ && json_schema_empty(*spec, content@[0].1) ==> content_map@.len()
                > 0 && content_map@[0].1 matches TransferMediaType::ApplicationJson(None),
            forall|k: int| 0 <= k < i && first_json(content@, k) ==> (json_body_resolves(*spec, #[trigger] content@[k].1)
                ==> json_kept(content_map@, true)) && (json_schema_empty(*spec, content@[k].1) ==> json_kept(content_map@, false)),
        decreases content@.len() - i,
    {
        let content_type = &content[i].0;
        let ghost db_before = *object_database;
        let ghost map_before = content_map@;
        assert(content@.take(i + 1) =~= content@.take(i as int).push(content@[i as int]));
        assert(has_key(content@.take(i as int), "application/json"@) ==> has_key(content@.take(i + 1), "application/json"@)) by {
            if has_key(content@.take(i as int), "application/json"@) {
                let k = choose|k: int| 0 <= k < i && (#[trigger] content@.take(i as int)[k]).0@ == "application/json"@;
                assert(content@.take(i + 1)[k] == content@.take(i as int)[k]);
            }
        }
        assert(first_json(content@, i as int) ==> !has_key(content@.take(i as int), "application/json"@)) by {
            if first_json(content@, i as int) && has_key(content@.take(i as int), "application/json"@) {
                let k = choose|k: int| 0 <= k < i && (#[trigger] content@.take(i as int)[k]).0@ == "application/json"@;
                assert(content@[k] == content@.take(i as int)[k]);
            }
        }
        let outcome = generate_content_type(
            spec,
            definition_path,
            name_mapping,
            object_database,
            content_type.as_str(),
            &content[i].1,
            content_object_name,
        );
        proof {
            vstd::map_lib::lemma_submap_of_trans(
                object_entries(*old(object_database)),
                object_entries(db_before),
                object_entries(*object_database),
            );
        }
        match outcome {
            Ok(transfer_media_type) => {
                let mut present = false;
                let mut j: usize = 0;
                while j < content_map.len()
                    invariant
                        j <= content_map@.len(),
                        present ==> exists|k: int| 0 <= k < content_map@.len() && content_map@[k].0@ == content_type@,
                        !present ==> forall|k: int| 0 <= k < j ==> (#[trigger] content_map@[k]).0@ != content_type@,
                    decreases content_map@.len() - j,
                {
                    if content_map[j].0 == *content_type {
                        present = true;
                    }
                    j = j + 1;
                }
                assert(first_json(content@, i as int) ==> !present) by {
                    if first_json(content@, i as int) && present {
                        let k = choose|k: int| 0 <= k < content_map@.len() && content_map@[k].0@ == content_type@;
                        assert(has_key(content_map@, "application/json"@));
                    }
                }
                if !present {
                    let ghost before = content_map@;
                    let ghost pushed = transfer_media_type;
                    content_map.push((content_type.clone(), transfer_media_type));
                    assert(content_map@[before.len() as int].1 == pushed);
                    assert(has_key(content_map@, "application/json"@) ==> has_key(content@.take(i + 1), "application/json"@)) by {
                        if has_key(content_map@, "application/json"@) {
                            let j = choose|j: int| 0 <= j < content_map@.len() && (#[trigger] content_map@[j]).0@ == "application/json"@;
                            if j < before.len() {
                                assert(content_map@[j] == before[j]);
                                assert(has_key(before, "application/json"@));
                            } else {
                                assert(content@.take(i + 1)[i as int].0@ == "application/json"@);
                            }
                        }
                    }
                    assert forall|k: int| 0 <= k < i + 1 && first_json(content@, k) implies (json_body_resolves(
                        *spec,
                        #[trigger] content@[k].1,
                    ) ==> json_kept(content_map@, true)) && (json_schema_empty(*spec, content@[k].1) ==> json_kept(
                        content_map@,
                        false,
                    )) by {
                        if k < i {
                            if json_body_resolves(*spec, content@[k].1) {
                                let j = choose|j: int| 0 <= j < before.len() && (#[trigger] before[j]).0@ == "application/json"@
                                    && before[j].1 matches TransferMediaType::ApplicationJson(Some(_));
                                assert(content_map@[j] == before[j]);
                            }
                            if json_schema_empty(*spec, content@[k].1) {
                                let j = choose|j: int| 0 <= j < before.len() && (#[trigger] before[j]).0@ == "application/json"@
                                    && before[j].1 matches TransferMediaType::ApplicationJson(None);
                                assert(content_map@[j] == before[j]);
                            }
                        } else {
                            assert(content_map@[before.len() as int].0@ == "application/json"@);
                        }
                    }
                    assert(before.len() > 0 ==> content_map@[0] == before[0]);
                    assert forall|j: int| 0 <= j < content_map@.len() implies (#[trigger] content_map@[j]).0@
                        == "text/plain"@ || content_map@[j].0@ == "application/json"@ by {
                        if j < before.len() {
                            assert(content_map@[j] == before[j]);
                        }
                    }
                    assert(content_map@[before.len() as int].0@ == content@[i as int].0@);
                    assert forall|a: int, b: int| 0 <= a < b < content_map@.len() implies (#[trigger] content_map@[a]).0@
                        != (#[trigger] content_map@[b]).0@ by {
                        if b < before.len() {
                            assert(content_map@[a] == before[a] && content_map@[b] == before[b]);
                        } else {
                            assert(content_map@[a] == before[a]);
                        }
                    }
                    assert forall|j2: int| 0 <= j2 < content_map@.len() implies has_key(
                        content@,
                        (#[trigger] content_map@[j2]).0@,
                    ) by {
                        if j2 < before.len() {
                            assert(content_map@[j2] == before[j2]);
                        } else {
                            assert(content_map@[j2].0@ == content@[i as int].0@);
                        }
                    }
                    assert forall|k: int| 0 <= k < i + 1 && (#[trigger] content@[k]).0@ == "text/plain"@ implies exists|j2: int|
                        0 <= j2 < content_map@.len() && content_map@[j2].0@ == "text/plain"@ by {
                        if k < i {
                            let j2 = choose|j2: int| 0 <= j2 < before.len() && before[j2].0@ == "text/plain"@;
                            assert(content_map@[j2] == before[j2]);
                        } else {
                            assert(content_map@[before.len() as int].0@ == "text/plain"@);
                        }
                    }
                }
            },
            Err(_) => {
                assert(content@[i as int].0@ != "text/plain"@);
            },
        }
        assert(forall|k: int| 0 <= k < i + 1 && first_json(content@, k) ==> (json_body_resolves(*spec, #[trigger] content@[k].1)
            ==> json_kept(content_map@, true)) && (json_schema_empty(*spec, content@[k].1) ==> json_kept(content_map@, false)));
        i = i + 1;
    }
    assert(content@.take(content@.len() as int) =~= content@);
    content_map
}

/// The object of a request body, from its first content type's schema, registered under the
/// function's name.
pub fn generate_request_body(
    spec: &SpecDocument,
    object_database: &mut ObjectDatabase,
    definition_path: &Vec<String>,
    name_mapping: &NameMapping,
    request_body: &Result<RequestBody, String>,
    function_name: &str,
) -> (r: Result<ObjectDefinition, GeneratorError>)
    ensures
        db_extends(*old(object_database), *final(object_database)),
        request_body is Err ==> (r matches Err(e) && e is ResolveError),
        request_body matches Ok(b) && b.content@.len() == 0 ==> (r matches Err(e) && e is ResolveError),
        r matches Ok(o) ==> registered(*final(object_database), object_key(*name_mapping, definition_path@, function_name@))
            == Some(o),
        request_body_resolves(*spec, *request_body) ==> r is Ok,
{
    let request = match request_body {
        Ok(request) => request,
        Err(err) => {
            return Err(GeneratorError::ResolveError(concat("Failed to resolve request body ", err.as_str())));
        },
    };
    if request.content.len() == 0 {
        return Err(GeneratorError::ResolveError(concat("Failed to resolve request body ", function_name)));
    }
    match &request.content[0].1.schema {
        Some(schema) => match resolve_schema(spec, schema) {
            Ok(schema) => {
                let path = copy_path(definition_path);
                get_or_create_object(
                    spec,
                    object_database,
                    path,
                    function_name,
                    schema,
                    name_mapping,
                    MAX_RESOLUTION_DEPTH,
                )
            },
            Err(err) => Err(GeneratorError::ResolveError(concat("Failed to resolve request body ", err.message().as_str()))),
        },
        None => Err(GeneratorError::ResolveError(concat("Missing schema for ", function_name))),
    }
}

/// A request body whose first content type has a schema that becomes a struct.
pub open spec fn request_body_resolves(spec: SpecDocument, body: Result<RequestBody, String>) -> bool {
    match body {
        Ok(b) => b.content@.len() > 0 && match b.content@[0].1.schema {
            Some(sc) => match resolved(spec, sc) {
                Some(x) => struct_schema(x),
                None => false,
            },
            None => false,
        },
        Err(_) => false,
    }
}

/// The response keys hold a key exactly where some response other than `default` has it.
pub proof fn lemma_response_keys_contain(responses: Seq<(String, Response)>, key: Seq<char>)
    ensures
        response_keys(responses).contains(key) <==> key != "default"@ && exists|i: int| 0 <= i < responses.len()
            && (#[trigger] responses[i]).0@ == key,
    decreases responses.len(),
{
    if responses.len() > 0 {
        let pre = responses.drop_last();
        lemma_response_keys_contain(pre, key);
        if exists|i: int| 0 <= i < responses.len() && (#[trigger] responses[i]).0@ == key {
            let i = choose|i: int| 0 <= i < responses.len() && (#[trigger] responses[i]).0@ == key;
            if i < pre.len() {
                assert(pre[i] == responses[i]);
            }
        }
        if exists|i: int| 0 <= i < pre.len() && (#[trigger] pre[i]).0@ == key {
            let i = choose|i: int| 0 <= i < pre.len() && (#[trigger] pre[i]).0@ == key;
            assert(responses[i] == pre[i]);
        }
        let rest = response_keys(pre);
        if responses.last().0@ != "default"@ {
            assert(rest.push(responses.last().0@).contains(key) <==> rest.contains(key) || responses.last().0@ == key) by {
                if rest.push(responses.last().0@).contains(key) {
                    let j = choose|j: int| 0 <= j < rest.len() + 1 && rest.push(responses.last().0@)[j] == key;
                    if j < rest.len() {
                        assert(rest[j] == key);
                    }
                }
                if rest.contains(key) {
                    let j = choose|j: int| 0 <= j < rest.len() && rest[j] == key;
                    assert(rest.push(responses.last().0@)[j] == key);
                }
                if responses.last().0@ == key {
                    assert(rest.push(responses.last().0@)[rest.len() as int] == key);
                }
            }
        }
    }
}

/// The bodies of a request by content type.
pub fn generate_request_body_entity(
    spec: &SpecDocument,
    object_database: &mut ObjectDatabase,
    definition_path: &Vec<String>,
    name_mapping: &NameMapping,
    request_body: &Result<RequestBody, String>,
    function_name: &str,
) -> (r: Result<RequestEntity, GeneratorError>)
    ensures
        db_extends(*old(object_database), *final(object_database)),
        request_body is Err <==> (r matches Err(e) && e is ResolveError),
        request_body is Ok <==> r is Ok,
        r matches Ok(entity) ==> unique_keys(entity.content@) && (forall|i: int|
            0 <= i < request_body->Ok_0.content@.len() && (#[trigger] request_body->Ok_0.content@[i]).0@ == "text/plain"@
            ==> exists|j: int| 0 <= j < entity.content@.len() && entity.content@[j].0@ == "text/plain"@),
        r matches Ok(entity) ==> forall|j: int| 0 <= j < entity.content@.len() ==> (#[trigger] entity.content@[j]).0@
            == "text/plain"@ || entity.content@[j].0@ == "application/json"@,
        r matches Ok(entity) ==> forall|j: int| 0 <= j < entity.content@.len() ==> has_key(
            request_body->Ok_0.content@,
            (#[trigger] entity.content@[j]).0@,
        ),
        r matches Ok(entity) ==> forall|k: int| 0 <= k < request_body->Ok_0.content@.len() && first_json(
            request_body->Ok_0.content@,
            k,
        ) ==> (json_body_resolves(*spec, #[trigger] request_body->Ok_0.content@[k].1) ==> json_kept(entity.content@, true))
            && (json_schema_empty(*spec, request_body->Ok_0.content@[k].1) ==> json_kept(entity.content@, false)),
{
    let request = match request_body {
        Ok(request) => request,
        Err(err) => {
            return Err(GeneratorError::ResolveError(concat("Failed to resolve request body ", err.as_str())));
        },
    };
    let name = concat(function_name, "RequestBody");
    Ok(
        RequestEntity {
            content: generated_content_types_from_content_map(
                spec,
                object_database,
                definition_path,
                name_mapping,
                &request.content,
                name.as_str(),
            ),
        },
    )
}

/// The name of a status-code key: an override where there is one, else the registered reason
/// phrase; none for a key that is not a status code or a code without a phrase.
pub open spec fn canonical_name_of(mapping: NameMapping, key: Seq<char>) -> Option<Seq<char>> {
    match status_code_of(key) {
        None => None,
        Some(c) => match lookup(mapping.status_code_mapping@, status_digits(c)) {
            Some(n) => Some(n),
            None => status_reason(c),
        },
    }
}

/// The response keys other than `default`, in order.
pub open spec fn response_keys(responses: Seq<(String, Response)>) -> Seq<Seq<char>>
    decreases responses.len(),
{
    if responses.len() == 0 {
        Seq::empty()
    } else {
        let rest = response_keys(responses.drop_last());
        if responses.last().0@ == "default"@ {
            rest
        } else {
            rest.push(responses.last().0@)
        }
    }
}

pub open spec fn entity_keys(entities: Seq<(String, ResponseEntity)>) -> Seq<Seq<char>> {
    entities.map_values(|e: (String, ResponseEntity)| e.0@)
}

/// The entity comes from a response under its key, and its first body converts as
/// `first_body_converted` says.
pub open spec fn first_body_kept(
    spec: SpecDocument,
    responses: Seq<(String, Response)>,
    e: (String, ResponseEntity),
) -> bool {
    exists|i: int| 0 <= i < responses.len() && (#[trigger] responses[i]).0@ == e.0@ && first_body_converted(
        spec,
        responses[i].1.content@,
        e.1.content@,
    )
}

/// How the first body of a response converts: no body stays none, plain text stays plain
/// text, and a JSON body keeps its type, or has none for an empty schema.
pub open spec fn first_body_converted(
    spec: SpecDocument,
    content: Seq<(String, MediaType)>,
    r: Seq<(String, TransferMediaType)>,
) -> bool {
    &&& content.len() == 0 ==> r.len() == 0
    &&& content.len() > 0 && content[0].0@ == "text/plain"@ ==> r.len() > 0 && r[0].1 is TextPlain
    &&& content.len() > 0 && content[0].0@ == "application/json"@ && json_body_resolves(spec, content[0].1) ==> (r.len() > 0
        && r[0].1 matches TransferMediaType::ApplicationJson(Some(_)))
    &&& content.len() > 0 && content[0].0@ == "application/json"@ && json_schema_empty(spec, content[0].1) ==> (r.len() > 0
        && r[0].1 matches TransferMediaType::ApplicationJson(None))
}

/// Every response key other than `default` has a canonical name.
pub open spec fn all_statuses_named(mapping: NameMapping, responses: Seq<(String, Response)>) -> bool {
    forall|i: int| 0 <= i < responses.len() && (#[trigger] responses[i]).0@ != "default"@ ==> canonical_name_of(
        mapping,
        responses[i].0@,
    ) is Some
}

/// One response entity per status-code key other than `default`, named canonically.
pub fn generate_responses(
    spec: &SpecDocument,
    object_database: &mut ObjectDatabase,
    definition_path: &Vec<String>,
    name_mapping: &NameMapping,
    responses: &Vec<(String, Response)>,
    function_name: &str,
) -> (r: Result<Vec<(String, ResponseEntity)>, GeneratorError>)
    ensures
        db_extends(*old(object_database), *final(object_database)),
        r is Ok <==> all_statuses_named(*name_mapping, responses@),
        r is Err ==> (r matches Err(e) && e is StatusCodeError),
        r matches Ok(v) ==> entity_keys(v@) == response_keys(responses@) && forall|j: int| 0 <= j < v@.len() ==> canonical_name_of(
            *name_mapping,
            (#[trigger] v@[j]).0@,
        ) == Some(v@[j].1.canonical_status_code@) && unique_keys(v@[j].1.content@) && first_body_kept(
            *spec,
            responses@,
            v@[j],
        ),
{
    let mut response_entities: Vec<(String, ResponseEntity)> = Vec::new();
    let mut i: usize = 0;
    while i < responses.len()
        invariant
            i <= responses@.len(),
            all_statuses_named(*name_mapping, responses@.take(i as int)),
            entity_keys(response_entities@) == response_keys(responses@.take(i as int)),
            forall|j: int| 0 <= j < response_entities@.len() ==> canonical_name_of(
                *name_mapping,
                (#[trigger] response_entities@[j]).0@,
            ) == Some(response_entities@[j].1.canonical_status_code@) && unique_keys(response_entities@[j].1.content@)
                && first_body_kept(*spec, responses@, response_entities@[j]),
            db_extends(*old(object_database), *object_database),
        decreases responses@.len() - i,
    {
        let response_key = &responses[i].0;
        let ghost pre = responses@.take(i as int);
        let ghost next = responses@.take(i + 1);
        assert(next.drop_last() =~= pre);
        assert(next.last() == responses@[i as int]);
        if str_eq(response_key.as_str(), "default") {
            assert forall|k: int| 0 <= k < next.len() && (#[trigger] next[k]).0@ != "default"@ implies canonical_name_of(
                *name_mapping,
                next[k].0@,
            ) is Some by {
                assert(k < i);
                assert(next[k] == pre[k]);
            }
            i = i + 1;
            continue;
        }
        let canonical_status_code = match status_code_from_key(response_key.as_str()) {
            Some(status_code) => match name_mapping.status_code_to_canonical_name(status_code) {
                Ok(canonical) => canonical,
                Err(err) => {
                    assert(!all_statuses_named(*name_mapping, responses@)) by {
                        assert(responses@[i as int].0@ != "default"@);
                    }
                    return Err(err);
                },
            },
            None => {
                assert(!all_statuses_named(*name_mapping, responses@)) by {
                    assert(responses@[i as int].0@ != "default"@);
                }
                return Err(GeneratorError::StatusCodeError(response_key.clone(), "Invalid status code".to_owned()));
            },
        };
        let ghost db_before = *object_database;
        let content_object_name = concat(function_name, canonical_status_code.as_str());
        let content = generated_content_types_from_content_map(
            spec,
            object_database,
            definition_path,
            name_mapping,
            &responses[i].1.content,
            content_object_name.as_str(),
        );
        proof {
            vstd::map_lib::lemma_submap_of_trans(
                object_entries(*old(object_database)),
                object_entries(db_before),
                object_entries(*object_database),
            );
        }
        let ghost before = response_entities@;
        assert(responses@[i as int].1.content == responses[i as int].1.content);
        response_entities.push(
            (response_key.clone(), ResponseEntity { canonical_status_code, content }),
        );
        assert(entity_keys(response_entities@) =~= entity_keys(before).push(response_key@));
        assert forall|j: int| 0 <= j < response_entities@.len() implies canonical_name_of(
            *name_mapping,
            (#[trigger] response_entities@[j]).0@,
        ) == Some(response_entities@[j].1.canonical_status_code@) && unique_keys(response_entities@[j].1.content@)
            && first_body_kept(*spec, responses@, response_entities@[j]) by {
            if j < before.len() {
                assert(response_entities@[j] == before[j]);
            }
        }
        assert forall|k: int| 0 <= k < next.len() && (#[trigger] next[k]).0@ != "default"@ implies canonical_name_of(
            *name_mapping,
            next[k].0@,
        ) is Some by {
            if k < i {
                assert(next[k] == pre[k]);
            }
        }
        i = i + 1;
    }
    assert(responses@.take(responses@.len() as int) =~= responses@);
    Ok(response_entities)
}


proof fn lemma_status_digits_of_key(key: Seq<char>)
    requires
        status_code_of(key) is Some,
    ensures
        status_digits(status_code_of(key)->Some_0) =~= key,
{
    let a = key[0] as int - 48;
    let b = key[1] as int - 48;
    let c = key[2] as int - 48;
    let code = a * 100 + b * 10 + c;
    assert(1 <= a <= 9 && 0 <= b <= 9 && 0 <= c <= 9);
    assert(code / 100 == a && (code / 10) % 10 == b && code % 10 == c) by (nonlinear_arith)
        requires
            code == a * 100 + b * 10 + c,
            1 <= a <= 9,
            0 <= b <= 9,
            0 <= c <= 9,
    ;
    assert(status_code_of(key)->Some_0 as int == code);
}

/// A status-code key is named by the override table's entry for that very key where there is
/// one, and otherwise by the registered reason phrase of its code.
pub proof fn lemma_status_name_prefers_override(mapping: NameMapping, key: Seq<char>)
    requires
        status_code_of(key) is Some,
    ensures
        lookup(mapping.status_code_mapping@, key) matches Some(n) ==> canonical_name_of(mapping, key) == Some(n),
        lookup(mapping.status_code_mapping@, key) is None ==> canonical_name_of(mapping, key) == status_reason(
            status_code_of(key)->Some_0,
        ),
{
    lemma_status_digits_of_key(key);
}

} // verus!
