use opage::config::{Config, Language, ProjectMetadata};
use opage::default_request::media_type_enum_name;
use opage::rust_names::{
    extract_default_rust_response_type, extract_rust_name, extract_rust_namespace, fix_private_name,
    fix_rust_description, fix_type_name_property, is_private_name, modules_to_string,
    property_definition_to_field,
};
use opage::types::{
    EnumDefinition, EnumValue, Method, ModuleInfo, ObjectDefinition, PathDefinition, PathParameters,
    PropertyDefinition, QueryParameters, ResponseEntity, StructDefinition, TransferMediaType,
    TypeDefinition,
};
use opage::GeneratorError;

fn module(path: &str, name: &str) -> ModuleInfo {
    ModuleInfo { name: name.to_string(), path: path.to_string() }
}

fn property(name: &str, ty: &str, required: bool, m: Option<ModuleInfo>) -> PropertyDefinition {
    PropertyDefinition {
        name: name.to_string(),
        real_name: name.to_string(),
        property_type: ty.to_string(),
        module: m,
        required,
        description: None,
        example: None,
    }
}

fn structure(name: &str, properties: Vec<PropertyDefinition>) -> StructDefinition {
    StructDefinition {
        package: "models".to_string(),
        name: name.to_string(),
        used_modules: vec![module("serde", "Serialize")],
        properties,
        local_objects: vec![],
        description: Some("A thing".to_string()),
    }
}

fn type_def(name: &str, m: Option<ModuleInfo>) -> TypeDefinition {
    TypeDefinition { name: name.to_string(), module: m, description: None, example: None }
}

fn path_definition(body: Option<ObjectDefinition>, responses: Vec<(String, ResponseEntity)>) -> PathDefinition {
    PathDefinition {
        package: String::new(),
        name: "op".to_string(),
        method: Method::GET,
        url: "/op".to_string(),
        response_name: String::new(),
        used_modules: vec![],
        request_body: body,
        request_entity: None,
        local_objects: vec![],
        description: String::new(),
        response_entities: responses,
        path_parameters: PathParameters {
            parameters_struct_variable_name: "path_parameters".to_string(),
            parameters_struct: structure("P", vec![property("id", "String", true, None)]),
            path_format_string: "/op/{}".to_string(),
        },
        query_parameters: QueryParameters {
            query_struct: structure("Q", vec![property("limit", "i32", false, None), property("tag", "String", true, None)]),
            query_struct_variable_name: "query_parameters".to_string(),
            unroll_query_parameters_code: String::new(),
        },
        stream: None,
    }
}

#[test]
fn private_names_are_escaped() {
    assert!(is_private_name("Type"));
    assert!(is_private_name("r#match"));
    assert!(!is_private_name("kind"));
    assert_eq!(fix_private_name("TYPE"), "r#type");
    assert_eq!(fix_private_name("kind"), "kind");
    assert_eq!(extract_rust_name("models::pets::type"), "r#type");
    assert_eq!(extract_rust_name("Pet"), "Pet");
    assert_eq!(extract_rust_namespace("models::pets::Pet"), "models::pets");
    assert_eq!(extract_rust_namespace("Pet"), "");
}

#[test]
fn property_types_are_made_absolute() {
    assert_eq!(fix_type_name_property("models::Pet"), "crate::models::Pet");
    assert_eq!(fix_type_name_property("crate::models::Pet"), "crate::models::Pet");
    assert_eq!(fix_type_name_property("u64"), "u64");
    assert_eq!(fix_type_name_property("Vec<i32>"), "Vec<i32>");
    assert_eq!(extract_default_rust_response_type(Some(type_def("Pet", None))), "crate::Pet");
    assert_eq!(extract_default_rust_response_type(Some(type_def("crate::Pet", None))), "crate::Pet");
    assert_eq!(extract_default_rust_response_type(None), "serde_json:Value");
}

#[test]
fn descriptions_become_doc_comments() {
    assert_eq!(fix_rust_description("", ""), "");
    assert_eq!(fix_rust_description("", "One line"), "/// One line");
    assert_eq!(fix_rust_description("  ", "First\r\nSecond\n"), "/// First\n  /// Second");
    let field = property_definition_to_field(&property("pet", "models::Pet", true, None));
    assert_eq!(field.description, "/// No description available");
    assert_eq!(field.typ, "crate::models::Pet");
    assert_eq!(field.modifier, "pub");
}

#[test]
fn imports_are_listed_once() {
    let modules = vec![module("serde", "Serialize"), module("crate::models", "Pet"), module("serde", "Serialize")];
    assert_eq!(modules_to_string(&modules), "use serde::Serialize;\nuse crate::models::Pet;\n");
}

#[test]
fn required_modules_of_definitions() {
    let s = structure(
        "Owner",
        vec![
            property("pet", "Pet", true, Some(module("crate::models", "Pet"))),
            property("age", "i32", false, None),
        ],
    );
    let modules = s.get_required_modules();
    assert_eq!(modules.len(), 2);
    assert_eq!(modules[1].name, "Pet");
    assert!(!s.all_properties_default());
    assert!(structure("E", vec![property("xs", "Vec<i32>", true, None)]).all_properties_default());
    assert_eq!(s.id(), "models::Owner");

    let e = EnumDefinition {
        name: "Choice".to_string(),
        used_modules: vec![],
        values: vec![EnumValue { name: "PetValue".to_string(), value_type: type_def("Pet", Some(module("crate::models", "Pet"))) }],
        description: None,
    };
    assert_eq!(e.get_required_modules().len(), 1);
    assert_eq!(ObjectDefinition::Enum(e).name(), "Choice");
}

#[test]
fn path_definition_properties() {
    let body = structure("Body", vec![property("name", "String", true, None), property("note", "String", false, None)]);
    let pd = path_definition(Some(ObjectDefinition::Struct(body)), vec![]);
    let required: Vec<String> = pd.get_required_properties().iter().map(|p| p.name.clone()).collect();
    assert_eq!(required, vec!["id", "tag", "name"]);
    let optional: Vec<String> = pd.get_optional_properties().iter().map(|p| p.name.clone()).collect();
    assert_eq!(optional, vec!["limit", "note"]);
    assert_eq!(pd.extract_body_properties().len(), 2);
    let request = pd.get_request_type().unwrap();
    assert_eq!(request.name, "models::Body");
    assert!(path_definition(None, vec![]).get_request_type().is_none());
}

#[test]
fn response_types_and_modules() {
    let pet = type_def("Pet", Some(module("crate::models", "Pet")));
    let responses = vec![
        ("200".to_string(), ResponseEntity {
            canonical_status_code: "OK".to_string(),
            content: vec![("application/json".to_string(), TransferMediaType::ApplicationJson(Some(pet.clone())))],
        }),
        ("201".to_string(), ResponseEntity {
            canonical_status_code: "Created".to_string(),
            content: vec![
                ("application/json".to_string(), TransferMediaType::ApplicationJson(Some(pet))),
                ("text/plain".to_string(), TransferMediaType::TextPlain),
            ],
        }),
    ];
    let pd = path_definition(None, responses);
    assert_eq!(pd.extract_response_modules().len(), 1);
    assert_eq!(pd.extract_response_type().unwrap().name, "Pet");
    assert!(path_definition(None, vec![]).extract_response_type().is_none());
}

#[test]
fn project_metadata_defaults() {
    let mut metadata = ProjectMetadata::new();
    metadata.name = "pet store".to_string();
    metadata.client_name = "PetStoreClient".to_string();
    let validated = metadata.validate();
    assert_eq!(validated.version, "0.1.0");
    assert_eq!(validated.client_name, "PetStoreClient");
    assert_eq!(validated.user_agent, "pet-store-client/0.1.0");
    let mut bare = ProjectMetadata::new();
    bare.name = "pet store".to_string();
    assert_eq!(bare.validate().client_name, "PetStoreClient");
}

#[test]
fn config_defaults_and_language() {
    let mut config = Config::new();
    assert!(config.serde_serialize);
    assert_eq!(config.language.to_string(), "rust");
    config.set_language(Language::Scala);
    assert_eq!(config.language.to_string(), "scala");
    config.ignore.paths.push("/internal".to_string());
    assert!(config.ignore.path_ignored("/internal"));
    assert!(!config.ignore.path_ignored("/public"));
}

#[test]
fn names_of_methods_media_and_errors() {
    assert_eq!(Method::PATCH.to_string(), "PATCH");
    let m = Config::new().name_mapping;
    let path = vec!["/op".to_string()];
    assert_eq!(media_type_enum_name(&path, &m, &TransferMediaType::TextPlain), "models::Text");
    assert_eq!(GeneratorError::UnsupportedError("MultiType".to_string()).message(), "MultiType is not supported");
    assert_eq!(GeneratorError::MissingIdError("/x".to_string(), "GET".to_string()).message(), "/x GET has no id");
}
