use opage::name_mapping::{
    convert_name, fix_struct_names, split_on_first_upper, split_on_special_chars,
    validate_component_name, NameMapping,
};
use opage::path_utils::is_path_parameter;
use opage::text::{join, replace, split, trim_start_matches};
use opage::types::ModuleInfo;

#[test]
fn test_validate_object_name_path() {
    let name_mapping = NameMapping::new();
    let (name, path) = name_mapping.validate_object_name_path(
        "Common.aggregationsFieldDateMath",
        "common.aggregations_field_date_math",
    );
    assert_eq!(name, "FieldDateMath");
    assert_eq!(path, "common.aggregations.field_date_math");
}

#[test]
fn test_fix_struct_names() {
    let name = "_common___Metadata";
    let fixed_name = fix_struct_names(name, true);
    assert_eq!(fixed_name, "common::Metadata");
}

#[test]
fn test_split_on_special_chars() {
    let name = "common.aggregations::field_date_math";
    let parts = split_on_special_chars(name);
    assert_eq!(parts.len(), 3);
    assert_eq!(parts[0], "common");
    assert_eq!(parts[1], "aggregations");
    assert_eq!(parts[2], "field_date_math");
}

#[test]
fn split_on_special_chars_drops_empty_pieces() {
    assert!(split_on_special_chars("").is_empty());
    assert_eq!(split_on_special_chars("::a..b:"), vec!["a", "b"]);
}

#[test]
fn fix_struct_names_adds_default_namespace() {
    assert_eq!(fix_struct_names("Pet", false), "models::Pet");
    assert_eq!(fix_struct_names("Pet", true), "common::Pet");
    assert_eq!(fix_struct_names("a.b.Pet", false), "a::b::Pet");
    assert_eq!(fix_struct_names("a::Pet::3", false), "a::Pet:");
}

#[test]
fn convert_name_pascal_cases_last_piece() {
    assert_eq!(convert_name("models::my_pet"), "models::MyPet");
    assert_eq!(convert_name("my_pet"), "MyPet");
    assert_eq!(convert_name(""), "");
}

#[test]
fn name_to_struct_name_keeps_primitives() {
    let m = NameMapping::new();
    let path = vec!["#".to_string(), "components".to_string(), "schemas".to_string()];
    assert_eq!(m.name_to_struct_name(&path, "STRING"), "String");
    assert_eq!(m.name_to_struct_name(&path, "I32"), "i32");
    assert_eq!(m.name_to_struct_name(&path, "Pet"), "models::Pet");
    assert_eq!(m.name_to_struct_name(&path, "x._common.Pet"), "x::Pet");
}

#[test]
fn name_to_struct_name_uses_override() {
    let mut m = NameMapping::new();
    m.struct_mapping.push(("/#/components/schemas/models::Pet".to_string(), "Animal".to_string()));
    let path = vec!["#".to_string(), "components".to_string(), "schemas".to_string()];
    assert_eq!(m.name_to_struct_name(&path, "Pet"), "Animal");
}

#[test]
fn property_names_are_snake_case_with_overrides() {
    let mut m = NameMapping::new();
    let path = vec!["Pet".to_string()];
    assert_eq!(m.name_to_property_name(&path, "petName"), "pet_name");
    m.property_mapping.push(("/Pet/type".to_string(), "kind".to_string()));
    assert_eq!(m.name_to_property_name(&path, "type"), "kind");
}

#[test]
fn type_to_property_type_widens_i32() {
    let mut m = NameMapping::new();
    assert_eq!(m.type_to_property_type("count", "i32"), "i32");
    m.i32_to_u32 = true;
    assert_eq!(m.type_to_property_type("count", "I32"), "u32");
    m.property_type_mapping
        .push(("count".to_string(), vec![("i32".to_string(), "u64".to_string())]));
    assert_eq!(m.type_to_property_type("count", "i32"), "u64");
}

#[test]
fn module_names_strip_index_and_add_scope() {
    let mut m = NameMapping::new();
    assert_eq!(m.name_to_module_name("PetStore.2"), "pet_store");
    m.set_scope(true);
    assert_eq!(m.name_to_module_name("PetStore"), "common.pet_store");
    m.module_mapping.push(("pet_store".to_string(), "store".to_string()));
    assert_eq!(m.name_to_module_name("PetStore"), "store");
}

#[test]
fn package_and_struct_names_of_qualified_names() {
    let m = NameMapping::new();
    assert_eq!(m.extract_package_name("a::b::Pet"), "a::b");
    assert_eq!(m.extract_package_name("Pet"), "");
    assert_eq!(m.extract_struct_name("a::b::my_pet"), "MyPet");
    assert_eq!(m.extract_function_name("a.b.GetPet"), "get_pet");
}

#[test]
fn status_code_names_prefer_overrides() {
    let mut m = NameMapping::new();
    assert_eq!(m.status_code_to_canonical_name(404).unwrap(), "Not Found");
    assert_eq!(m.status_code_to_canonical_name(200).unwrap(), "OK");
    m.status_code_mapping.push(("404".to_string(), "Missing".to_string()));
    assert_eq!(m.status_code_to_canonical_name(404).unwrap(), "Missing");
}

#[test]
fn status_code_without_reason_is_an_error() {
    let m = NameMapping::new();
    let err = m.status_code_to_canonical_name(599).unwrap_err();
    assert!(matches!(err, opage::GeneratorError::StatusCodeError(_, _)));
}

#[test]
fn status_codes_from_keys() {
    assert_eq!(opage::name_mapping::status_code_from_key("404"), Some(404));
    assert_eq!(opage::name_mapping::status_code_from_key("099"), None);
    assert_eq!(opage::name_mapping::status_code_from_key("4044"), None);
    assert_eq!(opage::name_mapping::status_code_from_key("default"), None);
}

#[test]
fn split_on_first_upper_parts() {
    assert_eq!(
        split_on_first_upper("aggregationsFieldDateMath"),
        ("aggregations".to_string(), "FieldDateMath".to_string())
    );
    assert_eq!(split_on_first_upper("lower"), ("lower".to_string(), String::new()));
}

#[test]
fn validate_object_name_path_uppercase_last_part() {
    let m = NameMapping::new();
    let (name, path) = m.validate_object_name_path("common.Pet", "common.pet");
    assert_eq!(name, "Pet");
    assert_eq!(path, "common.pet");
    let (name, path) = m.validate_object_name_path("Pet", "a.b");
    assert_eq!((name.as_str(), path.as_str()), ("Pet", "a.b"));
}

#[test]
fn component_names_are_qualified() {
    assert_eq!(validate_component_name("Pet", false), "models::Pet");
    assert_eq!(validate_component_name("Pet", true), "common::Pet");
    assert_eq!(validate_component_name("a___Pet", false), "a::Pet");
    assert_eq!(validate_component_name("_x.Pet", false), "x::Pet");
}

#[test]
fn module_info_splits_qualified_names() {
    let m = ModuleInfo::new("crate", "models::pets::Pet");
    assert_eq!(m.name, "Pet");
    assert_eq!(m.path, "crate::models::pets");
    assert_eq!(m.to_use(), "use crate::models::pets::Pet;");
    let m = ModuleInfo::new("crate::models", "models::Pet");
    assert_eq!(m.path, "crate::models");
    let plain = ModuleInfo::new("", "Pet");
    assert_eq!(plain.to_use(), "use Pet;");
}

#[test]
fn path_parameter_segments() {
    assert!(is_path_parameter("{id}"));
    assert!(!is_path_parameter("id"));
    assert!(!is_path_parameter("{id"));
}

#[test]
fn text_operations() {
    assert_eq!(replace("a.b.c", ".", "::"), "a::b::c");
    assert_eq!(replace("aaa", "aa", "b"), "ba");
    assert_eq!(split("a//b", "/"), vec!["a", "", "b"]);
    assert_eq!(join(&vec!["a".to_string(), "b".to_string()], "-"), "a-b");
    assert_eq!(trim_start_matches("__x_", "_"), "x_");
}
