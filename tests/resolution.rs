use opage::config::Config;
use opage::database::new_object_database;
use opage::driver::generate_components;
use opage::resolver::{
    get_object_or_ref_struct_name, get_or_create_object, get_type_from_schema, MAX_RESOLUTION_DEPTH,
};
use opage::schema::{ObjectSchema, SchemaOrRef, SchemaType, SchemaTypeSet, SpecDocument};
use opage::types::ObjectDefinition;
use opage::GeneratorError;

fn empty_schema() -> ObjectSchema {
    ObjectSchema {
        title: None,
        description: None,
        schema_type: None,
        has_const: false,
        any_of: vec![],
        one_of: vec![],
        all_of: vec![],
        properties: vec![],
        required: vec![],
        items: None,
        example: None,
    }
}

fn typed(t: SchemaType) -> ObjectSchema {
    ObjectSchema { schema_type: Some(SchemaTypeSet::Single(t)), ..empty_schema() }
}

fn object_with(properties: Vec<(&str, SchemaOrRef)>) -> ObjectSchema {
    ObjectSchema {
        properties: properties.into_iter().map(|(n, s)| (n.to_string(), s)).collect(),
        ..typed(SchemaType::Object)
    }
}

fn inline(s: ObjectSchema) -> SchemaOrRef {
    SchemaOrRef::Object(Box::new(s))
}

fn reference(name: &str) -> SchemaOrRef {
    SchemaOrRef::Ref(format!("#/components/schemas/{}", name))
}

fn document(schemas: Vec<(&str, ObjectSchema)>) -> SpecDocument {
    SpecDocument {
        schemas: schemas.into_iter().map(|(n, s)| (n.to_string(), inline(s))).collect(),
        paths: vec![],
    }
}

fn keys(db: &opage::database::ObjectDatabase) -> Vec<String> {
    let mut keys: Vec<String> = db.iter().map(|e| e.key().clone()).collect();
    keys.sort();
    keys
}

fn property_count(db: &opage::database::ObjectDatabase, key: &str) -> usize {
    let entry = db.get(key).unwrap();
    let count = match entry.value() {
        ObjectDefinition::Struct(s) => s.properties.len(),
        _ => panic!("not a struct"),
    };
    count
}

#[test]
fn same_reference_twice_registers_one_object() {
    let pet = object_with(vec![("name", inline(typed(SchemaType::String)))]);
    let owner = object_with(vec![("first", reference("Pet")), ("second", reference("Pet"))]);
    let doc = document(vec![("Owner", owner), ("Pet", pet)]);
    let mut db = new_object_database();
    let report = generate_components(&doc, &Config::new(), &mut db);
    assert_eq!(report.failures.len(), 0);
    assert_eq!(keys(&db), vec!["models::Owner", "models::Pet"]);
    match db.get("models::Owner").unwrap().value() {
        ObjectDefinition::Struct(s) => {
            assert_eq!(s.properties.len(), 2);
            assert_eq!(s.properties[0].property_type, s.properties[1].property_type);
            assert_eq!(s.properties[0].property_type, "models::Pet");
        }
        _ => panic!("not a struct"),
    };
}

#[test]
fn repeated_lookup_returns_stored_definition() {
    let doc = document(vec![]);
    let mut db = new_object_database();
    let schema = object_with(vec![("id", inline(typed(SchemaType::Integer)))]);
    let path = vec!["#".to_string(), "components".to_string(), "schemas".to_string()];
    let first = get_or_create_object(&doc, &mut db, path.clone(), "Item", &schema, &Config::new().name_mapping, MAX_RESOLUTION_DEPTH).unwrap();
    let second = get_or_create_object(&doc, &mut db, path, "Item", &empty_schema(), &Config::new().name_mapping, MAX_RESOLUTION_DEPTH).unwrap();
    assert_eq!(db.len(), 1);
    match (first, second) {
        (ObjectDefinition::Struct(a), ObjectDefinition::Struct(b)) => {
            assert_eq!(a.name, "Item");
            assert_eq!(a.package, "models");
            assert_eq!(a.name, b.name);
            assert_eq!(a.properties.len(), 1);
            assert_eq!(b.properties.len(), 1);
        }
        _ => panic!("not structs"),
    }
}

#[test]
fn mutually_referencing_schemas_terminate() {
    let a = object_with(vec![("b", reference("B"))]);
    let b = object_with(vec![("a", reference("A"))]);
    let doc = document(vec![("A", a), ("B", b)]);
    let mut db = new_object_database();
    generate_components(&doc, &Config::new(), &mut db);
    assert_eq!(keys(&db), vec!["models::A", "models::B"]);
    assert_eq!(property_count(&db, "models::A"), 1);
    assert_eq!(property_count(&db, "models::B"), 1);
}

#[test]
fn self_referencing_schema_terminates() {
    let node = object_with(vec![("next", reference("Node")), ("value", inline(typed(SchemaType::Integer)))]);
    let doc = document(vec![("Node", node)]);
    let mut db = new_object_database();
    generate_components(&doc, &Config::new(), &mut db);
    assert_eq!(keys(&db), vec!["models::Node"]);
    assert_eq!(property_count(&db, "models::Node"), 2);
}

#[test]
fn union_with_malformed_branch_keeps_the_others() {
    let pet = object_with(vec![("name", inline(typed(SchemaType::String)))]);
    let malformed = typed(SchemaType::Array);
    let union = ObjectSchema {
        any_of: vec![reference("Pet"), inline(typed(SchemaType::Integer)), inline(malformed)],
        ..empty_schema()
    };
    let doc = document(vec![("Pet", pet), ("Choice", union)]);
    let mut db = new_object_database();
    let report = generate_components(&doc, &Config::new(), &mut db);
    assert_eq!(report.failures.len(), 0);
    match db.get("models::Choice").unwrap().value() {
        ObjectDefinition::Enum(e) => {
            assert_eq!(e.values.len(), 2);
            let names: Vec<&str> = e.values.iter().map(|v| v.name.as_str()).collect();
            assert!(names.contains(&"models::IntegerValue"));
        }
        _ => panic!("not an enum"),
    };
}

#[test]
fn one_of_builds_an_enum() {
    let union = ObjectSchema {
        one_of: vec![inline(typed(SchemaType::String)), inline(typed(SchemaType::Boolean))],
        ..empty_schema()
    };
    let doc = document(vec![("Either", union)]);
    let mut db = new_object_database();
    generate_components(&doc, &Config::new(), &mut db);
    match db.get("models::Either").unwrap().value() {
        ObjectDefinition::Enum(e) => assert_eq!(e.values.len(), 2),
        _ => panic!("not an enum"),
    };
}

#[test]
fn empty_schema_is_rejected_and_not_registered() {
    let doc = document(vec![("Empty", empty_schema())]);
    let mut db = new_object_database();
    let report = generate_components(&doc, &Config::new(), &mut db);
    assert_eq!(db.len(), 0);
    assert_eq!(report.failures.len(), 1);
    assert!(matches!(report.failures[0].1, GeneratorError::InvalidValueError(_)));

    let mut db = new_object_database();
    let path = vec!["#".to_string()];
    let err = get_or_create_object(&doc, &mut db, path, "Empty", &empty_schema(), &Config::new().name_mapping, MAX_RESOLUTION_DEPTH).unwrap_err();
    assert!(matches!(err, GeneratorError::InvalidValueError(_)));
    assert_eq!(db.len(), 0);
}

#[test]
fn scalar_types_map_to_builtins() {
    let doc = document(vec![]);
    let mut db = new_object_database();
    let m = Config::new().name_mapping;
    let cases = [
        (SchemaType::Boolean, "bool"),
        (SchemaType::String, "String"),
        (SchemaType::Number, "f64"),
        (SchemaType::Integer, "i32"),
    ];
    for (t, expected) in cases {
        let td = get_type_from_schema(&doc, &mut db, vec![], &typed(t), Some("x"), &m, MAX_RESOLUTION_DEPTH).unwrap();
        assert_eq!(td.name, expected);
        assert!(td.module.is_none());
    }
    let untyped = get_type_from_schema(&doc, &mut db, vec![], &empty_schema(), Some("x"), &m, MAX_RESOLUTION_DEPTH).unwrap();
    assert_eq!(untyped.name, "String");
    assert_eq!(db.len(), 0);
}

#[test]
fn arrays_wrap_item_type_and_need_items() {
    let doc = document(vec![]);
    let mut db = new_object_database();
    let m = Config::new().name_mapping;
    let array = ObjectSchema {
        items: Some(Box::new(inline(typed(SchemaType::Integer)))),
        ..typed(SchemaType::Array)
    };
    let td = get_type_from_schema(&doc, &mut db, vec![], &array, Some("xs"), &m, MAX_RESOLUTION_DEPTH).unwrap();
    assert_eq!(td.name, "Vec<i32>");
    let err = get_type_from_schema(&doc, &mut db, vec![], &typed(SchemaType::Array), Some("xs"), &m, MAX_RESOLUTION_DEPTH).unwrap_err();
    assert!(matches!(err, GeneratorError::UnsupportedError(_)));
}

#[test]
fn multiple_types_are_unsupported() {
    let doc = document(vec![]);
    let mut db = new_object_database();
    let m = Config::new().name_mapping;
    let multi = ObjectSchema {
        schema_type: Some(SchemaTypeSet::Multiple(vec![SchemaType::String, SchemaType::Null])),
        ..empty_schema()
    };
    let err = get_type_from_schema(&doc, &mut db, vec![], &multi, Some("x"), &m, MAX_RESOLUTION_DEPTH).unwrap_err();
    assert!(matches!(err, GeneratorError::UnsupportedError(_)));
}

#[test]
fn title_names_the_component() {
    let titled = ObjectSchema {
        title: Some("ValidName".to_string()),
        ..object_with(vec![("id", inline(typed(SchemaType::Integer)))])
    };
    let doc = document(vec![("component", titled)]);
    let mut db = new_object_database();
    generate_components(&doc, &Config::new(), &mut db);
    assert_eq!(keys(&db), vec!["models::ValidName"]);
}

#[test]
fn ignored_components_are_skipped() {
    let doc = document(vec![("Pet", object_with(vec![("id", inline(typed(SchemaType::Integer)))]))]);
    let mut config = Config::new();
    config.ignore.components.push("Pet".to_string());
    let mut db = new_object_database();
    let report = generate_components(&doc, &config, &mut db);
    assert_eq!(db.len(), 0);
    assert_eq!(report.generated, 0);
}

#[test]
fn unknown_reference_fails_the_property_only() {
    let owner = object_with(vec![("pet", reference("Missing")), ("id", inline(typed(SchemaType::Integer)))]);
    let doc = document(vec![("Owner", owner)]);
    let mut db = new_object_database();
    generate_components(&doc, &Config::new(), &mut db);
    assert_eq!(property_count(&db, "models::Owner"), 1);
}

#[test]
fn second_run_skips_registered_components() {
    let doc = document(vec![("Pet", object_with(vec![("id", inline(typed(SchemaType::Integer)))]))]);
    let mut db = new_object_database();
    let first = generate_components(&doc, &Config::new(), &mut db);
    assert_eq!((first.generated, first.skipped, first.failures.len()), (1, 0, 0));
    let second = generate_components(&doc, &Config::new(), &mut db);
    assert_eq!((second.generated, second.skipped, second.failures.len()), (0, 1, 0));
    assert_eq!(db.len(), 1);
}

#[test]
fn failed_resolution_leaves_no_placeholder() {
    let doc = document(vec![]);
    let mut db = new_object_database();
    let multi = ObjectSchema {
        schema_type: Some(SchemaTypeSet::Multiple(vec![SchemaType::String, SchemaType::Integer])),
        ..empty_schema()
    };
    let path = vec!["#".to_string()];
    let err = get_or_create_object(&doc, &mut db, path, "Both", &multi, &Config::new().name_mapping, MAX_RESOLUTION_DEPTH).unwrap_err();
    assert!(matches!(err, GeneratorError::UnsupportedError(_)));
    assert_eq!(db.len(), 0);
}

#[test]
fn references_take_the_target_name() {
    let doc = document(vec![("Pet", object_with(vec![]))]);
    let m = Config::new().name_mapping;
    let (path, name, _, _) = get_object_or_ref_struct_name(&doc, &vec!["x".to_string()], &m, &reference("Pet")).unwrap();
    assert_eq!(path, vec!["#", "components", "schemas"]);
    assert_eq!(name, "models::Pet");
    let (_, name, _, _) = get_object_or_ref_struct_name(&doc, &vec![], &m, &inline(typed(SchemaType::Boolean))).unwrap();
    assert_eq!(name, "models::Boolean");
    assert!(get_object_or_ref_struct_name(&doc, &vec![], &m, &reference("Nope")).is_err());
    assert!(get_object_or_ref_struct_name(&doc, &vec![], &m, &inline(empty_schema())).is_err());
}

#[test]
fn anonymous_union_branch_is_unsupported() {
    let union = ObjectSchema { any_of: vec![inline(empty_schema()), inline(typed(SchemaType::String))], ..empty_schema() };
    let doc = document(vec![]);
    let mut db = new_object_database();
    let err = opage::resolver::generate_enum_from_any(&doc, &mut db, vec![], "U", &union, &Config::new().name_mapping, MAX_RESOLUTION_DEPTH)
        .unwrap_err();
    assert!(matches!(err, GeneratorError::UnsupportedError(_)));
}

#[test]
fn short_reference_path_is_a_resolution_error() {
    let err = opage::schema::get_base_path_to_ref("#/components/Pet").unwrap_err();
    assert!(matches!(err, GeneratorError::ResolveError(_)));
    assert_eq!(opage::schema::get_base_path_to_ref("#/components/schemas/Pet").unwrap(), vec!["#", "components", "schemas"]);
}

#[test]
fn cycles_report_no_failure() {
    let a = object_with(vec![("b", reference("B"))]);
    let b = object_with(vec![("a", reference("A"))]);
    let doc = document(vec![("A", a), ("B", b)]);
    let mut db = new_object_database();
    let report = generate_components(&doc, &Config::new(), &mut db);
    assert_eq!(report.failures.len(), 0);
    assert_eq!(report.generated + report.skipped, 2);
}

#[test]
fn reference_chains_are_followed() {
    let doc = SpecDocument {
        schemas: vec![
            ("Alias".to_string(), reference("Pet")),
            ("Pet".to_string(), inline(object_with(vec![("id", inline(typed(SchemaType::Integer)))]))),
            ("Loop".to_string(), reference("Loop")),
        ],
        paths: vec![],
    };
    let pet = opage::schema::resolve_ref(&doc, "#/components/schemas/Alias").unwrap();
    assert_eq!(pet.properties.len(), 1);
    let err = opage::schema::resolve_ref(&doc, "#/components/schemas/Loop").unwrap_err();
    assert!(matches!(err, GeneratorError::ResolveError(_)));
}
